//! Platform classification of a relative path.
//!
//! A path that matches the glob `*windows-*` is tagged for Windows; failing
//! that, one that matches `*linux-*` is tagged for Linux. The stars match
//! across separators, so the whole path is searched for the word, not each
//! segment by itself.

use vstd::prelude::*;
use crate::globs::{
    glob_is_match, infix_word, is_infix_pattern, lemma_no_brace, occurs_in, parse_glob,
};
use crate::manifest::ManifestPlatform;

verus! {

/// The word that marks a path for Windows: `windows-`.
pub open spec fn windows_word() -> Seq<char> {
    seq!['w', 'i', 'n', 'd', 'o', 'w', 's', '-']
}

/// The word that marks a path for Linux: `linux-`.
pub open spec fn linux_word() -> Seq<char> {
    seq!['l', 'i', 'n', 'u', 'x', '-']
}

/// The tag that follows from the two matches: the Windows rule is tried
/// first.
pub open spec fn platform_for(windows: bool, linux: bool) -> Option<ManifestPlatform> {
    if windows {
        Some(ManifestPlatform::Windows)
    } else if linux {
        Some(ManifestPlatform::Linux)
    } else {
        None
    }
}

/// The platform tag of a path.
pub open spec fn platform_of(path: Seq<char>) -> Option<ManifestPlatform> {
    platform_for(occurs_in(path, windows_word()), occurs_in(path, linux_word()))
}

/// The tag for a path of which it is known whether it matches the Windows
/// pattern and whether it matches the Linux pattern.
pub fn choose_platform(windows: bool, linux: bool) -> (platform: Option<ManifestPlatform>)
    ensures
        platform == platform_for(windows, linux),
{
    if windows {
        Some(ManifestPlatform::Windows)
    } else if linux {
        Some(ManifestPlatform::Linux)
    } else {
        None
    }
}

/// Whether `path` matches the infix pattern `pattern`.
fn matches_infix(pattern: &str, path: &str) -> (matched: bool)
    requires
        is_infix_pattern(pattern@),
    ensures
        matched == occurs_in(path@, infix_word(pattern@)),
{
    proof {
        lemma_no_brace(pattern@);
    }
    let glob = parse_glob(pattern).unwrap();
    glob_is_match(&glob, path)
}

/// The platform tag of a relative path.
pub fn classify(path: &str) -> (platform: Option<ManifestPlatform>)
    ensures
        platform == platform_of(path@),
{
    proof {
        reveal_strlit("*windows-*");
        reveal_strlit("*linux-*");
        assert(infix_word("*windows-*"@) =~= windows_word());
        assert(infix_word("*linux-*"@) =~= linux_word());
    }
    let windows = matches_infix("*windows-*", path);
    let linux = !windows && matches_infix("*linux-*", path);
    choose_platform(windows, linux)
}

/// A path in which `windows-` occurs and `linux-` does not is tagged for
/// Windows; one in which `linux-` occurs and `windows-` does not is tagged
/// for Linux; one in which neither occurs has no tag.
pub proof fn lemma_platform_by_word(path: Seq<char>)
    ensures
        occurs_in(path, windows_word()) && !occurs_in(path, linux_word()) ==> platform_of(path)
            == Some(ManifestPlatform::Windows),
        occurs_in(path, linux_word()) && !occurs_in(path, windows_word()) ==> platform_of(path)
            == Some(ManifestPlatform::Linux),
        !occurs_in(path, windows_word()) && !occurs_in(path, linux_word()) ==> platform_of(path)
            is None,
{
}

} // verus!
