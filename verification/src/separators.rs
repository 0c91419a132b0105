//! Directory separators in recorded paths.
//!
//! A manifest records paths with forward slashes, whatever the platform it
//! was generated on. A generator is told the separator of its platform, and
//! replaces it wherever it takes a path in.

use vstd::prelude::*;

verus! {

/// The character that stands for `c` in a recorded path, on a platform whose
/// separator is `separator`.
pub open spec fn normal_char(c: char, separator: char) -> char {
    if c == separator {
        '/'
    } else {
        c
    }
}

/// The path with every `separator` replaced by a forward slash.
pub open spec fn normalized(path: Seq<char>, separator: char) -> Seq<char> {
    path.map_values(|c: char| normal_char(c, separator))
}

/// The paths with every `separator` replaced by a forward slash.
pub open spec fn normalized_all(paths: Seq<Seq<char>>, separator: char) -> Seq<Seq<char>> {
    paths.map_values(|p: Seq<char>| normalized(p, separator))
}

/// A normalized path is as long as the path it was made from, and holds the
/// platform's separator nowhere, unless that is the forward slash. A path
/// without that separator is its own normal form.
pub proof fn lemma_normalized(path: Seq<char>, separator: char)
    ensures
        normalized(path, separator).len() == path.len(),
        separator != '/' ==> forall|i: int|
            0 <= i < path.len() ==> #[trigger] normalized(path, separator)[i] != separator,
        separator == '/' || (forall|i: int| 0 <= i < path.len() ==> path[i] != separator)
            ==> normalized(path, separator) == path,
        normalized(normalized(path, separator), separator) == normalized(path, separator),
{
    assert(normalized(normalized(path, separator), separator) =~= normalized(path, separator));
    if separator == '/' || (forall|i: int| 0 <= i < path.len() ==> path[i] != separator) {
        assert(normalized(path, separator) =~= path);
    }
}

/// `String::push`: the character is appended to the string.
#[verifier::external_body]
fn push_char(text: &mut String, c: char)
    ensures
        final(text)@ == old(text)@.push(c),
{
    text.push(c);
}

/// The path as a manifest records it: with a forward slash in place of every
/// `separator`, the directory separator of the platform.
pub fn normalize_separators(path: &str, separator: char) -> (normal: String)
    ensures
        normal@ == normalized(path@, separator),
{
    let mut normal = String::new();
    for c in it: path.chars()
        invariant
            it.seq() == path@,
            normal@ == normalized(path@.take(it.index() as int), separator),
    {
        push_char(&mut normal, if c == separator { '/' } else { c });
    }
    normal
}

} // verus!
