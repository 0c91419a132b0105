//! Glob patterns and pattern sets, as the `globset` crate provides them.
//!
//! Parsing and matching are done by `globset`; nothing in this module is
//! proved. The contracts below state what the rest of the library relies on.
//! A pattern is always parsed with `globset`'s default options, so what a
//! pattern means is fixed by its text (for the platform the crate is built
//! for: `globset` reads `\` as a separator on Windows and as an escape
//! elsewhere).
//!
//! `globset` does not return on every input, and the library keeps away from
//! the two places where it does not:
//!
//! - A glob is turned into a regular expression, cloned and dropped by
//!   recursion over its nested alternatives, `{..{..}..}`. A pattern that
//!   nests some thousand of them exhausts the stack. The parser opens an
//!   alternative at no other character than `{`, and closes one at every `}`
//!   that it meets outside a character class and not behind a backslash.
//!   [`nesting`] counts by these two facts, and is at least the depth that
//!   the parser reaches. The library hands over patterns that nest at most
//!   [`MAX_NESTING`] deep. A glob that nests more than 250 deep does not
//!   compile into a set in any case.
//! - A set unwraps the construction of its literal matchers by the
//!   `aho-corasick` crate, which fails where one of its tables outgrows the
//!   31 bits of its indices. A matcher for `n` literals of `b` bytes in all
//!   has at most `b + n` states beside a few fixed ones, and holds for each
//!   state at most `n` matches, its largest table. Each literal is part of
//!   one pattern, with at most one byte added. The library hands over sets
//!   for which `n * (b + n + 8)` is at most [`MAX_TABLE_ENTRIES`].
//!
//! The globs, builders and sets of this module are made by its own functions
//! only: no public function of the library takes one from outside. So every
//! glob was parsed by [`parse_glob`], with the default options, and what is
//! said here of the texts that a builder or a set holds speaks of the texts
//! it was made from.

use vstd::prelude::*;
use vstd::utf8::encode_utf8;

verus! {

/// The greatest depth to which the alternatives of a pattern may nest.
pub const MAX_NESTING: usize = 512;

/// The greatest number of table entries that a set of patterns may need.
pub const MAX_TABLE_ENTRIES: u64 = 0x4000_0000;

/// What a walk along a pattern knows of its braces: how many alternatives
/// may be open, how many were open at most, and whether a `[` was met, after
/// which a `}` may stand in a character class.
pub struct BraceScan {
    pub open: nat,
    pub deepest: nat,
    pub class_met: bool,
}

/// The braces of a pattern. Every `{` counts as opening an alternative. A `}`
/// counts as closing one only where it surely does: with an alternative open,
/// no `[` before it, and no backslash right before it.
pub open spec fn scan_braces(pattern: Seq<char>) -> BraceScan
    decreases pattern.len(),
{
    if pattern.len() == 0 {
        BraceScan { open: 0, deepest: 0, class_met: false }
    } else {
        let before = scan_braces(pattern.drop_last());
        let c = pattern.last();
        let escaped = pattern.len() >= 2 && pattern[pattern.len() - 2] == '\\';
        if c == '{' {
            BraceScan {
                open: before.open + 1,
                deepest: if before.open + 1 > before.deepest {
                    before.open + 1
                } else {
                    before.deepest
                },
                class_met: before.class_met,
            }
        } else if c == '}' && before.open > 0 && !before.class_met && !escaped {
            BraceScan {
                open: (before.open - 1) as nat,
                deepest: before.deepest,
                class_met: before.class_met,
            }
        } else if c == '[' {
            BraceScan { open: before.open, deepest: before.deepest, class_met: true }
        } else {
            before
        }
    }
}

/// A depth that the alternatives of a pattern do not exceed.
pub open spec fn nesting(pattern: Seq<char>) -> nat {
    scan_braces(pattern).deepest
}

/// The number of bytes of the patterns, taken together.
pub open spec fn pattern_bytes(patterns: Seq<Seq<char>>) -> nat
    decreases patterns.len(),
{
    if patterns.len() == 0 {
        0
    } else {
        pattern_bytes(patterns.drop_last()) + encode_utf8(patterns.last()).len()
    }
}

/// The patterns are few and short enough for the tables of one set.
pub open spec fn fits_tables(patterns: Seq<Seq<char>>) -> bool {
    patterns.len() * (pattern_bytes(patterns) + patterns.len() + 8) <= MAX_TABLE_ENTRIES
}

/// `globset::Glob`: a parsed pattern.
#[verifier::external_type_specification]
#[verifier::external_body]
pub struct ExGlob(globset::Glob);

/// `globset::GlobSet`: a compiled set of patterns.
#[verifier::external_type_specification]
#[verifier::external_body]
pub struct ExGlobSet(globset::GlobSet);

/// `globset::GlobSetBuilder`: the patterns collected for a set.
#[verifier::external_type_specification]
#[verifier::external_body]
pub struct ExGlobSetBuilder(globset::GlobSetBuilder);

/// `globset::Error`: why a pattern or a set was refused.
#[verifier::external_type_specification]
#[verifier::external_body]
pub struct ExGlobError(globset::Error);

/// The text a glob was parsed from.
pub uninterp spec fn glob_pattern(glob: globset::Glob) -> Seq<char>;

/// The texts of the globs added to a builder, in the order of addition.
pub uninterp spec fn builder_patterns(builder: globset::GlobSetBuilder) -> Seq<Seq<char>>;

/// The texts of the globs a set was built from, in the order of addition.
pub uninterp spec fn glob_set_patterns(set: globset::GlobSet) -> Seq<Seq<char>>;

/// Whether `globset` accepts `pattern` as a glob.
pub uninterp spec fn glob_valid(pattern: Seq<char>) -> bool;

/// Whether `globset` can compile the globs with these texts into one set.
pub uninterp spec fn glob_set_compiles(patterns: Seq<Seq<char>>) -> bool;

/// Whether the glob with the text `pattern` matches `path`.
pub uninterp spec fn glob_matches(pattern: Seq<char>, path: Seq<char>) -> bool;

/// Some glob among `patterns` matches `path`.
pub open spec fn any_glob_matches(patterns: Seq<Seq<char>>, path: Seq<char>) -> bool {
    exists|i: int| 0 <= i < patterns.len() && glob_matches(#[trigger] patterns[i], path)
}

/// A character that stands for itself in a glob, on every platform.
pub open spec fn is_plain_char(c: char) -> bool {
    ('a' <= c && c <= 'z') || ('0' <= c && c <= '9') || c == '-'
}

/// A pattern of the form `*word*`, where `word` is a short, non-empty run of
/// plain characters. It holds no brace.
pub open spec fn is_infix_pattern(pattern: Seq<char>) -> bool {
    &&& 3 <= pattern.len() <= 64
    &&& pattern[0] == '*'
    &&& pattern[pattern.len() - 1] == '*'
    &&& forall|i: int| 1 <= i < pattern.len() - 1 ==> is_plain_char(#[trigger] pattern[i])
}

/// The word between the two stars of an infix pattern.
pub open spec fn infix_word(pattern: Seq<char>) -> Seq<char> {
    pattern.subrange(1, pattern.len() - 1)
}

/// `word` stands in `text` at position `k`.
pub open spec fn occurs_at(text: Seq<char>, word: Seq<char>, k: int) -> bool {
    0 <= k && k + word.len() <= text.len() && text.subrange(k, k + word.len()) == word
}

/// `word` stands somewhere in `text`.
pub open spec fn occurs_in(text: Seq<char>, word: Seq<char>) -> bool {
    exists|k: int| occurs_at(text, word, k)
}

/// A pattern without the character `{` nests no alternatives.
pub proof fn lemma_no_brace(pattern: Seq<char>)
    requires
        forall|i: int| 0 <= i < pattern.len() ==> pattern[i] != '{',
    ensures
        scan_braces(pattern).open == 0,
        nesting(pattern) == 0,
    decreases pattern.len(),
{
    if pattern.len() > 0 {
        lemma_no_brace(pattern.drop_last());
    }
}

/// `globset::Glob::new`, which parses with the default options. It succeeds
/// exactly on the patterns that `globset` accepts, and the glob it returns
/// stands for the text it was given. An infix pattern holds only stars and
/// literal characters, which the parser always accepts. Patterns that may
/// nest their alternatives more than [`MAX_NESTING`] deep are left out: the
/// recursion over a glob is as deep as the parser found them nested.
#[verifier::external_body]
pub(crate) fn parse_glob(pattern: &str) -> (parsed: Result<globset::Glob, globset::Error>)
    requires
        nesting(pattern@) <= MAX_NESTING,
    ensures
        parsed is Ok <==> glob_valid(pattern@),
        parsed matches Ok(glob) ==> glob_pattern(glob) == pattern@,
        is_infix_pattern(pattern@) ==> parsed is Ok,
{
    globset::Glob::new(pattern)
}

/// `globset::Glob::compile_matcher`, then `globset::GlobMatcher::is_match`,
/// on a glob that [`parse_glob`] made. With the default options `*` matches
/// any run of characters, separators included, so an infix pattern matches
/// exactly the paths in which its word occurs. Other patterns are left out:
/// the library matches them through a set.
#[verifier::external_body]
pub(crate) fn glob_is_match(glob: &globset::Glob, path: &str) -> (matched: bool)
    requires
        is_infix_pattern(glob_pattern(*glob)),
    ensures
        matched == occurs_in(path@, infix_word(glob_pattern(*glob))),
{
    glob.compile_matcher().is_match(path)
}

/// `globset::GlobSetBuilder::new`: a builder without globs.
#[verifier::external_body]
pub(crate) fn new_builder() -> (builder: globset::GlobSetBuilder)
    ensures
        builder_patterns(builder) == Seq::<Seq<char>>::empty(),
{
    globset::GlobSetBuilder::new()
}

/// `globset::GlobSetBuilder::add`: the glob is appended to those collected.
#[verifier::external_body]
pub(crate) fn builder_add(builder: &mut globset::GlobSetBuilder, glob: globset::Glob)
    ensures
        builder_patterns(*final(builder)) == builder_patterns(*old(builder)).push(
            glob_pattern(glob),
        ),
{
    builder.add(glob);
}

/// `globset::GlobSetBuilder::build`, on globs that [`parse_glob`] made. It
/// fails only where the globs cannot be compiled into one matcher, and never
/// without globs; the set it returns was made from the globs collected. Sets
/// that may outgrow the tables of the literal matchers are left out, and so
/// are globs whose alternatives may nest too deep for the recursion.
#[verifier::external_body]
pub(crate) fn builder_build(builder: &globset::GlobSetBuilder) -> (built: Result<
    globset::GlobSet,
    globset::Error,
>)
    requires
        fits_tables(builder_patterns(*builder)),
        forall|i: int|
            0 <= i < builder_patterns(*builder).len() ==> nesting(
                #[trigger] builder_patterns(*builder)[i],
            ) <= MAX_NESTING,
    ensures
        built is Ok <==> glob_set_compiles(builder_patterns(*builder)),
        built matches Ok(set) ==> glob_set_patterns(set) == builder_patterns(*builder),
        builder_patterns(*builder).len() == 0 ==> built is Ok,
{
    builder.build()
}

/// `globset::GlobSet::empty`: the set without globs.
#[verifier::external_body]
pub(crate) fn empty_glob_set() -> (set: globset::GlobSet)
    ensures
        glob_set_patterns(set) == Seq::<Seq<char>>::empty(),
{
    globset::GlobSet::empty()
}

/// `globset::GlobSet::is_empty`: whether the set holds no glob.
#[verifier::external_body]
pub(crate) fn glob_set_is_empty(set: &globset::GlobSet) -> (empty: bool)
    ensures
        empty == (glob_set_patterns(*set).len() == 0),
{
    set.is_empty()
}

/// `globset::GlobSet::is_match`: whether any glob of the set matches the
/// path.
#[verifier::external_body]
pub(crate) fn glob_set_is_match(set: &globset::GlobSet, path: &str) -> (matched: bool)
    ensures
        matched == (exists|i: int|
            0 <= i < glob_set_patterns(*set).len() && glob_matches(
                #[trigger] glob_set_patterns(*set)[i],
                path@,
            )),
{
    set.is_match(path)
}

} // verus!
