//! Configuration of a generator: the filter patterns, the version label and
//! the dependency.

use vstd::prelude::*;
use crate::generator::{Generator, GeneratorView};
use crate::globs::{
    builder_add, builder_build, builder_patterns, fits_tables, glob_set_compiles,
    glob_set_patterns, glob_valid, nesting, new_builder, parse_glob, pattern_bytes, scan_braces,
    MAX_NESTING, MAX_TABLE_ENTRIES,
};
use crate::manifest::{label_view, strings_view};

verus! {

/// Collects the settings of a [`Generator`].
pub struct GeneratorBuilder {
    whitelist: Vec<String>,
    blacklist: Vec<String>,
    version: String,
    depends_on: Option<String>,
    separator: char,
    /// The sets compiled from the whitelist and the blacklist, where they
    /// were compiled already.
    compiled: Option<(globset::GlobSet, globset::GlobSet)>,
}

/// Mathematical value of a [`GeneratorBuilder`].
pub struct BuilderView {
    pub whitelist: Seq<Seq<char>>,
    pub blacklist: Seq<Seq<char>>,
    pub version: Seq<char>,
    pub depends_on: Option<Seq<char>>,
    pub separator: char,
}

/// Why a generator cannot be built from the patterns given.
#[derive(Clone, Debug, PartialEq, Eq)]
pub enum BuildError {
    /// The patterns of a list are too many or too long for the tables of one
    /// set.
    SetTooLarge,
    /// The alternatives of the pattern may nest more than [`MAX_NESTING`]
    /// deep.
    NestedTooDeep(String),
    /// The pattern is not a valid glob.
    InvalidPattern(String),
    /// The patterns are valid globs, but cannot be compiled into one set.
    CannotCompile,
}

/// Mathematical value of a [`BuildError`].
pub enum BuildFailure {
    SetTooLarge,
    NestedTooDeep(Seq<char>),
    InvalidPattern(Seq<char>),
    CannotCompile,
}

impl View for BuildError {
    type V = BuildFailure;

    open spec fn view(&self) -> BuildFailure {
        match self {
            BuildError::SetTooLarge => BuildFailure::SetTooLarge,
            BuildError::NestedTooDeep(pattern) => BuildFailure::NestedTooDeep(pattern@),
            BuildError::InvalidPattern(pattern) => BuildFailure::InvalidPattern(pattern@),
            BuildError::CannotCompile => BuildFailure::CannotCompile,
        }
    }
}

/// The pattern can be handed to the parser, and is a valid glob.
pub open spec fn acceptable(pattern: Seq<char>) -> bool {
    nesting(pattern) <= MAX_NESTING && glob_valid(pattern)
}

/// What is wrong with a pattern that is not acceptable.
pub open spec fn refusal(pattern: Seq<char>) -> BuildFailure {
    if nesting(pattern) > MAX_NESTING {
        BuildFailure::NestedTooDeep(pattern)
    } else {
        BuildFailure::InvalidPattern(pattern)
    }
}

/// The first `n` patterns are acceptable.
pub open spec fn acceptable_until(patterns: Seq<Seq<char>>, n: int) -> bool {
    forall|j: int| 0 <= j < n ==> acceptable(#[trigger] patterns[j])
}

/// `i` is the place of the first pattern that is not acceptable.
pub open spec fn first_refused_at(patterns: Seq<Seq<char>>, i: int) -> bool {
    0 <= i < patterns.len() && !acceptable(patterns[i]) && acceptable_until(patterns, i)
}

/// Why no set can be built from the patterns: they are too large; or else
/// what is wrong with the first pattern that is not acceptable; or else, that
/// they do not compile. `None` where a set can be built, as it can from no
/// patterns.
pub open spec fn pattern_failure(patterns: Seq<Seq<char>>) -> Option<BuildFailure> {
    if patterns.len() == 0 {
        None
    } else if !fits_tables(patterns) {
        Some(BuildFailure::SetTooLarge)
    } else if exists|i: int| first_refused_at(patterns, i) {
        Some(refusal(patterns[choose|i: int| first_refused_at(patterns, i)]))
    } else if !glob_set_compiles(patterns) {
        Some(BuildFailure::CannotCompile)
    } else {
        None
    }
}

impl BuilderView {
    /// Why no generator can be built: what is wrong with the whitelist, or
    /// else with the blacklist. `None` where one can be built.
    pub open spec fn failure(self) -> Option<BuildFailure> {
        if pattern_failure(self.whitelist) is Some {
            pattern_failure(self.whitelist)
        } else {
            pattern_failure(self.blacklist)
        }
    }

    /// The generator built from these settings.
    pub open spec fn generator(self) -> GeneratorView {
        GeneratorView {
            whitelist: self.whitelist,
            blacklist: self.blacklist,
            version: self.version,
            depends_on: self.depends_on,
            separator: self.separator,
        }
    }
}

impl View for GeneratorBuilder {
    type V = BuilderView;

    closed spec fn view(&self) -> BuilderView {
        BuilderView {
            whitelist: strings_view(self.whitelist@),
            blacklist: strings_view(self.blacklist@),
            version: self.version@,
            depends_on: label_view(self.depends_on),
            separator: self.separator,
        }
    }
}

/// The patterns up to `k` have no more bytes than all of them.
proof fn lemma_pattern_bytes_take(patterns: Seq<Seq<char>>, k: int)
    requires
        0 <= k <= patterns.len(),
    ensures
        pattern_bytes(patterns.take(k)) <= pattern_bytes(patterns),
    decreases patterns.len(),
{
    if k == patterns.len() {
        assert(patterns.take(k) =~= patterns);
    } else {
        lemma_pattern_bytes_take(patterns.drop_last(), k);
        assert(patterns.drop_last().take(k) =~= patterns.take(k));
    }
}

/// Whether the patterns are few and short enough for the tables of one set.
fn fits_in_tables(patterns: &Vec<String>) -> (fits: bool)
    ensures
        fits == fits_tables(strings_view(patterns@)),
{
    let ghost texts = strings_view(patterns@);
    let n = patterns.len();
    if n as u64 > MAX_TABLE_ENTRIES {
        assert(n * (pattern_bytes(texts) + n + 8) >= n) by (nonlinear_arith);
        return false;
    }
    let mut total: u64 = 0;
    let mut i: usize = 0;
    assert(texts.take(0) =~= Seq::empty());
    while i < n
        invariant
            i <= n == patterns.len(),
            n <= MAX_TABLE_ENTRIES,
            texts == strings_view(patterns@),
            total == pattern_bytes(texts.take(i as int)),
            total <= MAX_TABLE_ENTRIES,
        decreases n - i,
    {
        let len = patterns[i].as_str().as_bytes().len();
        proof {
            assert(texts.take(i + 1).drop_last() =~= texts.take(i as int));
            assert(texts.take(i + 1).last() == patterns[i as int]@);
            lemma_pattern_bytes_take(texts, i + 1);
        }
        if len as u64 > MAX_TABLE_ENTRIES - total {
            assert(n * (pattern_bytes(texts) + n + 8) > MAX_TABLE_ENTRIES) by (nonlinear_arith)
                requires
                    n >= 1,
                    pattern_bytes(texts) > MAX_TABLE_ENTRIES,
            ;
            return false;
        }
        total = total + len as u64;
        i += 1;
    }
    assert(texts.take(n as int) =~= texts);
    let each = total + n as u64 + 8;
    assert(n * each <= 0x4000_0000 * 0x8000_0008) by (nonlinear_arith)
        requires
            n <= 0x4000_0000,
            each <= 0x8000_0008,
    ;
    n as u64 * each <= MAX_TABLE_ENTRIES
}

/// Whether the alternatives of the pattern nest at most [`MAX_NESTING`]
/// deep.
fn nests_within_limit(pattern: &str) -> (within: bool)
    ensures
        within == (nesting(pattern@) <= MAX_NESTING),
{
    let mut open: usize = 0;
    let mut class_met = false;
    let mut escaped = false;
    let mut beyond = false;
    for c in it: pattern.chars()
        invariant
            it.seq() == pattern@,
            escaped == (it.index() >= 1 && pattern@[it.index() - 1] == '\\'),
            beyond ==> nesting(pattern@.take(it.index() as int)) > MAX_NESTING,
            !beyond ==> nesting(pattern@.take(it.index() as int)) <= MAX_NESTING,
            !beyond ==> open == scan_braces(pattern@.take(it.index() as int)).open,
            !beyond ==> class_met == scan_braces(pattern@.take(it.index() as int)).class_met,
            !beyond ==> open <= nesting(pattern@.take(it.index() as int)),
    {
        proof {
            let prefix = pattern@.take(it.index() + 1);
            assert(prefix.drop_last() =~= pattern@.take(it.index() as int));
            assert(prefix.last() == c);
            assert(prefix.len() >= 2 ==> prefix[prefix.len() - 2] == pattern@[it.index() - 1]);
        }
        if !beyond {
            if c == '{' {
                if open == MAX_NESTING {
                    beyond = true;
                } else {
                    open += 1;
                }
            } else if c == '}' && open > 0 && !class_met && !escaped {
                open -= 1;
            } else if c == '[' {
                class_met = true;
            }
        }
        escaped = c == '\\';
    }
    assert(pattern@.take(pattern@.len() as int) =~= pattern@);
    !beyond
}

/// Compiles the patterns into one set, in the order given.
fn compile_patterns(patterns: &Vec<String>) -> (compiled: Result<globset::GlobSet, BuildError>)
    ensures
        match compiled {
            Ok(set) => pattern_failure(strings_view(patterns@)) is None && glob_set_patterns(set)
                == strings_view(patterns@),
            Err(error) => pattern_failure(strings_view(patterns@)) == Some(error@),
        },
{
    let ghost texts = strings_view(patterns@);
    if !fits_in_tables(patterns) {
        assert(texts.len() > 0) by {
            if texts.len() == 0 {
                assert(texts.len() * (pattern_bytes(texts) + texts.len() + 8) == 0)
                    by (nonlinear_arith)
                    requires
                        texts.len() == 0,
                ;
            }
        }
        return Err(BuildError::SetTooLarge);
    }
    let mut builder = new_builder();
    let mut i: usize = 0;
    while i < patterns.len()
        invariant
            i <= patterns.len(),
            texts == strings_view(patterns@),
            fits_tables(texts),
            builder_patterns(builder) == texts.take(i as int),
            acceptable_until(texts, i as int),
        decreases patterns.len() - i,
    {
        let pattern = patterns[i].as_str();
        if !nests_within_limit(pattern) {
            proof {
                assert(first_refused_at(texts, i as int));
                assert(forall|k: int| first_refused_at(texts, k) ==> k == i);
            }
            return Err(BuildError::NestedTooDeep(patterns[i].clone()));
        }
        match parse_glob(pattern) {
            Ok(glob) => builder_add(&mut builder, glob),
            Err(_) => {
                proof {
                    assert(first_refused_at(texts, i as int));
                    assert(forall|k: int| first_refused_at(texts, k) ==> k == i);
                }
                return Err(BuildError::InvalidPattern(patterns[i].clone()));
            },
        }
        i += 1;
    }
    proof {
        assert(texts.take(patterns.len() as int) =~= texts);
        assert(forall|k: int| !first_refused_at(texts, k));
    }
    match builder_build(&builder) {
        Ok(set) => Ok(set),
        Err(_) => Err(BuildError::CannotCompile),
    }
}

impl GeneratorBuilder {
    /// The sets that the builder holds were compiled from its lists.
    #[verifier::type_invariant]
    spec fn compiled_from_lists(self) -> bool {
        self.compiled matches Some(sets) ==> glob_set_patterns(sets.0) == strings_view(
            self.whitelist@,
        ) && glob_set_patterns(sets.1) == strings_view(self.blacklist@)
    }

    /// Sets the whitelist patterns. With none, every path is on the
    /// whitelist.
    pub fn with_whitelist(self, whitelist: Vec<String>) -> (builder: GeneratorBuilder)
        ensures
            builder@ == (BuilderView {
                whitelist: strings_view(whitelist@),
                blacklist: self@.blacklist,
                version: self@.version,
                depends_on: self@.depends_on,
                separator: self@.separator,
            }),
    {
        GeneratorBuilder {
            whitelist,
            blacklist: self.blacklist,
            version: self.version,
            depends_on: self.depends_on,
            separator: self.separator,
            compiled: None,
        }
    }

    /// Sets the blacklist patterns.
    pub fn with_blacklist(self, blacklist: Vec<String>) -> (builder: GeneratorBuilder)
        ensures
            builder@ == (BuilderView {
                whitelist: self@.whitelist,
                blacklist: strings_view(blacklist@),
                version: self@.version,
                depends_on: self@.depends_on,
                separator: self@.separator,
            }),
    {
        GeneratorBuilder {
            whitelist: self.whitelist,
            blacklist,
            version: self.version,
            depends_on: self.depends_on,
            separator: self.separator,
            compiled: None,
        }
    }

    /// Sets the version label of the patch.
    pub fn version(self, version: String) -> (builder: GeneratorBuilder)
        ensures
            builder@ == (BuilderView {
                whitelist: self@.whitelist,
                blacklist: self@.blacklist,
                version: version@,
                depends_on: self@.depends_on,
                separator: self@.separator,
            }),
    {
        GeneratorBuilder {
            whitelist: self.whitelist,
            blacklist: self.blacklist,
            version,
            depends_on: self.depends_on,
            separator: self.separator,
            compiled: None,
        }
    }

    /// Sets the version label on which the patch depends, if any.
    pub fn depends_on(self, depends_on: Option<String>) -> (builder: GeneratorBuilder)
        ensures
            builder@ == (BuilderView {
                whitelist: self@.whitelist,
                blacklist: self@.blacklist,
                version: self@.version,
                depends_on: label_view(depends_on),
                separator: self@.separator,
            }),
    {
        GeneratorBuilder {
            whitelist: self.whitelist,
            blacklist: self.blacklist,
            version: self.version,
            depends_on,
            separator: self.separator,
            compiled: None,
        }
    }

    /// Sets the directory separator of the platform whose paths the
    /// generator is given. Paths are recorded with a forward slash in its
    /// place. Without this setting it is the forward slash.
    pub fn separator(self, separator: char) -> (builder: GeneratorBuilder)
        ensures
            builder@ == (BuilderView {
                whitelist: self@.whitelist,
                blacklist: self@.blacklist,
                version: self@.version,
                depends_on: self@.depends_on,
                separator,
            }),
    {
        GeneratorBuilder {
            whitelist: self.whitelist,
            blacklist: self.blacklist,
            version: self.version,
            depends_on: self.depends_on,
            separator,
            compiled: None,
        }
    }

    /// The generator with these settings. Each list must hold valid globs
    /// only, compile into a set, and stay within what the matcher can take:
    /// see [`GeneratorBuilder::try_build`] for settings not known to be
    /// sound. Settings without patterns are sound.
    pub fn build(self) -> (generator: Generator)
        requires
            self@.failure() is None,
        ensures
            generator@ == self@.generator(),
    {
        proof {
            use_type_invariant(&self);
        }
        let GeneratorBuilder { whitelist, blacklist, version, depends_on, separator, compiled } =
            self;
        let (allowed, denied) = match compiled {
            Some(sets) => sets,
            None => (compile_patterns(&whitelist).unwrap(), compile_patterns(&blacklist).unwrap()),
        };
        Generator::from_parts(allowed, denied, version, depends_on, separator)
    }

    /// The generator with these settings, or what is wrong with the
    /// patterns: the whitelist is examined first, and in each list the
    /// patterns in the order given.
    pub fn try_build(self) -> (built: Result<Generator, BuildError>)
        ensures
            match built {
                Ok(generator) => self@.failure() is None && generator@ == self@.generator(),
                Err(error) => self@.failure() == Some(error@),
            },
    {
        let allowed = match compile_patterns(&self.whitelist) {
            Ok(set) => set,
            Err(error) => return Err(error),
        };
        let denied = match compile_patterns(&self.blacklist) {
            Ok(set) => set,
            Err(error) => return Err(error),
        };
        let ready = GeneratorBuilder {
            whitelist: self.whitelist,
            blacklist: self.blacklist,
            version: self.version,
            depends_on: self.depends_on,
            separator: self.separator,
            compiled: Some((allowed, denied)),
        };
        Ok(ready.build())
    }
}

impl Default for GeneratorBuilder {
    /// Settings without patterns, version label or dependency, for paths
    /// written with forward slashes.
    fn default() -> (builder: GeneratorBuilder)
        ensures
            builder@ == (BuilderView {
                whitelist: Seq::empty(),
                blacklist: Seq::empty(),
                version: Seq::empty(),
                depends_on: None,
                separator: '/',
            }),
    {
        let builder = GeneratorBuilder {
            whitelist: Vec::new(),
            blacklist: Vec::new(),
            version: String::default(),
            depends_on: None,
            separator: '/',
            compiled: None,
        };
        assert(builder@.blacklist =~= Seq::empty());
        builder
    }
}

} // verus!
