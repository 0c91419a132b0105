//! The generator: which files of an input tree enter a patch, what is
//! recorded of each, and how the patch is merged into a manifest.

use vstd::prelude::*;
use vstd::seq_lib::*;
use crate::digest::{blake3_hex, content_hash, is_hex_digest};
use crate::globs::{
    any_glob_matches, empty_glob_set, glob_set_is_empty, glob_set_is_match, glob_set_patterns,
};
use crate::manifest::{
    files_view, label_view, meta_of, strings_view, FileView, ManifestFile, ManifestPatches,
    PatchView,
};
use crate::order::{
    distinct_paths, insert_sorted, lemma_sort_by_path, lemma_sort_keeps_distinct, sort_by_path,
    sorted_by_path,
};
use crate::platform::{classify, platform_of};
use crate::separators::{lemma_normalized, normalize_separators, normalized, normalized_all};

pub mod builder;
pub mod run;

pub use builder::{BuildError, BuildFailure, BuilderView, GeneratorBuilder};
pub use run::{
    Action, ActionView, Event, EventView, GenerateError, GenerateFailure, Outcome, RunState,
    RunStateView,
};

verus! {

/// One regular file of the input tree: its path relative to the root, and
/// its bytes.
#[derive(Clone, Debug, PartialEq, Eq)]
pub struct SourceFile {
    pub path: String,
    pub content: Vec<u8>,
}

/// Mathematical value of a [`SourceFile`].
pub struct SourceView {
    pub path: Seq<char>,
    pub content: Seq<u8>,
}

impl View for SourceFile {
    type V = SourceView;

    open spec fn view(&self) -> SourceView {
        SourceView { path: self.path@, content: self.content@ }
    }
}

/// The values of a list of input files.
pub open spec fn sources_view(files: Seq<SourceFile>) -> Seq<SourceView> {
    files.map_values(|f: SourceFile| f@)
}

/// Generates the patch of one version from an input tree.
pub struct Generator {
    whitelist: globset::GlobSet,
    blacklist: globset::GlobSet,
    version: String,
    depends_on: Option<String>,
    separator: char,
}

/// Mathematical value of a [`Generator`]: the texts of its whitelist and
/// blacklist globs, the version label, the label it depends on, and the
/// directory separator of the platform whose paths it is given.
pub struct GeneratorView {
    pub whitelist: Seq<Seq<char>>,
    pub blacklist: Seq<Seq<char>>,
    pub version: Seq<char>,
    pub depends_on: Option<Seq<char>>,
    pub separator: char,
}

impl View for Generator {
    type V = GeneratorView;

    closed spec fn view(&self) -> GeneratorView {
        GeneratorView {
            whitelist: glob_set_patterns(self.whitelist),
            blacklist: glob_set_patterns(self.blacklist),
            version: self.version@,
            depends_on: label_view(self.depends_on),
            separator: self.separator,
        }
    }
}

/// Every record carries a digest of 64 lowercase hexadecimal digits.
pub open spec fn hashes_are_hex(files: Seq<FileView>) -> bool {
    forall|i: int| 0 <= i < files.len() ==> is_hex_digest((#[trigger] files[i]).hash)
}

/// The filter rule on the outcome of the matches: a blacklisted path is left
/// out; with a whitelist configured, so is a path that is not on it.
pub open spec fn included(blacklisted: bool, whitelist_configured: bool, whitelisted: bool) -> bool {
    !blacklisted && (!whitelist_configured || whitelisted)
}

/// What is recorded of an input file.
pub open spec fn record_of(file: SourceView) -> FileView {
    FileView {
        path: file.path,
        hash: blake3_hex(file.content),
        size: file.content.len() as u64,
        meta: meta_of(platform_of(file.path)),
    }
}

impl GeneratorView {
    /// The input file as it is recorded: with forward slashes in place of the
    /// platform's separator.
    pub open spec fn normal_file(self, file: SourceView) -> SourceView {
        SourceView { path: normalized(file.path, self.separator), content: file.content }
    }

    /// The input files as they are recorded, in the order given.
    pub open spec fn normal(self, files: Seq<SourceView>) -> Seq<SourceView> {
        files.map_values(|f: SourceView| self.normal_file(f))
    }

    /// The paths as they are recorded, in the order given.
    pub open spec fn normal_paths(self, paths: Seq<Seq<char>>) -> Seq<Seq<char>> {
        normalized_all(paths, self.separator)
    }

    /// The path passes the filters.
    pub open spec fn accepts(self, path: Seq<char>) -> bool {
        included(
            any_glob_matches(self.blacklist, path),
            self.whitelist.len() > 0,
            any_glob_matches(self.whitelist, path),
        )
    }

    /// The paths that pass the filters, in the order given.
    pub open spec fn selected_paths(self, paths: Seq<Seq<char>>) -> Seq<Seq<char>> {
        paths.filter(|p: Seq<char>| self.accepts(p))
    }

    /// The input files that pass the filters, in the order given.
    pub open spec fn selected(self, files: Seq<SourceView>) -> Seq<SourceView> {
        files.filter(|f: SourceView| self.accepts(f.path))
    }

    /// The records of the input files that pass the filters, in the order
    /// given.
    pub open spec fn records(self, files: Seq<SourceView>) -> Seq<FileView> {
        self.selected(files).map_values(|f: SourceView| record_of(f))
    }

    /// The file list of a patch: the records of the files that pass the
    /// filters, in path order.
    pub open spec fn file_list(self, files: Seq<SourceView>) -> Seq<FileView> {
        sort_by_path(self.records(files))
    }

    /// The patch generated from the input files.
    pub open spec fn patch(self, files: Seq<SourceView>) -> PatchView {
        PatchView {
            version: self.version,
            depends_on: self.depends_on,
            files: self.file_list(files),
        }
    }
}

/// The filter rule: a path that the blacklist matches is left out, whatever
/// the whitelist holds; of the others, all pass an empty whitelist, and a
/// whitelist with patterns lets those pass that it matches.
pub proof fn lemma_filter_rule(generator: GeneratorView, path: Seq<char>)
    ensures
        any_glob_matches(generator.blacklist, path) ==> !generator.accepts(path),
        !any_glob_matches(generator.blacklist, path) && generator.whitelist.len() == 0
            ==> generator.accepts(path),
        !any_glob_matches(generator.blacklist, path) && generator.whitelist.len() > 0 ==> (
        generator.accepts(path) <==> any_glob_matches(generator.whitelist, path)),
        generator.blacklist.len() == 0 ==> !any_glob_matches(generator.blacklist, path),
{
}

/// No two input files carry the same path, as it is with the files of one
/// directory tree.
pub open spec fn distinct_source_paths(files: Seq<SourceView>) -> bool {
    forall|i: int, j: int|
        0 <= i < j < files.len() ==> (#[trigger] files[i]).path != (#[trigger] files[j]).path
}

/// `record` is the record of one of `files` that passes the filters of
/// `generator`.
pub open spec fn records_selected_file(
    generator: GeneratorView,
    files: Seq<SourceView>,
    record: FileView,
) -> bool {
    exists|i: int|
        0 <= i < files.len() && generator.accepts((#[trigger] files[i]).path) && record
            == record_of(files[i])
}

/// The records taken from input files are those of the files that pass the
/// filters, and have different paths where the files have.
proof fn lemma_records(generator: GeneratorView, files: Seq<SourceView>)
    ensures
        forall|record: FileView| #[trigger]
            generator.records(files).contains(record) <==> records_selected_file(
                generator,
                files,
                record,
            ),
        distinct_source_paths(files) ==> distinct_paths(generator.records(files)),
    decreases files.len(),
{
    let keep = |f: SourceView| generator.accepts(f.path);
    let records = generator.records(files);
    if files.len() == 0 {
        files.lemma_filter_len(keep);
    } else {
        let rest = files.drop_last();
        let last = files.last();
        let before = generator.records(rest);
        lemma_records(generator, rest);
        assert(files =~= rest.push(last));
        rest.lemma_filter_push(last, keep);
        assert forall|record: FileView| #[trigger]
            records.contains(record) <==> records_selected_file(generator, files, record) by {
            if records.contains(record) {
                let k = choose|k: int| 0 <= k < records.len() && records[k] == record;
                if k < before.len() {
                    assert(before.contains(before[k]));
                }
            }
            if records_selected_file(generator, files, record) {
                let i = choose|i: int|
                    0 <= i < files.len() && generator.accepts((#[trigger] files[i]).path) && record
                        == record_of(files[i]);
                if i < rest.len() {
                    assert(before.contains(record));
                    let k = choose|k: int| 0 <= k < before.len() && before[k] == record;
                    assert(records[k] == record);
                } else {
                    assert(records[records.len() - 1] == record);
                }
            }
        }
        if distinct_source_paths(files) {
            assert(distinct_source_paths(rest));
            assert forall|i: int, j: int| 0 <= i < j < records.len() implies (
            #[trigger] records[i]).path != (#[trigger] records[j]).path by {
                if j == before.len() {
                    assert(before.contains(before[i]));
                } else {
                    assert(records[i] == before[i] && records[j] == before[j]);
                }
            }
        }
    }
}

/// The file list of a patch holds exactly the records of the input files
/// that pass the filters, in path order; and where the input files have
/// different paths, as the files of a tree have, no path stands in it twice.
pub proof fn lemma_file_list_exact(generator: GeneratorView, files: Seq<SourceView>)
    ensures
        sorted_by_path(generator.file_list(files)),
        forall|record: FileView| #[trigger]
            generator.file_list(files).contains(record) <==> records_selected_file(
                generator,
                files,
                record,
            ),
        distinct_source_paths(files) ==> distinct_paths(generator.file_list(files)),
        generator.file_list(files).len() == generator.selected(files).len(),
{
    let records = generator.records(files);
    let list = generator.file_list(files);
    lemma_records(generator, files);
    lemma_sort_by_path(records);
    assert forall|record: FileView| #[trigger]
        list.contains(record) <==> records_selected_file(generator, files, record) by {
        to_multiset_contains(list, record);
        to_multiset_contains(records, record);
    }
    if distinct_source_paths(files) {
        lemma_sort_keeps_distinct(records);
    }
}

/// The character `separator` stands nowhere in the path.
pub open spec fn lacks(path: Seq<char>, separator: char) -> bool {
    forall|i: int| 0 <= i < path.len() ==> path[i] != separator
}

/// The character `separator` stands in no path of the records.
pub open spec fn paths_lack(files: Seq<FileView>, separator: char) -> bool {
    forall|k: int| 0 <= k < files.len() ==> lacks((#[trigger] files[k]).path, separator)
}

/// The file list made from input files as they are recorded holds the
/// platform's separator in none of its paths, unless that is the forward
/// slash: a recorded path has the forward slash as its only separator.
pub proof fn lemma_recorded_paths_are_normal(generator: GeneratorView, files: Seq<SourceView>)
    requires
        generator.separator != '/',
    ensures
        paths_lack(generator.file_list(generator.normal(files)), generator.separator),
{
    let sources = generator.normal(files);
    let list = generator.file_list(sources);
    lemma_file_list_exact(generator, sources);
    assert forall|k: int| 0 <= k < list.len() implies lacks(
        (#[trigger] list[k]).path,
        generator.separator,
    ) by {
        assert(list.contains(list[k]));
        let i = choose|i: int|
            0 <= i < sources.len() && generator.accepts((#[trigger] sources[i]).path) && list[k]
                == record_of(sources[i]);
        lemma_normalized(files[i].path, generator.separator);
    }
}

/// The digest recorded of a file is that of its own bytes: files with the
/// same bytes are recorded with the same digest, whatever their paths, the
/// trees they stand in and the filters they passed.
pub proof fn lemma_digest_of_own_bytes(
    first: GeneratorView,
    first_files: Seq<SourceView>,
    i: int,
    second: GeneratorView,
    second_files: Seq<SourceView>,
    j: int,
)
    requires
        0 <= i < first_files.len(),
        0 <= j < second_files.len(),
        first.accepts(first_files[i].path),
        second.accepts(second_files[j].path),
        first_files[i].content == second_files[j].content,
    ensures
        first.file_list(first_files).contains(record_of(first_files[i])),
        second.file_list(second_files).contains(record_of(second_files[j])),
        record_of(first_files[i]).hash == record_of(second_files[j]).hash,
        record_of(first_files[i]).hash == blake3_hex(first_files[i].content),
{
    lemma_file_list_exact(first, first_files);
    lemma_file_list_exact(second, second_files);
}

/// Two generators with the same filters give the same file list for the same
/// input files, whatever their version labels and dependencies; and with the
/// same separator, the same file list for the same files as the platform
/// writes them.
pub proof fn lemma_file_list_repeatable(
    first: GeneratorView,
    second: GeneratorView,
    files: Seq<SourceView>,
)
    requires
        first.whitelist == second.whitelist,
        first.blacklist == second.blacklist,
    ensures
        first.file_list(files) == second.file_list(files),
        first.patch(files).files == second.patch(files).files,
        first.separator == second.separator ==> first.patch(first.normal(files)).files
            == second.patch(second.normal(files)).files,
{
    assert((|f: SourceView| first.accepts(f.path)) =~= (|f: SourceView| second.accepts(f.path)));
    if first.separator == second.separator {
        assert((|f: SourceView| first.normal_file(f)) =~= (|f: SourceView|
            second.normal_file(f)));
    }
}

/// Whether a path enters the patch, given whether the blacklist matches it,
/// whether a whitelist is configured and whether the whitelist matches it.
pub fn is_included(blacklisted: bool, whitelist_configured: bool, whitelisted: bool) -> (keep: bool)
    ensures
        keep == included(blacklisted, whitelist_configured, whitelisted),
{
    !blacklisted && (!whitelist_configured || whitelisted)
}

/// The record of a file with the path `path` and the bytes `content`.
pub(crate) fn record_at(path: String, content: &[u8]) -> (record: ManifestFile)
    ensures
        record@ == record_of(SourceView { path: path@, content: content@ }),
        is_hex_digest(record@.hash),
{
    let hash = content_hash(content);
    let platform = classify(path.as_str());
    ManifestFile::new(path, hash, content.len() as u64, platform)
}

/// The record of an input file: its path as it is given, the digest and the
/// length of its bytes, and its platform tag.
pub fn file_record(file: &SourceFile) -> (record: ManifestFile)
    ensures
        record@ == record_of(file@),
        is_hex_digest(record@.hash),
{
    record_at(file.path.clone(), file.content.as_slice())
}

impl Generator {
    /// A generator from its parts.
    pub(crate) fn from_parts(
        whitelist: globset::GlobSet,
        blacklist: globset::GlobSet,
        version: String,
        depends_on: Option<String>,
        separator: char,
    ) -> (generator: Generator)
        ensures
            generator@ == (GeneratorView {
                whitelist: glob_set_patterns(whitelist),
                blacklist: glob_set_patterns(blacklist),
                version: version@,
                depends_on: label_view(depends_on),
                separator,
            }),
    {
        Generator { whitelist, blacklist, version, depends_on, separator }
    }

    /// Whether a relative path, written with forward slashes, passes the
    /// filters: it is not blacklisted, and it is whitelisted where a
    /// whitelist is configured.
    pub fn accepts(&self, path: &str) -> (keep: bool)
        ensures
            keep == self@.accepts(path@),
    {
        let blacklisted = glob_set_is_match(&self.blacklist, path);
        let whitelist_configured = !glob_set_is_empty(&self.whitelist);
        let whitelisted = glob_set_is_match(&self.whitelist, path);
        is_included(blacklisted, whitelist_configured, whitelisted)
    }

    /// The paths that pass the filters, in the order given and as they are
    /// recorded: with forward slashes in place of the platform's separator.
    pub fn select_paths(&self, paths: &Vec<String>) -> (chosen: Vec<String>)
        ensures
            strings_view(chosen@) == self@.selected_paths(
                self@.normal_paths(strings_view(paths@)),
            ),
            self@.separator != '/' ==> forall|i: int|
                0 <= i < chosen@.len() ==> lacks(
                    #[trigger] strings_view(chosen@)[i],
                    self@.separator,
                ),
    {
        let mut chosen: Vec<String> = Vec::new();
        let ghost view = self@;
        let ghost all = view.normal_paths(strings_view(paths@));
        let mut i: usize = 0;
        assert(all.take(0).filter(|p: Seq<char>| view.accepts(p)) =~= Seq::empty()) by {
            all.take(0).lemma_filter_len(|p: Seq<char>| view.accepts(p));
        }
        while i < paths.len()
            invariant
                i <= paths.len(),
                view == self@,
                all == view.normal_paths(strings_view(paths@)),
                strings_view(chosen@) == view.selected_paths(all.take(i as int)),
                view.separator != '/' ==> forall|k: int|
                    0 <= k < chosen@.len() ==> lacks(
                        #[trigger] strings_view(chosen@)[k],
                        view.separator,
                    ),
            decreases paths.len() - i,
        {
            let path = normalize_separators(paths[i].as_str(), self.separator);
            proof {
                assert(all.take(i + 1) =~= all.take(i as int).push(path@));
                all.take(i as int).lemma_filter_push(path@, |p: Seq<char>| view.accepts(p));
                lemma_normalized(paths[i as int]@, view.separator);
            }
            if self.accepts(path.as_str()) {
                let ghost before = strings_view(chosen@);
                chosen.push(path);
                assert(strings_view(chosen@) =~= before.push(path@));
            }
            i += 1;
        }
        assert(all.take(paths.len() as int) =~= all);
        chosen
    }

    /// The file list of the patch: a record for every input file that passes
    /// the filters, in path order. Each path is recorded with forward slashes
    /// in place of the platform's separator, and is filtered as it is
    /// recorded.
    pub fn generate_files_list(&self, files: &Vec<SourceFile>) -> (list: Vec<ManifestFile>)
        ensures
            files_view(list@) == self@.file_list(self@.normal(sources_view(files@))),
            sorted_by_path(files_view(list@)),
            files_view(list@).to_multiset() == self@.records(
                self@.normal(sources_view(files@)),
            ).to_multiset(),
            distinct_source_paths(self@.normal(sources_view(files@))) ==> distinct_paths(
                files_view(list@),
            ),
            hashes_are_hex(files_view(list@)),
            self@.separator != '/' ==> paths_lack(files_view(list@), self@.separator),
    {
        let mut list: Vec<ManifestFile> = Vec::new();
        let ghost view = self@;
        let ghost sources = view.normal(sources_view(files@));
        let mut i: usize = 0;
        while i < files.len()
            invariant
                i <= files.len(),
                view == self@,
                sources == view.normal(sources_view(files@)),
                files_view(list@) == view.file_list(sources.take(i as int)),
                hashes_are_hex(files_view(list@)),
            decreases files.len() - i,
        {
            let file = &files[i];
            let path = normalize_separators(file.path.as_str(), self.separator);
            let ghost source = SourceView { path: path@, content: file.content@ };
            proof {
                let before = sources.take(i as int);
                assert(sources.take(i + 1) =~= before.push(source));
                before.lemma_filter_push(source, |f: SourceView| view.accepts(f.path));
                if view.accepts(source.path) {
                    assert(view.records(before.push(source)) =~= view.records(before).push(
                        record_of(source),
                    ));
                    assert(view.records(before).push(record_of(source)).drop_last()
                        =~= view.records(before));
                }
            }
            if self.accepts(path.as_str()) {
                let record = record_at(path, file.content.as_slice());
                insert_sorted(&mut list, record);
            }
            i += 1;
        }
        proof {
            assert(sources.take(files.len() as int) =~= sources);
            lemma_sort_by_path(view.records(sources));
            lemma_file_list_exact(view, sources);
            if view.separator != '/' {
                lemma_recorded_paths_are_normal(view, sources_view(files@));
            }
        }
        list
    }

    /// The patch generated from the input files, under the generator's
    /// version label and dependency.
    pub fn generate_patch(&self, files: &Vec<SourceFile>) -> (patch: ManifestPatches)
        ensures
            patch@ == self@.patch(self@.normal(sources_view(files@))),
            hashes_are_hex(patch@.files),
            self@.separator != '/' ==> paths_lack(patch@.files, self@.separator),
    {
        ManifestPatches {
            version: self.version.clone(),
            depends_on: self.depends_on.clone(),
            files: self.generate_files_list(files),
        }
    }
}

impl Default for Generator {
    /// A generator without filters, version label or dependency, for paths
    /// written with forward slashes.
    fn default() -> (generator: Generator)
        ensures
            generator@ == (GeneratorView {
                whitelist: Seq::empty(),
                blacklist: Seq::empty(),
                version: Seq::empty(),
                depends_on: None,
                separator: '/',
            }),
    {
        Generator {
            whitelist: empty_glob_set(),
            blacklist: empty_glob_set(),
            version: String::default(),
            depends_on: None,
            separator: '/',
        }
    }
}

} // verus!
