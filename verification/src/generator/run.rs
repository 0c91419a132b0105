//! One generation run: the input directory must be there, the existing
//! manifest is loaded or a new one made, a collision of versions is settled,
//! the dependency is checked, the patch is built and appended, and the
//! manifest is handed back to be stored.
//!
//! The run is a state machine. Its caller loads, asks, walks the input tree,
//! reads files and stores; the machine says which of these comes next and
//! decides on what comes back. Files are read one at a time: each is
//! recorded before the next is asked for.
//!
//! A version that is overwritten may be the dependency of other patches of
//! the manifest. Such patches are kept as they are: their dependency then
//! names the patch that replaced the one they were generated against.

use vstd::prelude::*;
use crate::generator::{
    hashes_are_hex, lacks, paths_lack, record_at, record_of, sources_view, Generator,
    GeneratorView, SourceFile, SourceView,
};
use crate::manifest::{
    files_view, lemma_without_version, strings_view, FileView, Manifest, ManifestFile,
    ManifestPatches, ManifestView, PatchView,
};
use crate::order::{insert_by_path, insert_sorted, sort_by_path};

verus! {

/// Why a run fails.
#[derive(Clone, Debug, PartialEq, Eq)]
pub enum GenerateError {
    /// There is no input directory.
    MissingInput,
    /// The patch depends on a version of which the manifest holds no patch.
    MissingDependency(String),
    /// An event arrived that the state of the run does not expect.
    UnexpectedEvent,
}

/// Where a run stands.
#[derive(Clone, Debug, PartialEq, Eq)]
pub enum RunState {
    /// The input directory is there: the manifest at the output location is
    /// awaited.
    AwaitingManifest,
    /// The manifest holds the version already: the answer to the question
    /// whether to overwrite it is awaited.
    AwaitingAnswer(Manifest),
    /// The checks have passed: the paths of the files of the input tree are
    /// awaited.
    AwaitingPaths(Manifest),
    /// The bytes of the file at `paths[position]` are awaited. `paths` are
    /// the files that enter the patch, and `list` holds, in path order, the
    /// records of those before `position`.
    AwaitingFile { manifest: Manifest, paths: Vec<String>, position: usize, list: Vec<ManifestFile> },
    /// The run is over.
    Finished,
}

/// What a run is told.
#[derive(Clone, Debug, PartialEq, Eq)]
pub enum Event {
    /// The manifest at the output location, or `None` where there is none.
    Loaded(Option<Manifest>),
    /// Whether the existing patch of this version is to be overwritten.
    Answered(bool),
    /// The paths of the regular files of the input tree, relative to its
    /// root, as the platform writes them.
    Found(Vec<String>),
    /// The bytes of the file that was to be read.
    Read(Vec<u8>),
}

/// What the caller of a run is to do next.
#[derive(Clone, Debug, PartialEq, Eq)]
pub enum Action {
    /// Load the manifest at the output location, if there is one.
    LoadManifest,
    /// Ask whether the existing patch of this version is to be overwritten.
    AskOverwrite,
    /// Walk the input tree and report the relative paths of its regular
    /// files.
    ListPaths,
    /// Read the file at this relative path, written with forward slashes.
    ReadFile(String),
    /// Store this manifest in place of the old one: the run has succeeded.
    Save(Manifest),
    /// Store nothing: the overwrite was declined, the run ends without error.
    Stop,
    /// Store nothing: the run has failed.
    Fail(GenerateError),
}

/// Mathematical value of a [`GenerateError`].
pub enum GenerateFailure {
    MissingInput,
    MissingDependency(Seq<char>),
    UnexpectedEvent,
}

/// Mathematical value of a [`RunState`].
pub enum RunStateView {
    AwaitingManifest,
    AwaitingAnswer(ManifestView),
    AwaitingPaths(ManifestView),
    AwaitingFile { manifest: ManifestView, paths: Seq<Seq<char>>, position: int, list: Seq<FileView> },
    Finished,
}

/// Mathematical value of an [`Event`].
pub enum EventView {
    Loaded(Option<ManifestView>),
    Answered(bool),
    Found(Seq<Seq<char>>),
    Read(Seq<u8>),
}

/// Mathematical value of an [`Action`].
pub enum ActionView {
    LoadManifest,
    AskOverwrite,
    ListPaths,
    ReadFile(Seq<char>),
    Save(ManifestView),
    Stop,
    Fail(GenerateFailure),
}

/// How a whole run ends.
pub enum Outcome {
    /// The manifest to store.
    Saved(ManifestView),
    /// The overwrite was declined: nothing is stored.
    Declined,
    /// The run failed: nothing is stored.
    Failed(GenerateFailure),
}

impl View for GenerateError {
    type V = GenerateFailure;

    open spec fn view(&self) -> GenerateFailure {
        match self {
            GenerateError::MissingInput => GenerateFailure::MissingInput,
            GenerateError::MissingDependency(version) => GenerateFailure::MissingDependency(
                version@,
            ),
            GenerateError::UnexpectedEvent => GenerateFailure::UnexpectedEvent,
        }
    }
}

impl View for RunState {
    type V = RunStateView;

    open spec fn view(&self) -> RunStateView {
        match self {
            RunState::AwaitingManifest => RunStateView::AwaitingManifest,
            RunState::AwaitingAnswer(manifest) => RunStateView::AwaitingAnswer(manifest@),
            RunState::AwaitingPaths(manifest) => RunStateView::AwaitingPaths(manifest@),
            RunState::AwaitingFile { manifest, paths, position, list } => RunStateView::AwaitingFile {
                manifest: manifest@,
                paths: strings_view(paths@),
                position: *position as int,
                list: files_view(list@),
            },
            RunState::Finished => RunStateView::Finished,
        }
    }
}

/// The value of a manifest that may be missing.
pub open spec fn loaded_view(manifest: Option<Manifest>) -> Option<ManifestView> {
    match manifest {
        Some(m) => Some(m@),
        None => None,
    }
}

impl View for Event {
    type V = EventView;

    open spec fn view(&self) -> EventView {
        match self {
            Event::Loaded(manifest) => EventView::Loaded(loaded_view(*manifest)),
            Event::Answered(yes) => EventView::Answered(*yes),
            Event::Found(paths) => EventView::Found(strings_view(paths@)),
            Event::Read(content) => EventView::Read(content@),
        }
    }
}

impl View for Action {
    type V = ActionView;

    open spec fn view(&self) -> ActionView {
        match self {
            Action::LoadManifest => ActionView::LoadManifest,
            Action::AskOverwrite => ActionView::AskOverwrite,
            Action::ListPaths => ActionView::ListPaths,
            Action::ReadFile(path) => ActionView::ReadFile(path@),
            Action::Save(manifest) => ActionView::Save(manifest@),
            Action::Stop => ActionView::Stop,
            Action::Fail(error) => ActionView::Fail(error@),
        }
    }
}

/// How a run that returned `result` has ended.
pub open spec fn outcome_of(result: Result<Option<Manifest>, GenerateError>) -> Outcome {
    match result {
        Ok(Some(manifest)) => Outcome::Saved(manifest@),
        Ok(None) => Outcome::Declined,
        Err(error) => Outcome::Failed(error@),
    }
}

/// The first step of a run: without an input directory the run fails, with
/// one the manifest is loaded.
pub open spec fn first_step(input_exists: bool) -> (RunStateView, ActionView) {
    if input_exists {
        (RunStateView::AwaitingManifest, ActionView::LoadManifest)
    } else {
        (RunStateView::Finished, ActionView::Fail(GenerateFailure::MissingInput))
    }
}

/// The last patch of the manifest records every file with a digest of 64
/// lowercase hexadecimal digits and with the forward slash as its only
/// separator.
pub open spec fn stores_sound_patch(generator: GeneratorView, manifest: ManifestView) -> bool {
    &&& manifest.patches.len() > 0
    &&& hashes_are_hex(manifest.patches.last().files)
    &&& generator.separator != '/' ==> paths_lack(
        manifest.patches.last().files,
        generator.separator,
    )
}

impl RunStateView {
    /// What the state holds of files is as a run of `generator` leaves it:
    /// the records carry digests of 64 lowercase hexadecimal digits, and
    /// neither they nor the paths still to read hold the platform's
    /// separator, unless that is the forward slash.
    pub open spec fn sound(self, generator: GeneratorView) -> bool {
        match self {
            RunStateView::AwaitingFile { manifest, paths, position, list } => {
                &&& hashes_are_hex(list)
                &&& generator.separator != '/' ==> paths_lack(list, generator.separator)
                &&& generator.separator != '/' ==> forall|i: int|
                    0 <= i < paths.len() ==> lacks(#[trigger] paths[i], generator.separator)
            },
            _ => true,
        }
    }
}

/// The files at `paths` with the bytes `contents`, one for one.
pub open spec fn files_read(paths: Seq<Seq<char>>, contents: Seq<Seq<u8>>) -> Seq<SourceView> {
    Seq::new(paths.len(), |i: int| SourceView { path: paths[i], content: contents[i] })
}

impl GeneratorView {
    /// The patch with the file list `list`.
    pub open spec fn patch_of(self, list: Seq<FileView>) -> PatchView {
        PatchView { version: self.version, depends_on: self.depends_on, files: list }
    }

    /// The step after `position` files were recorded: the next file is asked
    /// for, or, after the last, the manifest is handed back with the patch.
    pub open spec fn next_file(
        self,
        manifest: ManifestView,
        paths: Seq<Seq<char>>,
        position: int,
        list: Seq<FileView>,
    ) -> (RunStateView, ActionView) {
        if 0 <= position < paths.len() {
            (
                RunStateView::AwaitingFile { manifest, paths, position, list },
                ActionView::ReadFile(paths[position]),
            )
        } else {
            (RunStateView::Finished, ActionView::Save(manifest.with_patch(self.patch_of(list))))
        }
    }

    /// The state and the action of a run after the files still to read were
    /// read, with the bytes `contents`.
    pub open spec fn read_all(
        self,
        state: RunStateView,
        action: ActionView,
        contents: Seq<Seq<u8>>,
    ) -> (RunStateView, ActionView)
        decreases contents.len(),
    {
        if contents.len() == 0 {
            (state, action)
        } else {
            let next = self.step(state, EventView::Read(contents[0]));
            self.read_all(next.0, next.1, contents.drop_first())
        }
    }

    /// The manifest a run starts from: the one loaded, or an empty one for
    /// the release line of the generator's version.
    pub open spec fn initial(self, existing: Option<ManifestView>) -> ManifestView {
        match existing {
            Some(manifest) => manifest,
            None => ManifestView { version: self.version, patches: Seq::empty() },
        }
    }

    /// The dependency, if there is one, has a patch in `manifest`.
    pub open spec fn dependency_met(self, manifest: ManifestView) -> bool {
        match self.depends_on {
            Some(version) => manifest.has_version(version),
            None => true,
        }
    }

    /// The step after the collision is settled: the dependency is looked
    /// up in `manifest`.
    pub open spec fn check_dependency(self, manifest: ManifestView) -> (RunStateView, ActionView) {
        if self.dependency_met(manifest) {
            (RunStateView::AwaitingPaths(manifest), ActionView::ListPaths)
        } else {
            (
                RunStateView::Finished,
                ActionView::Fail(GenerateFailure::MissingDependency(self.depends_on->0)),
            )
        }
    }

    /// One step of a run: the state that follows `state` on `event`, and
    /// what the caller is to do next.
    pub open spec fn step(self, state: RunStateView, event: EventView) -> (
        RunStateView,
        ActionView,
    ) {
        match (state, event) {
            (RunStateView::AwaitingManifest, EventView::Loaded(existing)) => {
                if self.initial(existing).has_version(self.version) {
                    (
                        RunStateView::AwaitingAnswer(self.initial(existing)),
                        ActionView::AskOverwrite,
                    )
                } else {
                    self.check_dependency(self.initial(existing))
                }
            },
            (RunStateView::AwaitingAnswer(manifest), EventView::Answered(yes)) => {
                if yes {
                    self.check_dependency(manifest.without_version(self.version))
                } else {
                    (RunStateView::Finished, ActionView::Stop)
                }
            },
            (RunStateView::AwaitingPaths(manifest), EventView::Found(paths)) => self.next_file(
                manifest,
                self.selected_paths(self.normal_paths(paths)),
                0,
                Seq::empty(),
            ),
            (
                RunStateView::AwaitingFile { manifest, paths, position, list },
                EventView::Read(content),
            ) => {
                if 0 <= position < paths.len() {
                    self.next_file(
                        manifest,
                        paths,
                        position + 1,
                        insert_by_path(
                            list,
                            record_of(SourceView { path: paths[position], content }),
                        ),
                    )
                } else {
                    (
                        RunStateView::Finished,
                        ActionView::Fail(GenerateFailure::UnexpectedEvent),
                    )
                }
            },
            _ => (RunStateView::Finished, ActionView::Fail(GenerateFailure::UnexpectedEvent)),
        }
    }

    /// The manifest into which the patch is merged: the one the run starts
    /// from, without the patches of the generator's version.
    pub open spec fn base(self, existing: Option<ManifestView>) -> ManifestView {
        if self.initial(existing).has_version(self.version) {
            self.initial(existing).without_version(self.version)
        } else {
            self.initial(existing)
        }
    }

    /// How a whole run on an input directory ends, given the manifest at the
    /// output location, the answer that is given if the version is there
    /// already, and the files of the input tree.
    pub open spec fn outcome(
        self,
        existing: Option<ManifestView>,
        overwrite: bool,
        files: Seq<SourceView>,
    ) -> Outcome {
        if self.initial(existing).has_version(self.version) && !overwrite {
            Outcome::Declined
        } else if !self.dependency_met(self.base(existing)) {
            Outcome::Failed(GenerateFailure::MissingDependency(self.depends_on->0))
        } else {
            Outcome::Saved(self.base(existing).with_patch(self.patch(self.normal(files))))
        }
    }
}

/// Where the manifest holds a patch of the generator's version already and
/// the overwrite is declined, the run ends without error and stores nothing:
/// the manifest stays as it was.
pub proof fn lemma_declined_overwrite_stores_nothing(
    generator: GeneratorView,
    manifest: ManifestView,
    files: Seq<SourceView>,
)
    requires
        manifest.has_version(generator.version),
    ensures
        generator.outcome(Some(manifest), false, files) == Outcome::Declined,
        generator.step(RunStateView::AwaitingManifest, EventView::Loaded(Some(manifest))) == (
            RunStateView::AwaitingAnswer(manifest),
            ActionView::AskOverwrite,
        ),
        generator.step(RunStateView::AwaitingAnswer(manifest), EventView::Answered(false)) == (
            RunStateView::Finished,
            ActionView::Stop,
        ),
{
}

/// Where the manifest a run starts from holds no patch of the version that
/// the generator depends on, the run fails and stores nothing, unless it
/// ended before the dependency was looked at: with the overwrite of an
/// existing version declined.
pub proof fn lemma_missing_dependency_fails(
    generator: GeneratorView,
    existing: Option<ManifestView>,
    overwrite: bool,
    files: Seq<SourceView>,
    dependency: Seq<char>,
)
    requires
        generator.depends_on == Some(dependency),
        !generator.initial(existing).has_version(dependency),
        overwrite || !generator.initial(existing).has_version(generator.version),
    ensures
        generator.outcome(existing, overwrite, files) == Outcome::Failed(
            GenerateFailure::MissingDependency(dependency),
        ),
{
    lemma_without_version(generator.initial(existing), generator.version);
}

/// What holds of a manifest that a run stores. It is of the release line of
/// the manifest the run started from. Its last patch is the one generated,
/// from the input files as they are recorded, and no other patch carries
/// that version. The other patches are those of
/// the manifest the run started from, in their order, but for the ones of
/// the generator's version. The version that the patch depends on has a
/// patch before it. Where the version labels were unique, they still are.
pub proof fn lemma_stored_manifest(
    generator: GeneratorView,
    existing: Option<ManifestView>,
    overwrite: bool,
    files: Seq<SourceView>,
)
    requires
        generator.outcome(existing, overwrite, files) is Saved,
    ensures
        ({
            let start = generator.initial(existing);
            let stored = generator.outcome(existing, overwrite, files)->Saved_0;
            let kept = stored.patches.drop_last();
            &&& stored.version == start.version
            &&& stored.patches.len() > 0
            &&& stored.patches.last() == generator.patch(generator.normal(files))
            &&& kept == start.without_version(generator.version).patches
            &&& forall|i: int| 0 <= i < kept.len() ==> (#[trigger] kept[i]).version
                != generator.version
            &&& generator.depends_on matches Some(dependency) ==> exists|i: int|
                0 <= i < kept.len() && (#[trigger] kept[i]).version == dependency
            &&& start.versions_unique() ==> stored.versions_unique()
        }),
{
    let start = generator.initial(existing);
    let base = generator.base(existing);
    let stored = generator.outcome(existing, overwrite, files)->Saved_0;
    let kept = stored.patches.drop_last();
    lemma_without_version(start, generator.version);
    assert(kept =~= base.patches);
    assert(!base.has_version(generator.version));
    if start.versions_unique() {
        assert(base.versions_unique());
        assert forall|i: int, j: int| 0 <= i < j < stored.patches.len() implies (
        #[trigger] stored.patches[i]).version != (#[trigger] stored.patches[j]).version by {
            assert(stored.patches[i] == kept[i]);
        }
    }
}

/// A filter keeps a sequence as it is where all of it passes.
proof fn lemma_filter_keeps_all<A>(s: Seq<A>, pred: spec_fn(A) -> bool)
    requires
        forall|i: int| 0 <= i < s.len() ==> pred(#[trigger] s[i]),
    ensures
        s.filter(pred) == s,
    decreases s.len(),
{
    if s.len() == 0 {
        s.lemma_filter_len(pred);
        assert(s.filter(pred) =~= s);
    } else {
        lemma_filter_keeps_all(s.drop_last(), pred);
        assert(s =~= s.drop_last().push(s.last()));
        s.drop_last().lemma_filter_push(s.last(), pred);
    }
}

/// After `position` files were recorded in path order, reading the others
/// leaves the records of all in path order, in the patch that is stored.
proof fn lemma_read_rest(
    generator: GeneratorView,
    manifest: ManifestView,
    paths: Seq<Seq<char>>,
    contents: Seq<Seq<u8>>,
    position: int,
)
    requires
        0 <= position <= paths.len() == contents.len(),
    ensures
        ({
            let records = files_read(paths, contents).map_values(|f: SourceView| record_of(f));
            let now = generator.next_file(
                manifest,
                paths,
                position,
                sort_by_path(records.take(position)),
            );
            generator.read_all(now.0, now.1, contents.skip(position)).1 == ActionView::Save(
                manifest.with_patch(generator.patch_of(sort_by_path(records))),
            )
        }),
    decreases paths.len() - position,
{
    let records = files_read(paths, contents).map_values(|f: SourceView| record_of(f));
    let list = sort_by_path(records.take(position));
    let now = generator.next_file(manifest, paths, position, list);
    let rest = contents.skip(position);
    if position == paths.len() {
        assert(records.take(position) =~= records);
    } else {
        let record = record_of(SourceView { path: paths[position], content: contents[position] });
        assert(rest[0] == contents[position]);
        assert(rest.drop_first() =~= contents.skip(position + 1));
        assert(records.take(position + 1).drop_last() =~= records.take(position));
        assert(records.take(position + 1).last() == record);
        assert(sort_by_path(records.take(position + 1)) == insert_by_path(list, record));
        assert(generator.step(now.0, EventView::Read(rest[0])) == generator.next_file(
            manifest,
            paths,
            position + 1,
            insert_by_path(list, record),
        ));
        lemma_read_rest(generator, manifest, paths, contents, position + 1);
    }
}

/// A run that is told the paths found, and then the bytes of each file it
/// asks for, stores the manifest with the patch of these files: of the paths
/// that pass the filters, as they are recorded, each with the bytes read for
/// it.
pub proof fn lemma_run_records_what_was_read(
    generator: GeneratorView,
    manifest: ManifestView,
    found: Seq<Seq<char>>,
    contents: Seq<Seq<u8>>,
)
    requires
        contents.len() == generator.selected_paths(generator.normal_paths(found)).len(),
    ensures
        ({
            let chosen = generator.selected_paths(generator.normal_paths(found));
            let asked = generator.step(
                RunStateView::AwaitingPaths(manifest),
                EventView::Found(found),
            );
            generator.read_all(asked.0, asked.1, contents).1 == ActionView::Save(
                manifest.with_patch(generator.patch(files_read(chosen, contents))),
            )
        }),
{
    let keep = |p: Seq<char>| generator.accepts(p);
    let chosen = generator.selected_paths(generator.normal_paths(found));
    let files = files_read(chosen, contents);
    let records = files.map_values(|f: SourceView| record_of(f));
    assert forall|i: int| 0 <= i < files.len() implies generator.accepts(
        (#[trigger] files[i]).path,
    ) by {
        generator.normal_paths(found).lemma_filter_pred(keep, i);
    }
    lemma_filter_keeps_all(files, |f: SourceView| generator.accepts(f.path));
    assert(generator.file_list(files) == sort_by_path(records));
    assert(records.take(0) =~= Seq::empty());
    assert(contents.skip(0) =~= contents);
    lemma_read_rest(generator, manifest, chosen, contents, 0);
}

impl Generator {
    /// Whether some patch of the manifest carries the version label
    /// `version`.
    pub fn check_version_exists(manifest: &Manifest, version: &String) -> (found: bool)
        ensures
            found == manifest@.has_version(version@),
    {
        let mut i: usize = 0;
        while i < manifest.patches.len()
            invariant
                i <= manifest.patches.len(),
                forall|k: int| 0 <= k < i ==> manifest@.patches[k].version != version@,
            decreases manifest.patches.len() - i,
        {
            if manifest.patches[i].version == *version {
                assert(manifest@.patches[i as int].version == version@);
                return true;
            }
            i += 1;
        }
        false
    }

    /// Looks the dependency up in `manifest`, once the collision is settled.
    fn check_dependency(&self, manifest: Manifest) -> (next: (RunState, Action))
        ensures
            (next.0@, next.1@) == self@.check_dependency(manifest@),
    {
        match &self.depends_on {
            Some(version) => {
                if Generator::check_version_exists(&manifest, version) {
                    (RunState::AwaitingPaths(manifest), Action::ListPaths)
                } else {
                    (
                        RunState::Finished,
                        Action::Fail(GenerateError::MissingDependency(version.clone())),
                    )
                }
            },
            None => (RunState::AwaitingPaths(manifest), Action::ListPaths),
        }
    }

    /// Begins a run, given whether the input directory exists: the state
    /// of the run and what the caller is to do first.
    pub fn begin(input_exists: bool) -> (first: (RunState, Action))
        ensures
            (first.0@, first.1@) == first_step(input_exists),
    {
        if input_exists {
            (RunState::AwaitingManifest, Action::LoadManifest)
        } else {
            (RunState::Finished, Action::Fail(GenerateError::MissingInput))
        }
    }

    /// Asks for the file at `position`, or, where all were recorded, hands
    /// the manifest back with the patch.
    fn next_file(
        &self,
        manifest: Manifest,
        paths: Vec<String>,
        position: usize,
        list: Vec<ManifestFile>,
    ) -> (next: (RunState, Action))
        ensures
            (next.0@, next.1@) == self@.next_file(
                manifest@,
                strings_view(paths@),
                position as int,
                files_view(list@),
            ),
    {
        if position < paths.len() {
            let path = paths[position].clone();
            (RunState::AwaitingFile { manifest, paths, position, list }, Action::ReadFile(path))
        } else {
            let mut manifest = manifest;
            manifest.push_patch(
                ManifestPatches {
                    version: self.version.clone(),
                    depends_on: self.depends_on.clone(),
                    files: list,
                },
            );
            (RunState::Finished, Action::Save(manifest))
        }
    }

    /// One step of a run: takes the state and what the caller reports, and
    /// returns the next state and what the caller is to do. A run is over
    /// with [`Action::Save`], [`Action::Stop`] or [`Action::Fail`]. An event
    /// that the state does not expect ends the run with
    /// [`GenerateError::UnexpectedEvent`]. The states of a run that began
    /// with [`Generator::begin`] are sound, and so is the patch it stores.
    pub fn step(&self, state: RunState, event: Event) -> (next: (RunState, Action))
        ensures
            (next.0@, next.1@) == self@.step(state@, event@),
            state@.sound(self@) ==> next.0@.sound(self@),
            state@.sound(self@) ==> (next.1 matches Action::Save(manifest) ==> stores_sound_patch(
                self@,
                manifest@,
            )),
    {
        match (state, event) {
            (RunState::AwaitingManifest, Event::Loaded(existing)) => {
                let manifest = match existing {
                    Some(manifest) => manifest,
                    None => Manifest::new(self.version.clone()),
                };
                if Generator::check_version_exists(&manifest, &self.version) {
                    (RunState::AwaitingAnswer(manifest), Action::AskOverwrite)
                } else {
                    self.check_dependency(manifest)
                }
            },
            (RunState::AwaitingAnswer(manifest), Event::Answered(yes)) => {
                if yes {
                    let mut manifest = manifest;
                    manifest.remove_version(&self.version);
                    self.check_dependency(manifest)
                } else {
                    (RunState::Finished, Action::Stop)
                }
            },
            (RunState::AwaitingPaths(manifest), Event::Found(paths)) => {
                let chosen = self.select_paths(&paths);
                let list: Vec<ManifestFile> = Vec::new();
                assert(files_view(list@) =~= Seq::empty());
                self.next_file(manifest, chosen, 0, list)
            },
            (RunState::AwaitingFile { manifest, paths, position, list }, Event::Read(content)) => {
                if position < paths.len() {
                    let record = record_at(paths[position].clone(), content.as_slice());
                    let mut list = list;
                    insert_sorted(&mut list, record);
                    self.next_file(manifest, paths, position + 1, list)
                } else {
                    (RunState::Finished, Action::Fail(GenerateError::UnexpectedEvent))
                }
            },
            _ => (RunState::Finished, Action::Fail(GenerateError::UnexpectedEvent)),
        }
    }

    /// A whole run on what its caller has at hand: the manifest at the
    /// output location, if there is one, the answer to give if its version
    /// is there already, and the files of the input directory. Returns the
    /// manifest to store, `None` if the overwrite was declined, or the
    /// reason of the failure.
    pub fn generate(
        &self,
        existing: Option<Manifest>,
        overwrite: bool,
        files: Vec<SourceFile>,
    ) -> (result: Result<Option<Manifest>, GenerateError>)
        ensures
            outcome_of(result) == self@.outcome(
                loaded_view(existing),
                overwrite,
                sources_view(files@),
            ),
            result matches Ok(Some(manifest)) ==> stores_sound_patch(self@, manifest@),
    {
        let (state, action) = Generator::begin(true);
        let (state, action) = match action {
            Action::LoadManifest => self.step(state, Event::Loaded(existing)),
            _ => (state, action),
        };
        let (state, action) = match action {
            Action::AskOverwrite => self.step(state, Event::Answered(overwrite)),
            _ => (state, action),
        };
        match (state, action) {
            (RunState::AwaitingPaths(manifest), Action::ListPaths) => {
                let mut manifest = manifest;
                manifest.push_patch(self.generate_patch(&files));
                Ok(Some(manifest))
            },
            (_, Action::Stop) => Ok(None),
            (_, Action::Fail(error)) => Err(error),
            _ => Err(GenerateError::UnexpectedEvent),
        }
    }
}

} // verus!
