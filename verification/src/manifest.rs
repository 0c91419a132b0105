//! The manifest document: patches, file records and their metadata.

use vstd::prelude::*;

verus! {

/// Platform a file is meant for.
#[derive(Clone, Copy, Debug, PartialEq, Eq, Structural)]
pub enum ManifestPlatform {
    Windows,
    Linux,
}

/// Optional facts about a file. Absent fields are left out of the stored
/// document.
#[derive(Clone, Copy, Debug, PartialEq, Eq)]
pub struct Metadata {
    pub platform: Option<ManifestPlatform>,
}

/// One file of a patch.
#[derive(Clone, Debug, PartialEq, Eq)]
pub struct ManifestFile {
    /// Path relative to the input root, with forward slashes.
    pub path: String,
    /// Lowercase hexadecimal digest of the file's bytes.
    pub hash: String,
    /// Length of the file in bytes.
    pub size: u64,
    pub meta: Option<Metadata>,
}

/// One generated patch: a version label, the version it depends on, and its
/// files.
#[derive(Clone, Debug, PartialEq, Eq)]
pub struct ManifestPatches {
    pub version: String,
    pub depends_on: Option<String>,
    pub files: Vec<ManifestFile>,
}

/// The root document: the patches in the order in which they were generated.
#[derive(Clone, Debug, PartialEq, Eq)]
pub struct Manifest {
    pub version: String,
    pub patches: Vec<ManifestPatches>,
}

/// Mathematical value of a [`ManifestFile`].
pub struct FileView {
    pub path: Seq<char>,
    pub hash: Seq<char>,
    pub size: u64,
    pub meta: Option<Metadata>,
}

/// Mathematical value of a [`ManifestPatches`].
pub struct PatchView {
    pub version: Seq<char>,
    pub depends_on: Option<Seq<char>>,
    pub files: Seq<FileView>,
}

/// Mathematical value of a [`Manifest`].
pub struct ManifestView {
    pub version: Seq<char>,
    pub patches: Seq<PatchView>,
}

/// The characters of an optional string.
pub open spec fn label_view(label: Option<String>) -> Option<Seq<char>> {
    match label {
        Some(s) => Some(s@),
        None => None,
    }
}

/// The characters of a list of strings.
pub open spec fn strings_view(strings: Seq<String>) -> Seq<Seq<char>> {
    strings.map_values(|s: String| s@)
}

/// The values of a list of file records.
pub open spec fn files_view(files: Seq<ManifestFile>) -> Seq<FileView> {
    files.map_values(|f: ManifestFile| f@)
}

/// The values of a list of patches.
pub open spec fn patches_view(patches: Seq<ManifestPatches>) -> Seq<PatchView> {
    patches.map_values(|p: ManifestPatches| p@)
}

/// The metadata recorded for a platform tag: none without a tag.
pub open spec fn meta_of(platform: Option<ManifestPlatform>) -> Option<Metadata> {
    match platform {
        Some(p) => Some(Metadata { platform: Some(p) }),
        None => None,
    }
}

impl View for ManifestFile {
    type V = FileView;

    open spec fn view(&self) -> FileView {
        FileView { path: self.path@, hash: self.hash@, size: self.size, meta: self.meta }
    }
}

impl View for ManifestPatches {
    type V = PatchView;

    open spec fn view(&self) -> PatchView {
        PatchView {
            version: self.version@,
            depends_on: label_view(self.depends_on),
            files: files_view(self.files@),
        }
    }
}

impl View for Manifest {
    type V = ManifestView;

    open spec fn view(&self) -> ManifestView {
        ManifestView { version: self.version@, patches: patches_view(self.patches@) }
    }
}

impl ManifestView {
    /// Some patch of the manifest carries the version label `version`.
    pub open spec fn has_version(self, version: Seq<char>) -> bool {
        exists|i: int| 0 <= i < self.patches.len() && #[trigger] self.patches[i].version == version
    }

    /// The manifest without the patches that carry the label `version`; the
    /// other patches keep their order.
    pub open spec fn without_version(self, version: Seq<char>) -> ManifestView {
        ManifestView {
            version: self.version,
            patches: self.patches.filter(|p: PatchView| p.version != version),
        }
    }

    /// The manifest with `patch` appended.
    pub open spec fn with_patch(self, patch: PatchView) -> ManifestView {
        ManifestView { version: self.version, patches: self.patches.push(patch) }
    }

    /// No two patches share a version label.
    pub open spec fn versions_unique(self) -> bool {
        forall|i: int, j: int|
            0 <= i < j < self.patches.len() ==> #[trigger] self.patches[i].version
                != #[trigger] self.patches[j].version
    }
}

/// What removing the patches of a version does: none of that version is
/// left, the patches of every other version are kept, and version labels
/// that were unique stay unique.
pub proof fn lemma_without_version(manifest: ManifestView, version: Seq<char>)
    ensures
        !manifest.without_version(version).has_version(version),
        forall|other: Seq<char>|
            other != version ==> (#[trigger] manifest.without_version(version).has_version(other)
                <==> manifest.has_version(other)),
        manifest.versions_unique() ==> manifest.without_version(version).versions_unique(),
        !manifest.has_version(version) ==> manifest.without_version(version) == manifest,
        manifest.without_version(version).patches.len() <= manifest.patches.len(),
    decreases manifest.patches.len(),
{
    let keep = |p: PatchView| p.version != version;
    let out = manifest.without_version(version);
    if manifest.patches.len() == 0 {
        manifest.patches.lemma_filter_len(keep);
        assert(out.patches =~= manifest.patches);
    } else {
        let rest = ManifestView { version: manifest.version, patches: manifest.patches.drop_last() };
        let last = manifest.patches.last();
        let before = rest.without_version(version);
        lemma_without_version(rest, version);
        assert(manifest.patches =~= rest.patches.push(last));
        rest.patches.lemma_filter_push(last, keep);
        assert(!out.has_version(version));
        assert forall|other: Seq<char>| other != version implies (#[trigger] out.has_version(other)
            <==> manifest.has_version(other)) by {
            if out.has_version(other) {
                let k = choose|k: int|
                    0 <= k < out.patches.len() && (#[trigger] out.patches[k]).version == other;
                if k < before.patches.len() {
                    assert(before.has_version(other));
                }
            }
            if manifest.has_version(other) {
                let i = choose|i: int|
                    0 <= i < manifest.patches.len() && (#[trigger] manifest.patches[i]).version
                        == other;
                if i < rest.patches.len() {
                    assert(before.has_version(other));
                    let k = choose|k: int|
                        0 <= k < before.patches.len() && (#[trigger] before.patches[k]).version
                            == other;
                    assert(out.patches[k].version == other);
                } else {
                    assert(out.patches[out.patches.len() - 1].version == other);
                }
            }
        }
        if manifest.versions_unique() {
            assert(rest.versions_unique());
            assert forall|i: int, j: int| 0 <= i < j < out.patches.len() implies (
            #[trigger] out.patches[i]).version != (#[trigger] out.patches[j]).version by {
                if j == before.patches.len() {
                    assert(before.has_version(before.patches[i].version));
                }
            }
        }
        if !manifest.has_version(version) {
            assert(!rest.has_version(version));
        }
    }
}

impl Metadata {
    /// The metadata recorded for a platform tag, if there is one.
    pub fn for_platform(platform: Option<ManifestPlatform>) -> (meta: Option<Metadata>)
        ensures
            meta == meta_of(platform),
    {
        match platform {
            Some(p) => Some(Metadata { platform: Some(p) }),
            None => None,
        }
    }
}

impl ManifestFile {
    /// The record of a file with the given path, digest, size and platform
    /// tag.
    pub fn new(path: String, hash: String, size: u64, platform: Option<ManifestPlatform>) -> (file:
        ManifestFile)
        ensures
            file@ == (FileView { path: path@, hash: hash@, size, meta: meta_of(platform) }),
    {
        ManifestFile { path, hash, size, meta: Metadata::for_platform(platform) }
    }
}

impl Manifest {
    /// An empty manifest for the release line `version`.
    pub fn new(version: String) -> (manifest: Manifest)
        ensures
            manifest@ == (ManifestView { version: version@, patches: Seq::empty() }),
    {
        let manifest = Manifest { version, patches: Vec::new() };
        assert(manifest@.patches =~= Seq::empty());
        manifest
    }

    /// Removes every patch that carries the version label `version`. The
    /// other patches keep their order.
    pub fn remove_version(&mut self, version: &String)
        ensures
            final(self)@ == old(self)@.without_version(version@),
    {
        let ghost before = self@.patches;
        let ghost keep = |p: PatchView| p.version != version@;
        let ghost mut seen: int = 0;
        let mut i: usize = 0;
        while i < self.patches.len()
            invariant
                before == old(self)@.patches,
                keep == |p: PatchView| p.version != version@,
                self.version == old(self).version,
                0 <= seen <= before.len(),
                i == before.take(seen).filter(keep).len(),
                self@.patches == before.take(seen).filter(keep) + before.skip(seen),
            decreases before.len() - seen,
        {
            proof {
                assert(self@.patches[i as int] == before.skip(seen)[0]);
                assert(before.take(seen + 1) =~= before.take(seen).push(before[seen]));
                before.take(seen).lemma_filter_push(before[seen], keep);
            }
            let ghost current = self@.patches;
            if self.patches[i].version == *version {
                self.patches.remove(i);
                assert(self@.patches =~= current.remove(i as int));
            } else {
                i += 1;
            }
            proof {
                seen = seen + 1;
            }
        }
    }

    /// Appends a patch.
    pub fn push_patch(&mut self, patch: ManifestPatches)
        ensures
            final(self)@ == old(self)@.with_patch(patch@),
    {
        self.patches.push(patch);
        assert(self@.patches =~= old(self)@.patches.push(patch@));
    }
}

} // verus!
