//! The order of paths in a file list.
//!
//! Paths are compared component by component, and each component by its
//! bytes: the order in which a walk that sorts every directory by file name
//! visits the files. On the bytes of two whole paths this is the
//! lexicographic order in which the separator `/` comes before every other
//! byte.

use vstd::prelude::*;
use vstd::seq_lib::*;
use vstd::utf8::*;
use crate::manifest::{files_view, FileView, ManifestFile};

verus! {

/// The byte of the separator `/`.
pub const SEPARATOR: u8 = 0x2f;

/// The rank of a byte in path order: the separator first, then the other
/// bytes by value.
pub open spec fn byte_rank(b: u8) -> int {
    if b == SEPARATOR {
        0
    } else {
        b as int + 1
    }
}

/// `a` and `b` hold the same bytes at their first `k` positions.
pub open spec fn agree_until(a: Seq<u8>, b: Seq<u8>, k: int) -> bool {
    &&& k <= a.len()
    &&& k <= b.len()
    &&& forall|j: int| 0 <= j < k ==> a[j] == b[j]
}

/// `a` comes before `b` by the byte at position `k`, the first at which they
/// differ.
pub open spec fn decided_at(a: Seq<u8>, b: Seq<u8>, k: int) -> bool {
    &&& 0 <= k < a.len()
    &&& k < b.len()
    &&& agree_until(a, b, k)
    &&& byte_rank(a[k]) < byte_rank(b[k])
}

/// `a` does not come after `b`: it is a prefix of `b`, or comes before it by
/// the first byte at which they differ.
pub open spec fn bytes_le(a: Seq<u8>, b: Seq<u8>) -> bool {
    agree_until(a, b, a.len() as int) || exists|k: int| decided_at(a, b, k)
}

/// The path `a` does not come after the path `b`.
pub open spec fn path_le(a: Seq<char>, b: Seq<char>) -> bool {
    bytes_le(encode_utf8(a), encode_utf8(b))
}

/// The first position from `from` on at which `a` and `b` differ, or the
/// length of the shorter one.
proof fn lemma_first_difference(a: Seq<u8>, b: Seq<u8>, from: int) -> (k: int)
    requires
        0 <= from,
        agree_until(a, b, from),
    ensures
        from <= k,
        agree_until(a, b, k),
        k == a.len() || k == b.len() || a[k] != b[k],
    decreases a.len() - from,
{
    if from == a.len() || from == b.len() || a[from] != b[from] {
        from
    } else {
        lemma_first_difference(a, b, from + 1)
    }
}

/// Of two byte sequences one does not come after the other.
pub proof fn lemma_bytes_le_total(a: Seq<u8>, b: Seq<u8>)
    ensures
        bytes_le(a, b) || bytes_le(b, a),
{
    let k = lemma_first_difference(a, b, 0);
    if k < a.len() && k < b.len() {
        if byte_rank(a[k]) < byte_rank(b[k]) {
            assert(decided_at(a, b, k));
        } else {
            assert(decided_at(b, a, k));
        }
    }
}

/// What does not come after a second, which does not come after a third,
/// does not come after the third.
pub proof fn lemma_bytes_le_transitive(a: Seq<u8>, b: Seq<u8>, c: Seq<u8>)
    requires
        bytes_le(a, b),
        bytes_le(b, c),
    ensures
        bytes_le(a, c),
{
    if agree_until(a, b, a.len() as int) {
        if !agree_until(b, c, b.len() as int) {
            let k = choose|k: int| decided_at(b, c, k);
            if k < a.len() {
                assert(decided_at(a, c, k));
            }
        }
    } else {
        let k1 = choose|k: int| decided_at(a, b, k);
        if agree_until(b, c, b.len() as int) {
            assert(decided_at(a, c, k1));
        } else {
            let k2 = choose|k: int| decided_at(b, c, k);
            if k1 <= k2 {
                assert(decided_at(a, c, k1));
            } else {
                assert(decided_at(a, c, k2));
            }
        }
    }
}

/// Two byte sequences of which neither comes after the other are equal.
pub proof fn lemma_bytes_le_antisymmetric(a: Seq<u8>, b: Seq<u8>)
    requires
        bytes_le(a, b),
        bytes_le(b, a),
    ensures
        a == b,
{
}

/// Every path is at its own place.
pub proof fn lemma_path_le_reflexive(a: Seq<char>)
    ensures
        path_le(a, a),
{
}

/// Of two paths one does not come after the other.
pub proof fn lemma_path_le_total(a: Seq<char>, b: Seq<char>)
    ensures
        path_le(a, b) || path_le(b, a),
{
    lemma_bytes_le_total(encode_utf8(a), encode_utf8(b));
}

/// The order of paths is transitive.
pub proof fn lemma_path_le_transitive(a: Seq<char>, b: Seq<char>, c: Seq<char>)
    requires
        path_le(a, b),
        path_le(b, c),
    ensures
        path_le(a, c),
{
    lemma_bytes_le_transitive(encode_utf8(a), encode_utf8(b), encode_utf8(c));
}

/// Two paths of which neither comes after the other are the same path.
pub proof fn lemma_path_le_antisymmetric(a: Seq<char>, b: Seq<char>)
    requires
        path_le(a, b),
        path_le(b, a),
    ensures
        a == b,
{
    lemma_bytes_le_antisymmetric(encode_utf8(a), encode_utf8(b));
    encode_utf8_decode_utf8(a);
    encode_utf8_decode_utf8(b);
}

/// Whether the path `a` does not come after the path `b`.
pub fn is_path_le(a: &str, b: &str) -> (le: bool)
    ensures
        le == path_le(a@, b@),
{
    let x = a.as_bytes();
    let y = b.as_bytes();
    let mut i: usize = 0;
    while i < x.len() && i < y.len()
        invariant
            x@ == encode_utf8(a@),
            y@ == encode_utf8(b@),
            agree_until(x@, y@, i as int),
        decreases x.len() - i,
    {
        if x[i] != y[i] {
            let before = if x[i] == SEPARATOR {
                true
            } else if y[i] == SEPARATOR {
                false
            } else {
                x[i] < y[i]
            };
            proof {
                if before {
                    assert(decided_at(x@, y@, i as int));
                }
            }
            return before;
        }
        i += 1;
    }
    x.len() <= y.len()
}

/// The records stand in the order of their paths.
pub open spec fn sorted_by_path(files: Seq<FileView>) -> bool {
    forall|i: int, j: int|
        0 <= i <= j < files.len() ==> path_le((#[trigger] files[i]).path, (#[trigger] files[j]).path)
}

/// No two records carry the same path.
pub open spec fn distinct_paths(files: Seq<FileView>) -> bool {
    forall|i: int, j: int|
        0 <= i < j < files.len() ==> (#[trigger] files[i]).path != (#[trigger] files[j]).path
}

/// A list in path order with one more record: the record stands behind the
/// last one that does not come after it.
pub open spec fn insert_by_path(sorted: Seq<FileView>, file: FileView) -> Seq<FileView>
    decreases sorted.len(),
{
    if sorted.len() == 0 || path_le(sorted.last().path, file.path) {
        sorted.push(file)
    } else {
        insert_by_path(sorted.drop_last(), file).push(sorted.last())
    }
}

/// The records in path order: each is inserted, in the order given, into the
/// sorted list of those before it.
pub open spec fn sort_by_path(files: Seq<FileView>) -> Seq<FileView>
    decreases files.len(),
{
    if files.len() == 0 {
        files
    } else {
        insert_by_path(sort_by_path(files.drop_last()), files.last())
    }
}

/// Where the record at `pos - 1` does not come after `file` and every record
/// from `pos` on does, `file` is inserted at `pos`.
pub proof fn lemma_insert_position(sorted: Seq<FileView>, file: FileView, pos: int)
    requires
        0 <= pos <= sorted.len(),
        pos == 0 || path_le(sorted[pos - 1].path, file.path),
        forall|k: int| pos <= k < sorted.len() ==> !path_le((#[trigger] sorted[k]).path, file.path),
    ensures
        insert_by_path(sorted, file) == sorted.insert(pos, file),
    decreases sorted.len(),
{
    if pos == sorted.len() {
        assert(sorted.insert(pos, file) =~= sorted.push(file));
    } else {
        lemma_insert_position(sorted.drop_last(), file, pos);
    }
}

/// The place at which `insert_by_path` puts a record.
proof fn lemma_insert_place(sorted: Seq<FileView>, file: FileView) -> (pos: int)
    ensures
        0 <= pos <= sorted.len(),
        pos == 0 || path_le(sorted[pos - 1].path, file.path),
        forall|k: int| pos <= k < sorted.len() ==> !path_le((#[trigger] sorted[k]).path, file.path),
        insert_by_path(sorted, file) == sorted.insert(pos, file),
    decreases sorted.len(),
{
    let pos = if sorted.len() == 0 || path_le(sorted.last().path, file.path) {
        sorted.len() as int
    } else {
        lemma_insert_place(sorted.drop_last(), file)
    };
    assert forall|k: int| pos <= k < sorted.len() implies !path_le(
        (#[trigger] sorted[k]).path,
        file.path,
    ) by {
        if k < sorted.len() - 1 {
            assert(sorted[k] == sorted.drop_last()[k]);
        }
    }
    lemma_insert_position(sorted, file, pos);
    pos
}

/// Inserting a record into a list in path order gives a list in path order
/// that holds the record once more and the others as before.
pub proof fn lemma_insert_by_path(sorted: Seq<FileView>, file: FileView)
    requires
        sorted_by_path(sorted),
    ensures
        sorted_by_path(insert_by_path(sorted, file)),
        insert_by_path(sorted, file).to_multiset() == sorted.to_multiset().insert(file),
        insert_by_path(sorted, file).len() == sorted.len() + 1,
{
    let pos = lemma_insert_place(sorted, file);
    let out = sorted.insert(pos, file);
    to_multiset_insert(sorted, pos, file);
    assert forall|i: int, j: int| 0 <= i <= j < out.len() implies path_le(
        (#[trigger] out[i]).path,
        (#[trigger] out[j]).path,
    ) by {
        if i == j {
            lemma_path_le_reflexive(out[i].path);
        } else if j == pos {
            lemma_path_le_transitive(sorted[i].path, sorted[pos - 1].path, file.path);
        } else if i == pos {
            lemma_path_le_total(sorted[j - 1].path, file.path);
        }
    }
}

/// Sorting gives a list in path order that holds each record as often as the
/// list given.
pub proof fn lemma_sort_by_path(files: Seq<FileView>)
    ensures
        sorted_by_path(sort_by_path(files)),
        sort_by_path(files).to_multiset() == files.to_multiset(),
        sort_by_path(files).len() == files.len(),
    decreases files.len(),
{
    if files.len() > 0 {
        lemma_sort_by_path(files.drop_last());
        lemma_insert_by_path(sort_by_path(files.drop_last()), files.last());
        assert(files =~= files.drop_last().push(files.last()));
        to_multiset_build(files.drop_last(), files.last());
    }
}

/// Sorting a list in which no two records carry the same path gives such a
/// list.
pub proof fn lemma_sort_keeps_distinct(files: Seq<FileView>)
    requires
        distinct_paths(files),
    ensures
        distinct_paths(sort_by_path(files)),
    decreases files.len(),
{
    if files.len() > 0 {
        let rest = files.drop_last();
        let sorted = sort_by_path(rest);
        assert(distinct_paths(rest));
        lemma_sort_keeps_distinct(rest);
        lemma_sort_by_path(rest);
        let pos = lemma_insert_place(sorted, files.last());
        let out = sorted.insert(pos, files.last());
        assert forall|k: int| 0 <= k < sorted.len() implies (#[trigger] sorted[k]).path
            != files.last().path by {
            to_multiset_contains(sorted, sorted[k]);
            to_multiset_contains(rest, sorted[k]);
        }
        assert(distinct_paths(out));
    }
}

/// Puts `record` at its place in a list that is in path order: the other
/// records stay as they are, in their order.
pub fn insert_sorted(list: &mut Vec<ManifestFile>, record: ManifestFile)
    ensures
        files_view(final(list)@) == insert_by_path(files_view(old(list)@), record@),
        exists|pos: int|
            0 <= pos <= old(list)@.len() && files_view(final(list)@) == #[trigger] files_view(
                old(list)@,
            ).insert(pos, record@),
{
    let mut pos: usize = list.len();
    while pos > 0 && !is_path_le(list[pos - 1].path.as_str(), record.path.as_str())
        invariant
            pos <= list.len(),
            forall|k: int|
                pos <= k < list.len() ==> !path_le((#[trigger] list@[k])@.path, record@.path),
        decreases pos,
    {
        pos -= 1;
    }
    proof {
        lemma_insert_position(files_view(list@), record@, pos as int);
    }
    list.insert(pos, record);
    assert(files_view(list@) =~= files_view(old(list)@).insert(pos as int, record@));
}

} // verus!
