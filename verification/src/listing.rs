//! A directory listing as the user sees it: directories apart from files,
//! each group in ascending order of name. Names compare byte by byte in their
//! UTF-8 form, which is the order of their code points.

use crate::message::{files_view, File, FileView, FILE_TYPE_DIR};
use vstd::prelude::*;
use vstd::seq_lib::*;
use vstd::string::*;
use vstd::utf8::*;

verus! {

/// `a` comes before `b`, or is equal to it, in the order of a dictionary
/// over bytes.
pub open spec fn bytes_le(a: Seq<u8>, b: Seq<u8>) -> bool
    decreases a.len(),
{
    if a.len() == 0 {
        true
    } else if b.len() == 0 {
        false
    } else if a[0] != b[0] {
        a[0] < b[0]
    } else {
        bytes_le(a.drop_first(), b.drop_first())
    }
}

/// The name of `a` is not greater than the name of `b`.
pub open spec fn name_le(a: FileView, b: FileView) -> bool {
    bytes_le(encode_utf8(a.name), encode_utf8(b.name))
}

/// Each entry's name is not greater than the names that follow it.
pub open spec fn ordered_by_name(s: Seq<FileView>) -> bool {
    forall|i: int, j: int| 0 <= i < j < s.len() ==> name_le(s[i], s[j])
}

/// Where `x` goes in `s`: behind the last entry whose name is not greater.
pub open spec fn insert_position(s: Seq<FileView>, x: FileView) -> nat
    decreases s.len(),
{
    if s.len() == 0 {
        0
    } else if name_le(s.last(), x) {
        s.len()
    } else {
        insert_position(s.drop_last(), x)
    }
}

/// The entries of `s` in ascending order of name. Entries of the same name
/// keep the order they have in `s`.
pub open spec fn sorted_by_name(s: Seq<FileView>) -> Seq<FileView>
    decreases s.len(),
{
    if s.len() == 0 {
        Seq::empty()
    } else {
        let before = sorted_by_name(s.drop_last());
        before.insert(insert_position(before, s.last()) as int, s.last())
    }
}

/// The entries of `s` that are directories, if `dirs`, or those that are
/// not; in the order they have in `s`.
pub open spec fn entries_of_kind(s: Seq<FileView>, dirs: bool) -> Seq<FileView>
    decreases s.len(),
{
    if s.len() == 0 {
        Seq::empty()
    } else {
        let before = entries_of_kind(s.drop_last(), dirs);
        if (s.last().file_type == FILE_TYPE_DIR) == dirs {
            before.push(s.last())
        } else {
            before
        }
    }
}

/// Of two runs of bytes, one is not greater than the other.
pub proof fn lemma_bytes_le_total(a: Seq<u8>, b: Seq<u8>)
    ensures
        bytes_le(a, b) || bytes_le(b, a),
    decreases a.len(),
{
    if a.len() != 0 && b.len() != 0 && a[0] == b[0] {
        lemma_bytes_le_total(a.drop_first(), b.drop_first());
    }
}

/// The order carries over: what is not greater than `b`, which is not
/// greater than `c`, is not greater than `c`.
pub proof fn lemma_bytes_le_transitive(a: Seq<u8>, b: Seq<u8>, c: Seq<u8>)
    requires
        bytes_le(a, b),
        bytes_le(b, c),
    ensures
        bytes_le(a, c),
    decreases a.len(),
{
    if a.len() != 0 && b.len() != 0 && c.len() != 0 && a[0] == b[0] && b[0] == c[0] {
        lemma_bytes_le_transitive(a.drop_first(), b.drop_first(), c.drop_first());
    }
}

/// The place that [`insert_position`] finds: the entry in front of it is not
/// greater than `x`, and every entry from it on is.
pub proof fn lemma_insert_position(s: Seq<FileView>, x: FileView)
    ensures
        insert_position(s, x) <= s.len(),
        insert_position(s, x) > 0 ==> name_le(s[insert_position(s, x) - 1], x),
        forall|k: int| insert_position(s, x) <= k < s.len() ==> !name_le(#[trigger] s[k], x),
    decreases s.len(),
{
    if s.len() != 0 && !name_le(s.last(), x) {
        let shorter = s.drop_last();
        lemma_insert_position(shorter, x);
        assert forall|k: int| insert_position(s, x) <= k < s.len() implies !name_le(
            #[trigger] s[k],
            x,
        ) by {
            if k < shorter.len() {
                assert(s[k] == shorter[k]);
            }
        }
    }
}

/// Sorting gives an ordered list that holds the same entries, each as often
/// as before.
pub proof fn lemma_sorted_by_name(s: Seq<FileView>)
    ensures
        ordered_by_name(sorted_by_name(s)),
        sorted_by_name(s).to_multiset() == s.to_multiset(),
        sorted_by_name(s).len() == s.len(),
    decreases s.len(),
{
    broadcast use group_to_multiset_ensures;

    if s.len() == 0 {
        assert(sorted_by_name(s) =~= s);
    } else {
        let x = s.last();
        let before = sorted_by_name(s.drop_last());
        let j = insert_position(before, x) as int;
        let r = before.insert(j, x);
        lemma_sorted_by_name(s.drop_last());
        lemma_insert_position(before, x);
        assert(r.len() == before.len() + 1);
        assert(r[j] == x);
        assert forall|a: int, b: int| 0 <= a < b < r.len() implies name_le(r[a], r[b]) by {
            if b < j {
                assert(r[a] == before[a] && r[b] == before[b]);
                assert(name_le(before[a], before[b]));
            } else if b == j {
                assert(r[a] == before[a]);
                if a < j - 1 {
                    assert(name_le(before[a], before[j - 1]));
                    lemma_bytes_le_transitive(
                        encode_utf8(before[a].name),
                        encode_utf8(before[j - 1].name),
                        encode_utf8(x.name),
                    );
                }
            } else if a == j {
                assert(r[b] == before[b - 1]);
                lemma_bytes_le_total(encode_utf8(x.name), encode_utf8(before[b - 1].name));
            } else if a < j {
                assert(r[a] == before[a] && r[b] == before[b - 1]);
                assert(name_le(before[a], before[b - 1]));
            } else {
                assert(r[a] == before[a - 1] && r[b] == before[b - 1]);
                assert(name_le(before[a - 1], before[b - 1]));
            }
        }
        assert(r.remove(j) =~= before);
        assert(r.to_multiset().remove(x) == before.to_multiset());
        assert(r.contains(x));
        assert(r.to_multiset() =~= before.to_multiset().insert(x));
        assert(s =~= s.drop_last().push(x));
        assert(s.to_multiset() =~= s.drop_last().to_multiset().insert(x));
    }
}

/// Whether `a` is not greater than `b` in the order of a dictionary over bytes.
pub fn bytes_not_greater(a: &[u8], b: &[u8]) -> (r: bool)
    ensures
        r == bytes_le(a@, b@),
{
    let mut i: usize = 0;
    proof {
        assert(a@.skip(0) =~= a@);
        assert(b@.skip(0) =~= b@);
    }
    while i < a.len()
        invariant
            i <= a@.len(),
            i <= b@.len(),
            bytes_le(a@, b@) == bytes_le(a@.skip(i as int), b@.skip(i as int)),
        decreases a@.len() - i,
    {
        if i >= b.len() {
            return false;
        }
        proof {
            assert(a@.skip(i as int).drop_first() =~= a@.skip(i + 1));
            assert(b@.skip(i as int).drop_first() =~= b@.skip(i + 1));
        }
        if a[i] != b[i] {
            return a[i] < b[i];
        }
        i = i + 1;
    }
    true
}

/// Whether the name of `a` is not greater than the name of `b`.
pub fn name_not_greater(a: &File, b: &File) -> (r: bool)
    ensures
        r == name_le(a@, b@),
{
    bytes_not_greater(a.name.as_str().as_bytes(), b.name.as_str().as_bytes())
}

/// Where `x` goes in the ordered list `sorted`.
pub fn position_for(sorted: &Vec<File>, x: &File) -> (j: usize)
    ensures
        j == insert_position(files_view(sorted@), x@),
        j <= sorted@.len(),
{
    let ghost all = files_view(sorted@);
    let mut j: usize = sorted.len();
    proof {
        assert(all.take(j as int) =~= all);
    }
    while j > 0
        invariant
            j <= sorted@.len(),
            all == files_view(sorted@),
            insert_position(all, x@) == insert_position(all.take(j as int), x@),
        decreases j,
    {
        proof {
            assert(all.take(j as int).last() == sorted@[j - 1]@);
            assert(all.take(j as int).drop_last() =~= all.take(j - 1));
        }
        if name_not_greater(&sorted[j - 1], x) {
            return j;
        }
        j = j - 1;
    }
    j
}

/// Puts the entries in ascending order of name. Entries of the same name
/// keep their order.
pub fn sort_by_name(entries: Vec<File>) -> (sorted: Vec<File>)
    ensures
        files_view(sorted@) == sorted_by_name(files_view(entries@)),
        ordered_by_name(files_view(sorted@)),
        files_view(sorted@).to_multiset() == files_view(entries@).to_multiset(),
        sorted@.len() == entries@.len(),
{
    let ghost all = files_view(entries@);
    let mut input = entries;
    let mut sorted: Vec<File> = Vec::new();
    let ghost mut done: int = 0;
    proof {
        assert(all.skip(0) =~= all);
        assert(all.take(0) =~= Seq::<FileView>::empty());
        assert(files_view(sorted@) =~= Seq::<FileView>::empty());
    }
    while input.len() > 0
        invariant
            0 <= done <= all.len(),
            input@.len() == all.len() - done,
            files_view(input@) == all.skip(done),
            files_view(sorted@) == sorted_by_name(all.take(done)),
        decreases input@.len(),
    {
        let ghost before = files_view(sorted@);
        let ghost waiting = files_view(input@);
        let ghost queued = input@;
        let x = input.remove(0);
        let j = position_for(&sorted, &x);
        let ghost entry = x@;
        sorted.insert(j, x);
        proof {
            assert(waiting[0] == entry);
            assert(entry == all[done]);
            assert(input@ =~= queued.skip(1));
            assert forall|i: int| 0 <= i < input@.len() implies files_view(input@)[i] == all.skip(
                done + 1,
            )[i] by {
                assert(input@[i] == queued[i + 1]);
                assert(waiting[i + 1] == queued[i + 1]@);
            }
            assert(files_view(input@) =~= all.skip(done + 1));
            assert(all.take(done + 1).drop_last() =~= all.take(done));
            assert(all.take(done + 1).last() == entry);
            assert(files_view(sorted@) =~= before.insert(j as int, entry));
            done = done + 1;
        }
    }
    proof {
        assert(all.take(done) =~= all);
        lemma_sorted_by_name(all);
    }
    sorted
}

/// Parts the entries into directories and files; each group keeps the order
/// that its entries have in the listing.
pub fn partition_entries(entries: Vec<File>) -> (parts: (Vec<File>, Vec<File>))
    ensures
        files_view(parts.0@) == entries_of_kind(files_view(entries@), true),
        files_view(parts.1@) == entries_of_kind(files_view(entries@), false),
{
    let ghost all = files_view(entries@);
    let mut input = entries;
    let mut dirs: Vec<File> = Vec::new();
    let mut files: Vec<File> = Vec::new();
    let ghost mut done: int = 0;
    proof {
        assert(all.skip(0) =~= all);
        assert(all.take(0) =~= Seq::<FileView>::empty());
        assert(files_view(dirs@) =~= Seq::<FileView>::empty());
        assert(files_view(files@) =~= Seq::<FileView>::empty());
    }
    while input.len() > 0
        invariant
            0 <= done <= all.len(),
            input@.len() == all.len() - done,
            files_view(input@) == all.skip(done),
            files_view(dirs@) == entries_of_kind(all.take(done), true),
            files_view(files@) == entries_of_kind(all.take(done), false),
        decreases input@.len(),
    {
        let ghost dirs_before = files_view(dirs@);
        let ghost files_before = files_view(files@);
        let ghost waiting = files_view(input@);
        let ghost queued = input@;
        let x = input.remove(0);
        let ghost entry = x@;
        if x.file_type == FILE_TYPE_DIR {
            dirs.push(x);
        } else {
            files.push(x);
        }
        proof {
            assert(waiting[0] == entry);
            assert(entry == all[done]);
            assert(input@ =~= queued.skip(1));
            assert forall|i: int| 0 <= i < input@.len() implies files_view(input@)[i] == all.skip(
                done + 1,
            )[i] by {
                assert(input@[i] == queued[i + 1]);
                assert(waiting[i + 1] == queued[i + 1]@);
            }
            assert(files_view(input@) =~= all.skip(done + 1));
            assert(all.take(done + 1).drop_last() =~= all.take(done));
            assert(all.take(done + 1).last() == entry);
            if entry.file_type == FILE_TYPE_DIR {
                assert(files_view(dirs@) =~= dirs_before.push(entry));
            } else {
                assert(files_view(files@) =~= files_before.push(entry));
            }
            done = done + 1;
        }
    }
    proof {
        assert(all.take(done) =~= all);
    }
    (dirs, files)
}

/// A listing as it is shown: the directories in ascending order of name, and
/// the files in ascending order of name.
pub fn arrange_listing(entries: Vec<File>) -> (parts: (Vec<File>, Vec<File>))
    ensures
        files_view(parts.0@) == sorted_by_name(entries_of_kind(files_view(entries@), true)),
        files_view(parts.1@) == sorted_by_name(entries_of_kind(files_view(entries@), false)),
        ordered_by_name(files_view(parts.0@)),
        ordered_by_name(files_view(parts.1@)),
{
    let (dirs, files) = partition_entries(entries);
    (sort_by_name(dirs), sort_by_name(files))
}

} // verus!
