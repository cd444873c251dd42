//! Cutting a run of bytes into pieces that the link can carry in one write.
//! The pieces carry no framing of their own: put end to end they are the
//! bytes again, and that is all the receiver relies on.

use vstd::prelude::*;
use vstd::slice::*;

verus! {

/// The most bytes that one write to the device's serial characteristic
/// carries. The link allows 512; the rest is headroom that makes transfers
/// reliable in practice.
pub const TRANSPORT_UNIT_SIZE: usize = 350;

/// The pieces of `bytes`, each `unit` long but the last, which holds what is
/// left. Bytes that fit into one piece, and no bytes at all, give one piece.
pub open spec fn chunks_of(bytes: Seq<u8>, unit: nat) -> Seq<Seq<u8>>
    decreases bytes.len(),
{
    if unit == 0 || bytes.len() <= unit {
        seq![bytes]
    } else {
        seq![bytes.take(unit as int)] + chunks_of(bytes.skip(unit as int), unit)
    }
}

/// The pieces put end to end.
pub open spec fn concat(chunks: Seq<Seq<u8>>) -> Seq<u8>
    decreases chunks.len(),
{
    if chunks.len() == 0 {
        Seq::empty()
    } else {
        chunks[0] + concat(chunks.drop_first())
    }
}

/// The contents of a list of pieces.
pub open spec fn chunks_view(chunks: Seq<Vec<u8>>) -> Seq<Seq<u8>> {
    chunks.map_values(|c: Vec<u8>| c@)
}

/// Chunking loses nothing and adds nothing: the pieces of `bytes`, put end to
/// end, are `bytes`, whatever its length and whatever the unit.
pub proof fn lemma_concat_chunks(bytes: Seq<u8>, unit: nat)
    ensures
        concat(chunks_of(bytes, unit)) == bytes,
    decreases bytes.len(),
{
    let chunks = chunks_of(bytes, unit);
    if unit == 0 || bytes.len() <= unit {
        assert(chunks.drop_first() =~= Seq::<Seq<u8>>::empty());
        assert(concat(chunks.drop_first()) =~= Seq::<u8>::empty());
        assert(concat(chunks) =~= bytes);
    } else {
        let rest = chunks_of(bytes.skip(unit as int), unit);
        lemma_concat_chunks(bytes.skip(unit as int), unit);
        assert(chunks.drop_first() =~= rest);
        assert(concat(chunks) =~= bytes.take(unit as int) + bytes.skip(unit as int));
        assert(bytes.take(unit as int) + bytes.skip(unit as int) =~= bytes);
    }
}

/// No piece is longer than the unit, there is at least one piece, and only
/// the one piece of no bytes is empty.
pub proof fn lemma_chunk_sizes(bytes: Seq<u8>, unit: nat)
    requires
        unit > 0,
    ensures
        chunks_of(bytes, unit).len() >= 1,
        bytes.len() <= unit ==> chunks_of(bytes, unit).len() == 1,
        forall|i: int|
            0 <= i < chunks_of(bytes, unit).len() ==> (#[trigger] chunks_of(bytes, unit)[i]).len()
                <= unit,
        forall|i: int|
            0 <= i < chunks_of(bytes, unit).len() && bytes.len() > 0 ==> (#[trigger] chunks_of(
                bytes,
                unit,
            )[i]).len() > 0,
    decreases bytes.len(),
{
    if bytes.len() > unit {
        let rest = bytes.skip(unit as int);
        lemma_chunk_sizes(rest, unit);
        let chunks = chunks_of(bytes, unit);
        assert forall|i: int| 0 <= i < chunks.len() implies (#[trigger] chunks[i]).len() <= unit
            && chunks[i].len() > 0 by {
            if i > 0 {
                assert(chunks[i] == chunks_of(rest, unit)[i - 1]);
            }
        }
    }
}

/// Cuts `bytes` into pieces of `unit_size` bytes; the last piece holds what
/// is left. With a unit of 0 nothing is cut: the bytes are one piece.
pub fn split(bytes: &[u8], unit_size: usize) -> (chunks: Vec<Vec<u8>>)
    ensures
        chunks_view(chunks@) == chunks_of(bytes@, unit_size as nat),
        concat(chunks_view(chunks@)) == bytes@,
        chunks@.len() >= 1,
        unit_size == 0 || bytes@.len() <= unit_size ==> chunks@.len() == 1,
        unit_size > 0 ==> forall|i: int|
            0 <= i < chunks@.len() ==> (#[trigger] chunks@[i])@.len() <= unit_size,
{
    let mut chunks: Vec<Vec<u8>> = Vec::new();
    let mut pos: usize = 0;
    let ghost unit = unit_size as nat;
    proof {
        assert(bytes@.skip(0) =~= bytes@);
        assert(chunks_view(chunks@) =~= Seq::<Seq<u8>>::empty());
        assert(chunks_view(chunks@) + chunks_of(bytes@, unit) =~= chunks_of(bytes@, unit));
    }
    while unit_size > 0 && bytes.len() - pos > unit_size
        invariant
            unit == unit_size as nat,
            pos <= bytes@.len(),
            chunks_of(bytes@, unit) == chunks_view(chunks@) + chunks_of(
                bytes@.skip(pos as int),
                unit,
            ),
        decreases bytes@.len() - pos,
    {
        let end: usize = pos + unit_size;
        let piece = slice_to_vec(slice_subrange(bytes, pos, end));
        let ghost before = chunks_view(chunks@);
        let ghost rest = bytes@.skip(pos as int);
        chunks.push(piece);
        proof {
            assert(piece@ =~= rest.take(unit as int));
            assert(rest.skip(unit as int) =~= bytes@.skip(end as int));
            assert(chunks_view(chunks@) =~= before.push(piece@));
            assert(before.push(piece@) + chunks_of(bytes@.skip(end as int), unit) =~= before + (
                seq![piece@] + chunks_of(bytes@.skip(end as int), unit)));
        }
        pos = end;
    }
    let last = slice_to_vec(slice_subrange(bytes, pos, bytes.len()));
    let ghost before = chunks_view(chunks@);
    chunks.push(last);
    proof {
        assert(last@ =~= bytes@.skip(pos as int));
        assert(chunks_view(chunks@) =~= before.push(last@));
        assert(before.push(last@) =~= before + seq![last@]);
        lemma_concat_chunks(bytes@, unit);
        if unit_size > 0 {
            lemma_chunk_sizes(bytes@, unit);
            assert forall|i: int| 0 <= i < chunks@.len() implies (#[trigger] chunks@[i])@.len()
                <= unit_size by {
                assert(chunks_view(chunks@)[i] == chunks@[i]@);
            }
        }
    }
    chunks
}

} // verus!
