//! Cutting a payload into the chunks in which it is uploaded, and the proof
//! that the chunks, put together in order, are the payload again.

use vstd::prelude::*;

verus! {

/// The most bytes that one chunk carries. It is safely under the largest
/// message that the remote transport takes.
pub const MAX_CHUNK_SIZE: usize = 1_900_000;

/// The number of chunks that a payload of `len` bytes is uploaded in: as many
/// as it takes at [`MAX_CHUNK_SIZE`] bytes each, and one chunk for an empty
/// payload.
pub open spec fn spec_chunk_count(len: nat) -> nat {
    if len == 0 {
        1
    } else {
        ((len + 1_900_000 - 1) / 1_900_000) as nat
    }
}

/// The offset in the payload at which chunk `index` starts.
pub open spec fn spec_chunk_start(index: nat) -> nat {
    index * 1_900_000
}

/// The offset in a payload of `len` bytes at which chunk `index` ends.
pub open spec fn spec_chunk_end(len: nat, index: nat) -> nat {
    if (index + 1) * 1_900_000 <= len {
        (index + 1) * 1_900_000
    } else {
        len
    }
}

/// The bytes of chunk `index` of `payload`.
pub open spec fn spec_chunk(payload: Seq<u8>, index: int) -> Seq<u8> {
    payload.subrange(
        spec_chunk_start(index as nat) as int,
        spec_chunk_end(payload.len(), index as nat) as int,
    )
}

/// The chunks of `payload`, by ascending offset.
pub open spec fn spec_chunks(payload: Seq<u8>) -> Seq<Seq<u8>> {
    Seq::new(spec_chunk_count(payload.len()), |index: int| spec_chunk(payload, index))
}

/// The number of chunks is the length of the payload over the size of a
/// chunk, rounded up: the least number of chunks that hold all bytes, and
/// one chunk where there are no bytes.
pub proof fn lemma_chunk_count(len: nat)
    ensures
        spec_chunk_count(len) >= 1,
        len == 0 ==> spec_chunk_count(len) == 1,
        len > 0 ==> (spec_chunk_count(len) - 1) * MAX_CHUNK_SIZE < len <= spec_chunk_count(len)
            * MAX_CHUNK_SIZE,
{
}

/// Every chunk lies inside the payload and holds at most [`MAX_CHUNK_SIZE`]
/// bytes; every chunk but the last one is full; and a chunk is empty only
/// when the payload is.
pub proof fn lemma_chunk_bounds(len: nat, index: nat)
    requires
        index < spec_chunk_count(len),
    ensures
        spec_chunk_start(index) <= spec_chunk_end(len, index) <= len,
        spec_chunk_end(len, index) - spec_chunk_start(index) <= MAX_CHUNK_SIZE,
        index + 1 < spec_chunk_count(len) ==> spec_chunk_end(len, index) - spec_chunk_start(index)
            == MAX_CHUNK_SIZE,
        index + 1 == spec_chunk_count(len) ==> spec_chunk_end(len, index) == len,
        len > 0 ==> spec_chunk_start(index) < spec_chunk_end(len, index),
{
}

/// An empty payload is uploaded as exactly one chunk of no bytes.
pub proof fn lemma_empty_payload_has_one_empty_chunk(payload: Seq<u8>)
    requires
        payload.len() == 0,
    ensures
        spec_chunks(payload) == seq![Seq::<u8>::empty()],
{
    assert(spec_chunks(payload).len() == 1);
    assert(spec_chunks(payload)[0] =~= Seq::<u8>::empty());
    assert(spec_chunks(payload) =~= seq![Seq::<u8>::empty()]);
}

proof fn lemma_chunks_prefix(payload: Seq<u8>, count: nat)
    requires
        count <= spec_chunk_count(payload.len()),
    ensures
        spec_chunks(payload).take(count as int).flatten() == payload.take(
            if count == 0 {
                0
            } else {
                spec_chunk_end(payload.len(), (count - 1) as nat) as int
            },
        ),
    decreases count,
{
    let chunks = spec_chunks(payload);
    if count == 0 {
        assert(chunks.take(0).flatten() =~= payload.take(0));
    } else {
        let before = (count - 1) as nat;
        lemma_chunks_prefix(payload, before);
        lemma_chunk_bounds(payload.len(), before);
        if before > 0 {
            lemma_chunk_bounds(payload.len(), (before - 1) as nat);
        }
        assert(chunks.take(count as int) =~= chunks.take(before as int).push(chunks[before as int]));
        chunks.take(before as int).lemma_flatten_push(chunks[before as int]);
        assert(chunks.take(count as int).flatten() =~= payload.take(
            spec_chunk_end(payload.len(), before) as int,
        ));
    }
}

/// Putting the chunks of a payload together in order gives the payload back,
/// byte for byte, whatever its length.
pub proof fn lemma_chunks_reassemble(payload: Seq<u8>)
    ensures
        spec_chunks(payload).flatten() == payload,
        spec_chunks(payload).len() == spec_chunk_count(payload.len()),
{
    let chunks = spec_chunks(payload);
    let count = spec_chunk_count(payload.len());
    lemma_chunks_prefix(payload, count);
    lemma_chunk_bounds(payload.len(), (count - 1) as nat);
    assert(chunks.take(count as int) =~= chunks);
    assert(payload.take(payload.len() as int) =~= payload);
}

/// Computes the number of chunks that a payload of `len` bytes is uploaded in.
pub fn chunk_count(len: usize) -> (count: usize)
    ensures
        count == spec_chunk_count(len as nat),
        count >= 1,
{
    if len == 0 {
        1
    } else {
        let whole: usize = len / MAX_CHUNK_SIZE;
        if len % MAX_CHUNK_SIZE == 0 {
            whole
        } else {
            whole + 1
        }
    }
}

/// Computes where chunk `index` of a payload of `len` bytes starts and ends,
/// if the payload has such a chunk.
pub fn chunk_bounds(len: usize, index: usize) -> (bounds: Option<(usize, usize)>)
    ensures
        bounds is Some <==> index < spec_chunk_count(len as nat),
        bounds matches Some(found) ==> {
            &&& found.0 == spec_chunk_start(index as nat)
            &&& found.1 == spec_chunk_end(len as nat, index as nat)
            &&& found.0 <= found.1 <= len
        },
{
    if index >= chunk_count(len) {
        return None;
    }
    proof {
        lemma_chunk_bounds(len as nat, index as nat);
    }
    let start: usize = index * MAX_CHUNK_SIZE;
    let end: usize = if len - start > MAX_CHUNK_SIZE {
        start + MAX_CHUNK_SIZE
    } else {
        len
    };
    Some((start, end))
}

/// Borrows the bytes of chunk `index` of `payload`, if the payload has such
/// a chunk.
pub fn chunk<'a>(payload: &'a [u8], index: usize) -> (bytes: Option<&'a [u8]>)
    ensures
        bytes is Some <==> index < spec_chunk_count(payload@.len()),
        bytes matches Some(found) ==> found@ == spec_chunk(payload@, index as int) && found@
            == spec_chunks(payload@)[index as int],
{
    match chunk_bounds(payload.len(), index) {
        Some(bounds) => Some(vstd::slice::slice_subrange(payload, bounds.0, bounds.1)),
        None => None,
    }
}

} // verus!
