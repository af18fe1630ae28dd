//! Splitting a payload into bounded-size chunks.
//!
//! A frame carries at most 65 535 payload bytes, so anything larger is
//! streamed as several frames. The split is canonical: every chunk but
//! the last is full, the last holds the remainder, and even an empty
//! payload yields one (empty) chunk, since a file transfer always emits
//! at least one content frame.

use vstd::prelude::*;
use vstd::seq_lib::lemma_flatten_concat;

verus! {

/// The most payload bytes one frame can carry.
pub const MAX_CHUNK: usize = 65535;

/// The canonical split of a payload into chunks: full chunks of
/// `MAX_CHUNK` bytes, then the remainder. Always at least one chunk.
pub open spec fn spec_chunks(data: Seq<u8>) -> Seq<Seq<u8>>
    decreases data.len(),
{
    if data.len() <= MAX_CHUNK {
        seq![data]
    } else {
        seq![data.take(MAX_CHUNK as int)] + spec_chunks(data.skip(MAX_CHUNK as int))
    }
}

/// Chunking loses nothing and reorders nothing: the chunks, concatenated
/// in order, are exactly the original payload.
pub proof fn lemma_chunks_flatten(data: Seq<u8>)
    ensures
        spec_chunks(data).flatten() == data,
    decreases data.len(),
{
    if data.len() <= MAX_CHUNK {
        spec_chunks(data).lemma_flatten_one_element();
        assert(spec_chunks(data).first() == data);
    } else {
        let head = seq![data.take(MAX_CHUNK as int)];
        let tail = spec_chunks(data.skip(MAX_CHUNK as int));
        lemma_chunks_flatten(data.skip(MAX_CHUNK as int));
        lemma_flatten_concat(head, tail);
        head.lemma_flatten_one_element();
        assert(head.flatten() == data.take(MAX_CHUNK as int));
        assert(data.take(MAX_CHUNK as int) + data.skip(MAX_CHUNK as int) =~= data);
    }
}

/// The shape of the split: there is at least one chunk, no chunk exceeds
/// the frame cap, every chunk but the last is exactly full, and the chunk
/// count is exactly one more than `(len - 1) / MAX_CHUNK` for a nonempty
/// payload (one chunk for an empty one). In particular a payload longer
/// than `k * MAX_CHUNK` bytes needs more than `k` frames.
pub proof fn lemma_chunks_shape(data: Seq<u8>)
    ensures
        spec_chunks(data).len() >= 1,
        forall|i: int|
            0 <= i < spec_chunks(data).len() ==> (#[trigger] spec_chunks(data)[i]).len()
                <= MAX_CHUNK,
        forall|i: int|
            0 <= i < spec_chunks(data).len() - 1 ==> (#[trigger] spec_chunks(data)[i]).len()
                == MAX_CHUNK,
        data.len() <= spec_chunks(data).len() * (MAX_CHUNK as int),
        spec_chunks(data).len() == if data.len() == 0 {
            1int
        } else {
            (data.len() - 1) / (MAX_CHUNK as int) + 1
        },
    decreases data.len(),
{
    if data.len() <= MAX_CHUNK {
    } else {
        let rest = data.skip(MAX_CHUNK as int);
        lemma_chunks_shape(rest);
        let n = spec_chunks(data).len();
        assert(spec_chunks(data) == seq![data.take(MAX_CHUNK as int)] + spec_chunks(rest));
        assert(forall|i: int|
            1 <= i < n ==> spec_chunks(data)[i] == #[trigger] spec_chunks(rest)[i - 1]);
        assert(rest.len() == data.len() - MAX_CHUNK);
        assert((data.len() - 1) / (MAX_CHUNK as int) == (rest.len() - 1) / (MAX_CHUNK as int)
            + 1) by (nonlinear_arith)
            requires
                rest.len() == data.len() - MAX_CHUNK,
                rest.len() >= 1,
        ;
    }
}

/// Copy `data[start..end]` into a fresh vector.
fn copy_range(data: &Vec<u8>, start: usize, end: usize) -> (r: Vec<u8>)
    requires
        start <= end <= data@.len(),
    ensures
        r@ == data@.subrange(start as int, end as int),
{
    let mut r: Vec<u8> = Vec::new();
    let mut i: usize = start;
    while i < end
        invariant
            start <= i <= end <= data@.len(),
            r@ == data@.subrange(start as int, i as int),
        decreases end - i,
    {
        r.push(data[i]);
        proof {
            assert(r@ =~= data@.subrange(start as int, i + 1));
        }
        i = i + 1;
    }
    r
}

/// Copy a whole payload into a fresh vector.
pub fn copy_bytes(data: &Vec<u8>) -> (r: Vec<u8>)
    ensures
        r@ == data@,
{
    let r = copy_range(data, 0, data.len());
    proof {
        assert(data@.subrange(0, data@.len() as int) =~= data@);
    }
    r
}

/// Append a payload to an accumulator, byte for byte, in order.
pub fn append_bytes(dst: &mut Vec<u8>, src: &Vec<u8>)
    ensures
        final(dst)@ == old(dst)@ + src@,
{
    let n = src.len();
    let mut i: usize = 0;
    while i < n
        invariant
            i <= n,
            n == src@.len(),
            dst@ == old(dst)@ + src@.take(i as int),
        decreases n - i,
    {
        dst.push(src[i]);
        proof {
            assert(old(dst)@ + src@.take(i as int) + seq![src@[i as int]] =~= old(dst)@
                + src@.take(i + 1));
        }
        i = i + 1;
    }
    proof {
        assert(old(dst)@ + src@.take(n as int) =~= old(dst)@ + src@);
    }
}

/// The views of a sequence of byte vectors.
pub open spec fn chunk_views(chunks: Seq<Vec<u8>>) -> Seq<Seq<u8>> {
    chunks.map_values(|c: Vec<u8>| c@)
}

/// Split a payload into its canonical chunks.
pub fn chunk_payload(data: &Vec<u8>) -> (r: Vec<Vec<u8>>)
    ensures
        chunk_views(r@) == spec_chunks(data@),
{
    let mut r: Vec<Vec<u8>> = Vec::new();
    let mut pos: usize = 0;
    let n = data.len();
    proof {
        assert(data@.skip(0) =~= data@);
        assert(chunk_views(r@) + spec_chunks(data@) =~= spec_chunks(data@));
    }
    while n - pos > MAX_CHUNK
        invariant
            pos <= n,
            n == data@.len(),
            spec_chunks(data@) == chunk_views(r@) + spec_chunks(data@.skip(pos as int)),
        decreases n - pos,
    {
        let chunk = copy_range(data, pos, pos + MAX_CHUNK);
        proof {
            let tail = data@.skip(pos as int);
            assert(chunk@ =~= tail.take(MAX_CHUNK as int));
            assert(tail.skip(MAX_CHUNK as int) =~= data@.skip(pos + MAX_CHUNK));
            assert(chunk_views(r@.push(chunk)) =~= chunk_views(r@) + seq![chunk@]);
            assert(chunk_views(r@) + (seq![tail.take(MAX_CHUNK as int)] + spec_chunks(
                tail.skip(MAX_CHUNK as int),
            )) =~= (chunk_views(r@) + seq![chunk@]) + spec_chunks(data@.skip(pos + MAX_CHUNK)));
        }
        r.push(chunk);
        pos = pos + MAX_CHUNK;
    }
    let last = copy_range(data, pos, n);
    proof {
        assert(last@ =~= data@.skip(pos as int));
        assert(chunk_views(r@.push(last)) =~= chunk_views(r@) + seq![last@]);
        assert(chunk_views(r@) + spec_chunks(data@.skip(pos as int)) =~= chunk_views(
            r@.push(last),
        ));
    }
    r.push(last);
    r
}

} // verus!
