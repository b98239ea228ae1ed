//! Cutting a sample sequence into chunks of a fixed width, and putting chunks
//! back together.

use crate::error::EngineError;
use vstd::prelude::*;
use vstd::slice::slice_to_vec;

verus! {

/// How many chunks of `width` samples it takes to hold `len` samples: the
/// quotient rounded up. No width, no chunks.
pub open spec fn chunk_count(len: nat, width: nat) -> nat {
    if width == 0 {
        0
    } else {
        ((len + width - 1) / (width as int)) as nat
    }
}

/// The chunk at position `index`: the samples from `index * width` on, up to
/// `width` of them, fewer where the sequence ends before that.
pub open spec fn chunk_at(data: Seq<u64>, width: nat, index: int) -> Seq<u64> {
    let start = index * width;
    let end = if start + width <= data.len() {
        start + width
    } else {
        data.len() as int
    };
    data.subrange(start, end)
}

/// The chunks of `data`, in order.
pub open spec fn chunks_of(data: Seq<u64>, width: nat) -> Seq<Seq<u64>> {
    Seq::new(chunk_count(data.len(), width), |index: int| chunk_at(data, width, index))
}

/// The contents of a list of vectors, as a sequence of sequences.
pub open spec fn rows(parts: Seq<Vec<u64>>) -> Seq<Seq<u64>> {
    Seq::new(parts.len(), |index: int| parts[index]@)
}

/// Rounding the quotient up: `count` chunks are enough, `count - 1` are not.
pub proof fn lemma_chunk_count_bounds(len: nat, width: nat)
    requires
        width > 0,
    ensures
        len <= chunk_count(len, width) * width,
        len > 0 ==> (chunk_count(len, width) - 1) * width < len,
        len == 0 ==> chunk_count(len, width) == 0,
{
    let count = (len + width - 1) / (width as int);
    assert(count * width <= len + width - 1 < count * width + width && (len == 0 ==> count == 0))
        by (nonlinear_arith)
        requires
            width > 0,
            len >= 0,
            count == (len + width - 1) / (width as int),
    ;
    assert((count - 1) * width == count * width - width) by (nonlinear_arith);
}

/// The number of chunks is the only `count` with
/// `(count - 1) * width < len <= count * width`.
pub proof fn lemma_chunk_count_unique(len: nat, width: nat, count: nat)
    requires
        width > 0,
        len <= count * width,
        count > 0 ==> (count - 1) * width < len,
    ensures
        chunk_count(len, width) == count,
{
    lemma_chunk_count_bounds(len, width);
    let actual = chunk_count(len, width);
    assert(actual == count) by (nonlinear_arith)
        requires
            width > 0,
            len <= count * width,
            count > 0 ==> (count - 1) * width < len,
            len <= actual * width,
            len > 0 ==> (actual - 1) * width < len,
            len == 0 ==> actual == 0,
    ;
}

/// Every chunk but the last holds `width` samples; the last holds what is
/// left, which is `len % width` samples, or `width` where that is zero.
pub proof fn lemma_chunk_lengths(data: Seq<u64>, width: nat, index: int)
    requires
        width > 0,
        0 <= index < chunk_count(data.len(), width),
    ensures
        index < chunk_count(data.len(), width) - 1 ==> chunk_at(data, width, index).len() == width,
        index == chunk_count(data.len(), width) - 1 ==> chunk_at(data, width, index).len() == (
        if data.len() % width == 0 {
            width
        } else {
            data.len() % width
        }),
        0 < chunk_at(data, width, index).len() <= width,
        index * width + chunk_at(data, width, index).len() <= data.len(),
{
    let len = data.len();
    let count = chunk_count(len, width);
    lemma_chunk_count_bounds(len, width);
    assert(index * width <= (count - 1) * width) by (nonlinear_arith)
        requires
            0 <= index <= count - 1,
            width > 0,
    ;
    assert(index * width >= 0) by (nonlinear_arith)
        requires
            0 <= index,
            width > 0,
    ;
    if index < count - 1 {
        assert(index * width + width <= (count - 1) * width) by (nonlinear_arith)
            requires
                0 <= index < count - 1,
                width > 0,
        ;
    } else {
        assert(len % width == if len == count * width {
            0
        } else {
            len - (count - 1) * width
        }) by (nonlinear_arith)
            requires
                width > 0,
                count >= 1,
                (count - 1) * width < len <= count * width,
        ;
        assert((count - 1) * width + width == count * width) by (nonlinear_arith);
    }
}

/// Cuts `data` into chunks of `dimensions` samples, the last one shorter where
/// the length is no multiple of the width. A width of zero is refused before
/// anything is cut; an empty sequence gives no chunks.
pub fn chunk_samples(data: &[u64], dimensions: usize) -> (r: Result<Vec<Vec<u64>>, EngineError>)
    ensures
        dimensions == 0 ==> r == Err::<Vec<Vec<u64>>, EngineError>(EngineError::InvalidDimension),
        dimensions > 0 ==> r is Ok && rows(r->Ok_0@) == chunks_of(data@, dimensions as nat),
        r matches Ok(chunks) ==> chunks@.len() == chunk_count(data@.len(), dimensions as nat),
{
    if dimensions == 0 {
        return Err(EngineError::InvalidDimension);
    }
    let len = data.len();
    let ghost width = dimensions as nat;
    let mut chunks: Vec<Vec<u64>> = Vec::new();
    let mut start: usize = 0;
    proof {
        lemma_chunk_count_bounds(0, width);
    }
    while start < len
        invariant
            len == data@.len(),
            width == dimensions,
            dimensions > 0,
            start <= len,
            start < len ==> start == chunks.len() * width,
            start == len ==> chunks.len() == chunk_count(len as nat, width),
            forall|k: int|
                0 <= k < chunks.len() ==> (#[trigger] chunks@[k])@ == chunk_at(data@, width, k),
        decreases len - start,
    {
        let end: usize = if len - start <= dimensions {
            len
        } else {
            start + dimensions
        };
        let chunk = slice_to_vec(&data[start..end]);
        proof {
            let index = chunks.len() as int;
            assert(chunk@ == chunk_at(data@, width, index));
            assert((index + 1) * width == index * width + width) by (nonlinear_arith);
            if end == len {
                lemma_chunk_count_unique(len as nat, width, (index + 1) as nat);
            }
        }
        chunks.push(chunk);
        start = end;
    }
    proof {
        assert(rows(chunks@) =~= chunks_of(data@, width));
    }
    Ok(chunks)
}

/// Joins the parts, in order, into one vector.
pub fn concatenate(parts: &Vec<Vec<u64>>) -> (out: Vec<u64>)
    ensures
        out@ == rows(parts@).flatten(),
{
    let mut out: Vec<u64> = Vec::new();
    let mut index: usize = 0;
    while index < parts.len()
        invariant
            index <= parts.len(),
            out@ == rows(parts@).take(index as int).flatten(),
        decreases parts.len() - index,
    {
        let part = &parts[index];
        let ghost before = out@;
        let mut offset: usize = 0;
        while offset < part.len()
            invariant
                offset <= part.len(),
                out@ == before + part@.take(offset as int),
            decreases part.len() - offset,
        {
            out.push(part[offset]);
            offset += 1;
        }
        proof {
            let joined = rows(parts@).take(index as int);
            assert(part@.take(part.len() as int) == part@);
            assert(rows(parts@).take(index + 1) == joined.push(part@));
            joined.lemma_flatten_push(part@);
        }
        index += 1;
    }
    proof {
        assert(rows(parts@).take(parts.len() as int) == rows(parts@));
    }
    out
}

/// The chunks of a sequence, joined in order, are the sequence: the first
/// `count` chunks together hold the first `count * width` samples.
pub proof fn lemma_chunks_prefix(data: Seq<u64>, width: nat, count: nat)
    requires
        width > 0,
        count <= chunk_count(data.len(), width),
    ensures
        chunks_of(data, width).take(count as int).flatten() == data.take(
            if count * width <= data.len() {
                (count * width) as int
            } else {
                data.len() as int
            },
        ),
    decreases count,
{
    let all = chunks_of(data, width);
    if count == 0 {
        assert(all.take(0) =~= Seq::<Seq<u64>>::empty());
        assert(0 * width == 0) by (nonlinear_arith);
        assert(data.take(0) =~= Seq::<u64>::empty());
    } else {
        let prev = (count - 1) as nat;
        lemma_chunks_prefix(data, width, prev);
        lemma_chunk_lengths(data, width, prev as int);
        assert(count * width == prev * width + width) by (nonlinear_arith)
            requires
                count == prev + 1,
        ;
        assert(all.take(count as int) =~= all.take(prev as int).push(chunk_at(data, width, prev as int)));
        all.take(prev as int).lemma_flatten_push(chunk_at(data, width, prev as int));
        assert(all.take(count as int).flatten() =~= data.take(
            if count * width <= data.len() {
                (count * width) as int
            } else {
                data.len() as int
            },
        ));
    }
}

/// Cutting and joining again gives back the samples.
pub proof fn lemma_chunks_join(data: Seq<u64>, width: nat)
    requires
        width > 0,
    ensures
        chunks_of(data, width).flatten() == data,
{
    let count = chunk_count(data.len(), width);
    lemma_chunks_prefix(data, width, count);
    lemma_chunk_count_bounds(data.len(), width);
    assert(chunks_of(data, width).take(count as int) =~= chunks_of(data, width));
    assert(data.take(data.len() as int) =~= data);
}

} // verus!
