//! Chunk plans: how a transfer of known total size is cut into contiguous
//! byte ranges, and why reassembling the pieces gives back the whole.

use vstd::prelude::*;

verus! {

/// One contiguous byte range `[start, start + len)` of a transfer.
#[derive(Clone, Copy, Debug, PartialEq, Eq, Structural)]
pub struct ChunkRange {
    pub start: u64,
    pub len: u64,
}

/// `plan` cuts `[lo, total)` into contiguous ranges: the first starts at
/// `lo`, each next range starts where the previous ended, the last ends at
/// `total`, every range except the last is exactly `chunk` long, and every
/// range is non-empty, at most `chunk` long, and ends within `total`.
pub open spec fn is_chunk_plan(plan: Seq<ChunkRange>, lo: int, total: int, chunk: int) -> bool {
    &&& (plan.len() == 0 <==> lo >= total)
    &&& (plan.len() > 0 ==> plan[0].start == lo)
    &&& (plan.len() > 0 ==> plan.last().start + plan.last().len == total)
    &&& (forall|i: int| 0 <= i < plan.len() - 1 ==> (#[trigger] plan[i].len) == chunk)
    &&& (forall|i: int|
        0 < i < plan.len() ==> (#[trigger] plan[i].start) == plan[i - 1].start + plan[i - 1].len)
    &&& (forall|i: int| 0 <= i < plan.len() ==> 1 <= (#[trigger] plan[i].len) <= chunk)
    &&& (forall|i: int|
        0 <= i < plan.len() ==> (#[trigger] plan[i].start) + plan[i].len <= total)
}

/// Cuts `[lo, total)` into a chunk plan with chunk size `chunk`.
pub fn plan_chunks(lo: u64, total: u64, chunk: u64) -> (r: Vec<ChunkRange>)
    requires
        chunk >= 1,
        lo <= total,
    ensures
        is_chunk_plan(r@, lo as int, total as int, chunk as int),
{
    let mut plan: Vec<ChunkRange> = Vec::new();
    let mut start: u64 = lo;
    while start < total
        invariant
            lo <= start <= total,
            chunk >= 1,
            start == if plan@.len() == 0 {
                lo as int
            } else {
                plan@.last().start + plan@.last().len
            },
            plan@.len() == 0 ==> start == lo,
            plan@.len() > 0 ==> plan@[0].start == lo,
            plan@.len() > 0 ==> (plan@.last().len == chunk || start == total),
            forall|i: int| 0 <= i < plan@.len() - 1 ==> (#[trigger] plan@[i].len) == chunk,
            forall|i: int|
                0 < i < plan@.len() ==> (#[trigger] plan@[i].start) == plan@[i - 1].start + plan@[i
                    - 1].len,
            forall|i: int| 0 <= i < plan@.len() ==> 1 <= (#[trigger] plan@[i].len) <= chunk,
            forall|i: int|
                0 <= i < plan@.len() ==> (#[trigger] plan@[i].start) + plan@[i].len <= start,
        decreases total - start,
    {
        let len: u64 = if total - start < chunk {
            total - start
        } else {
            chunk
        };
        let ghost prev = plan@;
        plan.push(ChunkRange { start, len });
        proof {
            assert(plan@.drop_last() =~= prev);
            assert forall|i: int| 0 <= i < plan@.len() - 1 implies (#[trigger] plan@[i].len)
                == chunk by {
                if i == plan@.len() - 2 && prev.len() > 0 {
                    assert(prev.last().len == chunk || start == total);
                }
            }
        }
        start = start + len;
    }
    plan
}

/// Range `i` of a chunk plan starts at `lo + i * chunk`.
pub proof fn lemma_chunk_plan_start_at(
    plan: Seq<ChunkRange>,
    lo: int,
    total: int,
    chunk: int,
    i: int,
)
    requires
        is_chunk_plan(plan, lo, total, chunk),
        0 <= i < plan.len(),
    ensures
        plan[i].start == lo + i * chunk,
    decreases i,
{
    if i == 0 {
        assert(plan[0].start == lo);
    } else {
        lemma_chunk_plan_start_at(plan, lo, total, chunk, i - 1);
        assert(plan[i - 1].len == chunk);
        assert((lo + (i - 1) * chunk) + chunk == lo + i * chunk) by (nonlinear_arith);
    }
}

/// The pieces of `data` that a plan names, in plan order.
pub open spec fn slices_of(plan: Seq<ChunkRange>, data: Seq<u8>) -> Seq<Seq<u8>> {
    Seq::new(plan.len(), |i: int| data.subrange(plan[i].start as int, plan[i].start + plan[i].len))
}

/// Dropping the first range of a chunk plan leaves a chunk plan of the rest.
#[verifier::rlimit(30)]
proof fn lemma_chunk_plan_drop_first(plan: Seq<ChunkRange>, lo: int, total: int, chunk: int)
    requires
        is_chunk_plan(plan, lo, total, chunk),
        plan.len() > 0,
    ensures
        is_chunk_plan(plan.drop_first(), plan[0].start + plan[0].len, total, chunk),
{
    let rest = plan.drop_first();
    let lo2 = plan[0].start + plan[0].len;
    assert(forall|i: int| 0 <= i < rest.len() ==> rest[i] == plan[i + 1]);
    if rest.len() == 0 {
        assert(plan.last() == plan[0]);
        assert(lo2 == total);
    } else {
        assert(rest[0] == plan[1]);
        assert(rest[0].start == lo2);
        assert(rest.last() == plan.last());
        assert(rest[0].start + rest[0].len <= total);
        assert(lo2 < total);
    }
}

/// Concatenating, in order, the pieces of `data` that a chunk plan of
/// `[lo, data.len())` names gives back `data[lo..]`: the ranges cover the
/// whole interval once each.
pub proof fn lemma_plan_reconstructs(plan: Seq<ChunkRange>, data: Seq<u8>, lo: int, chunk: int)
    requires
        is_chunk_plan(plan, lo, data.len() as int, chunk),
        0 <= lo <= data.len(),
    ensures
        slices_of(plan, data).flatten() == data.subrange(lo, data.len() as int),
    decreases plan.len(),
{
    let slices = slices_of(plan, data);
    if plan.len() == 0 {
        assert(slices.flatten() =~= data.subrange(lo, data.len() as int));
    } else {
        let mid = plan[0].start + plan[0].len;
        lemma_chunk_plan_drop_first(plan, lo, data.len() as int, chunk);
        lemma_plan_reconstructs(plan.drop_first(), data, mid, chunk);
        assert(slices_of(plan.drop_first(), data) =~= slices.drop_first());
        assert(slices.flatten() == slices[0] + slices.drop_first().flatten());
        assert(data.subrange(lo, mid) + data.subrange(mid, data.len() as int) =~= data.subrange(
            lo,
            data.len() as int,
        ));
    }
}

/// Bodies whose lengths match a chunk plan of `[lo, total)` concatenate to
/// exactly `total - lo` bytes.
pub proof fn lemma_matching_bodies_len(
    plan: Seq<ChunkRange>,
    bodies: Seq<Seq<u8>>,
    lo: int,
    total: int,
    chunk: int,
)
    requires
        is_chunk_plan(plan, lo, total, chunk),
        lo <= total,
        bodies.len() == plan.len(),
        forall|i: int| 0 <= i < plan.len() ==> (#[trigger] bodies[i]).len() == plan[i].len,
    ensures
        bodies.flatten().len() == total - lo,
    decreases plan.len(),
{
    if plan.len() == 0 {
        assert(bodies.flatten().len() == 0);
    } else {
        let lo2 = plan[0].start + plan[0].len;
        lemma_chunk_plan_drop_first(plan, lo, total, chunk);
        assert(forall|i: int|
            0 <= i < plan.drop_first().len() ==> (#[trigger] bodies.drop_first()[i]).len()
                == plan.drop_first()[i].len);
        lemma_matching_bodies_len(plan.drop_first(), bodies.drop_first(), lo2, total, chunk);
        assert(bodies.flatten() == bodies.first() + bodies.drop_first().flatten());
        assert(plan[0].start == lo);
    }
}

/// The round trip of a whole artifact: cutting `data` by a chunk plan of
/// `[0, data.len())` and concatenating the pieces back in offset order
/// yields `data` — nothing is lost, duplicated or reordered.
pub proof fn lemma_slices_round_trip(plan: Seq<ChunkRange>, data: Seq<u8>, chunk: int)
    requires
        is_chunk_plan(plan, 0, data.len() as int, chunk),
    ensures
        slices_of(plan, data).flatten() == data,
{
    lemma_plan_reconstructs(plan, data, 0, chunk);
    assert(data.subrange(0, data.len() as int) =~= data);
}

/// Copies `data[start..start + len]` into a fresh vector.
pub fn slice_range(data: &Vec<u8>, start: usize, len: usize) -> (r: Vec<u8>)
    requires
        start + len <= data@.len(),
    ensures
        r@ == data@.subrange(start as int, start + len),
{
    let dlen: usize = data.len();
    let mut out: Vec<u8> = Vec::new();
    let mut i: usize = 0;
    while i < len
        invariant
            i <= len,
            start + len <= dlen == data@.len(),
            out@ =~= data@.subrange(start as int, start + i),
        decreases len - i,
    {
        out.push(data[start + i]);
        assert(out@ =~= data@.subrange(start as int, start + i + 1));
        i = i + 1;
    }
    out
}

/// The views of a vector of byte vectors.
pub open spec fn views_of(chunks: Seq<Vec<u8>>) -> Seq<Seq<u8>> {
    Seq::new(chunks.len(), |i: int| chunks[i]@)
}

/// Concatenates the chunks, in order, into one contiguous buffer.
pub fn concat_chunks(chunks: &Vec<Vec<u8>>) -> (r: Vec<u8>)
    ensures
        r@ == views_of(chunks@).flatten(),
{
    let mut out: Vec<u8> = Vec::new();
    let mut i: usize = 0;
    while i < chunks.len()
        invariant
            i <= chunks@.len(),
            out@ == views_of(chunks@.take(i as int)).flatten(),
        decreases chunks@.len() - i,
    {
        out.extend_from_slice(chunks[i].as_slice());
        proof {
            let front = views_of(chunks@.take(i as int));
            let elem = chunks@[i as int]@;
            front.lemma_flatten_push(elem);
            assert(views_of(chunks@.take(i + 1)) =~= front.push(elem));
        }
        i = i + 1;
    }
    proof {
        assert(chunks@.take(chunks@.len() as int) =~= chunks@);
    }
    out
}

} // verus!
