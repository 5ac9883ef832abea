//! The download engine's decisions: what the first chunk's response means,
//! how the remaining chunks are fetched, and per-chunk validation.

use vstd::prelude::*;

use crate::codec::{content_range_total, crt_shape, crt_total, hex_decode, hex_decode_spec};
use crate::errors::Error;

verus! {

/// What the first chunk of a download tells the engine to do next.
#[derive(Clone, Copy, Debug, PartialEq, Eq, Structural)]
pub enum FirstChunkStep {
    /// The body already is the whole artifact.
    Complete,
    /// The total size is known; fetch the rest of `[0, total)` in parallel.
    Parallel { total: u64 },
    /// The total size is unknown; keep fetching at successive offsets.
    Sequential,
}

/// The decision taken on the first chunk: `total` is the size announced by a
/// usable `Content-Range` header (when there was one), `body_len` the length
/// of the received body, `chunk_size` the configured download chunk size.
pub open spec fn classify_first_chunk_spec(total: Option<u64>, body_len: u64, chunk_size: u64) -> Result<
    FirstChunkStep,
    Error,
> {
    match total {
        Some(n) => {
            if body_len == n {
                Ok(FirstChunkStep::Complete)
            } else if body_len > n {
                Err(Error::CacheSize { expected_size: n, actual_size: body_len })
            } else if body_len != chunk_size {
                Err(Error::CacheChunkSize { expected_size: chunk_size, actual_size: body_len })
            } else {
                Ok(FirstChunkStep::Parallel { total: n })
            }
        },
        None => {
            if body_len < chunk_size {
                Ok(FirstChunkStep::Complete)
            } else if body_len == chunk_size {
                Ok(FirstChunkStep::Sequential)
            } else {
                Err(Error::CacheChunkSize { expected_size: chunk_size, actual_size: body_len })
            }
        },
    }
}

/// Classifies the first chunk of a download.
///
/// With a known total: the body may complete the artifact at once, exceed the
/// total (an error), or be a full first chunk of a longer artifact; a short
/// first chunk of a longer artifact is an error. Without a total: a short
/// body is the whole artifact, a full one means more may follow, and an
/// over-long one is an error.
pub fn classify_first_chunk(total: Option<u64>, body_len: u64, chunk_size: u64) -> (r: Result<
    FirstChunkStep,
    Error,
>)
    ensures
        r == classify_first_chunk_spec(total, body_len, chunk_size),
{
    match total {
        Some(n) => {
            if body_len == n {
                Ok(FirstChunkStep::Complete)
            } else if body_len > n {
                Err(Error::CacheSize { expected_size: n, actual_size: body_len })
            } else if body_len != chunk_size {
                Err(Error::CacheChunkSize { expected_size: chunk_size, actual_size: body_len })
            } else {
                Ok(FirstChunkStep::Parallel { total: n })
            }
        },
        None => {
            if body_len < chunk_size {
                Ok(FirstChunkStep::Complete)
            } else if body_len == chunk_size {
                Ok(FirstChunkStep::Sequential)
            } else {
                Err(Error::CacheChunkSize { expected_size: chunk_size, actual_size: body_len })
            }
        },
    }
}

/// The usable total size of the first response: present only when the status
/// was 206 Partial Content and the `Content-Range` value has the shape
/// `bytes A-B/N` with `N` a number that fits a `u64`.
pub fn first_chunk_total(status: u16, content_range: Option<&Vec<u8>>) -> (r: Option<u64>)
    ensures
        status != 206 ==> r is None,
        content_range is None ==> r is None,
        match (r, content_range) {
            (Some(n), Some(h)) => exists|i: int, j: int|
                crt_shape(h@, i, j) && crt_total(h@, j) == n,
            (None, Some(h)) => status == 206 ==> forall|i: int, j: int|
                crt_shape(h@, i, j) ==> crt_total(h@, j) > u64::MAX,
            _ => true,
        },
{
    if status != 206 {
        return None;
    }
    match content_range {
        None => None,
        Some(h) => content_range_total(h),
    }
}

/// A step of a sequential (unknown total size) download.
#[derive(Clone, Copy, Debug, PartialEq, Eq, Structural)]
pub enum SequentialStep {
    /// An empty chunk: the artifact ended exactly at the previous chunk.
    Finished,
    /// A short, non-empty chunk: the last piece of the artifact.
    FinalChunk,
    /// A full chunk: more may follow.
    Continue,
}

/// The decision taken on each chunk of a sequential download.
pub open spec fn sequential_step_spec(body_len: u64, chunk_size: u64) -> Result<
    SequentialStep,
    Error,
> {
    if body_len == 0 {
        Ok(SequentialStep::Finished)
    } else if body_len < chunk_size {
        Ok(SequentialStep::FinalChunk)
    } else if body_len == chunk_size {
        Ok(SequentialStep::Continue)
    } else {
        Err(Error::CacheChunkSize { expected_size: chunk_size, actual_size: body_len })
    }
}

/// Classifies one chunk of a sequential download: empty terminates, short
/// terminates after keeping the chunk, full continues, over-long fails.
pub fn sequential_step(body_len: u64, chunk_size: u64) -> (r: Result<SequentialStep, Error>)
    ensures
        r == sequential_step_spec(body_len, chunk_size),
{
    if body_len == 0 {
        Ok(SequentialStep::Finished)
    } else if body_len < chunk_size {
        Ok(SequentialStep::FinalChunk)
    } else if body_len == chunk_size {
        Ok(SequentialStep::Continue)
    } else {
        Err(Error::CacheChunkSize { expected_size: chunk_size, actual_size: body_len })
    }
}

/// A chunk of a known-size download must have exactly its planned length.
pub fn check_chunk_len(actual: u64, expected: u64) -> (r: Result<(), Error>)
    ensures
        match r {
            Ok(()) => actual == expected,
            Err(e) => actual != expected && e == (Error::CacheChunkSize {
                expected_size: expected,
                actual_size: actual,
            }),
        },
{
    if actual == expected {
        Ok(())
    } else {
        Err(Error::CacheChunkSize { expected_size: expected, actual_size: actual })
    }
}

/// Whether the remaining chunks of a known-size download need a concurrency
/// gate: they do when the artifact is larger than one full round of
/// `concurrency` chunks.
pub fn parallel_needs_gate(total: u64, chunk_size: u64, concurrency: u32) -> (r: bool)
    ensures
        r == ((total as int) > (chunk_size as int) * (concurrency as int)),
{
    proof {
        assert((chunk_size as int) * (concurrency as int) < 0x1_0000_0000_0000_0000_0000_0000i128)
            by (nonlinear_arith)
        requires
            chunk_size <= u64::MAX && concurrency <= u32::MAX,
        ;
    }
    (total as u128) > (chunk_size as u128) * (concurrency as u128)
}

/// A download whose first chunk announced a total of `total` bytes and whose
/// remaining bodies match a chunk plan of `[chunk, total)` assembles to
/// exactly `total` bytes.
pub proof fn lemma_get_returns_total(
    total: u64,
    chunk: u64,
    first: Seq<u8>,
    rest: Seq<Seq<u8>>,
    plan: Seq<crate::chunks::ChunkRange>,
)
    requires
        first.len() <= u64::MAX,
        classify_first_chunk_spec(Some(total), first.len() as u64, chunk) == Ok::<
            FirstChunkStep,
            Error,
        >(FirstChunkStep::Parallel { total }),
        crate::chunks::is_chunk_plan(plan, chunk as int, total as int, chunk as int),
        rest.len() == plan.len(),
        forall|i: int| 0 <= i < plan.len() ==> (#[trigger] rest[i]).len() == plan[i].len,
    ensures
        (seq![first] + rest).flatten().len() == total,
{
    assert(first.len() == chunk && chunk < total);
    crate::chunks::lemma_matching_bodies_len(plan, rest, chunk as int, total as int, chunk as int);
    vstd::seq_lib::lemma_flatten_concat(seq![first], rest);
    seq![first].lemma_flatten_one_element();
}

/// The MD5 digest of a byte sequence, as the `md5` crate computes it.
pub uninterp spec fn md5_of(data: Seq<u8>) -> Seq<u8>;

/// Relies on `md5::Md5::digest`: the digest is a function of the input bytes
/// alone and is 16 bytes long.
#[verifier::external_body]
fn md5_digest(data: &Vec<u8>) -> (r: Vec<u8>)
    ensures
        r@ == md5_of(data@),
        r@.len() == 16,
{
    <md5::Md5 as md5::Digest>::digest(data.as_slice()).as_slice().to_vec()
}

/// A chunk passes the integrity check when there is no `Content-MD5` header,
/// when the header is not valid hex (it is then ignored), or when it decodes
/// to exactly the MD5 digest of the body.
pub open spec fn md5_matches(body: Seq<u8>, header: Option<Seq<u8>>) -> bool {
    match header {
        None => true,
        Some(h) => match hex_decode_spec(h) {
            None => true,
            Some(d) => d == md5_of(body),
        },
    }
}

/// Verifies a chunk body against its `Content-MD5` header, if any.
pub fn check_chunk_md5(body: &Vec<u8>, header: Option<&Vec<u8>>) -> (r: Result<(), Error>)
    ensures
        match r {
            Ok(()) => md5_matches(
                body@,
                match header {
                    Some(h) => Some(h@),
                    None => None,
                },
            ),
            Err(e) => !md5_matches(
                body@,
                match header {
                    Some(h) => Some(h@),
                    None => None,
                },
            ) && e == Error::CacheChunkChecksum,
        },
{
    let h = match header {
        None => {
            return Ok(());
        },
        Some(h) => h,
    };
    let decoded = match hex_decode(h) {
        None => {
            return Ok(());
        },
        Some(d) => d,
    };
    let digest = md5_digest(body);
    let mut i: usize = 0;
    if decoded.len() != digest.len() {
        assert(decoded@ != md5_of(body@));
        return Err(Error::CacheChunkChecksum);
    }
    while i < decoded.len()
        invariant
            i <= decoded@.len() == digest@.len(),
            digest@ == md5_of(body@),
            header == Some(h),
            hex_decode_spec(h@) == Some(decoded@),
            forall|k: int| 0 <= k < i ==> decoded@[k] == digest@[k],
        decreases decoded@.len() - i,
    {
        if decoded[i] != digest[i] {
            assert(decoded@ != md5_of(body@));
            return Err(Error::CacheChunkChecksum);
        }
        i = i + 1;
    }
    proof {
        assert(decoded@ =~= digest@);
    }
    Ok(())
}

} // verus!
