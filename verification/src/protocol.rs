//! The reserve / upload / commit protocol: status-code decisions, the wire
//! bodies and headers the client sends, and the state machine a `put` runs.

use vstd::prelude::*;

use crate::MAX_WIRE_SIZE;
use crate::codec::{
    ascii_bytes_to_string, ascii_chars_of, dec_u64, is_dec_digit, json_string,
    lemma_dec_u64_ascii, push_dec_u64, push_json_string,
};
use crate::errors::Error;
use vstd::string::StrSliceExecFns;
use vstd::string::StringSliceAdditionalSpecFns;

verus! {

/// An HTTP status is a success exactly when it lies in the 2xx range.
pub fn status_is_success(status: u16) -> (r: bool)
    ensures
        r == (200 <= status < 300),
{
    200 <= status && status < 300
}

/// The lookup response of the service: the entry a `GET cache` call returns.
#[derive(Debug, PartialEq, Eq)]
pub struct ArtifactCacheEntry {
    /// The candidate key that matched.
    pub cache_key: Option<String>,
    /// An opaque scope the service attaches to the entry.
    pub scope: Option<String>,
    /// When the entry was created, as the service renders it.
    pub creation_time: Option<String>,
    /// The signed URL the artifact can be downloaded from.
    pub archive_location: Option<String>,
}

/// What a lookup response's status means.
#[derive(Clone, Copy, Debug, PartialEq, Eq, Structural)]
pub enum LookupDecision {
    /// 204: no entry matches; not an error.
    Absent,
    /// Another success: the body holds the entry.
    ParseBody,
    /// Anything else: a service failure.
    Failed,
}

/// The decision taken on a lookup response's status.
pub open spec fn lookup_decision_spec(status: u16) -> LookupDecision {
    if status == 204 {
        LookupDecision::Absent
    } else if 200 <= status < 300 {
        LookupDecision::ParseBody
    } else {
        LookupDecision::Failed
    }
}

/// Classifies a lookup response's status.
pub fn lookup_decision(status: u16) -> (r: LookupDecision)
    ensures
        r == lookup_decision_spec(status),
{
    if status == 204 {
        LookupDecision::Absent
    } else if 200 <= status && status < 300 {
        LookupDecision::ParseBody
    } else {
        LookupDecision::Failed
    }
}

/// A parsed lookup entry succeeds only with a non-empty archive location.
pub fn entry_archive_location(entry: &ArtifactCacheEntry) -> (r: Result<&String, Error>)
    ensures
        match r {
            Ok(u) => entry.archive_location == Some(*u) && u@.len() > 0,
            Err(e) => e == Error::CacheNotFound && match entry.archive_location {
                Some(u) => u@.len() == 0,
                None => true,
            },
        },
{
    match &entry.archive_location {
        Some(u) => {
            if u.as_str().is_empty() {
                Err(Error::CacheNotFound)
            } else {
                Ok(u)
            }
        },
        None => Err(Error::CacheNotFound),
    }
}

/// What a reserve response's status means.
#[derive(Clone, Copy, Debug, PartialEq, Eq, Structural)]
pub enum ReserveDecision {
    /// 204 or 409: a concurrent writer owns the key and version; not an error.
    Absent,
    /// Another success: the body holds the cache id.
    Accepted,
    /// Anything else: a service failure.
    Failed,
}

/// The decision taken on a reserve response's status.
pub open spec fn reserve_decision_spec(status: u16) -> ReserveDecision {
    if status == 204 || status == 409 {
        ReserveDecision::Absent
    } else if 200 <= status < 300 {
        ReserveDecision::Accepted
    } else {
        ReserveDecision::Failed
    }
}

/// Classifies a reserve response's status.
pub fn reserve_decision(status: u16) -> (r: ReserveDecision)
    ensures
        r == reserve_decision_spec(status),
{
    if status == 204 || status == 409 {
        ReserveDecision::Absent
    } else if 200 <= status && status < 300 {
        ReserveDecision::Accepted
    } else {
        ReserveDecision::Failed
    }
}

// ---------------------------------------------------------------------------
// Wire bodies and headers
// ---------------------------------------------------------------------------

/// The bytes `{"key":`.
pub open spec fn lit_key_prefix() -> Seq<u8> {
    seq![123u8, 34u8, 107u8, 101u8, 121u8, 34u8, 58u8]
}

/// The bytes `,"version":`.
pub open spec fn lit_version_infix() -> Seq<u8> {
    seq![44u8, 34u8, 118u8, 101u8, 114u8, 115u8, 105u8, 111u8, 110u8, 34u8, 58u8]
}

/// The bytes `,"cacheSize":`.
pub open spec fn lit_cache_size_infix() -> Seq<u8> {
    seq![44u8, 34u8, 99u8, 97u8, 99u8, 104u8, 101u8, 83u8, 105u8, 122u8, 101u8, 34u8, 58u8]
}

/// The bytes `{"size":`.
pub open spec fn lit_size_prefix() -> Seq<u8> {
    seq![123u8, 34u8, 115u8, 105u8, 122u8, 101u8, 34u8, 58u8]
}

/// The JSON body of a reserve request, as a function of the key bytes, the
/// version bytes, and the artifact size.
pub open spec fn reserve_body_spec(key: Seq<u8>, version: Seq<u8>, size: u64) -> Seq<u8> {
    lit_key_prefix() + json_string(key) + lit_version_infix() + json_string(version)
        + lit_cache_size_infix() + dec_u64(size as nat) + seq![125u8]
}

/// Renders the JSON body `{"key":K,"version":V,"cacheSize":N}` of a reserve
/// request. Identical inputs render identical bytes.
pub fn reserve_request_body(key: &str, version: &str, size: u64) -> (r: Vec<u8>)
    ensures
        r@ == reserve_body_spec(key.spec_bytes(), version.spec_bytes(), size),
{
    let mut out: Vec<u8> = Vec::new();
    out.push(123u8);
    out.push(34u8);
    out.push(107u8);
    out.push(101u8);
    out.push(121u8);
    out.push(34u8);
    out.push(58u8);
    assert(out@ =~= lit_key_prefix());
    push_json_string(&mut out, &key.as_bytes_vec());
    out.push(44u8);
    out.push(34u8);
    out.push(118u8);
    out.push(101u8);
    out.push(114u8);
    out.push(115u8);
    out.push(105u8);
    out.push(111u8);
    out.push(110u8);
    out.push(34u8);
    out.push(58u8);
    assert(out@ =~= lit_key_prefix() + json_string(key.spec_bytes()) + lit_version_infix());
    push_json_string(&mut out, &version.as_bytes_vec());
    out.push(44u8);
    out.push(34u8);
    out.push(99u8);
    out.push(97u8);
    out.push(99u8);
    out.push(104u8);
    out.push(101u8);
    out.push(83u8);
    out.push(105u8);
    out.push(122u8);
    out.push(101u8);
    out.push(34u8);
    out.push(58u8);
    assert(out@ =~= lit_key_prefix() + json_string(key.spec_bytes()) + lit_version_infix()
        + json_string(version.spec_bytes()) + lit_cache_size_infix());
    push_dec_u64(&mut out, size);
    out.push(125u8);
    assert(out@ =~= reserve_body_spec(key.spec_bytes(), version.spec_bytes(), size));
    out
}

/// The JSON body of a commit request, as a function of the artifact size.
pub open spec fn commit_body_spec(size: u64) -> Seq<u8> {
    lit_size_prefix() + dec_u64(size as nat) + seq![125u8]
}

/// Renders the JSON body `{"size":N}` of a commit request.
pub fn commit_request_body(size: u64) -> (r: Vec<u8>)
    ensures
        r@ == commit_body_spec(size),
{
    let mut out: Vec<u8> = Vec::new();
    out.push(123u8);
    out.push(34u8);
    out.push(115u8);
    out.push(105u8);
    out.push(122u8);
    out.push(101u8);
    out.push(34u8);
    out.push(58u8);
    assert(out@ =~= lit_size_prefix());
    push_dec_u64(&mut out, size);
    out.push(125u8);
    assert(out@ =~= commit_body_spec(size));
    out
}

/// The value of a download `Range` header: `bytes=S-E` asking for
/// `[start, start + len)`.
pub open spec fn range_header_spec(start: u64, len: u64) -> Seq<u8> {
    seq![98u8, 121u8, 116u8, 101u8, 115u8, 61u8] + dec_u64(start as nat) + seq![45u8] + dec_u64(
        (start + len - 1) as nat,
    )
}

/// Renders the `Range` header value `bytes=S-E` for the range
/// `[start, start + len)`.
pub fn range_header_value(start: u64, len: u64) -> (r: String)
    requires
        len >= 1,
        start + len - 1 <= u64::MAX,
    ensures
        r@ == ascii_chars_of(range_header_spec(start, len)),
        vstd::utf8::encode_utf8(r@) == range_header_spec(start, len),
{
    let mut out: Vec<u8> = Vec::new();
    out.push(98u8);
    out.push(121u8);
    out.push(116u8);
    out.push(101u8);
    out.push(115u8);
    out.push(61u8);
    push_dec_u64(&mut out, start);
    out.push(45u8);
    let last: u64 = start + (len - 1);
    push_dec_u64(&mut out, last);
    proof {
        assert(out@ =~= range_header_spec(start, len));
        lemma_dec_u64_ascii(start as nat);
        lemma_dec_u64_ascii(last as nat);
        assert forall|i: int| 0 <= i < out@.len() implies out@[i] < 128 by {
            if 6 <= i < 6 + dec_u64(start as nat).len() {
                assert(is_dec_digit(dec_u64(start as nat)[i - 6]));
            } else if i > 6 + dec_u64(start as nat).len() {
                assert(is_dec_digit(dec_u64(last as nat)[i - 7 - dec_u64(start as nat).len()]));
            }
        }
    }
    ascii_bytes_to_string(out)
}

/// The value of an upload `Content-Range` header: `bytes S-E/*` announcing
/// the range `[start, start + len)` of an artifact of unstated total size.
pub open spec fn content_range_header_spec(start: u64, len: u64) -> Seq<u8> {
    seq![98u8, 121u8, 116u8, 101u8, 115u8, 32u8] + dec_u64(start as nat) + seq![45u8] + dec_u64(
        (start + len - 1) as nat,
    ) + seq![47u8, 42u8]
}

/// Renders the `Content-Range` header value `bytes S-E/*` for the range
/// `[start, start + len)`.
pub fn content_range_header_value(start: u64, len: u64) -> (r: String)
    requires
        len >= 1,
        start + len - 1 <= u64::MAX,
    ensures
        r@ == ascii_chars_of(content_range_header_spec(start, len)),
        vstd::utf8::encode_utf8(r@) == content_range_header_spec(start, len),
{
    let mut out: Vec<u8> = Vec::new();
    out.push(98u8);
    out.push(121u8);
    out.push(116u8);
    out.push(101u8);
    out.push(115u8);
    out.push(32u8);
    push_dec_u64(&mut out, start);
    out.push(45u8);
    let last: u64 = start + (len - 1);
    push_dec_u64(&mut out, last);
    out.push(47u8);
    out.push(42u8);
    proof {
        assert(out@ =~= content_range_header_spec(start, len));
        lemma_dec_u64_ascii(start as nat);
        lemma_dec_u64_ascii(last as nat);
        assert forall|i: int| 0 <= i < out@.len() implies out@[i] < 128 by {
            if 6 <= i < 6 + dec_u64(start as nat).len() {
                assert(is_dec_digit(dec_u64(start as nat)[i - 6]));
            } else if 6 + dec_u64(start as nat).len() < i < out@.len() - 2 {
                assert(is_dec_digit(dec_u64(last as nat)[i - 7 - dec_u64(start as nat).len()]));
            }
        }
    }
    ascii_bytes_to_string(out)
}

// ---------------------------------------------------------------------------
// The masking hint
// ---------------------------------------------------------------------------

/// Bytes a POSIX shell takes literally outside quotes: ASCII alphanumerics
/// and `- _ = / , . +`.
pub open spec fn shell_safe_byte(b: u8) -> bool {
    (97 <= b <= 122) || (65 <= b <= 90) || (48 <= b <= 57) || b == 45 || b == 95 || b == 61 || b
        == 47 || b == 44 || b == 46 || b == 43
}

/// One byte inside single quotes: a single quote becomes `'\''`, everything
/// else stands as it is.
pub open spec fn shell_inner_byte(b: u8) -> Seq<u8> {
    if b == 39 {
        seq![39u8, 92u8, 39u8, 39u8]
    } else {
        seq![b]
    }
}

/// The single-quoted body of a string.
pub open spec fn shell_inner(s: Seq<u8>) -> Seq<u8>
    decreases s.len(),
{
    if s.len() == 0 {
        Seq::empty()
    } else {
        shell_inner(s.drop_last()) + shell_inner_byte(s.last())
    }
}

/// The shell quoting of a string: unchanged when every byte is safe,
/// otherwise wrapped in single quotes with embedded quotes escaped.
pub open spec fn shell_quoted(s: Seq<u8>) -> Seq<u8> {
    if forall|i: int| 0 <= i < s.len() ==> shell_safe_byte(#[trigger] s[i]) {
        s
    } else {
        seq![39u8] + shell_inner(s) + seq![39u8]
    }
}

/// The bytes `::add-mask::`.
pub open spec fn lit_add_mask() -> Seq<u8> {
    seq![58u8, 58u8, 97u8, 100u8, 100u8, 45u8, 109u8, 97u8, 115u8, 107u8, 58u8, 58u8]
}

/// The masking hint emitted when a signed archive URL is obtained:
/// `::add-mask::` followed by the shell-quoted URL. The hosting environment
/// reads it from standard output and redacts the URL from its logs.
pub fn mask_line(url: &str) -> (r: Vec<u8>)
    ensures
        r@ == lit_add_mask() + shell_quoted(url.spec_bytes()),
{
    let bytes = url.as_bytes_vec();
    let mut out: Vec<u8> = Vec::new();
    out.push(58u8);
    out.push(58u8);
    out.push(97u8);
    out.push(100u8);
    out.push(100u8);
    out.push(45u8);
    out.push(109u8);
    out.push(97u8);
    out.push(115u8);
    out.push(107u8);
    out.push(58u8);
    out.push(58u8);
    assert(out@ =~= lit_add_mask());
    let mut all_safe = true;
    let mut i: usize = 0;
    while i < bytes.len()
        invariant
            i <= bytes@.len(),
            all_safe == forall|k: int| 0 <= k < i ==> shell_safe_byte(#[trigger] bytes@[k]),
        decreases bytes@.len() - i,
    {
        let b = bytes[i];
        let safe = (97 <= b && b <= 122) || (65 <= b && b <= 90) || (48 <= b && b <= 57) || b == 45
            || b == 95 || b == 61 || b == 47 || b == 44 || b == 46 || b == 43;
        all_safe = all_safe && safe;
        i = i + 1;
    }
    if all_safe {
        out.extend_from_slice(bytes.as_slice());
        proof {
            assert(out@ =~= lit_add_mask() + shell_quoted(url.spec_bytes()));
        }
        return out;
    }
    out.push(39u8);
    let mut j: usize = 0;
    while j < bytes.len()
        invariant
            j <= bytes@.len(),
            bytes@ == url.spec_bytes(),
            out@ == lit_add_mask() + seq![39u8] + shell_inner(bytes@.take(j as int)),
        decreases bytes@.len() - j,
    {
        let b = bytes[j];
        if b == 39 {
            out.push(39u8);
            out.push(92u8);
            out.push(39u8);
            out.push(39u8);
        } else {
            out.push(b);
        }
        proof {
            assert(bytes@.take(j + 1).drop_last() =~= bytes@.take(j as int));
            assert(bytes@.take(j + 1).last() == bytes@[j as int]);
            assert(out@ =~= lit_add_mask() + seq![39u8] + shell_inner(bytes@.take(j + 1)));
        }
        j = j + 1;
    }
    out.push(39u8);
    proof {
        assert(bytes@.take(bytes@.len() as int) =~= bytes@);
        assert(out@ =~= lit_add_mask() + shell_quoted(url.spec_bytes()));
    }
    out
}

// ---------------------------------------------------------------------------
// Upload regimes
// ---------------------------------------------------------------------------

/// How an upload dispatches its chunks.
#[derive(Clone, Copy, Debug, PartialEq, Eq, Structural)]
pub enum UploadRegime {
    /// The whole artifact fits one chunk: a single request.
    Single,
    /// At most one round of `concurrency` chunks: dispatch all at once.
    Unbounded,
    /// More chunks than the ceiling: gate dispatch by a counting semaphore.
    Gated,
}

/// The regime an upload of `size` bytes runs under.
pub open spec fn upload_regime_spec(size: u64, chunk_size: u64, concurrency: u32) -> UploadRegime {
    if size <= chunk_size {
        UploadRegime::Single
    } else if size <= (chunk_size as int) * (concurrency as int) {
        UploadRegime::Unbounded
    } else {
        UploadRegime::Gated
    }
}

/// Picks the dispatch regime for an upload of `size` bytes.
pub fn upload_regime(size: u64, chunk_size: u64, concurrency: u32) -> (r: UploadRegime)
    ensures
        r == upload_regime_spec(size, chunk_size, concurrency),
{
    proof {
        assert((chunk_size as int) * (concurrency as int) < 0x1_0000_0000_0000_0000_0000_0000i128)
            by (nonlinear_arith)
        requires
            chunk_size <= u64::MAX && concurrency <= u32::MAX,
        ;
    }
    if size <= chunk_size {
        UploadRegime::Single
    } else if (size as u128) <= (chunk_size as u128) * (concurrency as u128) {
        UploadRegime::Unbounded
    } else {
        UploadRegime::Gated
    }
}

// ---------------------------------------------------------------------------
// The put state machine
// ---------------------------------------------------------------------------

/// Where a `put` stands.
#[derive(Clone, Copy, Debug, PartialEq, Eq, Structural)]
pub enum PutState {
    /// Nothing done yet; the artifact size is not yet known.
    Start,
    /// The size is known and a reserve request is out.
    Reserving { size: u64 },
    /// The service granted a cache id; the chunks are being uploaded.
    Uploading { cache_id: i64, size: u64 },
    /// All chunks are uploaded; the commit request is out.
    Committing { cache_id: i64, size: u64 },
    /// The put is over.
    Done,
}

/// What the outside world reports to the state machine.
#[derive(Clone, Copy, Debug, PartialEq, Eq, Structural)]
pub enum PutEvent {
    /// The input stream's length was measured.
    SizeKnown { size: u64 },
    /// Reserve answered 204 or 409: another writer owns the entry.
    ReserveAbsent,
    /// Reserve granted a cache id.
    ReserveAccepted { cache_id: i64 },
    /// Every upload chunk succeeded.
    UploadDone,
    /// The commit succeeded.
    CommitDone,
}

/// What the state machine asks the outside world to do next.
#[derive(Clone, Copy, Debug, PartialEq, Eq, Structural)]
pub enum PutAction {
    /// Send the reserve request for an artifact of `size` bytes.
    Reserve { size: u64 },
    /// Upload the artifact's chunks to `cache_id`.
    Upload { cache_id: i64, size: u64 },
    /// Send the commit request for `cache_id`.
    Commit { cache_id: i64, size: u64 },
    /// Stop: the put succeeded.
    Finish,
}

/// Which events may arrive in which states.
pub open spec fn put_event_fits(state: PutState, event: PutEvent) -> bool {
    match (state, event) {
        (PutState::Start, PutEvent::SizeKnown { .. }) => true,
        (PutState::Reserving { .. }, PutEvent::ReserveAbsent) => true,
        (PutState::Reserving { .. }, PutEvent::ReserveAccepted { .. }) => true,
        (PutState::Uploading { .. }, PutEvent::UploadDone) => true,
        (PutState::Committing { .. }, PutEvent::CommitDone) => true,
        _ => false,
    }
}

/// The transition of the put state machine.
pub open spec fn put_step_spec(state: PutState, event: PutEvent) -> Result<
    (PutState, PutAction),
    Error,
> {
    match (state, event) {
        (PutState::Start, PutEvent::SizeKnown { size }) => {
            if size > MAX_WIRE_SIZE {
                Err(Error::CacheSizeTooLarge(size))
            } else {
                Ok((PutState::Reserving { size }, PutAction::Reserve { size }))
            }
        },
        (PutState::Reserving { .. }, PutEvent::ReserveAbsent) => Ok(
            (PutState::Done, PutAction::Finish),
        ),
        (PutState::Reserving { size }, PutEvent::ReserveAccepted { cache_id }) => Ok(
            (PutState::Uploading { cache_id, size }, PutAction::Upload { cache_id, size }),
        ),
        (PutState::Uploading { cache_id, size }, PutEvent::UploadDone) => Ok(
            (PutState::Committing { cache_id, size }, PutAction::Commit { cache_id, size }),
        ),
        (PutState::Committing { .. }, PutEvent::CommitDone) => Ok(
            (PutState::Done, PutAction::Finish),
        ),
        _ => Ok((PutState::Done, PutAction::Finish)),
    }
}

/// Runs one step of the put state machine: size measurement, then reserve,
/// then upload, then commit; an over-large artifact fails at once, and an
/// absent reserve ends the put successfully with nothing sent.
pub fn put_step(state: PutState, event: PutEvent) -> (r: Result<(PutState, PutAction), Error>)
    requires
        put_event_fits(state, event),
    ensures
        r == put_step_spec(state, event),
{
    match (state, event) {
        (PutState::Start, PutEvent::SizeKnown { size }) => {
            if size > MAX_WIRE_SIZE {
                Err(Error::CacheSizeTooLarge(size))
            } else {
                Ok((PutState::Reserving { size }, PutAction::Reserve { size }))
            }
        },
        (PutState::Reserving { .. }, PutEvent::ReserveAbsent) => Ok(
            (PutState::Done, PutAction::Finish),
        ),
        (PutState::Reserving { size }, PutEvent::ReserveAccepted { cache_id }) => Ok(
            (PutState::Uploading { cache_id, size }, PutAction::Upload { cache_id, size }),
        ),
        (PutState::Uploading { cache_id, size }, PutEvent::UploadDone) => Ok(
            (PutState::Committing { cache_id, size }, PutAction::Commit { cache_id, size }),
        ),
        (PutState::Committing { .. }, PutEvent::CommitDone) => Ok(
            (PutState::Done, PutAction::Finish),
        ),
        _ => Ok((PutState::Done, PutAction::Finish)),
    }
}

/// An absent reserve ends a put at once, and nothing is uploaded or
/// committed unless the reserve was accepted and, for the commit, the upload
/// finished: the only step that asks for an upload follows a granted cache
/// id, and the only step that asks for a commit follows a finished upload.
pub proof fn lemma_absent_reserve_sends_nothing(state: PutState, event: PutEvent)
    requires
        put_event_fits(state, event),
    ensures
        event is ReserveAbsent ==> put_step_spec(state, event) == Ok::<(PutState, PutAction), Error>(
            (PutState::Done, PutAction::Finish),
        ),
        match put_step_spec(state, event) {
            Ok(p) => (p.1 is Upload ==> event is ReserveAccepted) && (p.1 is Commit
                ==> event is UploadDone),
            Err(_) => true,
        },
{
}

} // verus!
