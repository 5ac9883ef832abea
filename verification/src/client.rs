//! The cache client and its builder: key validation, the version
//! fingerprint, and the endpoint URLs every operation uses.

use vstd::prelude::*;

use crate::chunks::{is_chunk_plan, plan_chunks, ChunkRange};
use crate::codec::{
    ascii_bytes_to_string, ascii_chars_of, hex_bytes_of, hex_encode, is_hex_lower,
    lemma_url_encoded_ascii, push_url_encoded, url_encoded,
};
use crate::errors::Error;
use vstd::string::StrSliceExecFns;
use vstd::string::StringExecFns;
use vstd::string::StringSliceAdditionalSpecFns;

verus! {

// ---------------------------------------------------------------------------
// Key validation
// ---------------------------------------------------------------------------

/// A key is valid when its UTF-8 form is at most 512 bytes and holds no
/// comma (the byte 44, which in UTF-8 occurs only as the character `,`).
pub open spec fn key_valid(b: Seq<u8>) -> bool {
    b.len() <= 512 && forall|i: int| 0 <= i < b.len() ==> b[i] != 44
}

/// Validates a user key: at most 512 bytes, no comma.
pub fn check_key(key: &str) -> (r: Result<(), Error>)
    ensures
        r is Ok <==> key_valid(key.spec_bytes()),
        match r {
            Ok(()) => true,
            Err(e) => {
                if key.spec_bytes().len() > 512 {
                    e matches Error::InvalidKeyLength(k) && k@ == key@
                } else {
                    e matches Error::InvalidKeyComma(k) && k@ == key@
                }
            },
        },
{
    let bytes = key.as_bytes_vec();
    if bytes.len() > 512 {
        return Err(Error::InvalidKeyLength(key.to_owned()));
    }
    let mut i: usize = 0;
    while i < bytes.len()
        invariant
            i <= bytes@.len(),
            bytes@ == key.spec_bytes(),
            key.spec_bytes().len() <= 512,
            forall|k: int| 0 <= k < i ==> bytes@[k] != 44,
        decreases bytes@.len() - i,
    {
        if bytes[i] == 44 {
            return Err(Error::InvalidKeyComma(key.to_owned()));
        }
        i = i + 1;
    }
    Ok(())
}

// ---------------------------------------------------------------------------
// The version fingerprint
// ---------------------------------------------------------------------------

/// The SHA-256 digest of a byte sequence, as the `sha2` crate computes it.
pub uninterp spec fn sha256_of(data: Seq<u8>) -> Seq<u8>;

/// Relies on `sha2::Sha256::digest`: the digest is a function of the input
/// bytes alone and is 32 bytes long.
#[verifier::external_body]
fn sha256(data: &Vec<u8>) -> (r: Vec<u8>)
    ensures
        r@ == sha256_of(data@),
        r@.len() == 32,
{
    <sha2::Sha256 as sha2::Digest>::digest(data.as_slice()).as_slice().to_vec()
}

/// The salt appended to the caller's version: `|` then this library's major
/// and minor version, `0.1`. Bumping major or minor invalidates old entries.
pub open spec fn version_salt() -> Seq<u8> {
    seq![124u8, 48u8, 46u8, 49u8]
}

/// The version fingerprint as a byte function: the lowercase hex form of the
/// SHA-256 digest of the caller's version bytes followed by the salt.
pub open spec fn cache_version_spec(version: Seq<u8>) -> Seq<u8> {
    hex_bytes_of(sha256_of(version + version_salt()))
}

/// Derives the content fingerprint of a caller-supplied version string:
/// 64 lowercase hex characters, the same for equal inputs.
pub fn get_cache_version(version: &str) -> (r: String)
    ensures
        r@.len() == 64,
        r@ == ascii_chars_of(cache_version_spec(version.spec_bytes())),
        forall|i: int| 0 <= i < r@.len() ==> is_hex_lower(#[trigger] r@[i] as u8),
{
    let mut msg = version.as_bytes_vec();
    msg.push(124u8);
    msg.push(48u8);
    msg.push(46u8);
    msg.push(49u8);
    proof {
        assert(msg@ =~= version.spec_bytes() + version_salt());
    }
    let digest = sha256(&msg);
    let hexed = hex_encode(&digest);
    proof {
        assert(forall|i: int| 0 <= i < hexed@.len() ==> is_hex_lower(#[trigger] hexed@[i]));
        assert(forall|i: int| 0 <= i < hexed@.len() ==> #[trigger] hexed@[i] < 128);
    }
    let r = ascii_bytes_to_string(hexed);
    proof {
        assert forall|i: int| 0 <= i < r@.len() implies is_hex_lower(#[trigger] r@[i] as u8) by {
            assert(r@[i] == ascii_chars_of(hexed@)[i]);
        }
    }
    r
}

// ---------------------------------------------------------------------------
// The builder
// ---------------------------------------------------------------------------

/// The restore-keys line: the active key, then each extra candidate,
/// joined by commas.
pub open spec fn join_keys(key: Seq<char>, rest: Seq<Seq<char>>) -> Seq<char>
    decreases rest.len(),
{
    if rest.len() == 0 {
        key
    } else {
        join_keys(key, rest.drop_last()) + seq![','] + rest.last()
    }
}

/// Configures a [`CacheClient`]. Intervals and timeouts are plain integers:
/// retry intervals in milliseconds, chunk timeouts in seconds.
#[derive(Debug)]
pub struct CacheClientBuilder {
    pub user_agent: String,
    pub base_url: String,
    pub token: String,
    pub key: String,
    pub restore_keys: String,
    pub max_retries: u32,
    pub min_retry_interval_ms: u64,
    pub max_retry_interval_ms: u64,
    pub backoff_factor_base: u32,
    pub download_chunk_size: u64,
    pub download_chunk_timeout_secs: u64,
    pub download_concurrency: u32,
    pub upload_chunk_size: u64,
    pub upload_chunk_timeout_secs: u64,
    pub upload_concurrency: u32,
}

/// Every byte an HTTP header value may hold: horizontal tab or any byte
/// from 32 up, except delete. This is the rule the `http` crate's
/// `HeaderValue` enforces.
pub open spec fn header_value_byte_ok(b: u8) -> bool {
    b == 9 || (b >= 32 && b != 127)
}

/// A bearer token is usable when every byte of it may stand in a header.
pub open spec fn token_ok(b: Seq<u8>) -> bool {
    forall|i: int| 0 <= i < b.len() ==> header_value_byte_ok(#[trigger] b[i])
}

/// `s` with every trailing `/` removed.
pub open spec fn trimmed_chars(s: Seq<char>) -> Seq<char>
    decreases s.len(),
{
    if s.len() > 0 && s.last() == '/' {
        trimmed_chars(s.drop_last())
    } else {
        s
    }
}

impl CacheClientBuilder {
    /// Starts a configuration with the service base URL, the bearer token,
    /// the active key, and the extra restore keys. Every key, the active one
    /// included, must pass [`check_key`]. All other options get defaults.
    pub fn new(base_url: &str, token: &str, key: &str, restore_keys: &[&str]) -> (r: Result<
        CacheClientBuilder,
        Error,
    >)
        ensures
            r is Ok <==> (key_valid(key.spec_bytes()) && forall|i: int|
                0 <= i < restore_keys@.len() ==> key_valid(
                    (#[trigger] restore_keys@[i]).spec_bytes(),
                )),
            match r {
                Ok(b) => {
                    &&& b.base_url@ == base_url@
                    &&& b.token@ == token@
                    &&& b.key@ == key@
                    &&& b.restore_keys@ == join_keys(
                        key@,
                        restore_keys@.map_values(|s: &str| s@),
                    )
                    &&& b.user_agent@ == "artifact_cache/0.1.0"@
                    &&& b.max_retries == 2
                    &&& b.min_retry_interval_ms == 50
                    &&& b.max_retry_interval_ms == 10000
                    &&& b.backoff_factor_base == 3
                    &&& b.download_chunk_size == 4194304
                    &&& b.download_chunk_timeout_secs == 60
                    &&& b.download_concurrency == 8
                    &&& b.upload_chunk_size == 1048576
                    &&& b.upload_chunk_timeout_secs == 60
                    &&& b.upload_concurrency == 4
                },
                Err(e) => {
                    !key_valid(key.spec_bytes()) ==> (if key.spec_bytes().len() > 512 {
                        e matches Error::InvalidKeyLength(k) && k@ == key@
                    } else {
                        e matches Error::InvalidKeyComma(k) && k@ == key@
                    })
                },
            },
    {
        match check_key(key) {
            Ok(()) => (),
            Err(e) => {
                return Err(e);
            },
        }
        let mut joined = key.to_owned();
        let ghost rests = restore_keys@.map_values(|s: &str| s@);
        proof {
            assert(joined@ =~= join_keys(key@, rests.take(0)));
        }
        let mut i: usize = 0;
        while i < restore_keys.len()
            invariant
                i <= restore_keys@.len(),
                key_valid(key.spec_bytes()),
                rests == restore_keys@.map_values(|s: &str| s@),
                joined@ == join_keys(key@, rests.take(i as int)),
                forall|k: int|
                    0 <= k < i ==> key_valid((#[trigger] restore_keys@[k]).spec_bytes()),
            decreases restore_keys@.len() - i,
        {
            let rk = restore_keys[i];
            match check_key(rk) {
                Ok(()) => (),
                Err(e) => {
                    return Err(e);
                },
            }
            joined.append(",");
            joined.append(rk);
            proof {
                reveal_strlit(",");
                assert(rests.take(i + 1).drop_last() =~= rests.take(i as int));
                assert(rests.take(i + 1).last() == rests[i as int]);
                assert(joined@ =~= join_keys(key@, rests.take(i + 1)));
            }
            i = i + 1;
        }
        proof {
            assert(rests.take(rests.len() as int) =~= rests);
        }
        Ok(
            CacheClientBuilder {
                user_agent: String::from_str("artifact_cache/0.1.0"),
                base_url: base_url.to_owned(),
                token: token.to_owned(),
                key: key.to_owned(),
                restore_keys: joined,
                max_retries: 2,
                min_retry_interval_ms: 50,
                max_retry_interval_ms: 10000,
                backoff_factor_base: 3,
                download_chunk_size: 4194304,
                download_chunk_timeout_secs: 60,
                download_concurrency: 8,
                upload_chunk_size: 1048576,
                upload_chunk_timeout_secs: 60,
                upload_concurrency: 4,
            },
        )
    }

    /// Replaces the `User-Agent` string.
    pub fn user_agent(self, user_agent: String) -> (r: CacheClientBuilder)
        ensures
            r == (CacheClientBuilder { user_agent, ..self }),
    {
        CacheClientBuilder { user_agent, ..self }
    }

    /// Replaces the service base URL.
    pub fn base_url(self, base_url: String) -> (r: CacheClientBuilder)
        ensures
            r == (CacheClientBuilder { base_url, ..self }),
    {
        CacheClientBuilder { base_url, ..self }
    }

    /// Replaces the bearer token.
    pub fn token(self, token: String) -> (r: CacheClientBuilder)
        ensures
            r == (CacheClientBuilder { token, ..self }),
    {
        CacheClientBuilder { token, ..self }
    }

    /// Sets the number of transient retries per request.
    pub fn max_retries(self, max_retries: u32) -> (r: CacheClientBuilder)
        ensures
            r == (CacheClientBuilder { max_retries, ..self }),
    {
        CacheClientBuilder { max_retries, ..self }
    }

    /// Sets the smallest backoff interval, in milliseconds.
    pub fn min_retry_interval(self, min_retry_interval_ms: u64) -> (r: CacheClientBuilder)
        ensures
            r == (CacheClientBuilder { min_retry_interval_ms, ..self }),
    {
        CacheClientBuilder { min_retry_interval_ms, ..self }
    }

    /// Sets the largest backoff interval, in milliseconds.
    pub fn max_retry_interval(self, max_retry_interval_ms: u64) -> (r: CacheClientBuilder)
        ensures
            r == (CacheClientBuilder { max_retry_interval_ms, ..self }),
    {
        CacheClientBuilder { max_retry_interval_ms, ..self }
    }

    /// Sets the exponential backoff base.
    pub fn backoff_factor_base(self, backoff_factor_base: u32) -> (r: CacheClientBuilder)
        ensures
            r == (CacheClientBuilder { backoff_factor_base, ..self }),
    {
        CacheClientBuilder { backoff_factor_base, ..self }
    }

    /// Sets the per-chunk download timeout, in seconds.
    pub fn download_chunk_timeout(self, download_chunk_timeout_secs: u64) -> (r: CacheClientBuilder)
        ensures
            r == (CacheClientBuilder { download_chunk_timeout_secs, ..self }),
    {
        CacheClientBuilder { download_chunk_timeout_secs, ..self }
    }

    /// Sets the download chunk size, in bytes.
    pub fn download_chunk_size(self, download_chunk_size: u64) -> (r: CacheClientBuilder)
        ensures
            r == (CacheClientBuilder { download_chunk_size, ..self }),
    {
        CacheClientBuilder { download_chunk_size, ..self }
    }

    /// Sets the number of parallel chunk downloads.
    pub fn download_concurrency(self, download_concurrency: u32) -> (r: CacheClientBuilder)
        ensures
            r == (CacheClientBuilder { download_concurrency, ..self }),
    {
        CacheClientBuilder { download_concurrency, ..self }
    }

    /// Sets the number of parallel chunk uploads.
    pub fn upload_concurrency(self, upload_concurrency: u32) -> (r: CacheClientBuilder)
        ensures
            r == (CacheClientBuilder { upload_concurrency, ..self }),
    {
        CacheClientBuilder { upload_concurrency, ..self }
    }

    /// Sets the upload chunk size, in bytes.
    pub fn upload_chunk_size(self, upload_chunk_size: u64) -> (r: CacheClientBuilder)
        ensures
            r == (CacheClientBuilder { upload_chunk_size, ..self }),
    {
        CacheClientBuilder { upload_chunk_size, ..self }
    }

    /// Sets the per-chunk upload timeout, in seconds.
    pub fn upload_chunk_timeout(self, upload_chunk_timeout_secs: u64) -> (r: CacheClientBuilder)
        ensures
            r == (CacheClientBuilder { upload_chunk_timeout_secs, ..self }),
    {
        CacheClientBuilder { upload_chunk_timeout_secs, ..self }
    }

    /// Finishes the configuration: checks that the token can stand in an
    /// `Authorization` header, strips trailing slashes from the base URL,
    /// appends the API path, and checks that the result parses as a URL.
    pub fn build(self) -> (r: Result<CacheClient, Error>)
        ensures
            r is Ok <==> (token_ok(vstd::utf8::encode_utf8(self.token@)) && is_parsable_url(
                trimmed_chars(self.base_url@) + "/_apis/artifactcache/"@,
            )),
            match r {
                Ok(c) => {
                    &&& c.base_url@ == trimmed_chars(self.base_url@)
                    &&& c.api_base@ == trimmed_chars(self.base_url@) + "/_apis/artifactcache/"@
                    &&& c.user_agent@ == self.user_agent@
                    &&& c.token@ == self.token@
                    &&& c.key@ == self.key@
                    &&& c.restore_keys@ == self.restore_keys@
                    &&& c.max_retries == self.max_retries
                    &&& c.min_retry_interval_ms == self.min_retry_interval_ms
                    &&& c.max_retry_interval_ms == self.max_retry_interval_ms
                    &&& c.backoff_factor_base == self.backoff_factor_base
                    &&& c.download_chunk_size == self.download_chunk_size
                    &&& c.download_chunk_timeout_secs == self.download_chunk_timeout_secs
                    &&& c.download_concurrency == self.download_concurrency
                    &&& c.upload_chunk_size == self.upload_chunk_size
                    &&& c.upload_chunk_timeout_secs == self.upload_chunk_timeout_secs
                    &&& c.upload_concurrency == self.upload_concurrency
                },
                Err(e) => {
                    if !token_ok(vstd::utf8::encode_utf8(self.token@)) {
                        e matches Error::InvalidHeaderValue
                    } else {
                        e matches Error::InvalidUrl(u) && u@ == trimmed_chars(self.base_url@)
                            + "/_apis/artifactcache/"@
                    }
                },
            },
    {
        let token_bytes = self.token.as_str().as_bytes_vec();
        let mut i: usize = 0;
        while i < token_bytes.len()
            invariant
                i <= token_bytes@.len(),
                token_bytes@ == vstd::utf8::encode_utf8(self.token@),
                forall|k: int| 0 <= k < i ==> header_value_byte_ok(#[trigger] token_bytes@[k]),
            decreases token_bytes@.len() - i,
        {
            let b = token_bytes[i];
            if !(b == 9 || (b >= 32 && b != 127)) {
                return Err(Error::InvalidHeaderValue);
            }
            i = i + 1;
        }
        let base = self.base_url.as_str();
        let n = base.unicode_len();
        let mut end: usize = n;
        proof {
            assert(base@.take(n as int) =~= base@);
        }
        while end > 0 && base.get_char(end - 1) == '/'
            invariant
                end <= n == base@.len(),
                trimmed_chars(base@) == trimmed_chars(base@.take(end as int)),
            decreases end,
        {
            proof {
                assert(base@.take(end as int).drop_last() =~= base@.take(end - 1));
                assert(base@.take(end as int).last() == base@[end - 1]);
            }
            end = end - 1;
        }
        proof {
            if end > 0 {
                assert(base@.take(end as int).last() == base@[end - 1]);
                assert(trimmed_chars(base@.take(end as int)) == base@.take(end as int));
            } else {
                assert(base@.take(0) =~= Seq::<char>::empty());
            }
        }
        let trimmed = base.substring_char(0, end);
        let api_base = trimmed.to_owned().concat("/_apis/artifactcache/");
        proof {
            assert(trimmed@ =~= trimmed_chars(base@));
        }
        if !url_parses(api_base.as_str()) {
            return Err(Error::InvalidUrl(api_base));
        }
        Ok(
            CacheClient {
                user_agent: self.user_agent,
                base_url: trimmed.to_owned(),
                api_base,
                token: self.token,
                key: self.key,
                restore_keys: self.restore_keys,
                max_retries: self.max_retries,
                min_retry_interval_ms: self.min_retry_interval_ms,
                max_retry_interval_ms: self.max_retry_interval_ms,
                backoff_factor_base: self.backoff_factor_base,
                download_chunk_size: self.download_chunk_size,
                download_chunk_timeout_secs: self.download_chunk_timeout_secs,
                download_concurrency: self.download_concurrency,
                upload_chunk_size: self.upload_chunk_size,
                upload_chunk_timeout_secs: self.upload_chunk_timeout_secs,
                upload_concurrency: self.upload_concurrency,
            },
        )
    }
}

/// Whether a string parses as a URL, as the `url` crate decides it.
pub uninterp spec fn is_parsable_url(s: Seq<char>) -> bool;

/// Relies on `url::Url::parse`: whether a string parses depends on the
/// string alone.
#[verifier::external_body]
fn url_parses(s: &str) -> (r: bool)
    ensures
        r == is_parsable_url(s@),
{
    url::Url::parse(s).is_ok()
}

// ---------------------------------------------------------------------------
// The client
// ---------------------------------------------------------------------------

/// The configured cache client: the validated configuration and the URLs,
/// plans and decisions every operation needs. The unverified shell around
/// the library owns the HTTP transport and drives the transfers with the
/// plans this type hands out.
#[derive(Debug)]
pub struct CacheClient {
    pub user_agent: String,
    /// The base URL as configured, without trailing slashes or the API path.
    pub base_url: String,
    /// The base URL with `/_apis/artifactcache/` appended.
    pub api_base: String,
    pub token: String,
    pub key: String,
    pub restore_keys: String,
    pub max_retries: u32,
    pub min_retry_interval_ms: u64,
    pub max_retry_interval_ms: u64,
    pub backoff_factor_base: u32,
    pub download_chunk_size: u64,
    pub download_chunk_timeout_secs: u64,
    pub download_concurrency: u32,
    pub upload_chunk_size: u64,
    pub upload_chunk_timeout_secs: u64,
    pub upload_concurrency: u32,
}

/// The bytes `cache?keys=`.
pub open spec fn lit_cache_query() -> Seq<u8> {
    seq![99u8, 97u8, 99u8, 104u8, 101u8, 63u8, 107u8, 101u8, 121u8, 115u8, 61u8]
}

/// The bytes `&version=`.
pub open spec fn lit_version_param() -> Seq<u8> {
    seq![38u8, 118u8, 101u8, 114u8, 115u8, 105u8, 111u8, 110u8, 61u8]
}

/// The bytes `caches/`.
pub open spec fn lit_caches_path() -> Seq<u8> {
    seq![99u8, 97u8, 99u8, 104u8, 101u8, 115u8, 47u8]
}

/// The query part of a lookup: `cache?keys=K&version=V` with both values
/// form-urlencoded.
pub open spec fn lookup_query_spec(keys: Seq<u8>, version: Seq<u8>) -> Seq<u8> {
    lit_cache_query() + url_encoded(keys) + lit_version_param() + url_encoded(version)
}

impl CacheClient {
    /// Starts a configuration; identical to [`CacheClientBuilder::new`].
    pub fn builder(base_url: &str, token: &str, key: &str, restore_keys: &[&str]) -> (r: Result<
        CacheClientBuilder,
        Error,
    >)
        ensures
            r is Ok <==> (key_valid(key.spec_bytes()) && forall|i: int|
                0 <= i < restore_keys@.len() ==> key_valid(
                    (#[trigger] restore_keys@[i]).spec_bytes(),
                )),
            match r {
                Ok(b) => b.base_url@ == base_url@ && b.token@ == token@ && b.key@ == key@
                    && b.restore_keys@ == join_keys(key@, restore_keys@.map_values(|s: &str| s@)),
                Err(e) => {
                    !key_valid(key.spec_bytes()) ==> (if key.spec_bytes().len() > 512 {
                        e matches Error::InvalidKeyLength(k) && k@ == key@
                    } else {
                        e matches Error::InvalidKeyComma(k) && k@ == key@
                    })
                },
            },
    {
        CacheClientBuilder::new(base_url, token, key, restore_keys)
    }

    /// The configured base URL, without the API path.
    pub fn base_url(&self) -> (r: &str)
        ensures
            r@ == self.base_url@,
    {
        self.base_url.as_str()
    }

    /// The active key.
    pub fn key(&self) -> (r: &str)
        ensures
            r@ == self.key@,
    {
        self.key.as_str()
    }

    /// The comma-joined restore keys, the active key first.
    pub fn restore_keys(&self) -> (r: &str)
        ensures
            r@ == self.restore_keys@,
    {
        self.restore_keys.as_str()
    }

    /// The URL of a lookup: the API base followed by
    /// `cache?keys=K&version=V`, both values form-urlencoded.
    pub fn lookup_url(&self, version: &str) -> (r: String)
        ensures
            r@ == self.api_base@ + ascii_chars_of(
                lookup_query_spec(
                    vstd::utf8::encode_utf8(self.restore_keys@),
                    version.spec_bytes(),
                ),
            ),
    {
        let mut q: Vec<u8> = Vec::new();
        q.push(99u8);
        q.push(97u8);
        q.push(99u8);
        q.push(104u8);
        q.push(101u8);
        q.push(63u8);
        q.push(107u8);
        q.push(101u8);
        q.push(121u8);
        q.push(115u8);
        q.push(61u8);
        assert(q@ =~= lit_cache_query());
        push_url_encoded(&mut q, &self.restore_keys.as_str().as_bytes_vec());
        q.push(38u8);
        q.push(118u8);
        q.push(101u8);
        q.push(114u8);
        q.push(115u8);
        q.push(105u8);
        q.push(111u8);
        q.push(110u8);
        q.push(61u8);
        let ghost keys_bytes = vstd::utf8::encode_utf8(self.restore_keys@);
        assert(q@ =~= lit_cache_query() + url_encoded(keys_bytes) + lit_version_param());
        push_url_encoded(&mut q, &version.as_bytes_vec());
        proof {
            assert(q@ =~= lookup_query_spec(keys_bytes, version.spec_bytes()));
            lemma_url_encoded_ascii(keys_bytes);
            lemma_url_encoded_ascii(version.spec_bytes());
            assert forall|i: int| 0 <= i < q@.len() implies q@[i] < 128 by {
                let klen = lit_cache_query().len() + url_encoded(keys_bytes).len();
                if 11 <= i < klen {
                    assert(q@[i] == url_encoded(keys_bytes)[i - 11]);
                } else if i >= klen + 9 {
                    assert(q@[i] == url_encoded(version.spec_bytes())[i - klen - 9]);
                }
            }
        }
        let qs = ascii_bytes_to_string(q);
        self.api_base.clone().concat(qs.as_str())
    }

    /// The URL of a reserve: the API base followed by `caches`.
    pub fn reserve_url(&self) -> (r: String)
        ensures
            r@ == self.api_base@ + "caches"@,
    {
        self.api_base.clone().concat("caches")
    }

    /// The URL of a chunk upload or a commit: the API base followed by
    /// `caches/` and the decimal cache id.
    pub fn cache_url(&self, cache_id: i64) -> (r: String)
        ensures
            r@ == self.api_base@ + ascii_chars_of(
                lit_caches_path() + crate::codec::dec_i64(cache_id as int),
            ),
    {
        let mut p: Vec<u8> = Vec::new();
        p.push(99u8);
        p.push(97u8);
        p.push(99u8);
        p.push(104u8);
        p.push(101u8);
        p.push(115u8);
        p.push(47u8);
        assert(p@ =~= lit_caches_path());
        crate::codec::push_dec_i64(&mut p, cache_id);
        proof {
            assert(p@ =~= lit_caches_path() + crate::codec::dec_i64(cache_id as int));
            if cache_id >= 0 {
                crate::codec::lemma_dec_u64_ascii(cache_id as nat);
            } else {
                crate::codec::lemma_dec_u64_ascii((-(cache_id as int)) as nat);
            }
            assert forall|i: int| 0 <= i < p@.len() implies p@[i] < 128 by {
                let d = crate::codec::dec_i64(cache_id as int);
                if i >= 7 {
                    assert(p@[i] == d[i - 7]);
                    if cache_id >= 0 {
                        assert(crate::codec::is_dec_digit(
                            crate::codec::dec_u64(cache_id as nat)[i - 7],
                        ));
                    } else if i > 7 {
                        assert(d[i - 7] == crate::codec::dec_u64((-(cache_id as int)) as nat)[i
                            - 8]);
                        assert(crate::codec::is_dec_digit(
                            crate::codec::dec_u64((-(cache_id as int)) as nat)[i - 8],
                        ));
                    }
                }
            }
        }
        let ps = ascii_bytes_to_string(p);
        self.api_base.clone().concat(ps.as_str())
    }

    /// The plan for the chunks of a download after the first: the ranges of
    /// `[chunk_size, total)`, cut at `download_chunk_size`.
    pub fn download_plan(&self, total: u64) -> (r: Vec<ChunkRange>)
        requires
            self.download_chunk_size >= 1,
            self.download_chunk_size <= total,
        ensures
            is_chunk_plan(
                r@,
                self.download_chunk_size as int,
                total as int,
                self.download_chunk_size as int,
            ),
    {
        plan_chunks(self.download_chunk_size, total, self.download_chunk_size)
    }

    /// The plan for the chunks of an upload: the ranges of `[0, size)`, cut
    /// at `upload_chunk_size`. An empty artifact has an empty plan: no chunk
    /// request is sent for it.
    pub fn upload_plan(&self, size: u64) -> (r: Vec<ChunkRange>)
        requires
            self.upload_chunk_size >= 1,
        ensures
            is_chunk_plan(r@, 0, size as int, self.upload_chunk_size as int),
    {
        plan_chunks(0, size, self.upload_chunk_size)
    }
}

} // verus!
