use artifact_cache::client::{check_key, get_cache_version, CacheClient, CacheClientBuilder};
use artifact_cache::errors::ErrorKind;
use artifact_cache::protocol::{
    commit_request_body, content_range_header_value, entry_archive_location, lookup_decision,
    mask_line, put_step, range_header_value, reserve_decision, reserve_request_body,
    status_is_success, upload_regime, ArtifactCacheEntry, LookupDecision, PutAction, PutEvent,
    PutState, ReserveDecision, UploadRegime,
};

const MIB: u64 = 1 << 20;

#[test]
fn cache_version_is_64_hex_chars_and_deterministic() {
    let a = get_cache_version("test");
    let b = get_cache_version("test");
    assert_eq!(a, b);
    assert_eq!(a.len(), 64);
    assert!(a.chars().all(|c| c.is_ascii_hexdigit() && !c.is_ascii_uppercase()));
    // SHA-256 of "test|0.1", the salt being this library's major.minor
    assert_eq!(a, "54cc106ac0eac35e4b8915afd8409d49b36c93e460bee76ea486ccdbc3473fee");
    assert_eq!(
        get_cache_version(""),
        "1337ebaf52b4dc41d020733f507cc772500508fb3d6b0f9d304bad3093266905"
    );
}

#[test]
fn reserve_body_bytes_are_deterministic() {
    let v = get_cache_version("v1");
    let one = reserve_request_body("my-key", &v, 123);
    let two = reserve_request_body("my-key", &v, 123);
    assert_eq!(one, two);
    let expected = format!(
        "{{\"key\":\"my-key\",\"version\":\"{}\",\"cacheSize\":123}}",
        "9b064a9edd1c202f3b592cd5980fcbab30287e55744213ab7f759f11a4f3c92a"
    );
    assert_eq!(one, expected.into_bytes());
}

#[test]
fn reserve_body_escapes_the_key() {
    let body = reserve_request_body("a\"b\\c", "v", 0);
    assert_eq!(body, b"{\"key\":\"a\\\"b\\\\c\",\"version\":\"v\",\"cacheSize\":0}".to_vec());
}

#[test]
fn commit_body_bytes() {
    assert_eq!(commit_request_body(9437184), b"{\"size\":9437184}".to_vec());
    assert_eq!(commit_request_body(0), b"{\"size\":0}".to_vec());
}

#[test]
fn range_header_values() {
    assert_eq!(range_header_value(0, 4 * MIB), "bytes=0-4194303");
    assert_eq!(range_header_value(4 * MIB, 4 * MIB), "bytes=4194304-8388607");
}

#[test]
fn content_range_header_values_for_nine_mib_upload() {
    assert_eq!(content_range_header_value(0, MIB), "bytes 0-1048575/*");
    assert_eq!(content_range_header_value(MIB, MIB), "bytes 1048576-2097151/*");
    assert_eq!(content_range_header_value(8 * MIB, MIB), "bytes 8388608-9437183/*");
}

#[test]
fn upload_regimes() {
    assert_eq!(upload_regime(MIB, MIB, 4), UploadRegime::Single);
    assert_eq!(upload_regime(MIB + 1, MIB, 4), UploadRegime::Unbounded);
    assert_eq!(upload_regime(4 * MIB, MIB, 4), UploadRegime::Unbounded);
    assert_eq!(upload_regime(4 * MIB + 1, MIB, 4), UploadRegime::Gated);
    assert_eq!(upload_regime(0, MIB, 4), UploadRegime::Single);
}

#[test]
fn statuses() {
    assert!(status_is_success(200));
    assert!(status_is_success(204));
    assert!(status_is_success(299));
    assert!(!status_is_success(199));
    assert!(!status_is_success(300));
    assert!(!status_is_success(404));
}

#[test]
fn lookup_decisions() {
    assert_eq!(lookup_decision(204), LookupDecision::Absent);
    assert_eq!(lookup_decision(200), LookupDecision::ParseBody);
    assert_eq!(lookup_decision(500), LookupDecision::Failed);
}

#[test]
fn reserve_decisions() {
    assert_eq!(reserve_decision(204), ReserveDecision::Absent);
    assert_eq!(reserve_decision(409), ReserveDecision::Absent);
    assert_eq!(reserve_decision(200), ReserveDecision::Accepted);
    assert_eq!(reserve_decision(201), ReserveDecision::Accepted);
    assert_eq!(reserve_decision(500), ReserveDecision::Failed);
}

fn entry_with(location: Option<&str>) -> ArtifactCacheEntry {
    ArtifactCacheEntry {
        cache_key: Some("k".to_string()),
        scope: None,
        creation_time: None,
        archive_location: location.map(|s| s.to_string()),
    }
}

#[test]
fn lookup_needs_an_archive_location() {
    let ok = entry_with(Some("https://blob/x"));
    assert_eq!(entry_archive_location(&ok).unwrap(), "https://blob/x");
    let missing = entry_with(None);
    assert_eq!(entry_archive_location(&missing).unwrap_err().kind(), ErrorKind::CacheNotFound);
    let empty = entry_with(Some(""));
    assert_eq!(entry_archive_location(&empty).unwrap_err().kind(), ErrorKind::CacheNotFound);
}

#[test]
fn put_runs_reserve_upload_commit() {
    let (s, a) = put_step(PutState::Start, PutEvent::SizeKnown { size: 10 }).unwrap();
    assert_eq!(a, PutAction::Reserve { size: 10 });
    let (s, a) = put_step(s, PutEvent::ReserveAccepted { cache_id: 7 }).unwrap();
    assert_eq!(a, PutAction::Upload { cache_id: 7, size: 10 });
    let (s, a) = put_step(s, PutEvent::UploadDone).unwrap();
    assert_eq!(a, PutAction::Commit { cache_id: 7, size: 10 });
    let (s, a) = put_step(s, PutEvent::CommitDone).unwrap();
    assert_eq!(a, PutAction::Finish);
    assert_eq!(s, PutState::Done);
}

#[test]
fn reserve_conflict_ends_put_with_nothing_sent() {
    let (s, a) = put_step(PutState::Start, PutEvent::SizeKnown { size: 10 }).unwrap();
    assert_eq!(a, PutAction::Reserve { size: 10 });
    let (s, a) = put_step(s, PutEvent::ReserveAbsent).unwrap();
    assert_eq!(s, PutState::Done);
    assert_eq!(a, PutAction::Finish);
}

#[test]
fn oversized_put_fails_at_once() {
    let e = put_step(
        PutState::Start,
        PutEvent::SizeKnown { size: (i64::MAX as u64) + 1 },
    )
    .unwrap_err();
    assert_eq!(e.kind(), ErrorKind::CacheSizeTooLarge);
}

#[test]
fn keys_with_commas_are_rejected() {
    let e = CacheClient::builder("https://h", "t", "a,b", &[]).unwrap_err();
    assert_eq!(e.kind(), ErrorKind::InvalidKeyComma);
    let e = check_key("a,b").unwrap_err();
    assert_eq!(e.kind(), ErrorKind::InvalidKeyComma);
}

#[test]
fn overlong_keys_are_rejected() {
    let long = "x".repeat(513);
    let e = CacheClient::builder("https://h", "t", &long, &[]).unwrap_err();
    assert_eq!(e.kind(), ErrorKind::InvalidKeyLength);
    assert!(check_key(&"x".repeat(512)).is_ok());
}

#[test]
fn restore_keys_are_validated_too() {
    let e = CacheClient::builder("https://h", "t", "a", &["b", "c,d"]).unwrap_err();
    assert_eq!(e.kind(), ErrorKind::InvalidKeyComma);
}

#[test]
fn restore_keys_join_behind_the_active_key() {
    let b = CacheClientBuilder::new("https://h", "t", "a", &["b", "c"]).unwrap();
    assert_eq!(b.restore_keys, "a,b,c");
    assert_eq!(b.key, "a");
    let alone = CacheClientBuilder::new("https://h", "t", "solo", &[]).unwrap();
    assert_eq!(alone.restore_keys, "solo");
}

#[test]
fn builder_defaults() {
    let b = CacheClientBuilder::new("https://h", "t", "k", &[]).unwrap();
    assert_eq!(b.max_retries, 2);
    assert_eq!(b.min_retry_interval_ms, 50);
    assert_eq!(b.max_retry_interval_ms, 10_000);
    assert_eq!(b.backoff_factor_base, 3);
    assert_eq!(b.download_chunk_size, 4 * MIB);
    assert_eq!(b.download_concurrency, 8);
    assert_eq!(b.upload_chunk_size, MIB);
    assert_eq!(b.upload_concurrency, 4);
    assert_eq!(b.download_chunk_timeout_secs, 60);
    assert_eq!(b.upload_chunk_timeout_secs, 60);
}

#[test]
fn build_trims_slashes_and_appends_the_api_path() {
    let c = CacheClientBuilder::new("https://h.example/cache///", "t", "k", &[])
        .unwrap()
        .build()
        .unwrap();
    assert_eq!(c.base_url(), "https://h.example/cache");
    assert_eq!(c.api_base, "https://h.example/cache/_apis/artifactcache/");
    assert_eq!(c.reserve_url(), "https://h.example/cache/_apis/artifactcache/caches");
    assert_eq!(c.cache_url(42), "https://h.example/cache/_apis/artifactcache/caches/42");
    assert_eq!(c.cache_url(-3), "https://h.example/cache/_apis/artifactcache/caches/-3");
}

#[test]
fn lookup_url_encodes_the_query() {
    let c = CacheClientBuilder::new("https://h", "t", "a b", &["c&d"]).unwrap().build().unwrap();
    let url = c.lookup_url("ffff");
    assert_eq!(
        url,
        "https://h/_apis/artifactcache/cache?keys=a+b%2Cc%26d&version=ffff"
    );
}

#[test]
fn bad_token_fails_to_build() {
    let e = CacheClientBuilder::new("https://h", "line\nbreak", "k", &[]).unwrap().build()
        .unwrap_err();
    assert_eq!(e.kind(), ErrorKind::InvalidHeaderValue);
}

#[test]
fn unparsable_base_url_fails_to_build() {
    let e = CacheClientBuilder::new("not a url", "t", "k", &[]).unwrap().build().unwrap_err();
    assert_eq!(e.kind(), ErrorKind::InvalidUrl);
}

#[test]
fn mask_line_quotes_the_url() {
    assert_eq!(mask_line("https://blob/x"), b"::add-mask::'https://blob/x'".to_vec());
    assert_eq!(mask_line("plain-safe./,+="), b"::add-mask::plain-safe./,+=".to_vec());
    assert_eq!(mask_line("a'b"), b"::add-mask::'a'\\''b'".to_vec());
}

#[test]
fn accessors_echo_the_configuration() {
    let c = CacheClientBuilder::new("https://h", "t", "a", &["b"]).unwrap().build().unwrap();
    assert_eq!(c.key(), "a");
    assert_eq!(c.restore_keys(), "a,b");
    assert_eq!(c.base_url(), "https://h");
}

#[test]
fn setters_replace_single_options() {
    let b = CacheClientBuilder::new("https://h", "t", "k", &[])
        .unwrap()
        .user_agent("agent/1".to_string())
        .token("t2".to_string())
        .base_url("https://other/".to_string())
        .max_retries(5)
        .min_retry_interval(10)
        .max_retry_interval(20_000)
        .backoff_factor_base(2)
        .download_chunk_size(8 * MIB)
        .download_chunk_timeout(120)
        .download_concurrency(2)
        .upload_chunk_size(2 * MIB)
        .upload_chunk_timeout(90)
        .upload_concurrency(3);
    assert_eq!(b.user_agent, "agent/1");
    assert_eq!(b.token, "t2");
    assert_eq!(b.max_retries, 5);
    assert_eq!(b.min_retry_interval_ms, 10);
    assert_eq!(b.max_retry_interval_ms, 20_000);
    assert_eq!(b.backoff_factor_base, 2);
    assert_eq!(b.download_chunk_size, 8 * MIB);
    assert_eq!(b.download_chunk_timeout_secs, 120);
    assert_eq!(b.download_concurrency, 2);
    assert_eq!(b.upload_chunk_size, 2 * MIB);
    assert_eq!(b.upload_chunk_timeout_secs, 90);
    assert_eq!(b.upload_concurrency, 3);
    let c = b.build().unwrap();
    assert_eq!(c.base_url(), "https://other");
}
