use artifact_cache::chunks::{concat_chunks, plan_chunks, slice_range, ChunkRange};
use artifact_cache::codec::{content_range_total, hex_decode, hex_encode};
use artifact_cache::download::{
    check_chunk_len, check_chunk_md5, classify_first_chunk, first_chunk_total,
    parallel_needs_gate, sequential_step, FirstChunkStep, SequentialStep,
};
use artifact_cache::errors::ErrorKind;

const MIB: u64 = 1 << 20;

#[test]
fn hex_encode_known_bytes() {
    assert_eq!(hex_encode(&vec![0x00, 0xab, 0xff, 0x10]), b"00abff10".to_vec());
    assert_eq!(hex_encode(&Vec::new()), Vec::<u8>::new());
}

#[test]
fn hex_decode_both_cases_and_rejects() {
    assert_eq!(hex_decode(&b"00AbfF10".to_vec()), Some(vec![0x00, 0xab, 0xff, 0x10]));
    assert_eq!(hex_decode(&b"abc".to_vec()), None);
    assert_eq!(hex_decode(&b"zz".to_vec()), None);
    assert_eq!(hex_decode(&Vec::new()), Some(Vec::new()));
}

#[test]
fn content_range_reads_total() {
    assert_eq!(content_range_total(&b"bytes 0-4194303/10485760".to_vec()), Some(10485760));
    assert_eq!(content_range_total(&b"bytes 0-4194303/1024".to_vec()), Some(1024));
    assert_eq!(content_range_total(&b"bytes 0-0/1".to_vec()), Some(1));
}

#[test]
fn content_range_other_shapes_are_unusable() {
    assert_eq!(content_range_total(&b"bytes 0-1/*".to_vec()), None);
    assert_eq!(content_range_total(&b"bytes */1024".to_vec()), None);
    assert_eq!(content_range_total(&b"bytes 0-1".to_vec()), None);
    assert_eq!(content_range_total(&b"octets 0-1/2".to_vec()), None);
    assert_eq!(content_range_total(&b"bytes -1/2".to_vec()), None);
    assert_eq!(content_range_total(&b"".to_vec()), None);
    assert_eq!(
        content_range_total(&b"bytes 0-1/18446744073709551615".to_vec()),
        Some(u64::MAX)
    );
    assert_eq!(content_range_total(&b"bytes 0-1/18446744073709551616".to_vec()), None);
}

#[test]
fn small_download_completes_at_once() {
    // a 1 KiB artifact answered with 206 and a content range
    let total = first_chunk_total(206, Some(&b"bytes 0-4194303/1024".to_vec()));
    assert_eq!(total, Some(1024));
    let step = classify_first_chunk(total, 1024, 4 * MIB).unwrap();
    assert_eq!(step, FirstChunkStep::Complete);
}

#[test]
fn exact_chunk_size_artifact_needs_no_second_request() {
    let chunk = 4 * MIB;
    let step = classify_first_chunk(Some(chunk), chunk, chunk).unwrap();
    assert_eq!(step, FirstChunkStep::Complete);
}

#[test]
fn multi_chunk_download_goes_parallel() {
    let chunk = 4 * MIB;
    let total = first_chunk_total(206, Some(&b"bytes 0-4194303/10485760".to_vec()));
    assert_eq!(total, Some(10 * MIB));
    let step = classify_first_chunk(total, chunk, chunk).unwrap();
    assert_eq!(step, FirstChunkStep::Parallel { total: 10 * MIB });
    let plan = plan_chunks(chunk, 10 * MIB, chunk);
    assert_eq!(
        plan,
        vec![
            ChunkRange { start: 4 * MIB, len: 4 * MIB },
            ChunkRange { start: 8 * MIB, len: 2 * MIB },
        ]
    );
    assert!(!parallel_needs_gate(10 * MIB, chunk, 8));
}

#[test]
fn first_chunk_body_beyond_total_is_a_size_error() {
    let e = classify_first_chunk(Some(100), 200, 4 * MIB).unwrap_err();
    assert_eq!(e.kind(), ErrorKind::CacheSize);
}

#[test]
fn short_first_chunk_of_long_artifact_is_a_chunk_size_error() {
    let e = classify_first_chunk(Some(10 * MIB), 100, 4 * MIB).unwrap_err();
    assert_eq!(e.kind(), ErrorKind::CacheChunkSize);
}

#[test]
fn status_200_means_unknown_size() {
    // a 200 answer never yields a usable total, header or not
    assert_eq!(first_chunk_total(200, Some(&b"bytes 0-4194303/10485760".to_vec())), None);
    let step = classify_first_chunk(None, 4 * MIB, 4 * MIB).unwrap();
    assert_eq!(step, FirstChunkStep::Sequential);
}

#[test]
fn short_body_without_total_is_the_whole_artifact() {
    let step = classify_first_chunk(None, 1024, 4 * MIB).unwrap();
    assert_eq!(step, FirstChunkStep::Complete);
}

#[test]
fn overlong_body_without_total_is_an_error() {
    let e = classify_first_chunk(None, 4 * MIB + 1, 4 * MIB).unwrap_err();
    assert_eq!(e.kind(), ErrorKind::CacheChunkSize);
}

#[test]
fn sequential_steps() {
    assert_eq!(sequential_step(0, 4 * MIB).unwrap(), SequentialStep::Finished);
    assert_eq!(sequential_step(100, 4 * MIB).unwrap(), SequentialStep::FinalChunk);
    assert_eq!(sequential_step(4 * MIB, 4 * MIB).unwrap(), SequentialStep::Continue);
    let e = sequential_step(4 * MIB + 1, 4 * MIB).unwrap_err();
    assert_eq!(e.kind(), ErrorKind::CacheChunkSize);
}

#[test]
fn inner_chunk_length_is_checked_exactly() {
    assert!(check_chunk_len(2 * MIB, 2 * MIB).is_ok());
    let e = check_chunk_len(2 * MIB - 1, 2 * MIB).unwrap_err();
    assert_eq!(e.kind(), ErrorKind::CacheChunkSize);
}

#[test]
fn gate_only_beyond_one_round_of_chunks() {
    assert!(!parallel_needs_gate(32 * MIB, 4 * MIB, 8));
    assert!(parallel_needs_gate(32 * MIB + 1, 4 * MIB, 8));
}

#[test]
fn md5_header_must_match_body() {
    let body = b"hello".to_vec();
    let good = b"5d41402abc4b2a76b9719d911017c592".to_vec();
    assert!(check_chunk_md5(&body, Some(&good)).is_ok());
    let zeros = b"00000000000000000000000000000000".to_vec();
    let e = check_chunk_md5(&body, Some(&zeros)).unwrap_err();
    assert_eq!(e.kind(), ErrorKind::CacheChunkChecksum);
}

#[test]
fn md5_header_absent_or_undecodable_is_ignored() {
    let body = b"hello".to_vec();
    assert!(check_chunk_md5(&body, None).is_ok());
    assert!(check_chunk_md5(&body, Some(&b"not-hex!".to_vec())).is_ok());
}

#[test]
fn empty_body_md5() {
    let empty = Vec::new();
    let digest = b"d41d8cd98f00b204e9800998ecf8427e".to_vec();
    assert!(check_chunk_md5(&empty, Some(&digest)).is_ok());
}

#[test]
fn upload_plan_partitions_nine_mib() {
    let plan = plan_chunks(0, 9 * MIB, MIB);
    assert_eq!(plan.len(), 9);
    for (i, c) in plan.iter().enumerate() {
        assert_eq!(c.start, i as u64 * MIB);
        assert_eq!(c.len, MIB);
    }
}

#[test]
fn upload_plan_of_zero_is_empty() {
    assert_eq!(plan_chunks(0, 0, MIB), Vec::new());
}

#[test]
fn upload_plan_last_chunk_short() {
    let plan = plan_chunks(0, MIB + 1, MIB);
    assert_eq!(
        plan,
        vec![ChunkRange { start: 0, len: MIB }, ChunkRange { start: MIB, len: 1 }]
    );
}

#[test]
fn slices_reassemble_to_the_artifact() {
    let data: Vec<u8> = (0..=255u8).cycle().take(1000).collect();
    let plan = plan_chunks(0, data.len() as u64, 300);
    let mut pieces = Vec::new();
    for c in &plan {
        pieces.push(slice_range(&data, c.start as usize, c.len as usize));
    }
    assert_eq!(concat_chunks(&pieces), data);
}

#[test]
fn concat_keeps_order() {
    let pieces = vec![vec![1u8, 2], vec![], vec![3u8]];
    assert_eq!(concat_chunks(&pieces), vec![1u8, 2, 3]);
}
