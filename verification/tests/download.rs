use sps2::download::{
    backoff_delay, calculate_existing_file_hash, finish_download, get_resume_offset, should_retry,
    DownloadError, PackageDownloadConfig, ResumeDecision,
};
use sps2::hash::IncrementalHash;

fn config() -> PackageDownloadConfig {
    PackageDownloadConfig { min_chunk_size: 1024, buffer_size: 16, max_retries: 3, retry_delay_ms: 500 }
}

fn digest(data: &[u8]) -> sps2::hash::Hash {
    sps2::hash::Hash::from_data(data)
}

#[test]
fn resume_offsets() {
    let c = config();
    assert_eq!(get_resume_offset(&c, None), ResumeDecision { offset: 0, remove_partial: false });
    assert_eq!(get_resume_offset(&c, Some(0)), ResumeDecision { offset: 0, remove_partial: true });
    assert_eq!(get_resume_offset(&c, Some(1023)), ResumeDecision { offset: 0, remove_partial: true });
    assert_eq!(
        get_resume_offset(&c, Some(1024)),
        ResumeDecision { offset: 1024, remove_partial: false }
    );
    assert_eq!(
        get_resume_offset(&c, Some(1 << 33)),
        ResumeDecision { offset: 1 << 33, remove_partial: false }
    );
}

#[test]
fn resumed_download_hashes_like_a_fresh_one() {
    let content: Vec<u8> = (0..200u8).collect();
    let expected = digest(&content);
    let mut hasher = calculate_existing_file_hash(&config(), &content[..128], 128);
    hasher.update(&content[128..]);
    assert!(finish_download(&hasher, &expected).is_ok());

    let mut fresh = IncrementalHash::new();
    fresh.update(&content);
    assert!(finish_download(&fresh, &expected).is_ok());
}

#[test]
fn wrong_content_is_a_mismatch() {
    let expected = digest(b"the real thing");
    let mut hasher = IncrementalHash::new();
    hasher.update(b"something else");
    match finish_download(&hasher, &expected) {
        Err(DownloadError::HashMismatch { expected: e, actual }) => {
            assert_eq!(e, expected.to_hex());
            assert_eq!(actual, digest(b"something else").to_hex());
        }
        other => panic!("unexpected: {other:?}"),
    }
}

#[test]
fn only_transport_errors_are_retried() {
    let transport = DownloadError::Transport { message: "timeout".to_string() };
    let mismatch =
        DownloadError::HashMismatch { expected: "a".to_string(), actual: "b".to_string() };
    assert!(should_retry(&transport, 0, 3));
    assert!(should_retry(&transport, 2, 3));
    assert!(!should_retry(&transport, 3, 3));
    assert!(!should_retry(&transport, 0, 0));
    for made in 0..5 {
        assert!(!should_retry(&mismatch, made, 3));
    }
}

#[test]
fn backoff_doubles() {
    assert_eq!(backoff_delay(500, 0), 500);
    assert_eq!(backoff_delay(500, 1), 1000);
    assert_eq!(backoff_delay(500, 2), 2000);
    assert_eq!(backoff_delay(500, 3), 4000);
    assert_eq!(backoff_delay(0, 10), 0);
    assert_eq!(backoff_delay(1, 63), 1 << 63);
    assert_eq!(backoff_delay(1, 64), u64::MAX);
    assert_eq!(backoff_delay(u64::MAX, 1), u64::MAX);
}

#[test]
fn download_errors_have_their_kinds() {
    let mismatch = sps2::download::DownloadError::HashMismatch {
        expected: "a".to_string(),
        actual: "b".to_string(),
    };
    let transport = sps2::download::DownloadError::Transport { message: "timed out".to_string() };
    assert_eq!(mismatch.kind(), sps2::errors::ErrorKind::Integrity);
    assert_eq!(transport.kind(), sps2::errors::ErrorKind::Transient);
    assert!(!mismatch.kind().retries());
    assert!(transport.kind().retries());
}
