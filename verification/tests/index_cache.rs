use sps2::errors::StorageError;
use sps2::index_cache::{IndexCache, SaveStep};

#[test]
fn cache_paths() {
    let c = IndexCache::new("/var/cache/pm");
    assert_eq!(c.cache_dir, "/var/cache/pm");
    assert_eq!(c.index_path(), "/var/cache/pm/index.json");
    assert_eq!(c.metadata_path(), "/var/cache/pm/index.meta");
    assert_eq!(c.temp_path(), "/var/cache/pm/index.tmp");
    assert_eq!(c.clear_paths(), vec!["/var/cache/pm/index.json", "/var/cache/pm/index.meta"]);
    assert_eq!(IndexCache::new("cache/").index_path(), "cache/index.json");
}

#[test]
fn save_goes_through_the_temp_file() {
    let steps = IndexCache::new("/c").save_steps();
    assert_eq!(steps.len(), 3);
    assert!(matches!(&steps[0], SaveStep::CreateDir { path } if path == "/c"));
    assert!(matches!(&steps[1], SaveStep::Write { path } if path == "/c/index.tmp"));
    assert!(matches!(&steps[2], SaveStep::Rename { from, to }
        if from == "/c/index.tmp" && to == "/c/index.json"));
}

#[test]
fn cache_age() {
    assert_eq!(IndexCache::age(1_000, Some(400)), Some(600));
    assert_eq!(IndexCache::age(1_000, Some(1_000)), Some(0));
    assert_eq!(IndexCache::age(1_000, Some(2_000)), Some(0));
    assert_eq!(IndexCache::age(1_000, None), None);
    assert_eq!(IndexCache::age(u64::MAX, Some(0)), Some(u64::MAX));
}

#[test]
fn etag_is_the_first_line() {
    assert_eq!(IndexCache::etag(Some("\"abc123\"\nsecond line\n")), Some("\"abc123\"".to_string()));
    assert_eq!(IndexCache::etag(Some("W/\"x\"")), Some("W/\"x\"".to_string()));
    assert_eq!(IndexCache::etag(Some("tag\r\nmore")), Some("tag".to_string()));
    assert_eq!(IndexCache::etag(Some("\nsecond")), Some(String::new()));
    assert_eq!(IndexCache::etag(Some("")), None);
    assert_eq!(IndexCache::etag(None), None);
}

#[test]
fn cache_errors() {
    match IndexCache::new("/c").not_found() {
        StorageError::PathNotFound { path } => assert_eq!(path, "/c/index.json"),
        other => panic!("unexpected: {other:?}"),
    }
    match IndexCache::io_error("failed to write cache", "disk full") {
        StorageError::IoError { message } => assert_eq!(message, "failed to write cache: disk full"),
        other => panic!("unexpected: {other:?}"),
    }
}
