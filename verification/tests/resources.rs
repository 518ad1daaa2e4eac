use sps2::resources::{ResourceAvailability, ResourceKind, ResourceLimits, ResourceManager};

fn limits() -> ResourceLimits {
    ResourceLimits {
        concurrent_downloads: 2,
        concurrent_decompressions: 1,
        concurrent_installations: 0,
        memory_usage: Some(1000),
    }
}

#[test]
fn permits_are_bounded() {
    let mut m = ResourceManager::new(limits());
    assert_eq!(
        m.get_resource_availability(),
        ResourceAvailability { download: 2, decompression: 1, installation: 0 }
    );
    assert!(m.try_acquire_download_permit());
    assert!(m.try_acquire_download_permit());
    assert!(!m.try_acquire_download_permit());
    assert!(m.try_acquire_decompression_permit());
    assert!(!m.try_acquire_decompression_permit());
    assert!(!m.try_acquire_installation_permit());
    assert_eq!(
        m.get_resource_availability(),
        ResourceAvailability { download: 0, decompression: 0, installation: 0 }
    );
    m.release(ResourceKind::Download);
    assert_eq!(m.get_resource_availability().download, 1);
    assert!(m.try_acquire(ResourceKind::Download));
    m.release(ResourceKind::Download);
    m.release(ResourceKind::Download);
    m.release(ResourceKind::Download);
    assert_eq!(m.get_resource_availability().download, 2);
    m.release(ResourceKind::Installation);
    assert_eq!(m.get_resource_availability().installation, 0);
    assert!(m.cleanup().is_ok());
}

#[test]
fn acquire_then_release_restores() {
    let mut m = ResourceManager::new(limits());
    let before = m;
    assert!(m.try_acquire(ResourceKind::Decompression));
    assert_ne!(m, before);
    m.release(ResourceKind::Decompression);
    assert_eq!(m, before);
}

#[test]
fn memory_ceiling() {
    let mut m = ResourceManager::new(limits());
    assert!(m.is_memory_within_limits(0));
    assert!(m.is_memory_within_limits(1000));
    assert!(!m.is_memory_within_limits(1001));
    m.begin_decompression(600);
    m.begin_decompression(300);
    assert_eq!(m.memory_usage, 900);
    assert!(m.is_memory_within_limits(m.memory_usage));
    m.begin_decompression(200);
    assert!(!m.is_memory_within_limits(m.memory_usage));
    m.end_decompression(600);
    assert_eq!(m.memory_usage, 500);
    m.end_decompression(9999);
    assert_eq!(m.memory_usage, 0);
    m.begin_decompression(u64::MAX);
    m.begin_decompression(1);
    assert_eq!(m.memory_usage, u64::MAX);

    let unlimited = ResourceManager::new(ResourceLimits { memory_usage: None, ..limits() });
    assert!(unlimited.is_memory_within_limits(u64::MAX));
}
