use sps2::errors::InstallError;
use sps2::package_format::{
    detect_package_format, valid_package_name, validate_entry_path, validate_file_format,
    validate_manifest_fields, ManifestProblem, PackageFormat, PathProblem,
};

const ZSTD: [u8; 6] = [0x28, 0xB5, 0x2F, 0xFD, 0x00, 0x01];

fn tar_header() -> Vec<u8> {
    let mut h = vec![0u8; 512];
    h[257..262].copy_from_slice(b"ustar");
    h
}

fn message(r: Result<PackageFormat, InstallError>) -> String {
    match r {
        Err(InstallError::InvalidPackageFile { message, .. }) => message,
        other => panic!("unexpected: {other:?}"),
    }
}

#[test]
fn magic_bytes() {
    assert_eq!(detect_package_format(&ZSTD), Some(PackageFormat::Zstd));
    assert_eq!(detect_package_format(&ZSTD[..4]), Some(PackageFormat::Zstd));
    assert_eq!(detect_package_format(&ZSTD[..3]), None);
    assert_eq!(detect_package_format(&tar_header()), Some(PackageFormat::PlainTar));
    assert_eq!(detect_package_format(&tar_header()[..262]), Some(PackageFormat::PlainTar));
    assert_eq!(detect_package_format(&tar_header()[..261]), None);
    assert_eq!(detect_package_format(&[0x50, 0x4B, 0x03, 0x04]), None);
    assert_eq!(detect_package_format(&[]), None);
    let mut both = tar_header();
    both[..4].copy_from_slice(&ZSTD[..4]);
    assert_eq!(detect_package_format(&both), Some(PackageFormat::Zstd));
}

#[test]
fn format_checks_in_order() {
    assert_eq!(validate_file_format("/p/a-1.0.0.sp", 10, &ZSTD, 100).unwrap(), PackageFormat::Zstd);
    assert_eq!(
        validate_file_format("a.sp", 100, &tar_header(), 100).unwrap(),
        PackageFormat::PlainTar
    );
    assert_eq!(message(validate_file_format("a.tar", 0, &[], 100)), "file must have .sp extension");
    assert_eq!(message(validate_file_format("a.sp", 0, &[], 100)), "file is empty");
    assert_eq!(message(validate_file_format("a.sp", 101, &[], 100)), "file exceeds the size limit");
    assert_eq!(
        message(validate_file_format("a.sp", 5, b"hello", 100)),
        "file is neither a tar archive nor a zstd-compressed one"
    );
    match validate_file_format("x.zip", 5, &ZSTD, 100) {
        Err(InstallError::InvalidPackageFile { path, .. }) => assert_eq!(path, "x.zip"),
        other => panic!("unexpected: {other:?}"),
    }
}

#[test]
fn entry_paths() {
    assert_eq!(validate_entry_path("bin/tool", 100), None);
    assert_eq!(validate_entry_path("lib/..hidden/x", 100), None);
    assert_eq!(validate_entry_path("a/.../b", 100), None);
    assert_eq!(validate_entry_path("", 100), None);
    assert_eq!(validate_entry_path("/etc/passwd", 100), Some(PathProblem::Absolute));
    assert_eq!(validate_entry_path("/../x", 100), Some(PathProblem::Absolute));
    assert_eq!(validate_entry_path("a/../../etc", 100), Some(PathProblem::ParentComponent));
    assert_eq!(validate_entry_path("..", 100), Some(PathProblem::ParentComponent));
    assert_eq!(validate_entry_path("a/..", 1), Some(PathProblem::ParentComponent));
    assert_eq!(validate_entry_path("abcdef", 5), Some(PathProblem::TooLong));
    assert_eq!(validate_entry_path("abcde", 5), None);
}

#[test]
fn package_names() {
    for good in ["a", "curl", "libxml2", "gtk+", "python-3.12", "Qt5_base", "0ad"] {
        assert!(valid_package_name(good), "{good}");
    }
    for bad in ["", "-x", ".hidden", "has space", "naïve", "a/b", "_x"] {
        assert!(!valid_package_name(bad), "{bad}");
    }
}

#[test]
fn manifest_fields() {
    let v = validate_manifest_fields("curl", "8.5").unwrap();
    assert_eq!(v.to_string(), "8.5.0");
    assert!(matches!(validate_manifest_fields("", "1.0.0"), Err(ManifestProblem::BadName)));
    assert!(matches!(validate_manifest_fields("bad name", "x"), Err(ManifestProblem::BadName)));
    match validate_manifest_fields("curl", "one") {
        Err(ManifestProblem::BadVersion { message }) => assert!(!message.is_empty()),
        other => panic!("unexpected: {other:?}"),
    }
}
