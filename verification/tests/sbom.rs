use sps2::errors::BuildError;
use sps2::sbom::{SbomFiles, SbomFormat, SbomGenerator, SbomSettings};

fn strings(items: &[&str]) -> Vec<String> {
    items.iter().map(|s| s.to_string()).collect()
}

fn generator(format: &str) -> SbomGenerator {
    SbomGenerator::new(
        SbomSettings { format: format.to_string(), exclusions: strings(&["./*.a", "./*.pdb"]) },
        "demo".to_string(),
        "1.2.3".to_string(),
    )
}

const ABC: &str = "6437b3ac38465133ffb63b75273a8db548c558465d79db03fd359c6cd5bd9d85";

#[test]
fn files_start_empty() {
    let mut files = SbomFiles::new();
    assert!(!files.has_files());
    assert!(!SbomFiles::default().has_files());
    files.record_cyclonedx("/out/sbom.cdx.json".to_string(), b"abc");
    assert!(files.has_files());
    assert_eq!(files.cyclonedx_hash.as_deref(), Some(ABC));
    assert_eq!(files.spdx_path, None);
    files.record_spdx("/out/sbom.spdx.json".to_string(), b"abc");
    assert_eq!(files.spdx_path.as_deref(), Some("/out/sbom.spdx.json"));
    assert_eq!(files.spdx_hash.as_deref(), Some(ABC));
    assert_eq!(files.cyclonedx_path.as_deref(), Some("/out/sbom.cdx.json"));
}

#[test]
fn generator_settings() {
    let g = generator("all");
    assert_eq!(g.syft_path, "syft");
    let g = g.with_syft_path("/opt/bin/syft".to_string());
    assert_eq!(g.syft_path, "/opt/bin/syft");
    assert_eq!(g.package_name, "demo");
    assert!(g.wants(SbomFormat::Spdx) && g.wants(SbomFormat::CycloneDx));
    let g = generator("spdx-json");
    assert!(g.wants(SbomFormat::Spdx) && !g.wants(SbomFormat::CycloneDx));
    let g = generator("cyclone-dx");
    assert!(!g.wants(SbomFormat::Spdx) && g.wants(SbomFormat::CycloneDx));
    let g = generator("none");
    assert!(!g.wants(SbomFormat::Spdx) && !g.wants(SbomFormat::CycloneDx));
}

#[test]
fn scanner_arguments() {
    let g = generator("all");
    let out = SbomGenerator::output_path("/out", SbomFormat::Spdx);
    assert_eq!(out, "/out/sbom.spdx.json");
    assert_eq!(SbomGenerator::output_path("/out", SbomFormat::CycloneDx), "/out/sbom.cdx.json");
    assert_eq!(
        g.scan_arguments(SbomFormat::Spdx, "/b/stage", &out),
        strings(&[
            "scan",
            "-o",
            "spdx-json=/out/sbom.spdx.json",
            "/b/stage",
            "--source-name",
            "demo",
            "--source-version",
            "1.2.3",
            "--exclude",
            "./*.a",
            "--exclude",
            "./*.pdb",
        ])
    );
    assert_eq!(
        g.scan_arguments(SbomFormat::CycloneDx, "/b/stage", "/o/x.json")[2],
        "cyclonedx-json=/o/x.json"
    );
}

#[test]
fn scanner_environment_pins_the_time() {
    let pairs: Vec<(String, String)> =
        SbomGenerator::scan_environment().into_iter().map(|v| (v.name, v.value)).collect();
    assert_eq!(
        pairs,
        vec![
            ("SYFT_SPDX_CREATION_INFO_CREATED".to_string(), "2024-01-01T00:00:00Z".to_string()),
            ("SOURCE_DATE_EPOCH".to_string(), "1704067200".to_string()),
            ("SYFT_DISABLE_METADATA_TIMESTAMP".to_string(), "true".to_string()),
        ]
    );
}

#[test]
fn scanner_outcomes() {
    assert!(SbomGenerator::syft_available(Some(true)));
    assert!(!SbomGenerator::syft_available(Some(false)));
    assert!(!SbomGenerator::syft_available(None));
    match SbomGenerator::syft_missing() {
        BuildError::SbomError { message } => {
            assert_eq!(message, "Syft not found - SBOM generation requires syft >= 1.4")
        }
        other => panic!("unexpected: {other:?}"),
    }
    assert!(SbomGenerator::scan_result(true, "warn").is_ok());
    match SbomGenerator::scan_result(false, "bad tree") {
        Err(BuildError::SbomError { message }) => assert_eq!(message, "syft failed: bad tree"),
        other => panic!("unexpected: {other:?}"),
    }
    match SbomGenerator::scan_not_run("ENOENT") {
        BuildError::SbomError { message } => assert_eq!(message, "failed to run syft: ENOENT"),
        other => panic!("unexpected: {other:?}"),
    }
}

#[test]
fn second_run_must_match_the_first() {
    assert!(SbomGenerator::verify_deterministic(SbomFormat::Spdx, ABC, b"abc", 3).is_ok());
    assert!(SbomGenerator::verify_deterministic(SbomFormat::CycloneDx, ABC, b"abc", 3).is_ok());
    match SbomGenerator::verify_deterministic(SbomFormat::Spdx, "1234", b"abc", 10) {
        Err(BuildError::SbomError { message }) => assert_eq!(
            message,
            format!(
                "SPDX SBOM generation is not deterministic: expected hash 1234, got hash {ABC}. \
                 Original length: 10, verify length: 3"
            )
        ),
        other => panic!("unexpected: {other:?}"),
    }
    match SbomGenerator::verify_deterministic(SbomFormat::CycloneDx, "1234", b"abc", 10) {
        Err(BuildError::SbomError { message }) => {
            assert_eq!(message, "CycloneDX SBOM generation is not deterministic")
        }
        other => panic!("unexpected: {other:?}"),
    }
}
