use sps2::errors::{BuildError, ErrorKind, InstallError, OpsError, StorageError};
use sps2::packaging::{deterministic_entries, PackageEntry, PackagingPolicy};
use sps2::state::{on_cancellation, Cancellation, TransactionStep};

fn entry(path: &str, mode: u32, mtime: u64, uid: u32) -> PackageEntry {
    PackageEntry { path: path.to_string(), mode, mtime, uid, gid: uid + 1 }
}

fn flat(entries: &[PackageEntry]) -> Vec<(String, u32, u64, u32, u32)> {
    entries.iter().map(|e| (e.path.clone(), e.mode, e.mtime, e.uid, e.gid)).collect()
}

const POLICY: PackagingPolicy = PackagingPolicy { source_date_epoch: 1_704_067_200, mode_mask: 0o755 };

#[test]
fn entries_are_sorted_and_fixed() {
    let found = vec![
        entry("lib/libz.so", 0o100777, 5, 501),
        entry("bin/tool", 0o4755, 99, 0),
        entry("bin", 0o40755, 7, 501),
        entry("share/doc/é", 0o644, 1, 20),
        entry("bin/tool2", 0o600, 3, 20),
        entry("Bin", 0o644, 3, 20),
    ];
    let out = deterministic_entries(&found, POLICY);
    assert_eq!(
        flat(&out),
        vec![
            ("Bin".to_string(), 0o644, 1_704_067_200, 0, 0),
            ("bin".to_string(), 0o755, 1_704_067_200, 0, 0),
            ("bin/tool".to_string(), 0o755, 1_704_067_200, 0, 0),
            ("bin/tool2".to_string(), 0o600, 1_704_067_200, 0, 0),
            ("lib/libz.so".to_string(), 0o755, 1_704_067_200, 0, 0),
            ("share/doc/é".to_string(), 0o644, 1_704_067_200, 0, 0),
        ]
    );
}

#[test]
fn the_order_found_does_not_matter() {
    let mut found: Vec<PackageEntry> =
        (0..20).map(|i| entry(&format!("f/{}", (i * 7) % 20), 0o644, i, 1)).collect();
    let first = flat(&deterministic_entries(&found, POLICY));
    found.reverse();
    assert_eq!(flat(&deterministic_entries(&found, POLICY)), first);
    found.rotate_left(7);
    assert_eq!(flat(&deterministic_entries(&found, POLICY)), first);
    let mut sorted = first.clone();
    sorted.sort();
    assert_eq!(first, sorted);
    assert!(deterministic_entries(&vec![], POLICY).is_empty());
}

#[test]
fn transaction_steps_in_sequence() {
    let mut step = TransactionStep::first();
    let mut seen = vec![step];
    while let Some(next) = step.next() {
        seen.push(next);
        step = next;
    }
    assert_eq!(
        seen,
        vec![
            TransactionStep::Lock,
            TransactionStep::ComputeTarget,
            TransactionStep::EnsureObjects,
            TransactionStep::Materialize,
            TransactionStep::Record,
            TransactionStep::Activate,
            TransactionStep::Unlock,
            TransactionStep::Verify,
            TransactionStep::Collect,
        ]
    );
}

#[test]
fn cancellation_never_leaves_a_half_switched_prefix() {
    assert_eq!(on_cancellation(None), Cancellation::StopBeforeActivation);
    for step in [
        TransactionStep::Lock,
        TransactionStep::ComputeTarget,
        TransactionStep::EnsureObjects,
        TransactionStep::Materialize,
        TransactionStep::Record,
    ] {
        assert!(!step.is_past_activation());
        assert_eq!(on_cancellation(Some(step)), Cancellation::StopBeforeActivation);
    }
    for step in [
        TransactionStep::Activate,
        TransactionStep::Unlock,
        TransactionStep::Verify,
        TransactionStep::Collect,
    ] {
        assert!(step.is_past_activation());
        assert_eq!(on_cancellation(Some(step)), Cancellation::Complete);
    }
}

#[test]
fn kinds_of_errors() {
    let m = || "m".to_string();
    let table = [
        (BuildError::ConfigureFailed { message: m() }, ErrorKind::External),
        (BuildError::CompilationFailed { message: m() }, ErrorKind::External),
        (BuildError::InstallFailed { message: m() }, ErrorKind::External),
        (BuildError::CompileFailed { message: m() }, ErrorKind::External),
        (BuildError::FetchFailed { url: m() }, ErrorKind::Transient),
        (BuildError::HashMismatch { file: m(), expected: m(), actual: m() }, ErrorKind::Integrity),
        (BuildError::GitCloneFailed { message: m() }, ErrorKind::External),
        (BuildError::ExtractionFailed { message: m() }, ErrorKind::Integrity),
        (BuildError::RecipeError { message: m() }, ErrorKind::InvalidInput),
        (BuildError::Failed { message: m() }, ErrorKind::Internal),
        (BuildError::SbomError { message: m() }, ErrorKind::External),
    ];
    for (error, kind) in table {
        assert_eq!(error.kind(), kind, "{error:?}");
        assert_eq!(error.kind().retries(), kind == ErrorKind::Transient);
    }
    assert_eq!(InstallError::NoPackagesSpecified.kind(), ErrorKind::InvalidInput);
    assert_eq!(InstallError::LocalPackageNotFound { path: m() }.kind(), ErrorKind::NotFound);
    assert_eq!(
        InstallError::InvalidPackageFile { path: m(), message: m() }.kind(),
        ErrorKind::InvalidInput
    );
    assert_eq!(InstallError::StateNotFound { state_id: m() }.kind(), ErrorKind::NotFound);
    assert_eq!(StorageError::PathNotFound { path: m() }.kind(), ErrorKind::NotFound);
    assert_eq!(StorageError::IoError { message: m() }.kind(), ErrorKind::Internal);
    assert_eq!(OpsError::MissingComponent { component: m() }.kind(), ErrorKind::Internal);
    for kind in [ErrorKind::Conflict, ErrorKind::Policy, ErrorKind::Integrity] {
        assert!(!kind.retries());
    }
}
