use sps2::errors::InstallError;
use sps2::graph::PackageId;
use sps2::installer::{
    find_state, parse_state_id, state_id_text, state_not_found, validate_install_context,
    validate_uninstall_context, validate_update_context, InstallConfig, InstallContext, LocalFile,
    StateInfo, UninstallContext, UpdateContext,
};
use sps2::version::Version;

fn strings(items: &[&str]) -> Vec<String> {
    items.iter().map(|s| s.to_string()).collect()
}

fn file(path: &str, exists: bool) -> LocalFile {
    LocalFile { path: path.to_string(), exists }
}

const ID: u128 = 0x550e8400_e29b_41d4_a716_446655440000;

#[test]
fn config_builders() {
    let c = InstallConfig::default();
    assert_eq!(
        c,
        InstallConfig { max_concurrency: 4, download_timeout: 300, enable_apfs: true, state_retention: 10 }
    );
    assert!(!InstallConfig::for_target(false).enable_apfs);
    let c = c.with_concurrency(8).with_timeout(60).with_apfs(false).with_retention(3);
    assert_eq!(
        c,
        InstallConfig { max_concurrency: 8, download_timeout: 60, enable_apfs: false, state_retention: 3 }
    );
}

#[test]
fn install_needs_something_to_install() {
    let empty = InstallContext { packages: vec![], local_files: vec![] };
    assert!(matches!(validate_install_context(&empty), Err(InstallError::NoPackagesSpecified)));
    let named = InstallContext { packages: strings(&["curl>=8"]), local_files: vec![] };
    assert!(validate_install_context(&named).is_ok());
    let local =
        InstallContext { packages: vec![], local_files: vec![file("/tmp/a-1.0.0.sp", true)] };
    assert!(validate_install_context(&local).is_ok());
}

#[test]
fn local_files_must_exist_and_end_in_sp() {
    let ctx = |files: Vec<LocalFile>| InstallContext { packages: strings(&["x"]), local_files: files };
    match validate_install_context(&ctx(vec![file("/a.sp", true), file("/gone.sp", false)])) {
        Err(InstallError::LocalPackageNotFound { path }) => assert_eq!(path, "/gone.sp"),
        other => panic!("unexpected: {other:?}"),
    }
    match validate_install_context(&ctx(vec![file("/a.tar", true), file("/gone.sp", false)])) {
        Err(InstallError::InvalidPackageFile { path, message }) => {
            assert_eq!(path, "/a.tar");
            assert_eq!(message, "file must have .sp extension");
        }
        other => panic!("unexpected: {other:?}"),
    }
    match validate_install_context(&ctx(vec![file("/gone.tar", false)])) {
        Err(InstallError::LocalPackageNotFound { path }) => assert_eq!(path, "/gone.tar"),
        other => panic!("unexpected: {other:?}"),
    }
    assert!(validate_install_context(&ctx(vec![file("/a.sp", true), file("b.sp", true)])).is_ok());
    assert!(validate_install_context(&ctx(vec![file("/asp", true)])).is_err());
}

#[test]
fn uninstall_and_update_requests() {
    assert!(matches!(
        validate_uninstall_context(&UninstallContext { packages: vec![] }),
        Err(InstallError::NoPackagesSpecified)
    ));
    assert!(validate_uninstall_context(&UninstallContext { packages: strings(&["a"]) }).is_ok());
    assert!(validate_update_context(&UpdateContext { packages: vec![] }).is_ok());
    assert!(validate_update_context(&UpdateContext { packages: strings(&["a"]) }).is_ok());
}

#[test]
fn state_ids_as_text() {
    assert_eq!(state_id_text(ID), "550e8400-e29b-41d4-a716-446655440000");
    assert_eq!(state_id_text(0), "00000000-0000-0000-0000-000000000000");
    assert_eq!(state_id_text(u128::MAX), "ffffffff-ffff-ffff-ffff-ffffffffffff");
    assert_eq!(parse_state_id("550e8400-e29b-41d4-a716-446655440000"), Some(ID));
    assert_eq!(parse_state_id("550E8400E29B41D4A716446655440000"), Some(ID));
    assert_eq!(parse_state_id("not-a-uuid"), None);
    assert_eq!(parse_state_id(""), None);
    for id in [0u128, 1, ID, u128::MAX] {
        assert_eq!(parse_state_id(&state_id_text(id)), Some(id));
    }
    match state_not_found(ID) {
        InstallError::StateNotFound { state_id } => {
            assert_eq!(state_id, "550e8400-e29b-41d4-a716-446655440000")
        }
        other => panic!("unexpected: {other:?}"),
    }
}

#[test]
fn describing_states() {
    let names = strings(&["a", "b", "c", "d", "e", "f", "g"]);
    let info = StateInfo::describe(ID, 1_700_000_000, Some("550e8400-e29b-41d4-a716-446655440001"), &names);
    assert_eq!(info.id, ID);
    assert_eq!(info.timestamp, 1_700_000_000);
    assert_eq!(info.parent_id, Some(ID + 1));
    assert_eq!(info.package_count, 7);
    assert_eq!(info.packages.len(), 5);
    assert_eq!(info.packages[4].name, "e");
    assert_eq!(info.packages[0].version.to_string(), "1.0.0");
    assert!(!info.is_root());
    assert_eq!(info.age(1_700_000_060), 60);
    assert_eq!(info.age(1_699_999_990), -10);
    assert_eq!(info.package_summary(), "a-1.0.0, b-1.0.0, c-1.0.0 and 4 more");

    let root = StateInfo::describe(ID, 0, None, &vec![]);
    assert!(root.is_root());
    assert_eq!(root.package_summary(), "No packages");
    assert!(StateInfo::describe(ID, 0, Some("garbage"), &vec![]).is_root());
    let extreme = StateInfo::describe(ID, i64::MIN, None, &vec![]);
    assert_eq!(extreme.age(i64::MAX), i64::MAX as i128 - i64::MIN as i128);
}

#[test]
fn package_summaries() {
    let pkg = |n: &str, v: &str| PackageId::new(n.to_string(), Version::parse(v).unwrap());
    let info = |packages: Vec<PackageId>, count: usize| StateInfo {
        id: ID,
        timestamp: 0,
        parent_id: None,
        package_count: count,
        packages,
    };
    assert_eq!(info(vec![pkg("curl", "8.5.0")], 1).package_summary(), "curl-8.5.0");
    assert_eq!(
        info(vec![pkg("a", "1.0.0"), pkg("b", "2.0.0-rc.1"), pkg("c", "3.0.0")], 3).package_summary(),
        "a-1.0.0, b-2.0.0-rc.1, c-3.0.0"
    );
    assert_eq!(
        info(vec![pkg("a", "1.0.0"), pkg("b", "2.0.0"), pkg("c", "3.0.0"), pkg("d", "4.0.0")], 12)
            .package_summary(),
        "a-1.0.0, b-2.0.0, c-3.0.0 and 9 more"
    );
}

#[test]
fn finding_a_state() {
    let list = || {
        vec![
            StateInfo::describe(1, 10, None, &vec![]),
            StateInfo::describe(2, 20, None, &strings(&["a"])),
            StateInfo::describe(2, 30, None, &strings(&["shadowed"])),
        ]
    };
    let found = find_state(list(), 2).unwrap();
    assert_eq!(found.timestamp, 20);
    assert_eq!(find_state(list(), 1).unwrap().timestamp, 10);
    match find_state(list(), 3) {
        Err(InstallError::StateNotFound { state_id }) => {
            assert_eq!(state_id, "00000000-0000-0000-0000-000000000003")
        }
        other => panic!("unexpected: {other:?}"),
    }
    assert!(find_state(vec![], 1).is_err());
}

fn pkg(name: &str, version: &str) -> PackageId {
    PackageId::new(name.to_string(), Version::parse(version).unwrap())
}

fn installer(retention: usize) -> sps2::installer::Installer {
    sps2::installer::Installer::new(
        InstallConfig::default().with_retention(retention),
        sps2::state::StateDb::new(1, 100),
    )
}

fn named(names: &[&str]) -> InstallContext {
    InstallContext { packages: strings(names), local_files: vec![] }
}

#[test]
fn installer_operations_make_linked_states() {
    let mut i = installer(10);
    let r = i.install(&named(&["p"]), 2, 200, &vec![pkg("p", "1.0.0"), pkg("q", "1.0.0")]).unwrap();
    assert_eq!(r.state_id, 2);
    assert!(r.removed_states.is_empty());
    let current = i.current_state().unwrap();
    assert_eq!((current.id, current.parent_id, current.timestamp), (2, Some(1), 200));
    assert_eq!(current.package_count, 2);
    assert_eq!(current.package_summary(), "p-1.0.0, q-1.0.0");

    i.update(&UpdateContext { packages: vec![] }, 3, 300, &vec![pkg("p", "2.0.0")]).unwrap();
    let current = i.current_state().unwrap();
    assert_eq!((current.id, current.parent_id), (3, Some(2)));
    assert_eq!(current.package_summary(), "q-1.0.0, p-2.0.0");

    i.uninstall(&UninstallContext { packages: strings(&["q"]) }, &vec![], 4, 400).unwrap();
    let current = i.current_state().unwrap();
    assert_eq!((current.id, current.parent_id), (4, Some(3)));
    assert_eq!(current.package_summary(), "p-2.0.0");

    let listed: Vec<(u128, Option<u128>, usize)> =
        i.list_states().iter().map(|s| (s.id, s.parent_id, s.package_count)).collect();
    assert_eq!(listed, vec![(1, None, 0), (2, Some(1), 2), (3, Some(2), 2), (4, Some(3), 1)]);
}

#[test]
fn installer_rollback_keeps_every_state() {
    let mut i = installer(10);
    i.install(&named(&["p"]), 2, 0, &vec![pkg("p", "1.0.0")]).unwrap();
    i.install(&named(&["p"]), 3, 0, &vec![pkg("p", "2.0.0")]).unwrap();
    i.rollback(2).unwrap();
    assert_eq!(i.current_state().unwrap().package_summary(), "p-1.0.0");
    assert_eq!(i.list_states().len(), 3);
    match i.rollback(77) {
        Err(sps2::installer::InstallFailure::Request(InstallError::StateNotFound { state_id })) => {
            assert_eq!(state_id, "00000000-0000-0000-0000-00000000004d")
        }
        other => panic!("unexpected: {other:?}"),
    }
    assert_eq!(i.current_state().unwrap().id, 2);
}

#[test]
fn installer_refuses_bad_requests_without_a_trace() {
    let mut i = installer(10);
    let empty = InstallContext { packages: vec![], local_files: vec![] };
    assert!(matches!(
        i.install(&empty, 2, 0, &vec![pkg("p", "1.0.0")]),
        Err(sps2::installer::InstallFailure::Request(InstallError::NoPackagesSpecified))
    ));
    assert!(matches!(
        i.uninstall(&UninstallContext { packages: vec![] }, &vec![], 2, 0),
        Err(sps2::installer::InstallFailure::Request(InstallError::NoPackagesSpecified))
    ));
    assert!(matches!(
        i.install(&named(&["p"]), 1, 0, &vec![]),
        Err(sps2::installer::InstallFailure::State(sps2::state::StateError::AlreadyExists { id: 1 }))
    ));
    assert_eq!(i.list_states().len(), 1);
    assert_eq!(i.current_state().unwrap().id, 1);
}

#[test]
fn installer_applies_the_retention_policy() {
    let mut i = installer(2);
    for id in 2..=5u128 {
        let r = i.install(&named(&["p"]), id, 0, &vec![pkg("p", &format!("{id}.0.0"))]).unwrap();
        let expected: Vec<u128> = if id >= 3 { vec![id - 2] } else { vec![] };
        assert_eq!(r.removed_states, expected);
    }
    let listed: Vec<(u128, Option<u128>)> =
        i.list_states().iter().map(|s| (s.id, s.parent_id)).collect();
    assert_eq!(listed, vec![(4, None), (5, Some(4))]);
    assert!(i.cleanup_old_states().is_empty());

    let mut keep_one = installer(1);
    keep_one.install(&named(&["p"]), 2, 0, &vec![pkg("p", "1.0.0")]).unwrap();
    let listed: Vec<(u128, Option<u128>)> =
        keep_one.list_states().iter().map(|s| (s.id, s.parent_id)).collect();
    assert_eq!(listed, vec![(2, None)]);
}

#[test]
fn listing_samples_five_packages() {
    let mut i = installer(10);
    let many: Vec<PackageId> = (0..8).map(|n| pkg(&format!("p{n}"), "1.0.0")).collect();
    i.install(&named(&["p0"]), 2, 0, &many).unwrap();
    let current = i.current_state().unwrap();
    assert_eq!(current.package_count, 8);
    assert_eq!(current.packages.len(), 5);
    assert_eq!(current.package_summary(), "p0-1.0.0, p1-1.0.0, p2-1.0.0 and 5 more");
}

#[test]
fn a_failed_guard_takes_the_operation_back() {
    let mut i = installer(10);
    i.install(&named(&["p"]), 2, 0, &vec![pkg("p", "1.0.0")]).unwrap();
    assert_eq!(
        i.settle(sps2::guard_verify::GuardDecision::Clean, 1).unwrap(),
        sps2::installer::Settlement::Kept
    );
    assert_eq!(
        i.settle(sps2::guard_verify::GuardDecision::Report, 1).unwrap(),
        sps2::installer::Settlement::Kept
    );
    assert_eq!(
        i.settle(sps2::guard_verify::GuardDecision::Heal, 1).unwrap(),
        sps2::installer::Settlement::Healing
    );
    assert_eq!(i.current_state().unwrap().id, 2);
    assert_eq!(
        i.settle(sps2::guard_verify::GuardDecision::Fail, 1).unwrap(),
        sps2::installer::Settlement::RolledBack
    );
    assert_eq!(i.current_state().unwrap().id, 1);
    assert_eq!(i.list_states().len(), 2);
    assert!(matches!(
        i.settle(sps2::guard_verify::GuardDecision::Fail, 9),
        Err(sps2::installer::InstallFailure::Request(InstallError::StateNotFound { .. }))
    ));
}
