use sps2::graph::PackageId;
use sps2::state::{install_set, uninstall_set, StateDb, StateError};
use sps2::store::{
    referenced_hashes, ContentStore, LinkedFile, ManifestFile, PackageManifest, StoreError,
};
use sps2::version::Version;

fn pkg(name: &str, version: &str) -> PackageId {
    PackageId::new(name.to_string(), Version::parse(version).unwrap())
}

fn labels(packages: &[PackageId]) -> Vec<String> {
    packages.iter().map(|p| format!("{}-{}", p.name, p.version.to_string())).collect()
}

fn strings(items: &[&str]) -> Vec<String> {
    items.iter().map(|s| s.to_string()).collect()
}

fn state_ids(db: &StateDb) -> Vec<u128> {
    db.list_states().iter().map(|s| s.id).collect()
}

#[test]
fn package_sets() {
    let current = vec![pkg("a", "1.0.0"), pkg("b", "1.0.0"), pkg("c", "1.0.0")];
    assert_eq!(
        labels(&install_set(&current, &vec![pkg("b", "2.0.0"), pkg("d", "1.0.0")])),
        vec!["a-1.0.0", "c-1.0.0", "b-2.0.0", "d-1.0.0"]
    );
    assert_eq!(labels(&uninstall_set(&current, &strings(&["a", "c", "zzz"]))), vec!["b-1.0.0"]);
    assert_eq!(labels(&uninstall_set(&current, &vec![])), labels(&current));
    assert_eq!(labels(&install_set(&vec![], &vec![])), Vec::<String>::new());
}

#[test]
fn every_operation_links_to_the_previous_state() {
    let mut db = StateDb::new(1, 100);
    assert_eq!(db.current_id(), 1);
    assert_eq!(db.current_state().parent_id, None);
    db.install(2, 200, &vec![pkg("p", "1.0.0")]).unwrap();
    assert_eq!(db.current_id(), 2);
    assert_eq!(db.current_state().parent_id, Some(1));
    db.update(3, 300, &vec![pkg("p", "2.0.0")]).unwrap();
    assert_eq!(db.current_state().parent_id, Some(2));
    assert_eq!(labels(&db.current_state().packages), vec!["p-2.0.0"]);
    db.uninstall(4, 400, &strings(&["p"])).unwrap();
    assert_eq!(db.current_state().parent_id, Some(3));
    assert!(db.current_state().packages.is_empty());
    assert_eq!(db.current_state().timestamp, 400);
    assert_eq!(state_ids(&db), vec![1, 2, 3, 4]);
}

#[test]
fn install_then_uninstall_restores_the_package_set() {
    let mut db = StateDb::new(1, 0);
    db.install(2, 0, &vec![pkg("a", "1.0.0"), pkg("b", "1.0.0")]).unwrap();
    let before = labels(&db.current_state().packages);
    db.install(3, 0, &vec![pkg("p", "1.0.0")]).unwrap();
    assert_ne!(labels(&db.current_state().packages), before);
    db.uninstall(4, 0, &strings(&["p"])).unwrap();
    assert_eq!(labels(&db.current_state().packages), before);
    assert_ne!(db.current_id(), 2);
}

#[test]
fn interrupted_transaction_leaves_no_trace() {
    let mut db = StateDb::new(1, 0);
    db.install(2, 0, &vec![pkg("p", "1.0.0")]).unwrap();
    db.begin(3, 0, vec![pkg("p", "2.0.0")]).unwrap();
    assert_eq!(state_ids(&db), vec![1, 2]);
    assert_eq!(db.current_id(), 2);
    assert!(!db.state_exists(3));
    db.abort();
    assert_eq!(state_ids(&db), vec![1, 2]);
    assert_eq!(db.current_id(), 2);
    assert_eq!(labels(&db.current_state().packages), vec!["p-1.0.0"]);
    assert_eq!(db.activate(), Err(StateError::NoTransaction));
    db.begin(3, 0, vec![]).unwrap();
    assert_eq!(db.activate(), Ok(3));
    assert_eq!(db.current_id(), 3);
}

#[test]
fn rollback_switches_the_pointer_only() {
    let mut db = StateDb::new(1, 0);
    db.install(2, 0, &vec![pkg("p", "1.0.0")]).unwrap();
    db.install(3, 0, &vec![pkg("p", "2.0.0")]).unwrap();
    db.rollback(2).unwrap();
    assert_eq!(db.current_id(), 2);
    assert_eq!(labels(&db.current_state().packages), vec!["p-1.0.0"]);
    assert_eq!(state_ids(&db), vec![1, 2, 3]);
    assert_eq!(db.rollback(9), Err(StateError::NotFound { id: 9 }));
    assert_eq!(db.current_id(), 2);
    db.install(4, 0, &vec![pkg("q", "1.0.0")]).unwrap();
    assert_eq!(db.current_state().parent_id, Some(2));
    assert_eq!(labels(&db.current_state().packages), vec!["p-1.0.0", "q-1.0.0"]);
}

#[test]
fn refusals() {
    let mut db = StateDb::new(1, 0);
    assert_eq!(db.begin(1, 0, vec![]), Err(StateError::AlreadyExists { id: 1 }));
    assert_eq!(db.install(1, 0, &vec![]), Err(StateError::AlreadyExists { id: 1 }));
    db.begin(2, 0, vec![]).unwrap();
    assert_eq!(db.begin(3, 0, vec![]), Err(StateError::TransactionPending));
    assert_eq!(db.rollback(1), Err(StateError::TransactionPending));
    assert_eq!(db.cleanup_old_states(0), Err(StateError::TransactionPending));
    assert_eq!(db.uninstall(4, 0, &vec![]), Err(StateError::TransactionPending));
    assert_eq!(state_ids(&db), vec![1]);
}

#[test]
fn cleanup_keeps_the_recent_states_and_the_current_one() {
    let mut db = StateDb::new(1, 0);
    for id in 2..=6u128 {
        db.install(id, 0, &vec![pkg("p", &format!("{id}.0.0"))]).unwrap();
    }
    db.rollback(2).unwrap();
    assert_eq!(db.cleanup_old_states(10), Ok(vec![]));
    assert_eq!(db.cleanup_old_states(2), Ok(vec![1, 3, 4]));
    assert_eq!(state_ids(&db), vec![2, 5, 6]);
    assert_eq!(db.current_id(), 2);
    let parents: Vec<Option<u128>> = db.list_states().iter().map(|s| s.parent_id).collect();
    assert_eq!(parents, vec![None, None, Some(5)]);
    assert_eq!(db.cleanup_old_states(0), Ok(vec![5, 6]));
    assert_eq!(state_ids(&db), vec![2]);
    assert_eq!(labels(&db.current_state().packages), vec!["p-2.0.0"]);
}

fn manifest(name: &str, files: &[(&str, &str)]) -> PackageManifest {
    PackageManifest {
        name: name.to_string(),
        version: "1.0.0".to_string(),
        dependencies: vec![],
        files: files
            .iter()
            .map(|(p, h)| ManifestFile { path: p.to_string(), hash: h.to_string(), mode: 0o644 })
            .collect(),
    }
}

#[test]
fn put_then_link_gives_the_content_hash() {
    let mut store = ContentStore::new();
    let mut tree: Vec<LinkedFile> = vec![];
    let h = store.put(b"abc");
    assert_eq!(h, "6437b3ac38465133ffb63b75273a8db548c558465d79db03fd359c6cd5bd9d85");
    assert!(store.has_object(&h));
    assert_eq!(store.put(b"abc"), h);
    assert_eq!(store.len(), 1);
    store.link_into(&mut tree, &h, "/live/bin/tool").unwrap();
    assert_eq!(tree.len(), 1);
    assert_eq!((tree[0].path.as_str(), tree[0].hash.as_str()), ("/live/bin/tool", h.as_str()));
    let h2 = store.put_and_link(&mut tree, b"other", "/live/bin/tool");
    assert_eq!(tree.len(), 1);
    assert_eq!(tree[0].hash, h2);
    assert_eq!(h2, sps2::hash::Hash::from_data(b"other").to_hex());
    match store.link_into(&mut tree, "0000", "/live/x") {
        Err(StoreError::MissingObject { hash }) => assert_eq!(hash, "0000"),
        other => panic!("unexpected: {other:?}"),
    }
    assert_eq!(tree.len(), 1);
}

#[test]
fn garbage_collection_keeps_what_states_refer_to() {
    let mut store = ContentStore::new();
    let a = store.put(b"a");
    let b = store.put(b"b");
    let c = store.put(b"c");
    let retained =
        vec![manifest("one", &[("bin/a", &a), ("bin/c", &c)]), manifest("two", &[("lib/c", &c)])];
    let roots = referenced_hashes(&retained);
    assert_eq!(roots, vec![a.clone(), c.clone(), c.clone()]);
    assert_eq!(store.garbage_collect(&roots), 1);
    assert!(store.has_object(&a) && store.has_object(&c) && !store.has_object(&b));
    assert_eq!(store.garbage_collect(&roots), 0);
    assert_eq!(store.garbage_collect(&vec![]), 2);
    assert_eq!(store.len(), 0);
}

#[test]
fn engines_from_records() {
    use_records(vec![(1, None), (2, Some(1))], 2, true);
    use_records(vec![(1, None), (2, Some(1))], 3, false);
    use_records(vec![(1, None), (1, None)], 1, false);
    use_records(vec![(1, Some(9))], 1, false);
    use_records(vec![(1, Some(1))], 1, true);
    use_records(vec![], 1, false);
}

fn use_records(records: Vec<(u128, Option<u128>)>, current: u128, ok: bool) {
    let states = records
        .into_iter()
        .map(|(id, parent_id)| sps2::state::StateRecord {
            id,
            parent_id,
            timestamp: 0,
            packages: vec![pkg("p", "1.0.0")],
        })
        .collect();
    match StateDb::from_records(states, current) {
        Some(db) => {
            assert!(ok);
            assert!(db.is_well_formed());
            assert_eq!(db.current_id(), current);
        }
        None => assert!(!ok),
    }
}

#[test]
fn state_errors_have_their_kinds() {
    assert_eq!(StateError::NotFound { id: 1 }.kind(), sps2::errors::ErrorKind::NotFound);
    assert_eq!(StateError::AlreadyExists { id: 1 }.kind(), sps2::errors::ErrorKind::Conflict);
    assert_eq!(StateError::TransactionPending.kind(), sps2::errors::ErrorKind::Conflict);
    assert_eq!(StateError::NoTransaction.kind(), sps2::errors::ErrorKind::Conflict);
}

#[test]
fn a_sweep_keeps_what_states_refer_to() {
    let mut store = ContentStore::new();
    let a = store.put(b"a");
    let b = store.put(b"b");
    let c = store.put(b"c");
    let retained =
        vec![manifest("one", &[("bin/a", &a), ("bin/c", &c)]), manifest("two", &[("lib/c", &c)])];
    assert_eq!(store.sweep(&retained), 1);
    assert!(store.has_object(&a) && store.has_object(&c) && !store.has_object(&b));
    assert_eq!(store.sweep(&retained), 0);
    assert_eq!(store.sweep(&vec![]), 2);
    assert_eq!(store.len(), 0);
}

#[test]
fn no_garbage_is_collected_during_a_transaction() {
    let mut store = ContentStore::new();
    let a = store.put(b"a");
    store.put(b"b");
    let retained = vec![manifest("one", &[("bin/a", &a)])];
    let mut installer = sps2::installer::Installer::new(
        sps2::installer::InstallConfig::default(),
        StateDb::new(1, 0),
    );
    assert!(!installer.states.in_transaction());
    installer.states.begin(2, 0, vec![pkg("p", "1.0.0")]).unwrap();
    assert!(installer.states.in_transaction());
    assert_eq!(
        installer.collect_garbage(&mut store, &retained),
        Err(StateError::TransactionPending)
    );
    assert_eq!(store.len(), 2);
    installer.states.abort();
    assert_eq!(installer.collect_garbage(&mut store, &retained), Ok(1));
    assert_eq!(store.len(), 1);
    assert!(store.has_object(&a));
}
