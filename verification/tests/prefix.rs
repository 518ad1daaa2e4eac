use sps2::graph::PackageId;
use sps2::prefix::{describes, flatten, materialize, CommitError, FileProblem, Prefix};
use sps2::state::StateError;
use sps2::store::{ContentStore, LinkedFile, ManifestFile, PackageManifest};
use sps2::version::Version;

fn pkg(name: &str, version: &str) -> PackageId {
    PackageId::new(name.to_string(), Version::parse(version).unwrap())
}

fn manifest(name: &str, version: &str, files: &[(&str, &str)]) -> PackageManifest {
    PackageManifest {
        name: name.to_string(),
        version: version.to_string(),
        dependencies: vec![],
        files: files
            .iter()
            .map(|(p, h)| ManifestFile { path: p.to_string(), hash: h.to_string(), mode: 0o644 })
            .collect(),
    }
}

fn links(tree: &[LinkedFile]) -> Vec<(String, String)> {
    tree.iter().map(|l| (l.path.clone(), l.hash.clone())).collect()
}

fn pairs(items: &[(&str, &str)]) -> Vec<(String, String)> {
    items.iter().map(|(p, h)| (p.to_string(), h.to_string())).collect()
}

fn state_ids(p: &Prefix) -> Vec<u128> {
    p.states.list_states().iter().map(|s| s.id).collect()
}

fn tree_ids(p: &Prefix) -> Vec<u128> {
    p.trees.iter().map(|t| t.id).collect()
}

#[test]
fn a_new_prefix_has_the_root_and_no_files() {
    let p = Prefix::new(1, 100);
    assert_eq!(p.live, 1);
    assert_eq!(state_ids(&p), vec![1]);
    assert_eq!(tree_ids(&p), vec![1]);
    assert!(p.live_tree().tree.is_empty());
    assert_eq!(p.store.len(), 0);
}

#[test]
fn a_committed_state_holds_the_files_of_its_packages() {
    let mut p = Prefix::new(1, 100);
    let a = p.put(b"tool");
    let b = p.put(b"library");
    let manifests = vec![
        manifest("curl", "8.5.0", &[("bin/curl", &a), ("lib/libcurl.dylib", &b)]),
        manifest("zlib", "1.3.0", &[("lib/libz.dylib", &b)]),
    ];
    p.commit(2, 200, vec![pkg("curl", "8.5.0"), pkg("zlib", "1.3.0")], manifests).unwrap();
    assert_eq!(p.live, 2);
    assert_eq!(p.states.current_id(), 2);
    assert_eq!(state_ids(&p), vec![1, 2]);
    assert_eq!(p.states.current_state().parent_id, Some(1));
    assert_eq!(tree_ids(&p), vec![1, 2]);
    assert_eq!(
        links(&p.live_tree().tree),
        pairs(&[("bin/curl", &a), ("lib/libcurl.dylib", &b), ("lib/libz.dylib", &b)])
    );
    for file in &p.live_tree().tree {
        assert!(p.store.has_object(&file.hash));
    }
}

#[test]
fn a_state_that_cannot_be_made_leaves_no_trace() {
    let mut p = Prefix::new(1, 100);
    let a = p.put(b"tool");
    let missing = vec![manifest("curl", "8.5.0", &[("bin/curl", &a), ("bin/other", "0000")])];
    assert_eq!(
        p.commit(2, 200, vec![pkg("curl", "8.5.0")], missing),
        Err(CommitError::Files(FileProblem::MissingObject { hash: "0000".to_string() }))
    );
    let b = p.put(b"other");
    let clash = vec![
        manifest("curl", "8.5.0", &[("bin/tool", &a)]),
        manifest("wget", "1.0.0", &[("bin/tool", &b)]),
    ];
    assert_eq!(
        p.commit(2, 200, vec![pkg("curl", "8.5.0"), pkg("wget", "1.0.0")], clash),
        Err(CommitError::Files(FileProblem::ConflictingFiles { path: "bin/tool".to_string() }))
    );
    let wrong_version = vec![manifest("curl", "8.5.1", &[("bin/curl", &a)])];
    assert_eq!(
        p.commit(2, 200, vec![pkg("curl", "8.5.0")], wrong_version),
        Err(CommitError::PackagesMismatch)
    );
    assert_eq!(
        p.commit(2, 200, vec![pkg("curl", "8.5.0")], vec![]),
        Err(CommitError::PackagesMismatch)
    );
    assert_eq!(
        p.commit(1, 200, vec![], vec![]),
        Err(CommitError::State(StateError::AlreadyExists { id: 1 }))
    );
    assert_eq!(p.live, 1);
    assert_eq!(state_ids(&p), vec![1]);
    assert_eq!(tree_ids(&p), vec![1]);
    assert!(!p.states.in_transaction());
    assert!(p.prepared.is_none());
}

#[test]
fn two_packages_may_share_a_file() {
    let mut p = Prefix::new(1, 100);
    let a = p.put(b"licence");
    let shared = vec![
        manifest("curl", "8.5.0", &[("share/COPYING", &a)]),
        manifest("wget", "1.0.0", &[("share/COPYING", &a)]),
    ];
    p.commit(2, 200, vec![pkg("curl", "8.5.0"), pkg("wget", "1.0.0")], shared).unwrap();
    assert_eq!(links(&p.live_tree().tree), pairs(&[("share/COPYING", &a)]));
}

#[test]
fn an_interrupted_transaction_leaves_the_live_prefix_as_it_was() {
    let mut p = Prefix::new(1, 100);
    let a = p.put(b"one");
    p.commit(2, 200, vec![pkg("tool", "1.0.0")], vec![manifest("tool", "1.0.0", &[("bin/t", &a)])])
        .unwrap();
    let b = p.put(b"two");
    p.prepare(3, 300, vec![pkg("tool", "2.0.0")], vec![manifest("tool", "2.0.0", &[("bin/t", &b)])])
        .unwrap();
    // The new state is ready, and nothing can be seen of it.
    assert!(p.states.in_transaction());
    assert_eq!(p.live, 2);
    assert_eq!(state_ids(&p), vec![1, 2]);
    assert_eq!(tree_ids(&p), vec![1, 2]);
    assert_eq!(links(&p.live_tree().tree), pairs(&[("bin/t", &a)]));
    assert_eq!(
        p.prepare(4, 400, vec![], vec![]),
        Err(CommitError::State(StateError::TransactionPending))
    );
    // A restart drops it.
    p.recover();
    assert!(!p.states.in_transaction());
    assert!(p.prepared.is_none());
    assert_eq!(p.live, 2);
    assert_eq!(state_ids(&p), vec![1, 2]);
    assert_eq!(links(&p.live_tree().tree), pairs(&[("bin/t", &a)]));
    assert_eq!(p.flip(), Err(StateError::NoTransaction));
}

#[test]
fn a_prepared_state_becomes_current_in_one_step() {
    let mut p = Prefix::new(1, 100);
    let a = p.put(b"one");
    p.prepare(2, 200, vec![pkg("tool", "1.0.0")], vec![manifest("tool", "1.0.0", &[("bin/t", &a)])])
        .unwrap();
    assert_eq!(p.flip(), Ok(2));
    assert_eq!(p.live, 2);
    assert_eq!(state_ids(&p), vec![1, 2]);
    assert_eq!(links(&p.live_tree().tree), pairs(&[("bin/t", &a)]));
}

#[test]
fn after_a_rollback_the_live_prefix_holds_the_files_of_the_target() {
    let mut p = Prefix::new(1, 100);
    let a = p.put(b"one");
    let b = p.put(b"two");
    let c = p.put(b"extra");
    p.commit(2, 200, vec![pkg("tool", "1.0.0")], vec![manifest("tool", "1.0.0", &[("bin/t", &a)])])
        .unwrap();
    p.commit(
        3,
        300,
        vec![pkg("tool", "2.0.0")],
        vec![manifest("tool", "2.0.0", &[("bin/t", &b), ("bin/extra", &c)])],
    )
    .unwrap();
    assert_eq!(links(&p.live_tree().tree), pairs(&[("bin/t", &b), ("bin/extra", &c)]));
    p.rollback(2).unwrap();
    assert_eq!(p.live, 2);
    assert_eq!(links(&p.live_tree().tree), pairs(&[("bin/t", &a)]));
    assert_eq!(state_ids(&p), vec![1, 2, 3]);
    assert_eq!(tree_ids(&p), vec![1, 2, 3]);
    assert_eq!(p.rollback(9), Err(StateError::NotFound { id: 9 }));
    assert_eq!(p.live, 2);
}

#[test]
fn old_states_go_with_their_trees() {
    let mut p = Prefix::new(1, 100);
    let a = p.put(b"one");
    for id in 2..=5u128 {
        p.commit(
            id,
            0,
            vec![pkg("tool", "1.0.0")],
            vec![manifest("tool", "1.0.0", &[("bin/t", &a)])],
        )
        .unwrap();
    }
    p.rollback(2).unwrap();
    assert_eq!(p.cleanup(2), Ok(vec![1, 3]));
    assert_eq!(state_ids(&p), vec![2, 4, 5]);
    assert_eq!(tree_ids(&p), vec![2, 4, 5]);
    assert_eq!(p.live, 2);
    assert_eq!(links(&p.live_tree().tree), pairs(&[("bin/t", &a)]));
    p.prepare(6, 0, vec![], vec![]).unwrap();
    assert_eq!(p.cleanup(0), Err(StateError::TransactionPending));
    assert_eq!(tree_ids(&p), vec![2, 4, 5]);
}

#[test]
fn garbage_is_what_no_recorded_state_links() {
    let mut p = Prefix::new(1, 100);
    let a = p.put(b"one");
    let b = p.put(b"two");
    let unused = p.put(b"never linked");
    p.commit(2, 0, vec![pkg("tool", "1.0.0")], vec![manifest("tool", "1.0.0", &[("bin/t", &a)])])
        .unwrap();
    p.commit(3, 0, vec![pkg("tool", "2.0.0")], vec![manifest("tool", "2.0.0", &[("bin/t", &b)])])
        .unwrap();
    assert_eq!(p.collect_garbage(), Ok(1));
    assert!(p.store.has_object(&a) && p.store.has_object(&b) && !p.store.has_object(&unused));
    // Once the older states are forgotten their objects are garbage too.
    assert_eq!(p.cleanup(1), Ok(vec![1, 2]));
    assert_eq!(p.collect_garbage(), Ok(1));
    assert!(!p.store.has_object(&a) && p.store.has_object(&b));
    p.prepare(4, 0, vec![], vec![]).unwrap();
    assert_eq!(p.collect_garbage(), Err(StateError::TransactionPending));
    assert_eq!(p.store.len(), 1);
}

#[test]
fn trees_are_built_file_by_file() {
    let mut store = ContentStore::new();
    let a = store.put(b"a");
    let manifests = vec![
        manifest("one", "1.0.0", &[("x", &a)]),
        manifest("none", "1.0.0", &[]),
        manifest("two", "1.0.0", &[("y", &a), ("x", &a)]),
    ];
    let files = flatten(&manifests);
    assert_eq!(links(&files), pairs(&[("x", &a), ("y", &a), ("x", &a)]));
    let tree = materialize(&store, &files).unwrap();
    assert_eq!(links(&tree), pairs(&[("x", &a), ("y", &a)]));
    assert!(materialize(&store, &vec![]).unwrap().is_empty());
    assert!(describes(&vec![pkg("one", "1.0.0")], &vec![manifest("one", "1.0.0", &[])]));
    assert!(!describes(&vec![pkg("one", "1.0.0")], &vec![manifest("two", "1.0.0", &[])]));
    assert!(!describes(&vec![pkg("one", "1.2.0")], &vec![manifest("one", "1.2", &[])]));
}
