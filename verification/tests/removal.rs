use sps2::graph::PackageId;
use sps2::installer::{InstallConfig, InstallContext, Installer, UninstallContext};
use sps2::removal::{names_to_remove, packages_to_remove};
use sps2::state::StateDb;
use sps2::store::{ManifestDependency, PackageManifest};
use sps2::version::Version;

fn installed(name: &str, needs: &[&str]) -> PackageManifest {
    PackageManifest {
        name: name.to_string(),
        version: "1.0.0".to_string(),
        dependencies: needs
            .iter()
            .map(|n| ManifestDependency { name: n.to_string(), spec: "*".to_string() })
            .collect(),
        files: vec![],
    }
}

fn names(items: &[&str]) -> Vec<String> {
    items.iter().map(|s| s.to_string()).collect()
}

#[test]
fn a_package_without_dependencies_leaves_alone() {
    let all = vec![installed("a", &[]), installed("b", &[])];
    assert_eq!(packages_to_remove(&all, &names(&["a"])), vec![true, false]);
    assert_eq!(names_to_remove(&all, &names(&["a"])), names(&["a"]));
}

#[test]
fn dependencies_that_nothing_else_needs_leave_too() {
    let all = vec![installed("c", &[]), installed("b", &["c"]), installed("a", &["b"])];
    assert_eq!(packages_to_remove(&all, &names(&["a"])), vec![true, true, true]);
    assert_eq!(names_to_remove(&all, &names(&["a"])), names(&["a", "c", "b"]));
}

#[test]
fn a_shared_dependency_stays() {
    let all = vec![
        installed("a", &["c", "d"]),
        installed("c", &[]),
        installed("d", &[]),
        installed("e", &["c"]),
    ];
    assert_eq!(packages_to_remove(&all, &names(&["a"])), vec![true, false, true, false]);
}

#[test]
fn a_named_package_leaves_even_when_needed() {
    let all = vec![installed("a", &["c"]), installed("c", &[])];
    assert_eq!(packages_to_remove(&all, &names(&["c"])), vec![false, true]);
}

#[test]
fn a_package_that_was_never_a_dependency_stays() {
    let all = vec![installed("a", &[]), installed("lonely", &[])];
    assert_eq!(packages_to_remove(&all, &names(&["a"])), vec![true, false]);
}

#[test]
fn an_unknown_name_takes_nothing_away() {
    let all = vec![installed("a", &["b"]), installed("b", &[])];
    assert_eq!(packages_to_remove(&all, &names(&["zzz"])), vec![false, false]);
    assert_eq!(names_to_remove(&all, &names(&["zzz"])), names(&["zzz"]));
}

#[test]
fn packages_that_need_each_other_hold_each_other() {
    let all = vec![installed("a", &["b"]), installed("b", &["c"]), installed("c", &["b"])];
    assert_eq!(packages_to_remove(&all, &names(&["a"])), vec![true, false, false]);
}

#[test]
fn nothing_installed_nothing_leaves() {
    assert_eq!(packages_to_remove(&vec![], &names(&["a"])), Vec::<bool>::new());
}

#[test]
fn a_long_chain_leaves_whole() {
    let all = vec![
        installed("link4", &[]),
        installed("link3", &["link4"]),
        installed("link2", &["link3"]),
        installed("link1", &["link2"]),
        installed("link0", &["link1"]),
        installed("other", &[]),
    ];
    assert_eq!(
        packages_to_remove(&all, &names(&["link0"])),
        vec![true, true, true, true, true, false]
    );
}

fn pkg(name: &str) -> PackageId {
    PackageId::new(name.to_string(), Version::parse("1.0.0").unwrap())
}

#[test]
fn uninstall_takes_unneeded_dependencies_along() {
    let mut i = Installer::new(InstallConfig::default(), StateDb::new(1, 0));
    let request = InstallContext { packages: names(&["a", "e"]), local_files: vec![] };
    i.install(&request, 2, 0, &vec![pkg("c"), pkg("d"), pkg("a"), pkg("e")]).unwrap();
    let manifests = vec![
        installed("c", &[]),
        installed("d", &[]),
        installed("a", &["c", "d"]),
        installed("e", &["c"]),
    ];
    i.uninstall(&UninstallContext { packages: names(&["a"]) }, &manifests, 3, 0).unwrap();
    assert_eq!(i.current_state().unwrap().package_summary(), "c-1.0.0, e-1.0.0");
}

#[test]
fn install_then_uninstall_gives_the_packages_back() {
    let mut i = Installer::new(InstallConfig::default(), StateDb::new(1, 0));
    let first = InstallContext { packages: names(&["q"]), local_files: vec![] };
    i.install(&first, 2, 0, &vec![pkg("q")]).unwrap();
    let second = InstallContext { packages: names(&["a"]), local_files: vec![] };
    i.install(&second, 3, 0, &vec![pkg("a")]).unwrap();
    let manifests = vec![installed("q", &[]), installed("a", &[])];
    i.uninstall(&UninstallContext { packages: names(&["a"]) }, &manifests, 4, 0).unwrap();
    assert_eq!(i.current_state().unwrap().package_summary(), "q-1.0.0");
    let ids: Vec<u128> = i.list_states().iter().map(|s| s.id).collect();
    assert_eq!(ids, vec![1, 2, 3, 4]);
}

#[test]
fn an_uninstall_may_take_an_older_dependency_along() {
    let mut i = Installer::new(InstallConfig::default(), StateDb::new(1, 0));
    let first = InstallContext { packages: names(&["lib"]), local_files: vec![] };
    i.install(&first, 2, 0, &vec![pkg("lib")]).unwrap();
    let second = InstallContext { packages: names(&["app"]), local_files: vec![] };
    i.install(&second, 3, 0, &vec![pkg("app")]).unwrap();
    let manifests = vec![installed("lib", &[]), installed("app", &["lib"])];
    i.uninstall(&UninstallContext { packages: names(&["app"]) }, &manifests, 4, 0).unwrap();
    assert_eq!(i.current_state().unwrap().package_count, 0);
}
