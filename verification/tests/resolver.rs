use sps2::graph::{NodeAction, PackageId};
use sps2::resolver::{
    build_graph, plan_install, resolve, select, Dependency, IndexEntry, ResolutionError,
};
use sps2::version::{Version, VersionSpec};

fn dep(name: &str, spec: &str) -> Dependency {
    Dependency { name: name.to_string(), spec: VersionSpec::parse(spec).unwrap() }
}

fn entry(name: &str, version: &str, deps: &[(&str, &str)]) -> IndexEntry {
    IndexEntry {
        id: PackageId::new(name.to_string(), Version::parse(version).unwrap()),
        dependencies: deps.iter().map(|(n, s)| dep(n, s)).collect(),
    }
}

fn labels(packages: &[PackageId]) -> Vec<String> {
    packages.iter().map(|p| format!("{}-{}", p.name, p.version.to_string())).collect()
}

fn resolved(index: &Vec<IndexEntry>, reqs: &[(&str, &str)]) -> Result<Vec<String>, ResolutionError> {
    let reqs: Vec<Dependency> = reqs.iter().map(|(n, s)| dep(n, s)).collect();
    resolve(index, &reqs).map(|p| labels(&p))
}

#[test]
fn resolve_simple() {
    let index = vec![entry("a", "1.0.0", &[("b", ">=1")]), entry("b", "1.2.0", &[])];
    let resolution = plan_install(&index, &vec![dep("a", "*")], &vec![]).unwrap();
    let batches: Vec<Vec<String>> = resolution.plan.batches().iter().map(|b| labels(b)).collect();
    assert_eq!(batches, vec![vec!["b-1.2.0".to_string()], vec!["a-1.0.0".to_string()]]);
    assert_eq!(labels(&resolution.packages), vec!["a-1.0.0", "b-1.2.0"]);
    assert_eq!(resolution.graph.nodes.len(), 2);
    assert!(resolution.graph.nodes.iter().all(|n| n.action == NodeAction::Download));
    assert_eq!(resolution.plan.package_count(), 2);
}

#[test]
fn highest_matching_version_is_chosen() {
    let index = vec![
        entry("a", "1.0.0", &[]),
        entry("a", "2.1.0", &[]),
        entry("a", "2.0.0", &[]),
        entry("a", "3.0.0-rc.1", &[]),
    ];
    assert_eq!(resolved(&index, &[("a", "*")]).unwrap(), vec!["a-3.0.0-rc.1"]);
    assert_eq!(resolved(&index, &[("a", "<3.0.0-rc.1")]).unwrap(), vec!["a-2.1.0"]);
    assert_eq!(resolved(&index, &[("a", "~=2.0.0")]).unwrap(), vec!["a-2.0.0"]);
    assert_eq!(resolved(&index, &[("a", "<2")]).unwrap(), vec!["a-1.0.0"]);
    assert_eq!(
        resolved(&index, &[("a", ">=1"), ("a", "!=2.1.0,<3.0.0-rc.1")]).unwrap(),
        vec!["a-2.0.0"]
    );
    assert_eq!(resolved(&index, &[("a", ">=1"), ("a", "<1")]).unwrap_err_kind(), "conflict");
}

trait Kind {
    fn unwrap_err_kind(self) -> &'static str;
}

impl<T: std::fmt::Debug> Kind for Result<T, ResolutionError> {
    fn unwrap_err_kind(self) -> &'static str {
        match self {
            Err(ResolutionError::ConflictingConstraints) => "conflict",
            Err(ResolutionError::UnknownPackage { .. }) => "unknown",
            Err(ResolutionError::CircularDependency) => "circular",
            Ok(v) => panic!("resolved: {v:?}"),
        }
    }
}

#[test]
fn a_later_requirement_must_fit_the_choice() {
    let index = vec![entry("a", "1.0.0", &[]), entry("a", "2.0.0", &[])];
    assert_eq!(resolved(&index, &[("a", "*"), ("a", ">=2")]).unwrap(), vec!["a-2.0.0"]);
    assert_eq!(resolved(&index, &[("a", "*"), ("a", "<2")]).unwrap(), vec!["a-1.0.0"]);
    assert_eq!(resolved(&index, &[("a", ">=2"), ("a", "<2")]).unwrap_err_kind(), "conflict");
    assert_eq!(resolved(&index, &[("a", "<2"), ("a", "*")]).unwrap(), vec!["a-1.0.0"]);
}

#[test]
fn a_conflict_makes_the_resolver_come_back() {
    let index = vec![
        entry("app", "2.0.0", &[("lib", ">=2")]),
        entry("app", "1.0.0", &[("lib", "<2")]),
        entry("tool", "1.0.0", &[("lib", "<2")]),
        entry("lib", "1.5.0", &[]),
        entry("lib", "2.0.0", &[]),
    ];
    assert_eq!(
        resolved(&index, &[("tool", "*"), ("app", "*")]).unwrap(),
        vec!["tool-1.0.0", "app-1.0.0", "lib-1.5.0"]
    );
    assert_eq!(
        resolved(&index, &[("app", "*"), ("tool", "*")]).unwrap(),
        vec!["app-1.0.0", "tool-1.0.0", "lib-1.5.0"]
    );
    assert_eq!(resolved(&index, &[("app", ">=2"), ("tool", "*")]).unwrap_err_kind(), "conflict");
    assert_eq!(resolved(&index, &[("app", "*")]).unwrap(), vec!["app-2.0.0", "lib-2.0.0"]);
}

#[test]
fn unknown_packages() {
    let index = vec![entry("a", "1.0.0", &[("ghost", "*")]), entry("b", "1.0.0", &[])];
    match resolved(&index, &[("b", "*"), ("nope", "*"), ("other", "*")]) {
        Err(ResolutionError::UnknownPackage { name }) => assert_eq!(name, "nope"),
        other => panic!("unexpected: {other:?}"),
    }
    assert_eq!(resolved(&index, &[("a", "*")]).unwrap_err_kind(), "conflict");
    assert_eq!(resolved(&index, &[]).unwrap(), Vec::<String>::new());
    assert_eq!(resolved(&vec![], &[("a", "*")]).unwrap_err_kind(), "unknown");
}

#[test]
fn circular_dependencies() {
    let index = vec![entry("a", "1.0.0", &[("b", "*")]), entry("b", "1.0.0", &[("a", "*")])];
    assert_eq!(resolved(&index, &[("a", "*")]).unwrap(), vec!["a-1.0.0", "b-1.0.0"]);
    let reqs = vec![dep("a", "*")];
    assert_eq!(plan_install(&index, &reqs, &vec![]).unwrap_err_kind(), "circular");
    let own = vec![entry("self", "1.0.0", &[("self", "*")])];
    assert_eq!(plan_install(&own, &vec![dep("self", "*")], &vec![]).unwrap_err_kind(), "circular");
}

#[test]
fn graph_of_a_selection() {
    let index = vec![
        entry("top", "1.0.0", &[("left", "*"), ("right", "*")]),
        entry("left", "1.0.0", &[("base", ">=1")]),
        entry("right", "1.0.0", &[("base", ">=1.1")]),
        entry("base", "1.0.0", &[]),
        entry("base", "1.1.0", &[]),
        entry("unused", "9.0.0", &[]),
    ];
    let selected = select(&index, &vec![dep("top", "*")]).unwrap();
    assert_eq!(selected, vec![0, 1, 2, 4]);
    let graph = build_graph(&index, &selected, &vec!["left".to_string()]);
    let actions: Vec<NodeAction> = graph.nodes.iter().map(|n| n.action).collect();
    assert_eq!(
        actions,
        vec![NodeAction::Download, NodeAction::Local, NodeAction::Download, NodeAction::Download]
    );
    let edges: Vec<(String, Vec<String>)> =
        graph.edges.iter().map(|e| (e.from.name.clone(), labels(&e.to))).collect();
    assert_eq!(
        edges,
        vec![
            ("top".to_string(), vec![]),
            ("left".to_string(), vec!["top-1.0.0".to_string()]),
            ("right".to_string(), vec!["top-1.0.0".to_string()]),
            ("base".to_string(), vec!["left-1.0.0".to_string(), "right-1.0.0".to_string()]),
        ]
    );
    let resolution = plan_install(&index, &vec![dep("top", "*")], &vec![]).unwrap();
    let batches: Vec<Vec<String>> = resolution.plan.batches().iter().map(|b| labels(b)).collect();
    assert_eq!(
        batches,
        vec![
            vec!["base-1.1.0".to_string()],
            vec!["left-1.0.0".to_string(), "right-1.0.0".to_string()],
            vec!["top-1.0.0".to_string()],
        ]
    );
}

#[test]
fn every_requirement_is_met_by_the_selection() {
    let index = vec![
        entry("a", "1.0.0", &[("b", ">=1,<3"), ("c", "*")]),
        entry("b", "2.0.0", &[("c", ">=2")]),
        entry("b", "3.0.0", &[]),
        entry("c", "1.0.0", &[]),
        entry("c", "2.5.0", &[]),
    ];
    let reqs = vec![dep("a", "==1.0.0")];
    let selected = select(&index, &reqs).unwrap();
    let chosen: Vec<&IndexEntry> = selected.iter().map(|i| &index[*i]).collect();
    let met = |d: &Dependency| {
        chosen.iter().any(|e| e.id.name == d.name && d.spec.matches(&e.id.version))
    };
    assert!(reqs.iter().all(met));
    for e in &chosen {
        assert!(e.dependencies.iter().all(met));
    }
    let mut names: Vec<&str> = chosen.iter().map(|e| e.id.name.as_str()).collect();
    names.sort();
    names.dedup();
    assert_eq!(names.len(), chosen.len());
    assert_eq!(labels(&resolve(&index, &reqs).unwrap()), vec!["a-1.0.0", "b-2.0.0", "c-2.5.0"]);
}

#[test]
fn a_selection_is_found_whenever_one_exists() {
    // Only the lowest version of each package fits together: the resolver
    // has to give up every higher choice before it comes to them.
    let index = vec![
        entry("a", "3.0.0", &[("b", ">=3")]),
        entry("a", "2.0.0", &[("b", "==2.0.0"), ("c", ">=2")]),
        entry("a", "1.0.0", &[("b", "<2"), ("c", "<2")]),
        entry("b", "2.0.0", &[("c", "<2")]),
        entry("b", "1.0.0", &[]),
        entry("c", "1.0.0", &[]),
    ];
    assert_eq!(resolved(&index, &[("a", "*")]).unwrap(), vec!["a-1.0.0", "b-1.0.0", "c-1.0.0"]);
    assert_eq!(select(&index, &vec![dep("a", "*")]).unwrap(), vec![2, 4, 5]);
}

#[test]
fn a_local_package_is_a_hard_pin() {
    let index = vec![
        entry("app", "1.0.0", &[("lib", ">=1")]),
        entry("lib", "2.0.0", &[]),
        entry("lib", "1.5.0", &[]),
        entry("lib", "1.0.0", &[]),
    ];
    // Without a pin the highest version of the library is chosen.
    let free = plan_install(&index, &vec![dep("app", "*")], &vec![]).unwrap();
    assert_eq!(labels(&free.packages), vec!["app-1.0.0", "lib-2.0.0"]);
    // A local archive of the library at 1.5.0 pins it there.
    let pin = PackageId::new("lib".to_string(), Version::parse("1.5.0").unwrap());
    let pinned = plan_install(&index, &vec![dep("app", "*")], &vec![pin]).unwrap();
    assert_eq!(labels(&pinned.packages), vec!["lib-1.5.0", "app-1.0.0"]);
    let actions: Vec<NodeAction> = pinned.graph.nodes.iter().map(|n| n.action).collect();
    assert_eq!(actions, vec![NodeAction::Local, NodeAction::Download]);
    let batches: Vec<Vec<String>> = pinned.plan.batches().iter().map(|b| labels(b)).collect();
    assert_eq!(batches, vec![vec!["lib-1.5.0".to_string()], vec!["app-1.0.0".to_string()]]);
}

#[test]
fn a_pin_that_no_requirement_tolerates_is_a_conflict() {
    let index = vec![
        entry("app", "1.0.0", &[("lib", ">=2")]),
        entry("lib", "2.0.0", &[]),
        entry("lib", "1.0.0", &[]),
    ];
    let pin = PackageId::new("lib".to_string(), Version::parse("1.0.0").unwrap());
    assert!(matches!(
        plan_install(&index, &vec![dep("app", "*")], &vec![pin]),
        Err(ResolutionError::ConflictingConstraints)
    ));
    let absent = PackageId::new("ghost".to_string(), Version::parse("1.0.0").unwrap());
    match plan_install(&index, &vec![dep("app", "*")], &vec![absent]) {
        Err(ResolutionError::UnknownPackage { name }) => assert_eq!(name, "ghost"),
        other => panic!("unexpected: {:?}", other.map(|r| r.packages.len())),
    }
}

#[test]
fn resolution_errors_have_their_kinds() {
    assert_eq!(
        ResolutionError::UnknownPackage { name: "x".to_string() }.kind(),
        sps2::errors::ErrorKind::NotFound
    );
    assert_eq!(ResolutionError::ConflictingConstraints.kind(), sps2::errors::ErrorKind::Conflict);
    assert_eq!(ResolutionError::CircularDependency.kind(), sps2::errors::ErrorKind::Conflict);
}
