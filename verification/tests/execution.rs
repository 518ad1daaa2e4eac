use sps2::execution::{ExecutionPlan, ExecutionStats, NodeMeta};
use sps2::graph::{DependencyGraph, NodeAction, PackageId};
use sps2::version::Version;

fn pkg(name: &str, version: &str) -> PackageId {
    PackageId::new(name.to_string(), Version::parse(version).unwrap())
}

fn names(batch: &[PackageId]) -> Vec<String> {
    batch.iter().map(|p| format!("{}-{}", p.name, p.version.to_string())).collect()
}

fn all_batches(plan: &ExecutionPlan) -> Vec<Vec<String>> {
    plan.batches().iter().map(|b| names(b)).collect()
}

/// a depends on b: the edge runs from b to a.
fn simple_graph() -> (DependencyGraph, PackageId, PackageId) {
    let a = pkg("a", "1.0.0");
    let b = pkg("b", "1.2.0");
    let mut g = DependencyGraph::new();
    g.add_node(a.clone(), NodeAction::Download);
    g.add_node(b.clone(), NodeAction::Download);
    g.add_edges(b.clone(), vec![a.clone()]);
    (g, a, b)
}

#[test]
fn resolve_simple_batches() {
    let (g, a, b) = simple_graph();
    let plan = ExecutionPlan::from_sorted_packages(&[b.clone(), a.clone()], &g);
    assert_eq!(all_batches(&plan), vec![vec!["b-1.2.0".to_string()], vec!["a-1.0.0".to_string()]]);
    assert_eq!(plan.package_count(), 2);
    assert_eq!(plan.metadata(&a).unwrap().in_degree(), 1);
    assert_eq!(plan.metadata(&b).unwrap().in_degree(), 0);
    assert_eq!(names(&plan.metadata(&b).unwrap().parents), vec!["a-1.0.0"]);
    assert!(plan.metadata(&a).unwrap().parents.is_empty());
    assert!(plan.metadata(&pkg("c", "1.0.0")).is_none());
}

#[test]
fn batches_do_not_depend_on_input_order() {
    let (g, a, b) = simple_graph();
    let plan = ExecutionPlan::from_sorted_packages(&[a, b], &g);
    assert_eq!(all_batches(&plan), vec![vec!["b-1.2.0".to_string()], vec!["a-1.0.0".to_string()]]);
}

#[test]
fn diamond_runs_in_three_waves() {
    let base = pkg("base", "1.0.0");
    let left = pkg("left", "1.0.0");
    let right = pkg("right", "1.0.0");
    let top = pkg("top", "1.0.0");
    let mut g = DependencyGraph::new();
    for p in [&base, &left, &right] {
        g.add_node(p.clone(), NodeAction::Download);
    }
    g.add_node(top.clone(), NodeAction::Local);
    g.add_edges(base.clone(), vec![left.clone(), right.clone()]);
    g.add_edges(left.clone(), vec![top.clone()]);
    g.add_edges(right.clone(), vec![top.clone()]);
    let sorted = [base.clone(), left.clone(), right.clone(), top.clone()];
    let mut plan = ExecutionPlan::from_sorted_packages(&sorted, &g);
    assert_eq!(
        all_batches(&plan),
        vec![
            vec!["base-1.0.0".to_string()],
            vec!["left-1.0.0".to_string(), "right-1.0.0".to_string()],
            vec!["top-1.0.0".to_string()],
        ]
    );
    assert_eq!(plan.metadata(&top).unwrap().in_degree(), 2);
    assert_eq!(names(&plan.ready_packages()), vec!["base-1.0.0"]);
    assert_eq!(plan.completed_count(), 1);
    assert!(!plan.is_complete());

    let stats = ExecutionStats::from_plan(&plan, &g);
    assert_eq!(
        stats,
        ExecutionStats {
            total_packages: 4,
            downloaded: 3,
            local: 1,
            batch_count: 3,
            max_batch_size: 2,
        }
    );

    assert_eq!(names(&plan.complete_package(&base)), vec!["left-1.0.0", "right-1.0.0"]);
    assert!(plan.complete_package(&left).is_empty());
    assert_eq!(plan.metadata(&top).unwrap().in_degree(), 1);
    assert_eq!(names(&plan.complete_package(&right)), vec!["top-1.0.0"]);
    assert!(plan.complete_package(&top).is_empty());
    assert!(plan.is_complete());
    assert_eq!(plan.completed_count(), 4);
    assert_eq!(plan.ready_packages().len(), 4);
    assert!(plan.complete_package(&pkg("absent", "1.0.0")).is_empty());
}

#[test]
fn every_dependency_is_in_an_earlier_batch() {
    let ids: Vec<PackageId> = (0..6).map(|i| pkg(&format!("p{i}"), "1.0.0")).collect();
    let deps = [(0usize, vec![1usize, 2]), (1, vec![3]), (2, vec![3, 4]), (3, vec![5])];
    let mut g = DependencyGraph::new();
    for p in &ids {
        g.add_node(p.clone(), NodeAction::Download);
    }
    for (from, to) in &deps {
        g.add_edges(ids[*from].clone(), to.iter().map(|t| ids[*t].clone()).collect());
    }
    let plan = ExecutionPlan::from_sorted_packages(&ids, &g);
    let batch_of = |p: &PackageId| {
        plan.batches().iter().position(|b| b.iter().any(|q| q.same(p))).unwrap()
    };
    for (from, to) in &deps {
        for t in to {
            assert!(batch_of(&ids[*from]) < batch_of(&ids[*t]));
        }
    }
    let total: usize = plan.batches().iter().map(|b| b.len()).sum();
    assert_eq!(total, ids.len());
}

#[test]
fn a_cycle_leaves_its_packages_without_batch() {
    let a = pkg("a", "1.0.0");
    let b = pkg("b", "1.0.0");
    let c = pkg("c", "1.0.0");
    let mut g = DependencyGraph::new();
    for p in [&a, &b, &c] {
        g.add_node(p.clone(), NodeAction::Download);
    }
    g.add_edges(a.clone(), vec![b.clone()]);
    g.add_edges(b.clone(), vec![a.clone()]);
    let plan = ExecutionPlan::from_sorted_packages(&[a, b, c], &g);
    assert_eq!(all_batches(&plan), vec![vec!["c-1.0.0".to_string()]]);
    assert_eq!(plan.package_count(), 3);
}

#[test]
fn repeated_and_unknown_packages() {
    let (g, a, b) = simple_graph();
    let stray = pkg("stray", "0.1.0");
    let plan =
        ExecutionPlan::from_sorted_packages(&[b.clone(), a.clone(), b.clone(), stray.clone()], &g);
    assert_eq!(
        all_batches(&plan),
        vec![vec!["b-1.2.0".to_string(), "stray-0.1.0".to_string()], vec!["a-1.0.0".to_string()]]
    );
    assert_eq!(plan.package_count(), 2);
    assert!(plan.metadata(&stray).is_none());
}

#[test]
fn empty_plan() {
    let g = DependencyGraph::new();
    let plan = ExecutionPlan::from_sorted_packages(&[], &g);
    assert!(plan.batches().is_empty());
    assert!(plan.is_complete());
    assert_eq!(plan.completed_count(), 0);
    let stats = ExecutionStats::from_plan(&plan, &g);
    assert_eq!(stats.max_batch_size, 0);
    assert_eq!(stats.batch_count, 0);
}

#[test]
fn node_meta_counts_down_and_wraps() {
    let mut meta = NodeMeta::new(NodeAction::Local, 2);
    assert_eq!(meta.in_degree(), 2);
    assert_eq!(meta.decrement_in_degree(), 1);
    assert_eq!(meta.decrement_in_degree(), 0);
    assert_eq!(meta.in_degree(), 0);
    assert_eq!(meta.decrement_in_degree(), 0);
    assert_eq!(meta.in_degree(), usize::MAX);
    meta.add_parent(pkg("x", "1.0.0"));
    assert_eq!(meta.parents.len(), 1);
    assert_eq!(meta.action, NodeAction::Local);
}
