//! Packages and the dependency graph that the resolver hands to the planner.
//!
//! An edge runs from a dependency to the package that depends on it, so it
//! points in the direction in which installs must happen.

use crate::text::same_text;
use crate::version::{Version, VersionView};
use vstd::prelude::*;

verus! {

/// A package identity as a plain value.
pub struct PackageIdView {
    pub name: Seq<char>,
    pub version: VersionView,
}

/// A package: a name and a version.
#[derive(Debug)]
pub struct PackageId {
    pub name: String,
    pub version: Version,
}

impl View for PackageId {
    type V = PackageIdView;

    open spec fn view(&self) -> PackageIdView {
        PackageIdView { name: self.name@, version: self.version@ }
    }
}

impl Clone for PackageId {
    fn clone(&self) -> (id: PackageId)
        ensures
            id@ == self@,
    {
        PackageId { name: self.name.clone(), version: self.version.duplicate() }
    }
}

impl PackageId {
    /// The package `name` at `version`.
    pub fn new(name: String, version: Version) -> (id: PackageId)
        ensures
            id@ == (PackageIdView { name: name@, version: version@ }),
    {
        PackageId { name, version }
    }

    /// Whether the two identities agree in name and version.
    pub fn same(&self, other: &PackageId) -> (r: bool)
        ensures
            r == (self@ == other@),
    {
        same_text(self.name.as_str(), other.name.as_str()) && self.version.same(&other.version)
    }
}

/// The identities of a vector of packages.
pub open spec fn ids(v: Seq<PackageId>) -> Seq<PackageIdView> {
    Seq::new(v.len(), |i: int| v[i]@)
}

/// The identities of a vector of package lists.
pub open spec fn id_lists(v: Seq<Vec<PackageId>>) -> Seq<Seq<PackageIdView>> {
    Seq::new(v.len(), |i: int| ids(v[i]@))
}

/// Whether `id` is among the packages of `v`.
pub fn contains_id(v: &Vec<PackageId>, id: &PackageId) -> (r: bool)
    ensures
        r == ids(v@).contains(id@),
{
    let mut i: usize = 0;
    while i < v.len()
        invariant
            i <= v.len(),
            forall|k: int| 0 <= k < i ==> ids(v@)[k] != id@,
        decreases v.len() - i,
    {
        if v[i].same(id) {
            assert(ids(v@)[i as int] == id@);
            return true;
        }
        i += 1;
    }
    false
}

/// A copy of a list of packages.
pub fn copy_ids(v: &Vec<PackageId>) -> (out: Vec<PackageId>)
    ensures
        ids(out@) == ids(v@),
{
    let mut out: Vec<PackageId> = Vec::new();
    let mut i: usize = 0;
    while i < v.len()
        invariant
            i <= v.len(),
            ids(out@) == ids(v@).take(i as int),
        decreases v.len() - i,
    {
        let ghost before = out@;
        let id = v[i].clone();
        out.push(id);
        assert(ids(out@) == ids(before).push(v@[i as int]@));
        i += 1;
    }
    assert(ids(v@).take(v.len() as int) == ids(v@));
    out
}

/// How a package gets to the machine.
#[derive(Clone, Copy, Debug, PartialEq, Eq, Structural)]
pub enum NodeAction {
    /// It is fetched from the index.
    Download,
    /// It is a local archive.
    Local,
}

/// A node of the graph: a package together with what is to be done for it.
#[derive(Debug)]
pub struct GraphNode {
    pub id: PackageId,
    pub action: NodeAction,
}

/// The edges that leave one package: `from` must be installed before each
/// package of `to`.
#[derive(Debug)]
pub struct EdgeList {
    pub from: PackageId,
    pub to: Vec<PackageId>,
}

/// The edges of one package as plain values.
pub struct EdgeView {
    pub from: PackageIdView,
    pub to: Seq<PackageIdView>,
}

impl View for EdgeList {
    type V = EdgeView;

    open spec fn view(&self) -> EdgeView {
        EdgeView { from: self.from@, to: ids(self.to@) }
    }
}

/// The edge lists of a vector as plain values.
pub open spec fn edge_views(v: Seq<EdgeList>) -> Seq<EdgeView> {
    Seq::new(v.len(), |i: int| v[i]@)
}

/// The resolved dependency graph.
#[derive(Debug)]
pub struct DependencyGraph {
    pub nodes: Vec<GraphNode>,
    pub edges: Vec<EdgeList>,
}

/// Whether some edge runs from `from` to `to`.
pub open spec fn points_to(edges: Seq<EdgeView>, from: PackageIdView, to: PackageIdView) -> bool {
    exists|e: int| 0 <= e < edges.len() && #[trigger] edges[e].from == from && edges[e].to.contains(to)
}

/// The action recorded for `id`: that of the first node with this identity.
pub open spec fn action_of(nodes: Seq<GraphNode>, id: PackageIdView) -> Option<NodeAction>
    decreases nodes.len(),
{
    if nodes.len() == 0 {
        None
    } else if nodes[0].id@ == id {
        Some(nodes[0].action)
    } else {
        action_of(nodes.skip(1), id)
    }
}

impl DependencyGraph {
    /// A graph without nodes or edges.
    pub fn new() -> (g: DependencyGraph)
        ensures
            g.nodes@.len() == 0,
            g.edges@.len() == 0,
    {
        DependencyGraph { nodes: Vec::new(), edges: Vec::new() }
    }

    /// Adds a node.
    pub fn add_node(&mut self, id: PackageId, action: NodeAction)
        ensures
            final(self).edges == old(self).edges,
            final(self).nodes@ == old(self).nodes@.push(GraphNode { id, action }),
    {
        self.nodes.push(GraphNode { id, action });
    }

    /// Adds the edges from `from` to each package of `to`.
    pub fn add_edges(&mut self, from: PackageId, to: Vec<PackageId>)
        ensures
            final(self).nodes == old(self).nodes,
            final(self).edges@ == old(self).edges@.push(EdgeList { from, to }),
    {
        self.edges.push(EdgeList { from, to });
    }

    /// The action recorded for `id`, if the graph has such a node.
    pub fn action(&self, id: &PackageId) -> (r: Option<NodeAction>)
        ensures
            r == action_of(self.nodes@, id@),
    {
        let mut i: usize = 0;
        assert(self.nodes@.skip(0) == self.nodes@);
        while i < self.nodes.len()
            invariant
                i <= self.nodes.len(),
                action_of(self.nodes@, id@) == action_of(self.nodes@.skip(i as int), id@),
            decreases self.nodes.len() - i,
        {
            assert(self.nodes@.skip(i as int).skip(1) == self.nodes@.skip(i + 1));
            if self.nodes[i].id.same(id) {
                return Some(self.nodes[i].action);
            }
            i += 1;
        }
        None
    }
}

} // verus!
