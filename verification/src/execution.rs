//! The execution plan: the resolved graph cut into batches that can run in
//! parallel, with the bookkeeping that tells which packages become ready
//! when one completes.

use crate::graph::{
    action_of, contains_id, copy_ids, edge_views, id_lists, ids, DependencyGraph, EdgeList,
    EdgeView, GraphNode, NodeAction, PackageId, PackageIdView,
};
use crate::seq_lemmas::{
    lemma_filter_member, lemma_filter_split, lemma_filter_split_multiset, lemma_filter_step,
};
use vstd::prelude::*;

verus! {

/// Whether `p` still waits for a package of `remaining`: some edge runs to
/// it from one of them.
pub open spec fn blocked(
    edges: Seq<EdgeView>,
    remaining: Seq<PackageIdView>,
    p: PackageIdView,
) -> bool {
    exists|e: int|
        0 <= e < edges.len() && remaining.contains(#[trigger] edges[e].from) && edges[e].to.contains(
            p,
        )
}

/// The test "still waits for a package of `remaining`".
pub open spec fn is_blocked(edges: Seq<EdgeView>, remaining: Seq<PackageIdView>) -> spec_fn(
    PackageIdView,
) -> bool {
    |p: PackageIdView| blocked(edges, remaining, p)
}

/// The test "waits for no package of `remaining`".
pub open spec fn is_ready(edges: Seq<EdgeView>, remaining: Seq<PackageIdView>) -> spec_fn(
    PackageIdView,
) -> bool {
    |p: PackageIdView| !blocked(edges, remaining, p)
}

/// The packages of `s` in order, each kept where it first occurs.
pub open spec fn first_seen(s: Seq<PackageIdView>) -> Seq<PackageIdView>
    decreases s.len(),
{
    if s.len() == 0 {
        s
    } else {
        let before = first_seen(s.drop_last());
        if before.contains(s.last()) {
            before
        } else {
            before.push(s.last())
        }
    }
}

/// The batches: the first holds the packages of `remaining` that wait for
/// none of them, the following ones are the batches of what is left. When
/// every package waits for another one, as in a cycle, there is no batch.
pub open spec fn layers(edges: Seq<EdgeView>, remaining: Seq<PackageIdView>) -> Seq<
    Seq<PackageIdView>,
>
    decreases remaining.len(),
{
    let ready = remaining.filter(is_ready(edges, remaining));
    let rest = remaining.filter(is_blocked(edges, remaining));
    if ready.len() == 0 {
        Seq::<Seq<PackageIdView>>::empty()
    } else {
        proof {
            lemma_filter_split(
                remaining,
                is_ready(edges, remaining),
                is_blocked(edges, remaining),
            );
        }
        seq![ready] + layers(edges, rest)
    }
}

/// The number of packages with an edge to `p`.
pub open spec fn in_degree_of(edges: Seq<EdgeView>, p: PackageIdView) -> nat {
    edges.filter(|e: EdgeView| e.to.contains(p)).len()
}

/// The packages that `p` has an edge to, in the order of the edge lists.
pub open spec fn parents_of(edges: Seq<EdgeView>, p: PackageIdView) -> Seq<PackageIdView>
    decreases edges.len(),
{
    if edges.len() == 0 {
        Seq::<PackageIdView>::empty()
    } else if edges.last().from == p {
        parents_of(edges.drop_last(), p) + edges.last().to
    } else {
        parents_of(edges.drop_last(), p)
    }
}

/// The bookkeeping of one package as a plain value.
pub struct NodeMetaView {
    pub action: NodeAction,
    pub in_degree: usize,
    pub parents: Seq<PackageIdView>,
}

/// The bookkeeping of one package.
#[derive(Debug)]
pub struct NodeMeta {
    /// What is to be done for the package.
    pub action: NodeAction,
    /// How many of its dependencies have not completed.
    pub in_degree: usize,
    /// The packages that depend on it.
    pub parents: Vec<PackageId>,
}

impl View for NodeMeta {
    type V = NodeMetaView;

    open spec fn view(&self) -> NodeMetaView {
        NodeMetaView { action: self.action, in_degree: self.in_degree, parents: ids(self.parents@) }
    }
}

/// The count that is stored after one decrement: it wraps around below zero.
pub open spec fn stored_after_decrement(n: usize) -> usize {
    if n == 0 {
        usize::MAX
    } else {
        (n - 1) as usize
    }
}

/// The count that a decrement reports: one less, but never below zero.
pub open spec fn reported_after_decrement(n: usize) -> usize {
    if n == 0 {
        0
    } else {
        (n - 1) as usize
    }
}

impl NodeMeta {
    /// The bookkeeping of a package with `in_degree` open dependencies and
    /// no dependents yet.
    pub fn new(action: NodeAction, in_degree: usize) -> (m: NodeMeta)
        ensures
            m@ == (NodeMetaView { action, in_degree, parents: Seq::<PackageIdView>::empty() }),
    {
        let m = NodeMeta { action, in_degree, parents: Vec::new() };
        assert(ids(m.parents@) == Seq::<PackageIdView>::empty());
        m
    }

    /// Marks one dependency as completed and reports how many are left.
    pub fn decrement_in_degree(&mut self) -> (left: usize)
        ensures
            left == reported_after_decrement(old(self).in_degree),
            final(self)@ == (NodeMetaView {
                in_degree: stored_after_decrement(old(self).in_degree),
                ..old(self)@
            }),
    {
        let before = self.in_degree;
        self.in_degree = before.wrapping_sub(1);
        before.saturating_sub(1)
    }

    /// The number of dependencies that have not completed.
    pub fn in_degree(&self) -> (n: usize)
        ensures
            n == self@.in_degree,
    {
        self.in_degree
    }

    /// Records that `parent` depends on this package.
    pub fn add_parent(&mut self, parent: PackageId)
        ensures
            final(self)@ == (NodeMetaView {
                parents: old(self)@.parents.push(parent@),
                ..old(self)@
            }),
    {
        self.parents.push(parent);
        assert(ids(self.parents@) == ids(old(self).parents@).push(parent@));
    }

    /// A copy of this bookkeeping.
    pub fn duplicate(&self) -> (m: NodeMeta)
        ensures
            m@ == self@,
    {
        NodeMeta {
            action: self.action,
            in_degree: self.in_degree,
            parents: copy_ids(&self.parents),
        }
    }
}

/// A package of the plan with its bookkeeping.
#[derive(Debug)]
pub struct PlanEntry {
    pub id: PackageId,
    pub meta: NodeMeta,
}

/// An entry of the plan as a plain value.
pub struct PlanEntryView {
    pub id: PackageIdView,
    pub meta: NodeMetaView,
}

impl View for PlanEntry {
    type V = PlanEntryView;

    open spec fn view(&self) -> PlanEntryView {
        PlanEntryView { id: self.id@, meta: self.meta@ }
    }
}

/// The entries of a vector as plain values.
pub open spec fn entry_views(v: Seq<PlanEntry>) -> Seq<PlanEntryView> {
    Seq::new(v.len(), |i: int| v[i]@)
}

/// The bookkeeping that a plan starts with: one entry for each package of
/// `order` that the graph has a node for, with the node's action, the number
/// of edges into the package, and the packages that it has edges to.
pub open spec fn planned_entries(
    order: Seq<PackageIdView>,
    nodes: Seq<GraphNode>,
    edges: Seq<EdgeView>,
) -> Seq<PlanEntryView>
    decreases order.len(),
{
    if order.len() == 0 {
        Seq::<PlanEntryView>::empty()
    } else {
        let before = planned_entries(order.drop_last(), nodes, edges);
        match action_of(nodes, order.last()) {
            Some(action) => before.push(
                PlanEntryView {
                    id: order.last(),
                    meta: NodeMetaView {
                        action,
                        in_degree: in_degree_of(edges, order.last()) as usize,
                        parents: parents_of(edges, order.last()),
                    },
                },
            ),
            None => before,
        }
    }
}

/// The position of the first entry for `id`.
pub open spec fn entry_index(entries: Seq<PlanEntryView>, id: PackageIdView) -> Option<int>
    decreases entries.len(),
{
    if entries.len() == 0 {
        None
    } else if entries[0].id == id {
        Some(0)
    } else {
        match entry_index(entries.skip(1), id) {
            Some(k) => Some(k + 1),
            None => None,
        }
    }
}

/// What the completion of a dependency does to the entries: for each of the
/// `parents` in turn, the count of its entry, if it has one, is decremented;
/// it is newly ready when that leaves no open dependency.
pub open spec fn completion(entries: Seq<PlanEntryView>, parents: Seq<PackageIdView>) -> (
    Seq<PlanEntryView>,
    Seq<PackageIdView>,
)
    decreases parents.len(),
{
    if parents.len() == 0 {
        (entries, Seq::<PackageIdView>::empty())
    } else {
        let (before, ready) = completion(entries, parents.drop_last());
        let p = parents.last();
        match entry_index(before, p) {
            None => (before, ready),
            Some(k) => {
                let n = before[k].meta.in_degree;
                let entry = PlanEntryView {
                    id: before[k].id,
                    meta: NodeMetaView { in_degree: stored_after_decrement(n), ..before[k].meta },
                };
                (
                    before.update(k, entry),
                    if reported_after_decrement(n) == 0 {
                        ready.push(p)
                    } else {
                        ready
                    },
                )
            },
        }
    }
}

/// The entries that have no open dependency.
pub open spec fn is_done() -> spec_fn(PlanEntryView) -> bool {
    |e: PlanEntryView| e.meta.in_degree == 0
}

/// The identities of the entries, in order.
pub open spec fn entry_ids(entries: Seq<PlanEntryView>) -> Seq<PackageIdView> {
    Seq::new(entries.len(), |i: int| entries[i].id)
}

/// No package stays twice in `first_seen`.
pub proof fn lemma_first_seen_distinct(s: Seq<PackageIdView>)
    ensures
        first_seen(s).no_duplicates(),
    decreases s.len(),
{
    if s.len() > 0 {
        lemma_first_seen_distinct(s.drop_last());
        let before = first_seen(s.drop_last());
        if !before.contains(s.last()) {
            let now = before.push(s.last());
            assert forall|i: int, j: int|
                0 <= i < now.len() && 0 <= j < now.len() && i != j implies now[i] != now[j] by {
                if i < before.len() && j < before.len() {
                    assert(now[i] == before[i] && now[j] == before[j]);
                } else if i < before.len() {
                    assert(before[i] == now[i]);
                } else {
                    assert(before[j] == now[j]);
                }
            }
        }
    }
}

/// The entries planned for packages of which none occurs twice are entries
/// for these packages, and none of them has two.
proof fn lemma_planned_ids_distinct(
    order: Seq<PackageIdView>,
    nodes: Seq<GraphNode>,
    edges: Seq<EdgeView>,
)
    requires
        order.no_duplicates(),
    ensures
        entry_ids(planned_entries(order, nodes, edges)).no_duplicates(),
        forall|k: int|
            0 <= k < planned_entries(order, nodes, edges).len() ==> order.contains(
                (#[trigger] planned_entries(order, nodes, edges)[k]).id,
            ),
    decreases order.len(),
{
    if order.len() > 0 {
        let init = order.drop_last();
        assert forall|i: int, j: int|
            0 <= i < init.len() && 0 <= j < init.len() && i != j implies init[i] != init[j] by {
            assert(init[i] == order[i] && init[j] == order[j]);
        }
        lemma_planned_ids_distinct(init, nodes, edges);
        let before = planned_entries(init, nodes, edges);
        let now = planned_entries(order, nodes, edges);
        assert forall|k: int| 0 <= k < before.len() implies order.contains(
            (#[trigger] before[k]).id,
        ) && before[k].id != order.last() by {
            let at = choose|at: int| 0 <= at < init.len() && init[at] == before[k].id;
            assert(order[at] == before[k].id);
            assert(order[order.len() - 1] == order.last());
        }
        assert forall|k: int| 0 <= k < now.len() implies order.contains((#[trigger] now[k]).id) by {
            if k < before.len() {
                assert(now[k] == before[k]);
            } else {
                assert(order[order.len() - 1] == now[k].id);
            }
        }
        let now_ids = entry_ids(now);
        let before_ids = entry_ids(before);
        assert forall|i: int, j: int|
            0 <= i < now_ids.len() && 0 <= j < now_ids.len() && i != j implies now_ids[i]
            != now_ids[j] by {
            if i < before.len() && j < before.len() {
                assert(now[i] == before[i] && now[j] == before[j]);
                assert(before_ids[i] != before_ids[j]);
            } else if i < before.len() {
                assert(now[i] == before[i]);
            } else {
                assert(now[j] == before[j]);
            }
        }
    }
}

/// What `entry_index` finds is a position of the entries.
proof fn lemma_entry_index_bounds(entries: Seq<PlanEntryView>, id: PackageIdView)
    ensures
        entry_index(entries, id) matches Some(k) ==> 0 <= k < entries.len() && entries[k].id == id,
    decreases entries.len(),
{
    if entries.len() > 0 && entries[0].id != id {
        lemma_entry_index_bounds(entries.skip(1), id);
    }
}

/// A completion changes counts only: the entries stay entries for the same
/// packages, in the same order.
pub proof fn lemma_completion_keeps_ids(entries: Seq<PlanEntryView>, parents: Seq<PackageIdView>)
    ensures
        entry_ids(completion(entries, parents).0) == entry_ids(entries),
    decreases parents.len(),
{
    if parents.len() > 0 {
        lemma_completion_keeps_ids(entries, parents.drop_last());
        let (before, ready) = completion(entries, parents.drop_last());
        lemma_entry_index_bounds(before, parents.last());
        match entry_index(before, parents.last()) {
            None => {},
            Some(k) => {
                let after = completion(entries, parents).0;
                assert(entry_ids(after) =~= entry_ids(before));
            },
        }
    }
}

/// Among entries of which no two are for the same package, those that pass
/// a test are for different packages too.
proof fn lemma_filtered_ids_distinct(entries: Seq<PlanEntryView>, keep: spec_fn(PlanEntryView) -> bool)
    requires
        entry_ids(entries).no_duplicates(),
    ensures
        entry_ids(entries.filter(keep)).no_duplicates(),
        forall|k: int|
            0 <= k < entries.filter(keep).len() ==> entry_ids(entries).contains(
                (#[trigger] entries.filter(keep)[k]).id,
            ),
    decreases entries.len(),
{
    reveal(Seq::filter);
    if entries.len() > 0 {
        let init = entries.drop_last();
        let last = entries.last();
        let all_ids = entry_ids(entries);
        assert forall|i: int, j: int|
            0 <= i < init.len() && 0 <= j < init.len() && i != j implies entry_ids(init)[i]
            != entry_ids(init)[j] by {
            assert(all_ids[i] == init[i].id && all_ids[j] == init[j].id);
        }
        lemma_filtered_ids_distinct(init, keep);
        let before = init.filter(keep);
        let now = entries.filter(keep);
        assert forall|k: int| 0 <= k < before.len() implies all_ids.contains(
            (#[trigger] before[k]).id,
        ) && before[k].id != last.id by {
            let at = choose|at: int|
                0 <= at < entry_ids(init).len() && entry_ids(init)[at] == before[k].id;
            assert(all_ids[at] == before[k].id);
            assert(all_ids[entries.len() - 1] == last.id);
        }
        assert forall|k: int| 0 <= k < now.len() implies all_ids.contains(
            (#[trigger] now[k]).id,
        ) by {
            if k < before.len() {
                assert(now[k] == before[k]);
            } else {
                assert(all_ids[entries.len() - 1] == now[k].id);
            }
        }
        let now_ids = entry_ids(now);
        assert forall|i: int, j: int|
            0 <= i < now_ids.len() && 0 <= j < now_ids.len() && i != j implies now_ids[i]
            != now_ids[j] by {
            if i < before.len() && j < before.len() {
                assert(now[i] == before[i] && now[j] == before[j]);
                assert(entry_ids(before)[i] != entry_ids(before)[j]);
            } else if i < before.len() {
                assert(now[i] == before[i]);
            } else {
                assert(now[j] == before[j]);
            }
        }
    }
}

/// An execution plan.
#[derive(Debug)]
pub struct ExecutionPlan {
    batches: Vec<Vec<PackageId>>,
    metadata: Vec<PlanEntry>,
}

/// Whether some edge list runs from a package of `remaining` to `p`.
fn is_blocked_by(edges: &Vec<EdgeList>, remaining: &Vec<PackageId>, p: &PackageId) -> (r: bool)
    ensures
        r == blocked(edge_views(edges@), ids(remaining@), p@),
{
    let mut e: usize = 0;
    while e < edges.len()
        invariant
            e <= edges.len(),
            forall|k: int|
                0 <= k < e ==> !(ids(remaining@).contains(#[trigger] edge_views(edges@)[k].from)
                    && edge_views(edges@)[k].to.contains(p@)),
        decreases edges.len() - e,
    {
        if contains_id(&edges[e].to, p) && contains_id(remaining, &edges[e].from) {
            assert(edge_views(edges@)[e as int].from == edges@[e as int].from@);
            return true;
        }
        e += 1;
    }
    false
}

/// Splits `remaining` into the packages that are ready and those that wait.
fn split_ready(edges: &Vec<EdgeList>, remaining: &Vec<PackageId>) -> (r: (
    Vec<PackageId>,
    Vec<PackageId>,
))
    ensures
        ids(r.0@) == ids(remaining@).filter(is_ready(edge_views(edges@), ids(remaining@))),
        ids(r.1@) == ids(remaining@).filter(is_blocked(edge_views(edges@), ids(remaining@))),
{
    let mut ready: Vec<PackageId> = Vec::new();
    let mut rest: Vec<PackageId> = Vec::new();
    let ghost all = ids(remaining@);
    let ghost ev = edge_views(edges@);
    let mut i: usize = 0;
    proof {
        reveal(Seq::filter);
        assert(all.take(0).filter(is_ready(ev, all)) == Seq::<PackageIdView>::empty());
        assert(all.take(0).filter(is_blocked(ev, all)) == Seq::<PackageIdView>::empty());
    }
    while i < remaining.len()
        invariant
            i <= remaining.len(),
            all == ids(remaining@),
            ev == edge_views(edges@),
            ids(ready@) == all.take(i as int).filter(is_ready(ev, all)),
            ids(rest@) == all.take(i as int).filter(is_blocked(ev, all)),
        decreases remaining.len() - i,
    {
        proof {
            lemma_filter_step(all, is_ready(ev, all), i as int);
            lemma_filter_step(all, is_blocked(ev, all), i as int);
        }
        let id = remaining[i].clone();
        if is_blocked_by(edges, remaining, &remaining[i]) {
            let ghost before = rest@;
            rest.push(id);
            assert(ids(rest@) == ids(before).push(all[i as int]));
        } else {
            let ghost before = ready@;
            ready.push(id);
            assert(ids(ready@) == ids(before).push(all[i as int]));
        }
        i += 1;
    }
    assert(all.take(remaining.len() as int) == all);
    (ready, rest)
}

/// The packages of `sorted`, each kept where it first occurs.
fn keep_first(sorted: &[PackageId]) -> (out: Vec<PackageId>)
    ensures
        ids(out@) == first_seen(ids(sorted@)),
{
    let mut out: Vec<PackageId> = Vec::new();
    let mut i: usize = 0;
    let ghost all = ids(sorted@);
    assert(first_seen(all.take(0)) == Seq::<PackageIdView>::empty());
    while i < sorted.len()
        invariant
            i <= sorted.len(),
            all == ids(sorted@),
            ids(out@) == first_seen(all.take(i as int)),
        decreases sorted.len() - i,
    {
        assert(all.take(i + 1).drop_last() == all.take(i as int));
        if !contains_id(&out, &sorted[i]) {
            let ghost before = out@;
            out.push(sorted[i].clone());
            assert(ids(out@) == ids(before).push(all[i as int]));
        }
        i += 1;
    }
    assert(all.take(sorted.len() as int) == all);
    out
}

/// Counts the edge lists that run to `p`.
fn count_in_degree(edges: &Vec<EdgeList>, p: &PackageId) -> (n: usize)
    ensures
        n == in_degree_of(edge_views(edges@), p@),
{
    let ghost ev = edge_views(edges@);
    let ghost hits = |e: EdgeView| e.to.contains(p@);
    let mut n: usize = 0;
    let mut i: usize = 0;
    proof {
        reveal(Seq::filter);
        assert(ev.take(0).filter(hits).len() == 0);
    }
    while i < edges.len()
        invariant
            i <= edges.len(),
            ev == edge_views(edges@),
            hits == (|e: EdgeView| e.to.contains(p@)),
            n == ev.take(i as int).filter(hits).len(),
            n <= i,
        decreases edges.len() - i,
    {
        proof {
            lemma_filter_step(ev, hits, i as int);
        }
        if contains_id(&edges[i].to, p) {
            n += 1;
        }
        i += 1;
    }
    assert(ev.take(edges.len() as int) == ev);
    n
}

/// Collects the packages that `p` has edges to.
fn collect_parents(edges: &Vec<EdgeList>, p: &PackageId) -> (out: Vec<PackageId>)
    ensures
        ids(out@) == parents_of(edge_views(edges@), p@),
{
    let ghost ev = edge_views(edges@);
    let mut out: Vec<PackageId> = Vec::new();
    let mut i: usize = 0;
    assert(ids(out@) == parents_of(ev.take(0), p@));
    while i < edges.len()
        invariant
            i <= edges.len(),
            ev == edge_views(edges@),
            ids(out@) == parents_of(ev.take(i as int), p@),
        decreases edges.len() - i,
    {
        assert(ev.take(i + 1).drop_last() == ev.take(i as int));
        assert(ev.take(i + 1).last() == ev[i as int]);
        if edges[i].from.same(p) {
            let list = &edges[i].to;
            let ghost start = ids(out@);
            let mut k: usize = 0;
            while k < list.len()
                invariant
                    k <= list.len(),
                    ids(out@) == start + ids(list@).take(k as int),
                decreases list.len() - k,
            {
                let ghost before = out@;
                out.push(list[k].clone());
                assert(ids(out@) == ids(before).push(list@[k as int]@));
                assert(ids(list@).take(k + 1) == ids(list@).take(k as int).push(list@[k as int]@));
                k += 1;
            }
            assert(ids(list@).take(list.len() as int) == ids(list@));
        }
        i += 1;
    }
    assert(ev.take(edges.len() as int) == ev);
    out
}

impl ExecutionPlan {
    /// The batches as plain values.
    pub closed spec fn batches_view(&self) -> Seq<Seq<PackageIdView>> {
        id_lists(self.batches@)
    }

    /// The bookkeeping as plain values.
    pub closed spec fn entries_view(&self) -> Seq<PlanEntryView> {
        entry_views(self.metadata@)
    }

    /// Builds the plan for the packages of `sorted`, given in an order in
    /// which they can be installed.
    ///
    /// The batches are the layers of the graph: each batch holds the
    /// packages all of whose dependencies lie in earlier batches. A package
    /// that occurs twice in `sorted` counts once, so that no package has
    /// two entries in the bookkeeping.
    pub fn from_sorted_packages(sorted: &[PackageId], graph: &DependencyGraph) -> (plan:
        ExecutionPlan)
        ensures
            plan.batches_view() == layers(edge_views(graph.edges@), first_seen(ids(sorted@))),
            plan.entries_view() == planned_entries(
                first_seen(ids(sorted@)),
                graph.nodes@,
                edge_views(graph.edges@),
            ),
            entry_ids(plan.entries_view()).no_duplicates(),
    {
        let order = keep_first(sorted);
        let ghost ev = edge_views(graph.edges@);
        let mut metadata: Vec<PlanEntry> = Vec::new();
        let mut i: usize = 0;
        assert(entry_views(metadata@) == planned_entries(ids(order@).take(0), graph.nodes@, ev));
        while i < order.len()
            invariant
                i <= order.len(),
                ev == edge_views(graph.edges@),
                entry_views(metadata@) == planned_entries(
                    ids(order@).take(i as int),
                    graph.nodes@,
                    ev,
                ),
            decreases order.len() - i,
        {
            assert(ids(order@).take(i + 1).drop_last() == ids(order@).take(i as int));
            assert(ids(order@).take(i + 1).last() == order@[i as int]@);
            match graph.action(&order[i]) {
                Some(action) => {
                    let in_degree = count_in_degree(&graph.edges, &order[i]);
                    let parents = collect_parents(&graph.edges, &order[i]);
                    let entry = PlanEntry {
                        id: order[i].clone(),
                        meta: NodeMeta { action, in_degree, parents },
                    };
                    let ghost before = metadata@;
                    metadata.push(entry);
                    assert(entry_views(metadata@) == entry_views(before).push(entry@));
                },
                None => {},
            }
            i += 1;
        }
        assert(ids(order@).take(order.len() as int) == ids(order@));

        let mut batches: Vec<Vec<PackageId>> = Vec::new();
        let mut remaining = order;
        let ghost start = ids(remaining@);
        assert(id_lists(batches@) + layers(ev, ids(remaining@)) == layers(ev, start));
        loop
            invariant
                ev == edge_views(graph.edges@),
                id_lists(batches@) + layers(ev, ids(remaining@)) == layers(ev, start),
            ensures
                id_lists(batches@) == layers(ev, start),
            decreases remaining.len(),
        {
            let (ready, rest) = split_ready(&graph.edges, &remaining);
            if ready.len() == 0 {
                assert(layers(ev, ids(remaining@)) == Seq::<Seq<PackageIdView>>::empty());
                break;
            }
            proof {
                lemma_filter_split(
                    ids(remaining@),
                    is_ready(ev, ids(remaining@)),
                    is_blocked(ev, ids(remaining@)),
                );
            }
            let ghost before = batches@;
            let ghost layer = ids(ready@);
            batches.push(ready);
            assert(id_lists(batches@) == id_lists(before).push(layer));
            assert(id_lists(before) + (seq![layer] + layers(ev, ids(rest@))) == id_lists(
                before,
            ).push(layer) + layers(ev, ids(rest@)));
            remaining = rest;
        }
        proof {
            lemma_first_seen_distinct(ids(sorted@));
            lemma_planned_ids_distinct(first_seen(ids(sorted@)), graph.nodes@, ev);
        }
        ExecutionPlan { batches, metadata }
    }

    /// The batches, in the order in which they must run.
    pub fn batches(&self) -> (b: &Vec<Vec<PackageId>>)
        ensures
            id_lists(b@) == self.batches_view(),
    {
        &self.batches
    }

    /// The bookkeeping of every package, in plan order.
    pub fn entries(&self) -> (e: &Vec<PlanEntry>)
        ensures
            entry_views(e@) == self.entries_view(),
    {
        &self.metadata
    }

    /// The position of the entry for `package_id`.
    fn find_entry(&self, package_id: &PackageId) -> (r: Option<usize>)
        ensures
            match r {
                Some(k) => k < self.metadata@.len() && entry_index(
                    self.entries_view(),
                    package_id@,
                ) == Some(k as int),
                None => entry_index(self.entries_view(), package_id@) is None,
            },
    {
        let ghost all = self.entries_view();
        let mut i: usize = 0;
        assert(all.skip(0) == all);
        while i < self.metadata.len()
            invariant
                i <= self.metadata.len(),
                all == self.entries_view(),
                entry_index(all, package_id@) == match entry_index(
                    all.skip(i as int),
                    package_id@,
                ) {
                    Some(k) => Some(k + i),
                    None => None,
                },
            decreases self.metadata.len() - i,
        {
            assert(all.skip(i as int).skip(1) == all.skip(i + 1));
            assert(all.skip(i as int)[0] == self.metadata@[i as int]@);
            if self.metadata[i].id.same(package_id) {
                return Some(i);
            }
            i += 1;
        }
        None
    }

    /// The bookkeeping of `package_id`, if the plan holds the package.
    pub fn metadata(&self, package_id: &PackageId) -> (r: Option<&NodeMeta>)
        ensures
            match r {
                Some(m) => entry_index(self.entries_view(), package_id@) matches Some(k)
                    && self.entries_view()[k].meta == m@,
                None => entry_index(self.entries_view(), package_id@) is None,
            },
    {
        match self.find_entry(package_id) {
            Some(k) => Some(&self.metadata[k].meta),
            None => None,
        }
    }

    /// The packages that have no open dependency, in plan order. Where no
    /// package has two entries, none is returned twice.
    pub fn ready_packages(&self) -> (out: Vec<PackageId>)
        ensures
            ids(out@) == entry_ids(self.entries_view().filter(is_done())),
            entry_ids(self.entries_view()).no_duplicates() ==> ids(out@).no_duplicates(),
    {
        proof {
            if entry_ids(self.entries_view()).no_duplicates() {
                lemma_filtered_ids_distinct(self.entries_view(), is_done());
            }
        }
        let ghost all = self.entries_view();
        let mut out: Vec<PackageId> = Vec::new();
        let mut i: usize = 0;
        proof {
            reveal(Seq::filter);
            assert(ids(out@) == entry_ids(all.take(0).filter(is_done())));
        }
        while i < self.metadata.len()
            invariant
                i <= self.metadata.len(),
                all == self.entries_view(),
                ids(out@) == entry_ids(all.take(i as int).filter(is_done())),
            decreases self.metadata.len() - i,
        {
            proof {
                lemma_filter_step(all, is_done(), i as int);
            }
            if self.metadata[i].meta.in_degree() == 0 {
                let ghost before = out@;
                let ghost kept = all.take(i as int).filter(is_done());
                out.push(self.metadata[i].id.clone());
                assert(ids(out@) == ids(before).push(all[i as int].id));
                assert(entry_ids(kept.push(all[i as int])) == entry_ids(kept).push(
                    all[i as int].id,
                ));
            }
            i += 1;
        }
        assert(all.take(self.metadata.len() as int) == all);
        out
    }

    /// The number of packages in the plan.
    pub fn package_count(&self) -> (n: usize)
        ensures
            n == self.entries_view().len(),
    {
        self.metadata.len()
    }

    /// Whether no package has an open dependency.
    pub fn is_complete(&self) -> (r: bool)
        ensures
            r == (forall|k: int|
                0 <= k < self.entries_view().len() ==> (#[trigger] self.entries_view()[k]).meta.in_degree
                    == 0),
    {
        let mut i: usize = 0;
        while i < self.metadata.len()
            invariant
                i <= self.metadata.len(),
                forall|k: int|
                    0 <= k < i ==> (#[trigger] self.entries_view()[k]).meta.in_degree == 0,
            decreases self.metadata.len() - i,
        {
            if self.metadata[i].meta.in_degree() != 0 {
                assert(self.entries_view()[i as int].meta.in_degree != 0);
                return false;
            }
            i += 1;
        }
        true
    }

    /// The number of packages that have no open dependency.
    pub fn completed_count(&self) -> (n: usize)
        ensures
            n == self.entries_view().filter(is_done()).len(),
    {
        let ghost all = self.entries_view();
        let mut n: usize = 0;
        let mut i: usize = 0;
        proof {
            reveal(Seq::filter);
            assert(all.take(0).filter(is_done()).len() == 0);
        }
        while i < self.metadata.len()
            invariant
                i <= self.metadata.len(),
                all == self.entries_view(),
                n == all.take(i as int).filter(is_done()).len(),
                n <= i,
            decreases self.metadata.len() - i,
        {
            proof {
                lemma_filter_step(all, is_done(), i as int);
            }
            if self.metadata[i].meta.in_degree() == 0 {
                n += 1;
            }
            i += 1;
        }
        assert(all.take(self.metadata.len() as int) == all);
        n
    }
}


impl ExecutionPlan {
    /// Marks `package_id` as completed and returns the packages that became
    /// ready: for each package that depends on it, in order, the count of
    /// open dependencies is decremented, and the package is returned when
    /// none is left. A package that the plan does not hold changes nothing.
    /// The entries stay entries for the same packages.
    pub fn complete_package(&mut self, package_id: &PackageId) -> (newly_ready: Vec<PackageId>)
        ensures
            final(self).batches_view() == old(self).batches_view(),
            entry_ids(final(self).entries_view()) == entry_ids(old(self).entries_view()),
            match entry_index(old(self).entries_view(), package_id@) {
                Some(k) => (final(self).entries_view(), ids(newly_ready@)) == completion(
                    old(self).entries_view(),
                    old(self).entries_view()[k].meta.parents,
                ),
                None => final(self).entries_view() == old(self).entries_view() && ids(
                    newly_ready@,
                ) == Seq::<PackageIdView>::empty(),
            },
    {
        let mut newly_ready: Vec<PackageId> = Vec::new();
        let found = self.find_entry(package_id);
        let parents = match found {
            Some(k) => copy_ids(&self.metadata[k].meta.parents),
            None => {
                return newly_ready;
            },
        };
        let ghost start = self.entries_view();
        let ghost all = ids(parents@);
        let mut i: usize = 0;
        assert(completion(start, all.take(0)) == (start, Seq::<PackageIdView>::empty()));
        proof {
            lemma_completion_keeps_ids(start, all);
        }
        while i < parents.len()
            invariant
                i <= parents.len(),
                all == ids(parents@),
                self.batches_view() == old(self).batches_view(),
                (self.entries_view(), ids(newly_ready@)) == completion(start, all.take(i as int)),
            decreases parents.len() - i,
        {
            assert(all.take(i + 1).drop_last() == all.take(i as int));
            assert(all.take(i + 1).last() == parents@[i as int]@);
            match self.find_entry(&parents[i]) {
                Some(k) => {
                    let ghost before = self.metadata@;
                    let left = self.metadata[k].meta.decrement_in_degree();
                    assert(entry_views(self.metadata@) == entry_views(before).update(
                        k as int,
                        self.metadata@[k as int]@,
                    ));
                    if left == 0 {
                        let ghost ready_before = newly_ready@;
                        newly_ready.push(parents[i].clone());
                        assert(ids(newly_ready@) == ids(ready_before).push(all[i as int]));
                    }
                },
                None => {},
            }
            i += 1;
        }
        assert(all.take(parents.len() as int) == all);
        newly_ready
    }
}

/// Figures of an execution plan.
#[derive(Clone, Copy, Debug, PartialEq, Eq, Structural)]
pub struct ExecutionStats {
    /// The number of packages in the plan.
    pub total_packages: usize,
    /// The packages that are downloaded.
    pub downloaded: usize,
    /// The packages that come from local archives.
    pub local: usize,
    /// The number of batches.
    pub batch_count: usize,
    /// The size of the largest batch.
    pub max_batch_size: usize,
}

/// The length of the longest of the lists, 0 when there is none.
pub open spec fn longest(lists: Seq<Seq<PackageIdView>>) -> nat
    decreases lists.len(),
{
    if lists.len() == 0 {
        0
    } else {
        let before = longest(lists.drop_last());
        if lists.last().len() > before {
            lists.last().len()
        } else {
            before
        }
    }
}

/// The test "the graph records `action` for this entry".
pub open spec fn has_action(nodes: Seq<GraphNode>, action: NodeAction) -> spec_fn(
    PlanEntryView,
) -> bool {
    |e: PlanEntryView| action_of(nodes, e.id) == Some(action)
}

impl ExecutionStats {
    /// The figures of `plan`: its size, its batches, and how many of its
    /// packages the graph marks for download and how many as local.
    pub fn from_plan(plan: &ExecutionPlan, graph: &DependencyGraph) -> (stats: ExecutionStats)
        ensures
            stats.total_packages == plan.entries_view().len(),
            stats.batch_count == plan.batches_view().len(),
            stats.max_batch_size == longest(plan.batches_view()),
            stats.downloaded == plan.entries_view().filter(
                has_action(graph.nodes@, NodeAction::Download),
            ).len(),
            stats.local == plan.entries_view().filter(
                has_action(graph.nodes@, NodeAction::Local),
            ).len(),
    {
        let batches = plan.batches();
        let ghost lists = id_lists(batches@);
        let mut max_batch_size: usize = 0;
        let mut b: usize = 0;
        assert(longest(lists.take(0)) == 0);
        while b < batches.len()
            invariant
                b <= batches.len(),
                lists == id_lists(batches@),
                max_batch_size == longest(lists.take(b as int)),
            decreases batches.len() - b,
        {
            assert(lists.take(b + 1).drop_last() == lists.take(b as int));
            assert(lists.take(b + 1).last().len() == batches@[b as int]@.len());
            if batches[b].len() > max_batch_size {
                max_batch_size = batches[b].len();
            }
            b += 1;
        }
        assert(lists.take(batches.len() as int) == lists);

        let entries = plan.entries();
        let ghost all = entry_views(entries@);
        let ghost down = has_action(graph.nodes@, NodeAction::Download);
        let ghost loc = has_action(graph.nodes@, NodeAction::Local);
        let mut downloaded: usize = 0;
        let mut local: usize = 0;
        let mut i: usize = 0;
        proof {
            reveal(Seq::filter);
            assert(all.take(0).filter(down).len() == 0);
            assert(all.take(0).filter(loc).len() == 0);
        }
        while i < entries.len()
            invariant
                i <= entries.len(),
                all == entry_views(entries@),
                down == has_action(graph.nodes@, NodeAction::Download),
                loc == has_action(graph.nodes@, NodeAction::Local),
                downloaded == all.take(i as int).filter(down).len(),
                local == all.take(i as int).filter(loc).len(),
                downloaded <= i,
                local <= i,
            decreases entries.len() - i,
        {
            proof {
                lemma_filter_step(all, down, i as int);
                lemma_filter_step(all, loc, i as int);
            }
            match graph.action(&entries[i].id) {
                Some(NodeAction::Download) => {
                    downloaded += 1;
                },
                Some(NodeAction::Local) => {
                    local += 1;
                },
                None => {},
            }
            i += 1;
        }
        assert(all.take(entries.len() as int) == all);
        ExecutionStats {
            total_packages: plan.package_count(),
            downloaded,
            local,
            batch_count: batches.len(),
            max_batch_size,
        }
    }
}


/// The lists of `lists` one after the other.
pub open spec fn concat(lists: Seq<Seq<PackageIdView>>) -> Seq<PackageIdView>
    decreases lists.len(),
{
    if lists.len() == 0 {
        Seq::<PackageIdView>::empty()
    } else {
        lists[0] + concat(lists.skip(1))
    }
}

/// The batches of a non-empty first round: the ready packages, then the
/// batches of the rest.
proof fn lemma_layers_unfold(edges: Seq<EdgeView>, remaining: Seq<PackageIdView>)
    requires
        remaining.filter(is_ready(edges, remaining)).len() > 0,
    ensures
        layers(edges, remaining).len() > 0,
        layers(edges, remaining)[0] == remaining.filter(is_ready(edges, remaining)),
        layers(edges, remaining).skip(1) == layers(
            edges,
            remaining.filter(is_blocked(edges, remaining)),
        ),
        remaining.filter(is_blocked(edges, remaining)).len() < remaining.len(),
{
    lemma_filter_split(remaining, is_ready(edges, remaining), is_blocked(edges, remaining));
    let ready = remaining.filter(is_ready(edges, remaining));
    let rest = remaining.filter(is_blocked(edges, remaining));
    assert((seq![ready] + layers(edges, rest)).skip(1) == layers(edges, rest));
}

/// Every package of a batch is one of the packages that were planned.
pub proof fn law_batches_hold_planned_packages(
    edges: Seq<EdgeView>,
    remaining: Seq<PackageIdView>,
    k: int,
    p: PackageIdView,
)
    requires
        0 <= k < layers(edges, remaining).len(),
        layers(edges, remaining)[k].contains(p),
    ensures
        remaining.contains(p),
    decreases remaining.len(),
{
    let ready = remaining.filter(is_ready(edges, remaining));
    let rest = remaining.filter(is_blocked(edges, remaining));
    lemma_layers_unfold(edges, remaining);
    if k == 0 {
        lemma_filter_member(remaining, is_ready(edges, remaining), p);
    } else {
        assert(layers(edges, remaining)[k] == layers(edges, rest)[k - 1]);
        law_batches_hold_planned_packages(edges, rest, k - 1, p);
        lemma_filter_member(remaining, is_blocked(edges, remaining), p);
    }
}

/// Every dependency of a package lies in a strictly earlier batch: if `p`
/// stands in batch `k` and an edge runs to it from the planned package `q`,
/// then `q` stands in a batch before `k`.
pub proof fn law_dependencies_come_earlier(
    edges: Seq<EdgeView>,
    remaining: Seq<PackageIdView>,
    k: int,
    p: PackageIdView,
    q: PackageIdView,
)
    requires
        0 <= k < layers(edges, remaining).len(),
        layers(edges, remaining)[k].contains(p),
        remaining.contains(q),
        crate::graph::points_to(edges, q, p),
    ensures
        exists|j: int| 0 <= j < k && #[trigger] layers(edges, remaining)[j].contains(q),
    decreases remaining.len(),
{
    let ready = remaining.filter(is_ready(edges, remaining));
    let rest = remaining.filter(is_blocked(edges, remaining));
    lemma_layers_unfold(edges, remaining);
    let e = choose|e: int|
        0 <= e < edges.len() && #[trigger] edges[e].from == q && edges[e].to.contains(p);
    assert(remaining.contains(edges[e].from));
    assert(blocked(edges, remaining, p));
    if k == 0 {
        lemma_filter_member(remaining, is_ready(edges, remaining), p);
    } else {
        assert(layers(edges, remaining)[k] == layers(edges, rest)[k - 1]);
        lemma_filter_member(remaining, is_ready(edges, remaining), q);
        lemma_filter_member(remaining, is_blocked(edges, remaining), q);
        if ready.contains(q) {
            assert(layers(edges, remaining)[0].contains(q));
        } else {
            law_dependencies_come_earlier(edges, rest, k - 1, p, q);
            let j = choose|j: int| 0 <= j < k - 1 && #[trigger] layers(edges, rest)[j].contains(q);
            assert(layers(edges, remaining)[j + 1] == layers(edges, rest)[j]);
            assert(layers(edges, remaining)[j + 1].contains(q));
        }
    }
}

/// Every package in the batches read one after the other was planned.
proof fn lemma_concat_within(edges: Seq<EdgeView>, remaining: Seq<PackageIdView>, i: int)
    requires
        0 <= i < concat(layers(edges, remaining)).len(),
    ensures
        remaining.contains(concat(layers(edges, remaining))[i]),
    decreases remaining.len(),
{
    let ready = remaining.filter(is_ready(edges, remaining));
    let rest = remaining.filter(is_blocked(edges, remaining));
    if ready.len() > 0 {
        lemma_layers_unfold(edges, remaining);
        let x = concat(layers(edges, remaining))[i];
        if i < ready.len() {
            assert(ready[i] == x);
            assert(ready.contains(x));
            lemma_filter_member(remaining, is_ready(edges, remaining), x);
        } else {
            lemma_concat_within(edges, rest, i - ready.len());
            lemma_filter_member(remaining, is_blocked(edges, remaining), x);
        }
    }
}

/// The batches read one after the other respect every edge: a package
/// stands before each package that depends on it.
pub proof fn law_batch_order_respects_edges(
    edges: Seq<EdgeView>,
    remaining: Seq<PackageIdView>,
    i: int,
    j: int,
)
    requires
        0 <= i < concat(layers(edges, remaining)).len(),
        0 <= j < concat(layers(edges, remaining)).len(),
        crate::graph::points_to(
            edges,
            concat(layers(edges, remaining))[i],
            concat(layers(edges, remaining))[j],
        ),
    ensures
        i < j,
    decreases remaining.len(),
{
    let ready = remaining.filter(is_ready(edges, remaining));
    let rest = remaining.filter(is_blocked(edges, remaining));
    let order = concat(layers(edges, remaining));
    if ready.len() > 0 {
        lemma_layers_unfold(edges, remaining);
        let q = order[i];
        let p = order[j];
        lemma_concat_within(edges, remaining, i);
        let e = choose|e: int|
            0 <= e < edges.len() && #[trigger] edges[e].from == q && edges[e].to.contains(p);
        assert(remaining.contains(edges[e].from));
        assert(blocked(edges, remaining, p));
        if j < ready.len() {
            assert(ready[j] == p);
            assert(ready.contains(p));
            lemma_filter_member(remaining, is_ready(edges, remaining), p);
        } else if i >= ready.len() {
            law_batch_order_respects_edges(edges, rest, i - ready.len(), j - ready.len());
        }
    }
}

/// Whether the packages of `remaining` can be numbered so that every edge
/// between two of them goes from a lower to a higher number: the graph on
/// them has no cycle.
pub open spec fn numbered_upward(
    edges: Seq<EdgeView>,
    remaining: Seq<PackageIdView>,
    rank: spec_fn(PackageIdView) -> nat,
) -> bool {
    forall|q: PackageIdView, p: PackageIdView|
        remaining.contains(q) && remaining.contains(p) && #[trigger] crate::graph::points_to(
            edges,
            q,
            p,
        ) ==> rank(q) < rank(p)
}

/// A position of `s` whose element has the least number.
proof fn lemma_least_rank(s: Seq<PackageIdView>, rank: spec_fn(PackageIdView) -> nat) -> (m: int)
    requires
        s.len() > 0,
    ensures
        0 <= m < s.len(),
        forall|i: int| 0 <= i < s.len() ==> rank(s[m]) <= rank(#[trigger] s[i]),
    decreases s.len(),
{
    if s.len() == 1 {
        0
    } else {
        let init = s.drop_last();
        let m0 = lemma_least_rank(init, rank);
        let m = if rank(s.last()) < rank(init[m0]) {
            s.len() - 1
        } else {
            m0
        };
        assert forall|i: int| 0 <= i < s.len() implies rank(s[m]) <= rank(#[trigger] s[i]) by {
            if i < s.len() - 1 {
                assert(init[i] == s[i]);
            }
        }
        m
    }
}

/// Without a cycle some package is always ready.
proof fn lemma_some_ready(
    edges: Seq<EdgeView>,
    remaining: Seq<PackageIdView>,
    rank: spec_fn(PackageIdView) -> nat,
)
    requires
        remaining.len() > 0,
        numbered_upward(edges, remaining, rank),
    ensures
        remaining.filter(is_ready(edges, remaining)).len() > 0,
{
    let m = lemma_least_rank(remaining, rank);
    let x = remaining[m];
    if blocked(edges, remaining, x) {
        let e = choose|e: int|
            0 <= e < edges.len() && remaining.contains(#[trigger] edges[e].from)
                && edges[e].to.contains(x);
        let q = edges[e].from;
        assert(crate::graph::points_to(edges, q, x));
        let i = choose|i: int| 0 <= i < remaining.len() && remaining[i] == q;
        assert(rank(x) <= rank(remaining[i]));
    }
    assert(remaining.contains(x));
    lemma_filter_member(remaining, is_ready(edges, remaining), x);
    let ready = remaining.filter(is_ready(edges, remaining));
    assert(ready.contains(x));
}

/// When the graph on the planned packages has no cycle, the batches read
/// one after the other hold every planned package exactly as often as the
/// plan's input does: they are a rearrangement of it.
pub proof fn law_batches_rearrange_input(
    edges: Seq<EdgeView>,
    remaining: Seq<PackageIdView>,
    rank: spec_fn(PackageIdView) -> nat,
)
    requires
        numbered_upward(edges, remaining, rank),
    ensures
        concat(layers(edges, remaining)).to_multiset() == remaining.to_multiset(),
    decreases remaining.len(),
{
    broadcast use vstd::seq_lib::group_to_multiset_ensures;

    if remaining.len() == 0 {
        reveal(Seq::filter);
        assert(remaining.filter(is_ready(edges, remaining)).len() == 0);
        assert(concat(layers(edges, remaining)) == remaining);
    } else {
        lemma_some_ready(edges, remaining, rank);
        lemma_layers_unfold(edges, remaining);
        let ready = remaining.filter(is_ready(edges, remaining));
        let rest = remaining.filter(is_blocked(edges, remaining));
        assert forall|q: PackageIdView, p: PackageIdView|
            rest.contains(q) && rest.contains(p) && #[trigger] crate::graph::points_to(
                edges,
                q,
                p,
            ) implies rank(q) < rank(p) by {
            lemma_filter_member(remaining, is_blocked(edges, remaining), q);
            lemma_filter_member(remaining, is_blocked(edges, remaining), p);
        }
        law_batches_rearrange_input(edges, rest, rank);
        lemma_filter_split_multiset(
            remaining,
            is_ready(edges, remaining),
            is_blocked(edges, remaining),
        );
        vstd::seq_lib::lemma_multiset_commutative(ready, concat(layers(edges, rest)));
    }
}

/// Packages that stand in an order in which every edge goes forward can be
/// numbered upward, by their place in that order.
pub proof fn law_sorted_input_has_no_cycle(edges: Seq<EdgeView>, sorted: Seq<PackageIdView>)
    requires
        forall|i: int, j: int|
            0 <= i < sorted.len() && 0 <= j < sorted.len() && #[trigger] crate::graph::points_to(
                edges,
                sorted[i],
                sorted[j],
            ) ==> i < j,
    ensures
        numbered_upward(edges, first_seen(sorted), |p: PackageIdView| sorted.index_of(p) as nat),
{
    let rank = |p: PackageIdView| sorted.index_of(p) as nat;
    assert forall|q: PackageIdView, p: PackageIdView|
        first_seen(sorted).contains(q) && first_seen(sorted).contains(p)
            && #[trigger] crate::graph::points_to(edges, q, p) implies rank(q) < rank(p) by {
        lemma_first_seen_member(sorted, q);
        lemma_first_seen_member(sorted, p);
        let i = sorted.index_of(q);
        let j = sorted.index_of(p);
        assert(sorted[i] == q && sorted[j] == p);
    }
}

/// `first_seen` keeps exactly the packages that occur.
pub proof fn lemma_first_seen_member(s: Seq<PackageIdView>, x: PackageIdView)
    ensures
        first_seen(s).contains(x) <==> s.contains(x),
    decreases s.len(),
{
    if s.len() > 0 {
        let init = s.drop_last();
        lemma_first_seen_member(init, x);
        let kept = first_seen(init);
        if s.contains(x) {
            let i = choose|i: int| 0 <= i < s.len() && s[i] == x;
            if i < s.len() - 1 {
                assert(init[i] == x);
            }
        }
        if init.contains(x) {
            let i = choose|i: int| 0 <= i < init.len() && init[i] == x;
            assert(s[i] == x);
        }
        assert(s[s.len() - 1] == s.last());
        if !kept.contains(s.last()) {
            assert(kept.push(s.last()).last() == s.last());
            if kept.contains(x) {
                let i = choose|i: int| 0 <= i < kept.len() && kept[i] == x;
                assert(kept.push(s.last())[i] == x);
            }
            if kept.push(s.last()).contains(x) {
                let i = choose|i: int|
                    0 <= i < kept.push(s.last()).len() && kept.push(s.last())[i] == x;
                if i < kept.len() {
                    assert(kept[i] == x);
                }
            }
        }
    }
}

} // verus!
