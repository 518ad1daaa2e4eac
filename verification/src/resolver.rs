//! The dependency resolver: from requirements and the package index to the
//! set of packages to install.
//!
//! The resolver works through the requirements in order. A requirement for
//! a package that is already chosen must be met by the chosen version. For
//! a package that is not yet chosen the resolver chooses the highest
//! version that meets the requirement, adds the dependencies of that
//! version to the requirements, and goes on; when that leads to a
//! requirement that cannot be met it comes back, gives the choice up and
//! tries the next lower version.

use crate::errors::ErrorKind;
use crate::execution::ExecutionPlan;
use crate::graph::{ids, DependencyGraph, NodeAction, PackageId, PackageIdView};
use crate::text::{same_text, texts};
use crate::version::{semver_order, spec_matches, ConstraintOp, ConstraintView, VersionSpec};
use vstd::prelude::*;

verus! {

/// A requirement: a package name and the versions that will do.
#[derive(Debug)]
pub struct Dependency {
    pub name: String,
    pub spec: VersionSpec,
}

/// A requirement as a plain value.
pub struct DependencyView {
    pub name: Seq<char>,
    pub spec: Seq<ConstraintView>,
}

impl View for Dependency {
    type V = DependencyView;

    open spec fn view(&self) -> DependencyView {
        DependencyView { name: self.name@, spec: self.spec@ }
    }
}

impl Clone for Dependency {
    fn clone(&self) -> (d: Dependency)
        ensures
            d@ == self@,
    {
        Dependency { name: self.name.clone(), spec: self.spec.clone() }
    }
}

/// The requirements of a vector as plain values.
pub open spec fn dependency_views(v: Seq<Dependency>) -> Seq<DependencyView> {
    Seq::new(v.len(), |i: int| v[i]@)
}

/// A version of a package in the index, with what it depends on.
#[derive(Debug)]
pub struct IndexEntry {
    pub id: PackageId,
    pub dependencies: Vec<Dependency>,
}

/// An index entry as a plain value.
pub struct EntryView {
    pub id: PackageIdView,
    pub dependencies: Seq<DependencyView>,
}

impl View for IndexEntry {
    type V = EntryView;

    open spec fn view(&self) -> EntryView {
        EntryView { id: self.id@, dependencies: dependency_views(self.dependencies@) }
    }
}

/// The entries of a vector as plain values.
pub open spec fn index_views(v: Seq<IndexEntry>) -> Seq<EntryView> {
    Seq::new(v.len(), |i: int| v[i]@)
}

/// Why no set of packages was found.
#[derive(Clone, Debug)]
pub enum ResolutionError {
    /// No choice of versions meets all requirements.
    ConflictingConstraints,
    /// A requirement names a package that the index does not have.
    UnknownPackage { name: String },
    /// The chosen packages depend on each other in a circle.
    CircularDependency,
}

impl ResolutionError {
    /// The kind of this error.
    pub open spec fn kind_spec(&self) -> ErrorKind {
        match self {
            ResolutionError::UnknownPackage { .. } => ErrorKind::NotFound,
            _ => ErrorKind::Conflict,
        }
    }

    /// The kind of this error: an unknown package is not found, the others
    /// are conflicts between versions.
    pub fn kind(&self) -> (k: ErrorKind)
        ensures
            k == self.kind_spec(),
    {
        match self {
            ResolutionError::UnknownPackage { .. } => ErrorKind::NotFound,
            _ => ErrorKind::Conflict,
        }
    }
}

/// Whether the entry at position `e` meets the requirement: it has the name
/// and its version matches.
pub open spec fn meets(index: Seq<EntryView>, e: int, req: DependencyView) -> bool {
    0 <= e < index.len() && index[e].id.name == req.name && spec_matches(
        req.spec,
        index[e].id.version,
    )
}

/// The first of the chosen entries that has the name `name`.
pub open spec fn chosen_named(index: Seq<EntryView>, chosen: Seq<int>, name: Seq<char>) -> Option<
    int,
>
    decreases chosen.len(),
{
    if chosen.len() == 0 {
        None
    } else if 0 <= chosen[0] < index.len() && index[chosen[0]].id.name == name {
        Some(chosen[0])
    } else {
        chosen_named(index, chosen.skip(1), name)
    }
}

/// The positions below `n` of the entries that meet the requirement.
pub open spec fn candidates_upto(index: Seq<EntryView>, req: DependencyView, n: int) -> Seq<int>
    decreases n,
{
    if n <= 0 {
        Seq::<int>::empty()
    } else if meets(index, n - 1, req) {
        candidates_upto(index, req, n - 1).push(n - 1)
    } else {
        candidates_upto(index, req, n - 1)
    }
}

/// Where in the first `n` candidates the highest version stands. Of equal
/// versions the first counts.
pub open spec fn highest_upto(index: Seq<EntryView>, cands: Seq<int>, n: int) -> int
    decreases n,
{
    if n <= 1 {
        0
    } else {
        let best = highest_upto(index, cands, n - 1);
        if semver_order(index[cands[n - 1]].id.version, index[cands[best]].id.version) > 0 {
            n - 1
        } else {
            best
        }
    }
}

/// The candidates from the highest version down.
pub open spec fn ranked(index: Seq<EntryView>, cands: Seq<int>) -> Seq<int>
    decreases cands.len(),
{
    if cands.len() == 0 {
        Seq::<int>::empty()
    } else {
        let best = highest_upto(index, cands, cands.len() as int);
        if 0 <= best < cands.len() {
            seq![cands[best]] + ranked(index, cands.remove(best))
        } else {
            Seq::<int>::empty()
        }
    }
}

/// The result of the search: the positions of the chosen entries, in the
/// order in which they were chosen. `fuel` bounds the number of choices
/// that may still be made.
pub open spec fn search(
    index: Seq<EntryView>,
    pending: Seq<DependencyView>,
    chosen: Seq<int>,
    fuel: nat,
) -> Option<Seq<int>>
    decreases fuel, 0nat, pending.len(),
{
    if pending.len() == 0 {
        Some(chosen)
    } else {
        let req = pending[0];
        match chosen_named(index, chosen, req.name) {
            Some(e) => if meets(index, e, req) {
                search(index, pending.skip(1), chosen, fuel)
            } else {
                None
            },
            None => if fuel == 0 {
                None
            } else {
                try_each(
                    index,
                    pending.skip(1),
                    chosen,
                    (fuel - 1) as nat,
                    ranked(index, candidates_upto(index, req, index.len() as int)),
                    0,
                )
            },
        }
    }
}

/// The result of trying the candidates from position `k` on: that of the
/// first candidate with which the search succeeds.
pub open spec fn try_each(
    index: Seq<EntryView>,
    rest: Seq<DependencyView>,
    chosen: Seq<int>,
    fuel: nat,
    order: Seq<int>,
    k: int,
) -> Option<Seq<int>>
    decreases fuel, 1nat, order.len() - k,
{
    if k < 0 || k >= order.len() {
        None
    } else {
        let e = order[k];
        let more = if 0 <= e < index.len() {
            index[e].dependencies
        } else {
            Seq::<DependencyView>::empty()
        };
        match search(index, rest + more, chosen.push(e), fuel) {
            Some(found) => Some(found),
            None => try_each(index, rest, chosen, fuel, order, k + 1),
        }
    }
}

/// Whether one of the selected entries meets the requirement.
pub open spec fn satisfied(index: Seq<EntryView>, selected: Seq<int>, req: DependencyView) -> bool {
    exists|k: int| 0 <= k < selected.len() && meets(index, #[trigger] selected[k], req)
}

/// Whether the selection from position `from` on is closed: every
/// dependency of every entry selected there is met by a selected entry.
pub open spec fn closed_from(index: Seq<EntryView>, selected: Seq<int>, from: int) -> bool {
    forall|k: int, d: int|
        from <= k < selected.len() && 0 <= selected[k] < index.len() && 0 <= d
            < index[selected[k]].dependencies.len() ==> satisfied(
            index,
            selected,
            #[trigger] index[selected[k]].dependencies[d],
        )
}

/// Whether no two selected entries have the same name.
pub open spec fn one_version_each(index: Seq<EntryView>, selected: Seq<int>) -> bool {
    forall|i: int, j: int|
        0 <= i < j < selected.len() && 0 <= selected[i] < index.len() && 0 <= selected[j]
            < index.len() ==> index[#[trigger] selected[i]].id.name != index[
            #[trigger] selected[j]].id.name
}

/// What `chosen_named` finds is a chosen entry with the name; it finds
/// nothing only when no chosen entry has the name.
proof fn lemma_chosen_named(index: Seq<EntryView>, chosen: Seq<int>, name: Seq<char>)
    ensures
        match chosen_named(index, chosen, name) {
            Some(e) => 0 <= e < index.len() && index[e].id.name == name && exists|k: int|
                0 <= k < chosen.len() && #[trigger] chosen[k] == e,
            None => forall|k: int|
                0 <= k < chosen.len() && 0 <= #[trigger] chosen[k] < index.len()
                    ==> index[chosen[k]].id.name != name,
        },
    decreases chosen.len(),
{
    if chosen.len() > 0 {
        if 0 <= chosen[0] < index.len() && index[chosen[0]].id.name == name {
            assert(chosen[0] == chosen[0]);
        } else {
            let rest = chosen.skip(1);
            lemma_chosen_named(index, rest, name);
            match chosen_named(index, rest, name) {
                Some(e) => {
                    let k = choose|k: int| 0 <= k < rest.len() && #[trigger] rest[k] == e;
                    assert(chosen[k + 1] == e);
                },
                None => {
                    assert forall|k: int|
                        0 <= k < chosen.len() && 0 <= #[trigger] chosen[k]
                            < index.len() implies index[chosen[k]].id.name != name by {
                        if k > 0 {
                            assert(rest[k - 1] == chosen[k]);
                        }
                    }
                },
            }
        }
    }
}

/// Every candidate meets the requirement.
proof fn lemma_candidates_meet(index: Seq<EntryView>, req: DependencyView, n: int)
    ensures
        forall|k: int|
            0 <= k < candidates_upto(index, req, n).len() ==> meets(
                index,
                #[trigger] candidates_upto(index, req, n)[k],
                req,
            ),
    decreases n,
{
    if n > 0 {
        lemma_candidates_meet(index, req, n - 1);
        let before = candidates_upto(index, req, n - 1);
        let now = candidates_upto(index, req, n);
        assert forall|k: int| 0 <= k < now.len() implies meets(index, #[trigger] now[k], req) by {
            if k < before.len() {
                assert(now[k] == before[k]);
            }
        }
    }
}

/// The highest of the first `n` candidates is one of them.
proof fn lemma_highest_bounds(index: Seq<EntryView>, cands: Seq<int>, n: int)
    requires
        1 <= n <= cands.len(),
    ensures
        0 <= highest_upto(index, cands, n) < n,
    decreases n,
{
    if n > 1 {
        lemma_highest_bounds(index, cands, n - 1);
    }
}

/// Ranking keeps the candidates: each ranked entry is a candidate.
proof fn lemma_ranked_members(index: Seq<EntryView>, cands: Seq<int>)
    ensures
        forall|k: int|
            0 <= k < ranked(index, cands).len() ==> cands.contains(
                #[trigger] ranked(index, cands)[k],
            ),
        ranked(index, cands).len() == cands.len(),
    decreases cands.len(),
{
    if cands.len() > 0 {
        lemma_highest_bounds(index, cands, cands.len() as int);
        let best = highest_upto(index, cands, cands.len() as int);
        let rest = cands.remove(best);
        lemma_ranked_members(index, rest);
        let out = ranked(index, cands);
        assert forall|k: int| 0 <= k < out.len() implies cands.contains(#[trigger] out[k]) by {
            if k == 0 {
                assert(cands[best] == out[0]);
            } else {
                let x = ranked(index, rest)[k - 1];
                assert(rest.contains(x));
                let i = choose|i: int| 0 <= i < rest.len() && rest[i] == x;
                if i < best {
                    assert(cands[i] == x);
                } else {
                    assert(cands[i + 1] == x);
                }
            }
        }
    }
}

/// The search is sound. When it succeeds, the selection begins with what
/// was chosen before; every pending requirement is met by a selected
/// entry; the entries that were added have all their dependencies met; and
/// no package is selected in two versions, if none was before.
pub proof fn law_search_is_sound(
    index: Seq<EntryView>,
    pending: Seq<DependencyView>,
    chosen: Seq<int>,
    fuel: nat,
)
    requires
        one_version_each(index, chosen),
        forall|k: int| 0 <= k < chosen.len() ==> 0 <= #[trigger] chosen[k] < index.len(),
    ensures
        match search(index, pending, chosen, fuel) {
            Some(selected) => {
                &&& selected.len() >= chosen.len()
                &&& selected.take(chosen.len() as int) == chosen
                &&& forall|k: int|
                    0 <= k < selected.len() ==> 0 <= #[trigger] selected[k] < index.len()
                &&& forall|i: int|
                    0 <= i < pending.len() ==> satisfied(index, selected, #[trigger] pending[i])
                &&& closed_from(index, selected, chosen.len() as int)
                &&& one_version_each(index, selected)
            },
            None => true,
        },
    decreases fuel, 0nat, pending.len(),
{
    if pending.len() == 0 {
        assert(chosen.take(chosen.len() as int) == chosen);
    } else {
        let req = pending[0];
        let rest = pending.skip(1);
        lemma_chosen_named(index, chosen, req.name);
        match chosen_named(index, chosen, req.name) {
            Some(e) => {
                if meets(index, e, req) {
                    law_search_is_sound(index, rest, chosen, fuel);
                    match search(index, rest, chosen, fuel) {
                        Some(selected) => {
                            let k = choose|k: int| 0 <= k < chosen.len() && #[trigger] chosen[k] == e;
                            assert(selected.take(chosen.len() as int)[k] == selected[k]);
                            assert(meets(index, selected[k], req));
                            assert forall|i: int| 0 <= i < pending.len() implies satisfied(
                                index,
                                selected,
                                #[trigger] pending[i],
                            ) by {
                                if i > 0 {
                                    assert(rest[i - 1] == pending[i]);
                                }
                            }
                        },
                        None => {},
                    }
                }
            },
            None => {
                if fuel > 0 {
                    let cands = candidates_upto(index, req, index.len() as int);
                    lemma_candidates_meet(index, req, index.len() as int);
                    lemma_ranked_members(index, cands);
                    lemma_try_each_is_sound(
                        index,
                        req,
                        rest,
                        chosen,
                        (fuel - 1) as nat,
                        ranked(index, cands),
                        0,
                    );
                    match search(index, pending, chosen, fuel) {
                        Some(selected) => {
                            assert forall|i: int| 0 <= i < pending.len() implies satisfied(
                                index,
                                selected,
                                #[trigger] pending[i],
                            ) by {
                                if i > 0 {
                                    assert(rest[i - 1] == pending[i]);
                                }
                            }
                        },
                        None => {},
                    }
                }
            },
        }
    }
}

proof fn lemma_try_each_is_sound(
    index: Seq<EntryView>,
    req: DependencyView,
    rest: Seq<DependencyView>,
    chosen: Seq<int>,
    fuel: nat,
    order: Seq<int>,
    k: int,
)
    requires
        one_version_each(index, chosen),
        forall|i: int| 0 <= i < chosen.len() ==> 0 <= #[trigger] chosen[i] < index.len(),
        forall|i: int| 0 <= i < order.len() ==> meets(index, #[trigger] order[i], req),
        forall|i: int|
            0 <= i < chosen.len() && 0 <= #[trigger] chosen[i] < index.len()
                ==> index[chosen[i]].id.name != req.name,
        0 <= k,
    ensures
        match try_each(index, rest, chosen, fuel, order, k) {
            Some(selected) => {
                &&& selected.len() >= chosen.len()
                &&& selected.take(chosen.len() as int) == chosen
                &&& forall|i: int|
                    0 <= i < selected.len() ==> 0 <= #[trigger] selected[i] < index.len()
                &&& satisfied(index, selected, req)
                &&& forall|i: int|
                    0 <= i < rest.len() ==> satisfied(index, selected, #[trigger] rest[i])
                &&& closed_from(index, selected, chosen.len() as int)
                &&& one_version_each(index, selected)
            },
            None => true,
        },
    decreases fuel, 1nat, order.len() - k,
{
    if k < order.len() {
        let e = order[k];
        assert(meets(index, e, req));
        let more = index[e].dependencies;
        let next = chosen.push(e);
        assert forall|i: int, j: int|
            0 <= i < j < next.len() && 0 <= next[i] < index.len() && 0 <= next[j]
                < index.len() implies index[#[trigger] next[i]].id.name != index[
        #[trigger] next[j]].id.name by {
            if j < chosen.len() {
                assert(next[i] == chosen[i] && next[j] == chosen[j]);
            } else {
                assert(next[i] == chosen[i]);
            }
        }
        law_search_is_sound(index, rest + more, next, fuel);
        match search(index, rest + more, next, fuel) {
            Some(selected) => {
                let n = chosen.len() as int;
                assert(selected.take(n + 1) == next);
                assert(selected.take(n) == chosen) by {
                    assert forall|i: int| 0 <= i < n implies selected.take(n)[i] == chosen[i] by {
                        assert(selected.take(n + 1)[i] == next[i]);
                    }
                }
                assert(selected[n] == e) by {
                    assert(selected.take(n + 1)[n] == next[n]);
                }
                assert(satisfied(index, selected, req));
                assert forall|i: int| 0 <= i < rest.len() implies satisfied(
                    index,
                    selected,
                    #[trigger] rest[i],
                ) by {
                    assert((rest + more)[i] == rest[i]);
                }
                assert forall|a: int, d: int|
                    n <= a < selected.len() && 0 <= selected[a] < index.len() && 0 <= d
                        < index[selected[a]].dependencies.len() implies satisfied(
                    index,
                    selected,
                    #[trigger] index[selected[a]].dependencies[d],
                ) by {
                    if a == n {
                        assert((rest + more)[rest.len() + d] == more[d]);
                    }
                }
            },
            None => {
                lemma_try_each_is_sound(index, req, rest, chosen, fuel, order, k + 1);
            },
        }
    }
}

/// Whether the selection answers the requirements: it selects entries of
/// the index, no package in two versions; every requirement is met by a
/// selected entry; and so is every dependency of every selected entry.
pub open spec fn answers(
    index: Seq<EntryView>,
    roots: Seq<DependencyView>,
    selected: Seq<int>,
) -> bool {
    &&& forall|k: int| 0 <= k < selected.len() ==> 0 <= #[trigger] selected[k] < index.len()
    &&& one_version_each(index, selected)
    &&& forall|i: int| 0 <= i < roots.len() ==> satisfied(index, selected, #[trigger] roots[i])
    &&& closed_from(index, selected, 0)
}

/// Every entry below `n` that meets the requirement is a candidate.
proof fn lemma_candidates_complete(index: Seq<EntryView>, req: DependencyView, n: int, e: int)
    requires
        0 <= e < n,
        meets(index, e, req),
    ensures
        candidates_upto(index, req, n).contains(e),
    decreases n,
{
    let before = candidates_upto(index, req, n - 1);
    if e == n - 1 {
        assert(before.push(e)[before.len() as int] == e);
    } else {
        lemma_candidates_complete(index, req, n - 1, e);
        let i = choose|i: int| 0 <= i < before.len() && before[i] == e;
        if meets(index, n - 1, req) {
            assert(before.push(n - 1)[i] == e);
        }
    }
}

/// Ranking loses no candidate.
proof fn lemma_ranked_complete(index: Seq<EntryView>, cands: Seq<int>, x: int)
    requires
        cands.contains(x),
    ensures
        ranked(index, cands).contains(x),
    decreases cands.len(),
{
    lemma_highest_bounds(index, cands, cands.len() as int);
    let best = highest_upto(index, cands, cands.len() as int);
    let rest = cands.remove(best);
    let out = ranked(index, cands);
    if cands[best] == x {
        assert(out[0] == x);
    } else {
        let i = choose|i: int| 0 <= i < cands.len() && cands[i] == x;
        if i < best {
            assert(rest[i] == x);
        } else {
            assert(rest[i - 1] == x);
        }
        lemma_ranked_complete(index, rest, x);
        let j = choose|j: int| 0 <= j < ranked(index, rest).len() && ranked(index, rest)[j] == x;
        assert(out[j + 1] == x);
    }
}

/// A sequence without repetitions whose items all occur in another is no
/// longer than the other.
proof fn lemma_contained_len(a: Seq<int>, b: Seq<int>)
    requires
        a.no_duplicates(),
        forall|k: int| 0 <= k < a.len() ==> b.contains(#[trigger] a[k]),
    ensures
        a.len() <= b.len(),
{
    broadcast use vstd::seq_lib::seq_to_set_is_finite;

    a.unique_seq_to_set();
    b.lemma_cardinality_of_set();
    assert(a.to_set().subset_of(b.to_set())) by {
        assert forall|x: int| a.to_set().contains(x) implies b.to_set().contains(x) by {
            let k = choose|k: int| 0 <= k < a.len() && a[k] == x;
            assert(b.contains(a[k]));
        }
    }
    vstd::set_lib::lemma_len_subset(a.to_set(), b.to_set());
}

/// Entries of the index of which no two have the same name stand at
/// different positions.
proof fn lemma_names_differ(index: Seq<EntryView>, selected: Seq<int>)
    requires
        one_version_each(index, selected),
        forall|k: int| 0 <= k < selected.len() ==> 0 <= #[trigger] selected[k] < index.len(),
    ensures
        selected.no_duplicates(),
{
    assert forall|i: int, j: int|
        0 <= i < selected.len() && 0 <= j < selected.len() && i != j implies selected[i]
        != selected[j] by {
        if i < j {
            assert(index[selected[i]].id.name != index[selected[j]].id.name);
        } else {
            assert(index[selected[j]].id.name != index[selected[i]].id.name);
        }
    }
}

/// With one more entry of another name, still no two have the same name.
proof fn lemma_one_more_name(index: Seq<EntryView>, chosen: Seq<int>, e: int)
    requires
        one_version_each(index, chosen),
        0 <= e < index.len(),
        forall|i: int|
            0 <= i < chosen.len() && 0 <= #[trigger] chosen[i] < index.len()
                ==> index[chosen[i]].id.name != index[e].id.name,
    ensures
        one_version_each(index, chosen.push(e)),
{
    let next = chosen.push(e);
    assert forall|i: int, j: int|
        0 <= i < j < next.len() && 0 <= next[i] < index.len() && 0 <= next[j]
            < index.len() implies index[#[trigger] next[i]].id.name != index[
    #[trigger] next[j]].id.name by {
        if j < chosen.len() {
            assert(next[i] == chosen[i] && next[j] == chosen[j]);
        } else {
            assert(next[i] == chosen[i]);
        }
    }
}

/// The search finds a selection whenever an answer exists that holds what
/// was chosen so far and that the fuel can reach.
proof fn lemma_search_finds(
    index: Seq<EntryView>,
    pending: Seq<DependencyView>,
    chosen: Seq<int>,
    fuel: nat,
    goal: Seq<int>,
)
    requires
        answers(index, pending, goal),
        one_version_each(index, chosen),
        forall|k: int| 0 <= k < chosen.len() ==> goal.contains(#[trigger] chosen[k]),
        fuel + chosen.len() >= goal.len(),
    ensures
        search(index, pending, chosen, fuel) is Some,
    decreases fuel, 0nat, pending.len(),
{
    if pending.len() > 0 {
        let req = pending[0];
        let rest = pending.skip(1);
        assert forall|i: int| 0 <= i < rest.len() implies satisfied(
            index,
            goal,
            #[trigger] rest[i],
        ) by {
            assert(rest[i] == pending[i + 1]);
        }
        assert(satisfied(index, goal, req));
        let a = choose|a: int| 0 <= a < goal.len() && meets(index, #[trigger] goal[a], req);
        let s = goal[a];
        assert forall|k: int| 0 <= k < chosen.len() implies 0 <= #[trigger] chosen[k]
            < index.len() by {
            let b = choose|b: int| 0 <= b < goal.len() && goal[b] == chosen[k];
            assert(0 <= goal[b] < index.len());
        }
        lemma_chosen_named(index, chosen, req.name);
        match chosen_named(index, chosen, req.name) {
            Some(e) => {
                let k = choose|k: int| 0 <= k < chosen.len() && #[trigger] chosen[k] == e;
                assert(goal.contains(chosen[k]));
                let b = choose|b: int| 0 <= b < goal.len() && goal[b] == e;
                if a < b {
                    assert(index[goal[a]].id.name != index[goal[b]].id.name);
                } else if b < a {
                    assert(index[goal[b]].id.name != index[goal[a]].id.name);
                }
                assert(e == s);
                lemma_search_finds(index, rest, chosen, fuel, goal);
            },
            None => {
                let next = chosen.push(s);
                lemma_one_more_name(index, chosen, s);
                lemma_names_differ(index, next);
                assert forall|k: int| 0 <= k < next.len() implies goal.contains(
                    #[trigger] next[k],
                ) by {
                    if k < chosen.len() {
                        assert(next[k] == chosen[k]);
                    } else {
                        assert(goal[a] == next[k]);
                    }
                }
                lemma_contained_len(next, goal);
                let cands = candidates_upto(index, req, index.len() as int);
                lemma_candidates_complete(index, req, index.len() as int, s);
                lemma_ranked_complete(index, cands, s);
                let order = ranked(index, cands);
                let pos = choose|pos: int| 0 <= pos < order.len() && order[pos] == s;
                lemma_try_each_finds(index, rest, chosen, (fuel - 1) as nat, order, 0, pos, goal);
            },
        }
    }
}

/// Trying the candidates in turn finds a selection when one of those still
/// to be tried stands in an answer that holds what was chosen so far.
proof fn lemma_try_each_finds(
    index: Seq<EntryView>,
    rest: Seq<DependencyView>,
    chosen: Seq<int>,
    fuel: nat,
    order: Seq<int>,
    k: int,
    pos: int,
    goal: Seq<int>,
)
    requires
        answers(index, rest, goal),
        one_version_each(index, chosen),
        forall|i: int| 0 <= i < chosen.len() ==> goal.contains(#[trigger] chosen[i]),
        0 <= k <= pos < order.len(),
        goal.contains(order[pos]),
        forall|i: int|
            0 <= i < chosen.len() && 0 <= #[trigger] chosen[i] < index.len()
                ==> index[chosen[i]].id.name != index[order[pos]].id.name,
        fuel + chosen.len() + 1 >= goal.len(),
    ensures
        try_each(index, rest, chosen, fuel, order, k) is Some,
    decreases fuel, 1nat, order.len() - k,
{
    let e = order[k];
    let more = if 0 <= e < index.len() {
        index[e].dependencies
    } else {
        Seq::<DependencyView>::empty()
    };
    if search(index, rest + more, chosen.push(e), fuel) is None {
        if k == pos {
            let b = choose|b: int| 0 <= b < goal.len() && goal[b] == e;
            assert(0 <= goal[b] < index.len());
            let next = chosen.push(e);
            lemma_one_more_name(index, chosen, e);
            assert forall|i: int| 0 <= i < next.len() implies goal.contains(
                #[trigger] next[i],
            ) by {
                if i < chosen.len() {
                    assert(next[i] == chosen[i]);
                }
            }
            assert forall|i: int| 0 <= i < (rest + more).len() implies satisfied(
                index,
                goal,
                #[trigger] (rest + more)[i],
            ) by {
                if i < rest.len() {
                    assert((rest + more)[i] == rest[i]);
                } else {
                    let d = i - rest.len();
                    assert((rest + more)[i] == index[goal[b]].dependencies[d]);
                }
            }
            lemma_search_finds(index, rest + more, next, fuel, goal);
        } else {
            lemma_try_each_finds(index, rest, chosen, fuel, order, k + 1, pos, goal);
        }
    }
}

/// A requirement that an entry of the index meets names a package that the
/// index has.
proof fn lemma_answered_names_are_known(
    index: Seq<EntryView>,
    roots: Seq<DependencyView>,
    goal: Seq<int>,
)
    requires
        forall|i: int| 0 <= i < roots.len() ==> satisfied(index, goal, #[trigger] roots[i]),
    ensures
        first_unknown(index, roots) is None,
    decreases roots.len(),
{
    if roots.len() > 0 {
        assert(satisfied(index, goal, roots[0]));
        let a = choose|a: int| 0 <= a < goal.len() && meets(index, #[trigger] goal[a], roots[0]);
        assert(index[goal[a]].id.name == roots[0].name);
        let rest = roots.skip(1);
        assert forall|i: int| 0 <= i < rest.len() implies satisfied(
            index,
            goal,
            #[trigger] rest[i],
        ) by {
            assert(rest[i] == roots[i + 1]);
        }
        lemma_answered_names_are_known(index, rest, goal);
    }
}

/// The search is complete. Whenever some selection answers the
/// requirements, every required package is known and the search, with one
/// choice allowed for each entry of the index, finds a selection.
pub proof fn law_search_is_complete(
    index: Seq<EntryView>,
    roots: Seq<DependencyView>,
    goal: Seq<int>,
)
    requires
        answers(index, roots, goal),
    ensures
        first_unknown(index, roots) is None,
        search(index, roots, Seq::<int>::empty(), index.len()) is Some,
{
    lemma_answered_names_are_known(index, roots, goal);
    lemma_names_differ(index, goal);
    let all = Seq::new(index.len(), |i: int| i);
    assert forall|k: int| 0 <= k < goal.len() implies all.contains(#[trigger] goal[k]) by {
        assert(all[goal[k]] == goal[k]);
    }
    lemma_contained_len(goal, all);
    lemma_search_finds(index, roots, Seq::<int>::empty(), index.len(), goal);
}

/// A pinned package is selected: when the search for pins and requirements
/// succeeds, each local package is among the selected entries, in exactly
/// its version.
pub proof fn law_pinned_package_is_selected(
    index: Seq<EntryView>,
    local: Seq<PackageIdView>,
    requirements: Seq<DependencyView>,
    i: int,
)
    requires
        0 <= i < local.len(),
        search(index, roots_of(local, requirements), Seq::<int>::empty(), index.len()) is Some,
    ensures
        ({
            let selected = search(
                index,
                roots_of(local, requirements),
                Seq::<int>::empty(),
                index.len(),
            )->Some_0;
            exists|k: int|
                0 <= k < selected.len() && 0 <= #[trigger] selected[k] < index.len()
                    && index[selected[k]].id == local[i]
        }),
{
    let roots = roots_of(local, requirements);
    let selected = search(index, roots, Seq::<int>::empty(), index.len())->Some_0;
    law_search_is_sound(index, roots, Seq::<int>::empty(), index.len());
    assert(roots[i] == pin_of(local[i]));
    assert(satisfied(index, selected, roots[i]));
    let k = choose|k: int| 0 <= k < selected.len() && meets(index, #[trigger] selected[k], roots[i]);
    assert(crate::version::constraint_matches(roots[i].spec[0], index[selected[k]].id.version));
}

/// What the search finds answers the requirements.
pub proof fn law_found_selection_answers(index: Seq<EntryView>, roots: Seq<DependencyView>)
    ensures
        match search(index, roots, Seq::<int>::empty(), index.len()) {
            Some(selected) => answers(index, roots, selected),
            None => true,
        },
{
    law_search_is_sound(index, roots, Seq::<int>::empty(), index.len());
}

/// The positions of a vector as numbers.
pub open spec fn positions(v: Seq<usize>) -> Seq<int> {
    Seq::new(v.len(), |i: int| v[i] as int)
}

/// A result of the search as numbers.
pub open spec fn found_positions(r: Option<Vec<usize>>) -> Option<Seq<int>> {
    match r {
        Some(v) => Some(positions(v@)),
        None => None,
    }
}

/// A pending requirement: the requirement number `number` of the request,
/// or dependency number `number` of the index entry at `entry`.
#[derive(Clone, Copy, Debug, PartialEq, Eq, Structural)]
pub struct PendingRef {
    pub entry: Option<usize>,
    pub number: usize,
}

/// Whether a pending requirement points to a requirement that is there.
pub open spec fn ref_ok(index: Seq<IndexEntry>, roots: Seq<Dependency>, r: PendingRef) -> bool {
    match r.entry {
        Some(e) => e < index.len() && r.number < index[e as int].dependencies@.len(),
        None => r.number < roots.len(),
    }
}

/// The requirement that a pending requirement points to.
pub open spec fn ref_view(index: Seq<IndexEntry>, roots: Seq<Dependency>, r: PendingRef) -> DependencyView {
    match r.entry {
        Some(e) => index[e as int].dependencies@[r.number as int]@,
        None => roots[r.number as int]@,
    }
}

/// The requirements that pending requirements point to.
pub open spec fn ref_views(
    index: Seq<IndexEntry>,
    roots: Seq<Dependency>,
    refs: Seq<PendingRef>,
) -> Seq<DependencyView> {
    Seq::new(refs.len(), |i: int| ref_view(index, roots, refs[i]))
}

fn requirement<'a>(index: &'a Vec<IndexEntry>, roots: &'a Vec<Dependency>, r: PendingRef) -> (d: &'a
    Dependency)
    requires
        ref_ok(index@, roots@, r),
    ensures
        d@ == ref_view(index@, roots@, r),
{
    match r.entry {
        Some(e) => &index[e].dependencies[r.number],
        None => &roots[r.number],
    }
}

fn find_chosen(index: &Vec<IndexEntry>, chosen: &Vec<usize>, name: &str) -> (r: Option<usize>)
    requires
        forall|k: int| 0 <= k < chosen@.len() ==> #[trigger] chosen@[k] < index@.len(),
    ensures
        match r {
            Some(e) => e < index@.len() && chosen_named(
                index_views(index@),
                positions(chosen@),
                name@,
            ) == Some(e as int),
            None => chosen_named(index_views(index@), positions(chosen@), name@) is None,
        },
{
    let ghost iv = index_views(index@);
    let ghost all = positions(chosen@);
    let mut i: usize = 0;
    assert(all.skip(0) == all);
    while i < chosen.len()
        invariant
            i <= chosen.len(),
            iv == index_views(index@),
            all == positions(chosen@),
            forall|k: int| 0 <= k < chosen@.len() ==> #[trigger] chosen@[k] < index@.len(),
            chosen_named(iv, all, name@) == chosen_named(iv, all.skip(i as int), name@),
        decreases chosen.len() - i,
    {
        assert(all.skip(i as int).skip(1) == all.skip(i + 1));
        assert(all.skip(i as int)[0] == chosen@[i as int]);
        let e = chosen[i];
        assert(iv[e as int] == index@[e as int]@);
        if same_text(index[e].id.name.as_str(), name) {
            return Some(e);
        }
        i += 1;
    }
    None
}

fn find_candidates(index: &Vec<IndexEntry>, req: &Dependency) -> (out: Vec<usize>)
    ensures
        positions(out@) == candidates_upto(index_views(index@), req@, index@.len() as int),
        forall|k: int| 0 <= k < out@.len() ==> #[trigger] out@[k] < index@.len(),
{
    let ghost iv = index_views(index@);
    let mut out: Vec<usize> = Vec::new();
    let mut i: usize = 0;
    assert(positions(out@) == candidates_upto(iv, req@, 0));
    while i < index.len()
        invariant
            i <= index.len(),
            iv == index_views(index@),
            positions(out@) == candidates_upto(iv, req@, i as int),
            forall|k: int| 0 <= k < out@.len() ==> #[trigger] out@[k] < index@.len(),
        decreases index.len() - i,
    {
        assert(iv[i as int] == index@[i as int]@);
        if same_text(index[i].id.name.as_str(), req.name.as_str()) && req.spec.matches(
            &index[i].id.version,
        ) {
            let ghost before = out@;
            out.push(i);
            assert(positions(out@) == positions(before).push(i as int));
        }
        i += 1;
    }
    out
}

fn rank_candidates(index: &Vec<IndexEntry>, cands: Vec<usize>) -> (out: Vec<usize>)
    requires
        forall|k: int| 0 <= k < cands@.len() ==> #[trigger] cands@[k] < index@.len(),
    ensures
        positions(out@) == ranked(index_views(index@), positions(cands@)),
        forall|k: int| 0 <= k < out@.len() ==> #[trigger] out@[k] < index@.len(),
{
    let ghost iv = index_views(index@);
    let ghost goal = ranked(iv, positions(cands@));
    let mut left = cands;
    let mut out: Vec<usize> = Vec::new();
    assert(positions(out@) + ranked(iv, positions(left@)) == goal);
    while left.len() > 0
        invariant
            iv == index_views(index@),
            forall|k: int| 0 <= k < left@.len() ==> #[trigger] left@[k] < index@.len(),
            forall|k: int| 0 <= k < out@.len() ==> #[trigger] out@[k] < index@.len(),
            positions(out@) + ranked(iv, positions(left@)) == goal,
        decreases left.len(),
    {
        let ghost all = positions(left@);
        let mut best: usize = 0;
        let mut n: usize = 1;
        while n < left.len()
            invariant
                1 <= n <= left.len(),
                best < n,
                iv == index_views(index@),
                all == positions(left@),
                forall|k: int| 0 <= k < left@.len() ==> #[trigger] left@[k] < index@.len(),
                best == highest_upto(iv, all, n as int),
            decreases left.len() - n,
        {
            assert(iv[left@[n as int] as int] == index@[left@[n as int] as int]@);
            assert(iv[left@[best as int] as int] == index@[left@[best as int] as int]@);
            if index[left[n]].id.version.precedence(&index[left[best]].id.version) > 0 {
                best = n;
            }
            n += 1;
        }
        let ghost before = out@;
        let ghost left_before = left@;
        let picked = left.remove(best);
        out.push(picked);
        proof {
            assert(positions(left@) == all.remove(best as int));
            assert(positions(out@) == positions(before).push(picked as int));
            assert(ranked(iv, all) == seq![all[best as int]] + ranked(iv, all.remove(best as int)));
            assert(positions(before) + (seq![all[best as int]] + ranked(
                iv,
                all.remove(best as int),
            )) == positions(before).push(picked as int) + ranked(iv, all.remove(best as int)));
        }
    }
    proof {
        assert(positions(left@) == Seq::<int>::empty());
        assert(positions(out@) + Seq::<int>::empty() == positions(out@));
    }
    out
}

fn search_from(
    index: &Vec<IndexEntry>,
    roots: &Vec<Dependency>,
    pending: &Vec<PendingRef>,
    start: usize,
    chosen: &Vec<usize>,
    fuel: usize,
) -> (r: Option<Vec<usize>>)
    requires
        start <= pending@.len(),
        forall|k: int| 0 <= k < pending@.len() ==> ref_ok(index@, roots@, #[trigger] pending@[k]),
        forall|k: int| 0 <= k < chosen@.len() ==> #[trigger] chosen@[k] < index@.len(),
    ensures
        found_positions(r) == search(
            index_views(index@),
            ref_views(index@, roots@, pending@).skip(start as int),
            positions(chosen@),
            fuel as nat,
        ),
    decreases fuel, 0nat, pending@.len() - start,
{
    let ghost iv = index_views(index@);
    let ghost reqs = ref_views(index@, roots@, pending@);
    if start == pending.len() {
        let out = chosen.clone();
        assert(positions(out@) == positions(chosen@));
        return Some(out);
    }
    let req = requirement(index, roots, pending[start]);
    assert(reqs.skip(start as int)[0] == req@);
    assert(reqs.skip(start as int).skip(1) == reqs.skip(start + 1));
    proof {
        lemma_chosen_named(iv, positions(chosen@), req@.name);
    }
    match find_chosen(index, chosen, req.name.as_str()) {
        Some(e) => {
            assert(iv[e as int] == index@[e as int]@);
            if req.spec.matches(&index[e].id.version) {
                search_from(index, roots, pending, start + 1, chosen, fuel)
            } else {
                None
            }
        },
        None => {
            if fuel == 0 {
                return None;
            }
            let order = rank_candidates(index, find_candidates(index, req));
            let mut rest: Vec<PendingRef> = Vec::new();
            let mut i: usize = start + 1;
            assert(ref_views(index@, roots@, rest@) == reqs.subrange(start + 1, start + 1));
            while i < pending.len()
                invariant
                    start + 1 <= i <= pending.len(),
                    reqs == ref_views(index@, roots@, pending@),
                    forall|k: int|
                        0 <= k < pending@.len() ==> ref_ok(index@, roots@, #[trigger] pending@[k]),
                    forall|k: int| 0 <= k < rest@.len() ==> ref_ok(index@, roots@, #[trigger] rest@[k]),
                    ref_views(index@, roots@, rest@) == reqs.subrange(start + 1, i as int),
                decreases pending.len() - i,
            {
                let ghost before = rest@;
                rest.push(pending[i]);
                assert(ref_views(index@, roots@, rest@) == ref_views(index@, roots@, before).push(
                    reqs[i as int],
                ));
                i += 1;
            }
            assert(reqs.subrange(start + 1, pending@.len() as int) == reqs.skip(start + 1));
            try_from(index, roots, &rest, chosen, fuel - 1, &order, 0)
        },
    }
}

fn try_from(
    index: &Vec<IndexEntry>,
    roots: &Vec<Dependency>,
    rest: &Vec<PendingRef>,
    chosen: &Vec<usize>,
    fuel: usize,
    order: &Vec<usize>,
    k: usize,
) -> (r: Option<Vec<usize>>)
    requires
        forall|i: int| 0 <= i < rest@.len() ==> ref_ok(index@, roots@, #[trigger] rest@[i]),
        forall|i: int| 0 <= i < chosen@.len() ==> #[trigger] chosen@[i] < index@.len(),
        forall|i: int| 0 <= i < order@.len() ==> #[trigger] order@[i] < index@.len(),
    ensures
        found_positions(r) == try_each(
            index_views(index@),
            ref_views(index@, roots@, rest@),
            positions(chosen@),
            fuel as nat,
            positions(order@),
            k as int,
        ),
    decreases fuel, 1nat, order@.len() - k,
{
    if k >= order.len() {
        return None;
    }
    let ghost iv = index_views(index@);
    let e = order[k];
    assert(iv[e as int] == index@[e as int]@);
    let mut pending: Vec<PendingRef> = rest.clone();
    let deps = &index[e].dependencies;
    let ghost base = ref_views(index@, roots@, rest@);
    let mut d: usize = 0;
    assert(pending@ == rest@);
    assert(base + dependency_views(deps@).take(0) == base);
    while d < deps.len()
        invariant
            d <= deps.len(),
            e < index@.len(),
            deps@ == index@[e as int].dependencies@,
            forall|i: int| 0 <= i < pending@.len() ==> ref_ok(index@, roots@, #[trigger] pending@[i]),
            ref_views(index@, roots@, pending@) == base + dependency_views(deps@).take(d as int),
        decreases deps.len() - d,
    {
        let ghost before = pending@;
        let r = PendingRef { entry: Some(e), number: d };
        pending.push(r);
        assert(ref_views(index@, roots@, pending@) == ref_views(index@, roots@, before).push(
            deps@[d as int]@,
        ));
        assert(dependency_views(deps@).take(d + 1) == dependency_views(deps@).take(d as int).push(
            deps@[d as int]@,
        ));
        d += 1;
    }
    assert(dependency_views(deps@).take(deps@.len() as int) == dependency_views(deps@));
    let mut next = chosen.clone();
    next.push(e);
    assert(positions(next@) == positions(chosen@).push(e as int));
    match search_from(index, roots, &pending, 0, &next, fuel) {
        Some(found) => {
            assert(ref_views(index@, roots@, pending@).skip(0) == ref_views(
                index@,
                roots@,
                pending@,
            ));
            Some(found)
        },
        None => {
            assert(ref_views(index@, roots@, pending@).skip(0) == ref_views(
                index@,
                roots@,
                pending@,
            ));
            try_from(index, roots, rest, chosen, fuel, order, k + 1)
        },
    }
}

/// Whether the index has a package called `name`.
pub open spec fn is_known(index: Seq<EntryView>, name: Seq<char>) -> bool {
    exists|e: int| 0 <= e < index.len() && (#[trigger] index[e]).id.name == name
}

/// The name of the first requirement for a package that the index does not
/// have.
pub open spec fn first_unknown(index: Seq<EntryView>, roots: Seq<DependencyView>) -> Option<
    Seq<char>,
>
    decreases roots.len(),
{
    if roots.len() == 0 {
        None
    } else if !is_known(index, roots[0].name) {
        Some(roots[0].name)
    } else {
        first_unknown(index, roots.skip(1))
    }
}

/// The packages at the given positions of the index.
pub open spec fn packages_at(index: Seq<EntryView>, at: Seq<int>) -> Seq<PackageIdView> {
    Seq::new(at.len(), |i: int| index[at[i]].id)
}

fn knows(index: &Vec<IndexEntry>, name: &str) -> (r: bool)
    ensures
        r == is_known(index_views(index@), name@),
{
    let mut i: usize = 0;
    while i < index.len()
        invariant
            i <= index.len(),
            forall|k: int| 0 <= k < i ==> (#[trigger] index_views(index@)[k]).id.name != name@,
        decreases index.len() - i,
    {
        if same_text(index[i].id.name.as_str(), name) {
            assert(index_views(index@)[i as int].id.name == name@);
            return true;
        }
        i += 1;
    }
    false
}

/// Selects the index entries that meet the requirements. A requirement
/// for a package that the index does not have is reported first; else the
/// result is that of the search, which may make one choice for each entry
/// of the index: the positions of the chosen entries in the order in which
/// they were chosen, or the report that the requirements conflict.
pub fn select(index: &Vec<IndexEntry>, requirements: &Vec<Dependency>) -> (r: Result<
    Vec<usize>,
    ResolutionError,
>)
    ensures
        match first_unknown(index_views(index@), dependency_views(requirements@)) {
            Some(name) => r matches Err(ResolutionError::UnknownPackage { name: n }) && n@ == name,
            None => match search(
                index_views(index@),
                dependency_views(requirements@),
                Seq::<int>::empty(),
                index@.len() as nat,
            ) {
                Some(selected) => r matches Ok(found) && positions(found@) == selected
                    && forall|k: int| 0 <= k < found@.len() ==> #[trigger] found@[k] < index@.len(),
                None => r matches Err(ResolutionError::ConflictingConstraints),
            },
        },
{
    let ghost iv = index_views(index@);
    let ghost roots = dependency_views(requirements@);
    let mut i: usize = 0;
    assert(roots.skip(0) == roots);
    while i < requirements.len()
        invariant
            i <= requirements.len(),
            iv == index_views(index@),
            roots == dependency_views(requirements@),
            first_unknown(iv, roots) == first_unknown(iv, roots.skip(i as int)),
        decreases requirements.len() - i,
    {
        assert(roots.skip(i as int).skip(1) == roots.skip(i + 1));
        assert(roots.skip(i as int)[0] == requirements@[i as int]@);
        if !knows(index, requirements[i].name.as_str()) {
            return Err(ResolutionError::UnknownPackage { name: requirements[i].name.clone() });
        }
        i += 1;
    }
    let mut pending: Vec<PendingRef> = Vec::new();
    let mut k: usize = 0;
    assert(ref_views(index@, requirements@, pending@) == roots.take(0));
    while k < requirements.len()
        invariant
            k <= requirements.len(),
            roots == dependency_views(requirements@),
            forall|j: int|
                0 <= j < pending@.len() ==> ref_ok(index@, requirements@, #[trigger] pending@[j]),
            ref_views(index@, requirements@, pending@) == roots.take(k as int),
        decreases requirements.len() - k,
    {
        let ghost before = pending@;
        pending.push(PendingRef { entry: None, number: k });
        assert(ref_views(index@, requirements@, pending@) == ref_views(
            index@,
            requirements@,
            before,
        ).push(roots[k as int]));
        assert(roots.take(k + 1) == roots.take(k as int).push(roots[k as int]));
        k += 1;
    }
    assert(roots.take(requirements@.len() as int) == roots);
    assert(roots.skip(0) == roots);
    let chosen: Vec<usize> = Vec::new();
    assert(positions(chosen@) == Seq::<int>::empty());
    match search_from(index, requirements, &pending, 0, &chosen, index.len()) {
        None => Err(ResolutionError::ConflictingConstraints),
        Some(selected) => {
            proof {
                law_search_is_sound(iv, roots, Seq::<int>::empty(), index@.len() as nat);
                assert forall|x: int| 0 <= x < selected@.len() implies #[trigger] selected@[x]
                    < index@.len() by {
                    assert(positions(selected@)[x] == selected@[x]);
                }
            }
            Ok(selected)
        },
    }
}

/// The packages at the given positions of the index.
fn packages_of(index: &Vec<IndexEntry>, selected: &Vec<usize>) -> (packages: Vec<PackageId>)
    requires
        forall|k: int| 0 <= k < selected@.len() ==> #[trigger] selected@[k] < index@.len(),
    ensures
        ids(packages@) == packages_at(index_views(index@), positions(selected@)),
{
    let ghost iv = index_views(index@);
    let ghost at = positions(selected@);
    let mut packages: Vec<PackageId> = Vec::new();
    let mut j: usize = 0;
    assert(ids(packages@) == packages_at(iv, at.take(0)));
    while j < selected.len()
        invariant
            j <= selected.len(),
            iv == index_views(index@),
            at == positions(selected@),
            forall|k: int| 0 <= k < selected@.len() ==> #[trigger] selected@[k] < index@.len(),
            ids(packages@) == packages_at(iv, at.take(j as int)),
        decreases selected.len() - j,
    {
        let e = selected[j];
        let ghost before = packages@;
        packages.push(index[e].id.clone());
        assert(ids(packages@) == ids(before).push(index@[e as int].id@));
        assert(packages_at(iv, at.take(j + 1)) == packages_at(iv, at.take(j as int)).push(
            iv[at[j as int]].id,
        ));
        j += 1;
    }
    assert(at.take(selected@.len() as int) == at);
    packages
}

/// Resolves the requirements against the index: the packages that `select`
/// chooses, in the order in which they were chosen.
pub fn resolve(index: &Vec<IndexEntry>, requirements: &Vec<Dependency>) -> (r: Result<
    Vec<PackageId>,
    ResolutionError,
>)
    ensures
        match first_unknown(index_views(index@), dependency_views(requirements@)) {
            Some(name) => r matches Err(ResolutionError::UnknownPackage { name: n }) && n@ == name,
            None => match search(
                index_views(index@),
                dependency_views(requirements@),
                Seq::<int>::empty(),
                index@.len() as nat,
            ) {
                Some(selected) => r matches Ok(packages) && ids(packages@) == packages_at(
                    index_views(index@),
                    selected,
                ),
                None => r matches Err(ResolutionError::ConflictingConstraints),
            },
        },
{
    match select(index, requirements) {
        Ok(selected) => Ok(packages_of(index, &selected)),
        Err(e) => Err(e),
    }
}

/// Whether the entry at position `e` has a dependency on a package called
/// `name`.
pub open spec fn depends_on(index: Seq<EntryView>, e: int, name: Seq<char>) -> bool {
    0 <= e < index.len() && exists|d: int|
        0 <= d < index[e].dependencies.len() && (#[trigger] index[e].dependencies[d]).name == name
}

/// The test "depends on a package called `name`".
pub open spec fn is_dependent(index: Seq<EntryView>, name: Seq<char>) -> spec_fn(int) -> bool {
    |e: int| depends_on(index, e, name)
}

/// The selected packages that depend on the package at position `f`.
pub open spec fn dependents(index: Seq<EntryView>, selected: Seq<int>, f: int) -> Seq<
    PackageIdView,
> {
    packages_at(index, selected.filter(is_dependent(index, index[f].id.name)))
}

/// The edges of the graph of the selected packages: for each, in order, the
/// edges from it to the selected packages that depend on it.
pub open spec fn planned_edges(index: Seq<EntryView>, selected: Seq<int>) -> Seq<
    crate::graph::EdgeView,
> {
    Seq::new(
        selected.len(),
        |i: int|
            crate::graph::EdgeView {
                from: index[selected[i]].id,
                to: dependents(index, selected, selected[i]),
            },
    )
}

/// The batches in which the selected packages can be installed.
pub open spec fn planned_batches(index: Seq<EntryView>, selected: Seq<int>) -> Seq<
    Seq<PackageIdView>,
> {
    crate::execution::layers(
        planned_edges(index, selected),
        crate::execution::first_seen(packages_at(index, selected)),
    )
}

fn has_dependency(entry: &IndexEntry, name: &str) -> (r: bool)
    ensures
        r == exists|d: int|
            0 <= d < entry@.dependencies.len() && (#[trigger] entry@.dependencies[d]).name == name@,
{
    let mut d: usize = 0;
    while d < entry.dependencies.len()
        invariant
            d <= entry.dependencies.len(),
            forall|k: int| 0 <= k < d ==> (#[trigger] entry@.dependencies[k]).name != name@,
        decreases entry.dependencies.len() - d,
    {
        if same_text(entry.dependencies[d].name.as_str(), name) {
            assert(entry@.dependencies[d as int].name == name@);
            return true;
        }
        d += 1;
    }
    false
}

/// Whether the nodes are those of the selection: one for each selected
/// entry, in order, a package named in `local` marked as local and every
/// other as one to download.
pub open spec fn nodes_of_selection(
    nodes: Seq<crate::graph::GraphNode>,
    index: Seq<EntryView>,
    selected: Seq<int>,
    local: Seq<Seq<char>>,
) -> bool {
    &&& nodes.len() == selected.len()
    &&& forall|i: int|
        0 <= i < selected.len() ==> (#[trigger] nodes[i]).id@ == index[selected[i]].id
            && nodes[i].action == (if local.contains(index[selected[i]].id.name) {
            NodeAction::Local
        } else {
            NodeAction::Download
        })
}

/// Builds the graph of the selected packages. Each is a node, local if its
/// name is among `local` and to be downloaded otherwise; edges run from
/// each package to the selected packages that depend on it.
pub fn build_graph(index: &Vec<IndexEntry>, selected: &Vec<usize>, local: &Vec<String>) -> (g:
    DependencyGraph)
    requires
        forall|k: int| 0 <= k < selected@.len() ==> #[trigger] selected@[k] < index@.len(),
    ensures
        g.edges@.len() == selected@.len(),
        nodes_of_selection(g.nodes@, index_views(index@), positions(selected@), texts(local@)),
        crate::graph::edge_views(g.edges@) == planned_edges(
            index_views(index@),
            positions(selected@),
        ),
{
    let ghost iv = index_views(index@);
    let ghost at = positions(selected@);
    let mut g = DependencyGraph::new();
    let mut i: usize = 0;
    while i < selected.len()
        invariant
            i <= selected.len(),
            iv == index_views(index@),
            at == positions(selected@),
            forall|k: int| 0 <= k < selected@.len() ==> #[trigger] selected@[k] < index@.len(),
            g.nodes@.len() == i,
            g.edges@.len() == i,
            forall|x: int|
                0 <= x < i ==> (#[trigger] g.nodes@[x]).id@ == iv[selected@[x] as int].id
                    && g.nodes@[x].action == (if texts(local@).contains(
                    iv[selected@[x] as int].id.name,
                ) {
                    NodeAction::Local
                } else {
                    NodeAction::Download
                }),
            forall|x: int|
                0 <= x < i ==> (#[trigger] g.edges@[x]).from@ == iv[selected@[x] as int].id && ids(
                    g.edges@[x].to@,
                ) == dependents(iv, at, selected@[x] as int),
        decreases selected.len() - i,
    {
        let f = selected[i];
        let entry = &index[f];
        assert(iv[f as int] == entry@);
        let mut is_local = false;
        let mut l: usize = 0;
        while l < local.len() && !is_local
            invariant
                l <= local.len(),
                is_local ==> texts(local@).contains(entry.id.name@),
                !is_local ==> forall|k: int|
                    0 <= k < l ==> #[trigger] texts(local@)[k] != entry.id.name@,
            decreases local.len() - l + (if is_local { 0int } else { 1int }),
        {
            if same_text(local[l].as_str(), entry.id.name.as_str()) {
                assert(texts(local@)[l as int] == entry.id.name@);
                is_local = true;
            } else {
                l += 1;
            }
        }
        let action = if is_local {
            NodeAction::Local
        } else {
            NodeAction::Download
        };
        let ghost test = is_dependent(iv, iv[f as int].id.name);
        let mut to: Vec<PackageId> = Vec::new();
        let mut k: usize = 0;
        proof {
            reveal(Seq::filter);
            assert(at.take(0).filter(test) == Seq::<int>::empty());
            assert(ids(to@) == packages_at(iv, at.take(0).filter(test)));
        }
        while k < selected.len()
            invariant
                k <= selected.len(),
                iv == index_views(index@),
                at == positions(selected@),
                f < index@.len(),
                entry@ == iv[f as int],
                test == is_dependent(iv, iv[f as int].id.name),
                forall|x: int| 0 <= x < selected@.len() ==> #[trigger] selected@[x] < index@.len(),
                ids(to@) == packages_at(iv, at.take(k as int).filter(test)),
            decreases selected.len() - k,
        {
            proof {
                crate::seq_lemmas::lemma_filter_step(at, test, k as int);
            }
            let e = selected[k];
            assert(iv[e as int] == index@[e as int]@);
            if has_dependency(&index[e], entry.id.name.as_str()) {
                let ghost before = to@;
                let ghost kept = at.take(k as int).filter(test);
                to.push(index[e].id.clone());
                assert(ids(to@) == ids(before).push(iv[e as int].id));
                assert(packages_at(iv, kept.push(e as int)) == packages_at(iv, kept).push(
                    iv[e as int].id,
                ));
            }
            k += 1;
        }
        assert(at.take(selected@.len() as int) == at);
        g.add_node(entry.id.clone(), action);
        g.add_edges(entry.id.clone(), to);
        i += 1;
    }
    assert(crate::graph::edge_views(g.edges@) =~= planned_edges(iv, at));
    g
}

/// The number of packages in all the lists together.
pub open spec fn total_len(lists: Seq<Seq<PackageIdView>>) -> nat
    decreases lists.len(),
{
    if lists.len() == 0 {
        0
    } else {
        total_len(lists.drop_last()) + lists.last().len()
    }
}

/// What a resolution yields: the chosen packages, their graph, and the
/// plan for installing them.
#[derive(Debug)]
pub struct Resolution {
    pub packages: Vec<PackageId>,
    pub graph: DependencyGraph,
    pub plan: ExecutionPlan,
}

/// The requirement that only the package itself meets: its name in
/// exactly its version.
pub open spec fn pin_of(id: PackageIdView) -> DependencyView {
    DependencyView {
        name: id.name,
        spec: seq![ConstraintView { op: ConstraintOp::Exact, version: id.version }],
    }
}

/// What a resolution starts from: a pin for each local package, and after
/// them the requirements.
pub open spec fn roots_of(
    local: Seq<PackageIdView>,
    requirements: Seq<DependencyView>,
) -> Seq<DependencyView> {
    Seq::new(local.len(), |i: int| pin_of(local[i])) + requirements
}

/// The names of the packages.
pub open spec fn names_of(packages: Seq<PackageIdView>) -> Seq<Seq<char>> {
    Seq::new(packages.len(), |i: int| packages[i].name)
}

/// Gathers what a resolution starts from.
fn gather_roots(local: &Vec<PackageId>, requirements: &Vec<Dependency>) -> (roots: Vec<Dependency>)
    ensures
        dependency_views(roots@) == roots_of(ids(local@), dependency_views(requirements@)),
{
    let mut roots: Vec<Dependency> = Vec::new();
    let mut i: usize = 0;
    while i < local.len()
        invariant
            i <= local.len(),
            roots@.len() == i,
            forall|k: int| 0 <= k < i ==> (#[trigger] roots@[k])@ == pin_of(local@[k]@),
        decreases local.len() - i,
    {
        roots.push(
            Dependency {
                name: local[i].name.clone(),
                spec: VersionSpec::exact(local[i].version.duplicate()),
            },
        );
        i += 1;
    }
    let mut k: usize = 0;
    while k < requirements.len()
        invariant
            k <= requirements.len(),
            roots@.len() == local@.len() + k,
            forall|a: int| 0 <= a < local@.len() ==> (#[trigger] roots@[a])@ == pin_of(local@[a]@),
            forall|a: int| 0 <= a < k ==> (#[trigger] roots@[local@.len() + a])@ == requirements@[a]@,
        decreases requirements.len() - k,
    {
        roots.push(requirements[k].clone());
        k += 1;
    }
    proof {
        let want = roots_of(ids(local@), dependency_views(requirements@));
        let have = dependency_views(roots@);
        assert(have.len() == want.len());
        assert forall|a: int| 0 <= a < have.len() implies have[a] == want[a] by {
            if a >= local@.len() {
                let b = a - local@.len();
                assert(roots@[local@.len() + b]@ == requirements@[b]@);
            } else {
                assert(roots@[a]@ == pin_of(local@[a]@));
            }
        }
        assert(have =~= want);
    }
    roots
}

/// The names of the packages.
fn names_in(packages: &Vec<PackageId>) -> (names: Vec<String>)
    ensures
        texts(names@) == names_of(ids(packages@)),
{
    let mut names: Vec<String> = Vec::new();
    let mut i: usize = 0;
    while i < packages.len()
        invariant
            i <= packages.len(),
            names@.len() == i,
            forall|k: int| 0 <= k < i ==> (#[trigger] names@[k])@ == packages@[k]@.name,
        decreases packages.len() - i,
    {
        names.push(packages[i].name.clone());
        i += 1;
    }
    assert(texts(names@) =~= names_of(ids(packages@)));
    names
}

/// Resolves the requirements and plans the installation. A local package
/// is pinned: it is required in exactly its version, which the index must
/// hold, and its node is marked as local. The packages are those that
/// `select` chooses for the pins and the requirements, the graph is the
/// one that `build_graph` builds for them, and the plan holds its batches.
/// When the batches do not hold every chosen package, the packages depend
/// on each other in a circle and there is no plan.
pub fn plan_install(
    index: &Vec<IndexEntry>,
    requirements: &Vec<Dependency>,
    local: &Vec<PackageId>,
) -> (r: Result<Resolution, ResolutionError>)
    ensures
        match first_unknown(
            index_views(index@),
            roots_of(ids(local@), dependency_views(requirements@)),
        ) {
            Some(name) => r matches Err(ResolutionError::UnknownPackage { name: n }) && n@ == name,
            None => match search(
                index_views(index@),
                roots_of(ids(local@), dependency_views(requirements@)),
                Seq::<int>::empty(),
                index@.len() as nat,
            ) {
                None => r matches Err(ResolutionError::ConflictingConstraints),
                Some(selected) => match r {
                    Ok(resolution) => ids(resolution.packages@) == packages_at(
                        index_views(index@),
                        selected,
                    ) && crate::graph::edge_views(resolution.graph.edges@) == planned_edges(
                        index_views(index@),
                        selected,
                    ) && nodes_of_selection(
                        resolution.graph.nodes@,
                        index_views(index@),
                        selected,
                        names_of(ids(local@)),
                    ) && resolution.plan.batches_view() == planned_batches(
                        index_views(index@),
                        selected,
                    ) && resolution.plan.entries_view() == crate::execution::planned_entries(
                        crate::execution::first_seen(packages_at(index_views(index@), selected)),
                        resolution.graph.nodes@,
                        planned_edges(index_views(index@), selected),
                    ) && total_len(planned_batches(index_views(index@), selected))
                        == selected.len(),
                    Err(e) => e is CircularDependency && total_len(
                        planned_batches(index_views(index@), selected),
                    ) != selected.len(),
                },
            },
        },
{
    let roots = gather_roots(local, requirements);
    let local_names = names_in(local);
    let selected = match select(index, &roots) {
        Ok(s) => s,
        Err(e) => {
            return Err(e);
        },
    };
    let packages = packages_of(index, &selected);
    let graph = build_graph(index, &selected, &local_names);
    let plan = ExecutionPlan::from_sorted_packages(packages.as_slice(), &graph);
    let batches = plan.batches();
    let ghost lists = crate::graph::id_lists(batches@);
    let mut total: usize = 0;
    let mut b: usize = 0;
    let mut overflow = false;
    assert(total_len(lists.take(0)) == 0);
    while b < batches.len()
        invariant
            b <= batches.len(),
            lists == crate::graph::id_lists(batches@),
            !overflow ==> total == total_len(lists.take(b as int)),
            overflow ==> total_len(lists.take(b as int)) > usize::MAX,
        decreases batches.len() - b,
    {
        assert(lists.take(b + 1).drop_last() == lists.take(b as int));
        assert(lists.take(b + 1).last().len() == batches@[b as int]@.len());
        if !overflow {
            match total.checked_add(batches[b].len()) {
                Some(t) => {
                    total = t;
                },
                None => {
                    overflow = true;
                },
            }
        }
        b += 1;
    }
    assert(lists.take(batches@.len() as int) == lists);
    assert(positions(selected@).len() == selected@.len());
    if overflow || total != selected.len() {
        return Err(ResolutionError::CircularDependency);
    }
    Ok(Resolution { packages, graph, plan })
}

} // verus!
