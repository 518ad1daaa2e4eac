//! The state engine: the record of states, the transaction that makes a new
//! one, and the pointer to the current one.
//!
//! Every change of the installed packages makes a new state whose parent is
//! the state that was current. The new state is first prepared: recorded as
//! pending, where no listing shows it. Activating it is one step that
//! records it for good and moves the current pointer to it. A transaction
//! that stops before that step leaves nothing behind: the states and the
//! pointer are as they were.

use crate::errors::ErrorKind;
use crate::graph::{copy_ids, ids, PackageId, PackageIdView};
use crate::text::{same_text, texts};
use vstd::prelude::*;

verus! {

/// A state as it is recorded.
#[derive(Debug)]
pub struct StateRecord {
    pub id: u128,
    /// The state that was current when this one was made.
    pub parent_id: Option<u128>,
    /// When the state was made, in seconds since the epoch.
    pub timestamp: i64,
    pub packages: Vec<PackageId>,
}

/// A recorded state as a plain value.
pub struct StateView {
    pub id: u128,
    pub parent_id: Option<u128>,
    pub timestamp: i64,
    pub packages: Seq<PackageIdView>,
}

impl View for StateRecord {
    type V = StateView;

    open spec fn view(&self) -> StateView {
        StateView {
            id: self.id,
            parent_id: self.parent_id,
            timestamp: self.timestamp,
            packages: ids(self.packages@),
        }
    }
}

impl Clone for StateRecord {
    fn clone(&self) -> (r: StateRecord)
        ensures
            r@ == self@,
    {
        StateRecord {
            id: self.id,
            parent_id: self.parent_id,
            timestamp: self.timestamp,
            packages: copy_ids(&self.packages),
        }
    }
}

/// The recorded states of a vector as plain values.
pub open spec fn state_views(v: Seq<StateRecord>) -> Seq<StateView> {
    Seq::new(v.len(), |i: int| v[i]@)
}

/// Why the state engine refused.
#[derive(Clone, Copy, Debug, PartialEq, Eq, Structural)]
pub enum StateError {
    /// No state has this identifier.
    NotFound { id: u128 },
    /// A state with this identifier exists already.
    AlreadyExists { id: u128 },
    /// A transaction is under way.
    TransactionPending,
    /// No transaction is under way.
    NoTransaction,
}

impl StateError {
    /// The kind of this error.
    pub open spec fn kind_spec(&self) -> ErrorKind {
        match self {
            StateError::NotFound { .. } => ErrorKind::NotFound,
            _ => ErrorKind::Conflict,
        }
    }

    /// The kind of this error: a state that is not there is not found,
    /// every other refusal is a conflict with the state of the engine.
    pub fn kind(&self) -> (k: ErrorKind)
        ensures
            k == self.kind_spec(),
    {
        match self {
            StateError::NotFound { .. } => ErrorKind::NotFound,
            _ => ErrorKind::Conflict,
        }
    }
}

/// Whether one of the states has the identifier `id`.
pub open spec fn has_state(states: Seq<StateView>, id: u128) -> bool {
    exists|i: int| 0 <= i < states.len() && (#[trigger] states[i]).id == id
}

/// Whether the states and the pointer are consistent: every state has its
/// own identifier, the parent of a state is a state, and the current state
/// is a state.
pub open spec fn consistent(states: Seq<StateView>, current: u128) -> bool {
    &&& has_state(states, current)
    &&& forall|i: int, j: int|
        0 <= i < states.len() && 0 <= j < states.len() && i != j ==> (#[trigger] states[i]).id != (
        #[trigger] states[j]).id
    &&& forall|i: int|
        0 <= i < states.len() ==> match (#[trigger] states[i]).parent_id {
            Some(p) => has_state(states, p),
            None => true,
        }
}

/// The packages after an install: those of `current` whose name no new
/// package has, followed by the new packages.
pub open spec fn with_packages(current: Seq<PackageIdView>, new: Seq<PackageIdView>) -> Seq<
    PackageIdView,
> {
    current.filter(name_not_in(package_names(new))) + new
}

/// The packages after an uninstall: those whose name is not among `names`.
pub open spec fn without_names(current: Seq<PackageIdView>, names: Seq<Seq<char>>) -> Seq<
    PackageIdView,
> {
    current.filter(name_not_in(names))
}

/// The names of the packages.
pub open spec fn package_names(packages: Seq<PackageIdView>) -> Seq<Seq<char>> {
    Seq::new(packages.len(), |i: int| packages[i].name)
}

/// The test "the name of the package is not among `names`".
pub open spec fn name_not_in(names: Seq<Seq<char>>) -> spec_fn(PackageIdView) -> bool {
    |p: PackageIdView| !names.contains(p.name)
}

pub(crate) fn name_listed(names: &Vec<String>, name: &str) -> (r: bool)
    ensures
        r == texts(names@).contains(name@),
{
    let mut i: usize = 0;
    while i < names.len()
        invariant
            i <= names.len(),
            forall|k: int| 0 <= k < i ==> #[trigger] texts(names@)[k] != name@,
        decreases names.len() - i,
    {
        if same_text(names[i].as_str(), name) {
            assert(texts(names@)[i as int] == name@);
            return true;
        }
        i += 1;
    }
    false
}

/// Computes the packages after an uninstall of the packages called
/// `names`.
pub fn uninstall_set(current: &Vec<PackageId>, names: &Vec<String>) -> (out: Vec<PackageId>)
    ensures
        ids(out@) == without_names(ids(current@), texts(names@)),
{
    let ghost all = ids(current@);
    let ghost keep = name_not_in(texts(names@));
    let mut out: Vec<PackageId> = Vec::new();
    let mut i: usize = 0;
    proof {
        reveal(Seq::filter);
        assert(all.take(0).filter(keep) == Seq::<PackageIdView>::empty());
    }
    while i < current.len()
        invariant
            i <= current.len(),
            all == ids(current@),
            keep == name_not_in(texts(names@)),
            ids(out@) == all.take(i as int).filter(keep),
        decreases current.len() - i,
    {
        proof {
            crate::seq_lemmas::lemma_filter_step(all, keep, i as int);
        }
        if !name_listed(names, current[i].name.as_str()) {
            let ghost before = out@;
            out.push(current[i].clone());
            assert(ids(out@) == ids(before).push(all[i as int]));
        }
        i += 1;
    }
    assert(all.take(current.len() as int) == all);
    out
}

/// Computes the packages after an install of `new`: a package that is
/// already there under the same name gives way to the new one.
pub fn install_set(current: &Vec<PackageId>, new: &Vec<PackageId>) -> (out: Vec<PackageId>)
    ensures
        ids(out@) == with_packages(ids(current@), ids(new@)),
{
    let mut names: Vec<String> = Vec::new();
    let mut k: usize = 0;
    while k < new.len()
        invariant
            k <= new.len(),
            texts(names@) == package_names(ids(new@)).take(k as int),
        decreases new.len() - k,
    {
        assert(package_names(ids(new@)).take(k + 1) == package_names(ids(new@)).take(
            k as int,
        ).push(new@[k as int].name@));
        crate::text::push_text(&mut names, new[k].name.clone());
        k += 1;
    }
    assert(package_names(ids(new@)).take(new.len() as int) == package_names(ids(new@)));
    let mut out = uninstall_set(current, &names);
    let ghost kept = ids(out@);
    let mut i: usize = 0;
    assert(ids(new@).take(0) == Seq::<PackageIdView>::empty());
    assert(kept + Seq::<PackageIdView>::empty() == kept);
    while i < new.len()
        invariant
            i <= new.len(),
            ids(out@) == kept + ids(new@).take(i as int),
        decreases new.len() - i,
    {
        let ghost before = out@;
        out.push(new[i].clone());
        assert(ids(out@) == ids(before).push(new@[i as int]@));
        assert(ids(new@).take(i + 1) == ids(new@).take(i as int).push(new@[i as int]@));
        i += 1;
    }
    assert(ids(new@).take(new.len() as int) == ids(new@));
    out
}

/// Installing packages and at once uninstalling them by name gives back
/// the packages that were there, provided none of them had one of these
/// names before.
pub proof fn law_install_then_uninstall(current: Seq<PackageIdView>, new: Seq<PackageIdView>)
    requires
        forall|i: int|
            0 <= i < current.len() ==> !package_names(new).contains((#[trigger] current[i]).name),
    ensures
        without_names(with_packages(current, new), package_names(new)) == current,
{
    let names = package_names(new);
    assert forall|i: int| 0 <= i < new.len() implies names.contains((#[trigger] new[i]).name) by {
        assert(names[i] == new[i].name);
    }
    law_install_then_removal(current, new, names);
}

/// Installing packages and at once removing a set of names that holds
/// theirs gives back the packages that were there, provided none of them
/// has a name of the set.
pub proof fn law_install_then_removal(
    current: Seq<PackageIdView>,
    new: Seq<PackageIdView>,
    names: Seq<Seq<char>>,
)
    requires
        forall|i: int| 0 <= i < new.len() ==> names.contains((#[trigger] new[i]).name),
        forall|i: int| 0 <= i < current.len() ==> !names.contains((#[trigger] current[i]).name),
    ensures
        without_names(with_packages(current, new), names) == current,
{
    let keep = name_not_in(names);
    let stay = current.filter(name_not_in(package_names(new)));
    assert forall|i: int| 0 <= i < current.len() implies name_not_in(package_names(new))(
        #[trigger] current[i],
    ) by {
        if package_names(new).contains(current[i].name) {
            let k = choose|k: int|
                0 <= k < package_names(new).len() && package_names(new)[k] == current[i].name;
            assert(new[k].name == current[i].name);
            assert(names.contains(new[k].name));
        }
    }
    crate::seq_lemmas::lemma_filter_all(current, name_not_in(package_names(new)));
    crate::seq_lemmas::lemma_filter_all(current, keep);
    crate::seq_lemmas::lemma_filter_none(new, keep);
    Seq::filter_distributes_over_add(current, new, keep);
    assert(current + Seq::<PackageIdView>::empty() == current);
}

/// The state engine.
#[derive(Debug)]
pub struct StateDb {
    states: Vec<StateRecord>,
    pending: Option<StateRecord>,
    current: u128,
}

impl StateDb {
    /// The recorded states, oldest first. A pending state is not among
    /// them.
    pub closed spec fn states_view(&self) -> Seq<StateView> {
        state_views(self.states@)
    }

    /// The identifier of the current state.
    pub closed spec fn current_view(&self) -> u128 {
        self.current
    }

    /// The state that a transaction has prepared, if one is under way.
    pub closed spec fn pending_view(&self) -> Option<StateView> {
        match self.pending {
            Some(r) => Some(r@),
            None => None,
        }
    }

    /// Why a transaction that makes the state `id` cannot begin, if it
    /// cannot: another one is under way, or the identifier is in use.
    pub open spec fn refused(&self, id: u128) -> Option<StateError> {
        if self.pending_view() is Some {
            Some(StateError::TransactionPending)
        } else if has_state(self.states_view(), id) {
            Some(StateError::AlreadyExists { id })
        } else {
            None
        }
    }

    /// The states and the pointer are consistent, and a pending state has a
    /// fresh identifier and the current state as its parent.
    pub closed spec fn wf(&self) -> bool {
        &&& consistent(self.states_view(), self.current)
        &&& match self.pending {
            Some(r) => !has_state(self.states_view(), r.id) && r.parent_id == Some(self.current),
            None => true,
        }
    }

    /// What `wf` says, for those who cannot look inside.
    pub proof fn lemma_wf(&self)
        requires
            self.wf(),
        ensures
            consistent(self.states_view(), self.current_view()),
            match self.pending_view() {
                Some(r) => !has_state(self.states_view(), r.id) && r.parent_id == Some(
                    self.current_view(),
                ),
                None => true,
            },
    {
    }

    /// A state engine with one state: the root, which has no packages and
    /// no parent and is current.
    pub fn new(root_id: u128, timestamp: i64) -> (db: StateDb)
        ensures
            db.wf(),
            db.states_view() == seq![
                StateView {
                    id: root_id,
                    parent_id: None,
                    timestamp,
                    packages: Seq::<PackageIdView>::empty(),
                },
            ],
            db.current_view() == root_id,
            db.pending_view() is None,
    {
        let mut states: Vec<StateRecord> = Vec::new();
        let root = StateRecord { id: root_id, parent_id: None, timestamp, packages: Vec::new() };
        assert(ids(root.packages@) == Seq::<PackageIdView>::empty());
        states.push(root);
        let db = StateDb { states, pending: None, current: root_id };
        assert(db.states_view() =~= seq![
            StateView {
                id: root_id,
                parent_id: None,
                timestamp,
                packages: Seq::<PackageIdView>::empty(),
            },
        ]);
        assert(db.states_view()[0].id == root_id);
        db
    }

    /// The state engine over recorded states, with `current` as the current
    /// state and no transaction under way; or nothing, when the states and
    /// the pointer are not consistent.
    pub fn from_records(states: Vec<StateRecord>, current: u128) -> (r: Option<StateDb>)
        ensures
            match r {
                Some(db) => db.wf() && db.states_view() == state_views(states@)
                    && db.current_view() == current && db.pending_view() is None && consistent(
                    state_views(states@),
                    current,
                ),
                None => !consistent(state_views(states@), current),
            },
    {
        let db = StateDb { states, pending: None, current };
        if db.is_well_formed() {
            Some(db)
        } else {
            None
        }
    }

    /// Tells whether the state engine is well formed. An engine that was
    /// made by `new` and changed by the operations below always is.
    pub fn is_well_formed(&self) -> (ok: bool)
        ensures
            ok == self.wf(),
    {
        let ghost all = self.states_view();
        if self.find(self.current).is_none() {
            return false;
        }
        let mut i: usize = 0;
        while i < self.states.len()
            invariant
                i <= self.states.len(),
                all == self.states_view(),
                has_state(all, self.current),
                forall|a: int, b: int|
                    0 <= a < i && 0 <= b < all.len() && a != b ==> (#[trigger] all[a]).id != (
                    #[trigger] all[b]).id,
                forall|a: int|
                    0 <= a < i ==> match (#[trigger] all[a]).parent_id {
                        Some(p) => has_state(all, p),
                        None => true,
                    },
            decreases self.states.len() - i,
        {
            assert(all[i as int] == self.states@[i as int]@);
            match self.states[i].parent_id {
                Some(p) => {
                    if self.find(p).is_none() {
                        return false;
                    }
                },
                None => {},
            }
            let mut k: usize = 0;
            while k < self.states.len()
                invariant
                    k <= self.states.len(),
                    i < self.states.len(),
                    all == self.states_view(),
                    forall|b: int| 0 <= b < k && b != i ==> (#[trigger] all[b]).id != all[i as int].id,
                decreases self.states.len() - k,
            {
                assert(all[k as int] == self.states@[k as int]@);
                if k != i && self.states[k].id == self.states[i].id {
                    assert(all[i as int].id == all[k as int].id);
                    return false;
                }
                k += 1;
            }
            i += 1;
        }
        assert forall|a: int, b: int|
            0 <= a < all.len() && 0 <= b < all.len() && a != b implies (#[trigger] all[a]).id != (
        #[trigger] all[b]).id by {}
        match &self.pending {
            Some(r) => {
                match r.parent_id {
                    Some(p) => {
                        if p != self.current {
                            return false;
                        }
                    },
                    None => {
                        return false;
                    },
                }
                self.find(r.id).is_none()
            },
            None => true,
        }
    }

    /// The identifier of the current state.
    pub fn current_id(&self) -> (id: u128)
        ensures
            id == self.current_view(),
    {
        self.current
    }

    /// The recorded states, oldest first.
    pub fn list_states(&self) -> (states: &Vec<StateRecord>)
        ensures
            state_views(states@) == self.states_view(),
    {
        &self.states
    }

    fn find(&self, id: u128) -> (r: Option<usize>)
        ensures
            match r {
                Some(i) => i < self.states@.len() && self.states_view()[i as int].id == id,
                None => !has_state(self.states_view(), id),
            },
    {
        let mut i: usize = 0;
        while i < self.states.len()
            invariant
                i <= self.states.len(),
                forall|k: int| 0 <= k < i ==> (#[trigger] self.states_view()[k]).id != id,
            decreases self.states.len() - i,
        {
            if self.states[i].id == id {
                return Some(i);
            }
            i += 1;
        }
        None
    }

    /// Whether a state with this identifier is recorded.
    pub fn state_exists(&self, id: u128) -> (r: bool)
        ensures
            r == has_state(self.states_view(), id),
    {
        self.find(id).is_some()
    }

    /// The current state.
    pub fn current_state(&self) -> (state: &StateRecord)
        requires
            self.wf(),
        ensures
            state.id == self.current_view(),
            exists|i: int|
                0 <= i < self.states_view().len() && #[trigger] self.states_view()[i] == state@,
    {
        match self.find(self.current) {
            Some(i) => {
                assert(self.states_view()[i as int] == self.states@[i as int]@);
                &self.states[i]
            },
            None => {
                assert(false);
                &self.states[0]
            },
        }
    }

    /// Whether a transaction is under way.
    pub fn in_transaction(&self) -> (r: bool)
        ensures
            r == self.pending_view() is Some,
    {
        self.pending.is_some()
    }

    /// Prepares a new state with the given packages. Its parent is the
    /// current state. Nothing that can be observed changes: the recorded
    /// states and the current pointer stay as they are.
    pub fn begin(&mut self, id: u128, timestamp: i64, packages: Vec<PackageId>) -> (r: Result<
        (),
        StateError,
    >)
        requires
            old(self).wf(),
        ensures
            final(self).wf(),
            final(self).states_view() == old(self).states_view(),
            final(self).current_view() == old(self).current_view(),
            match r {
                Ok(_) => old(self).pending_view() is None && !has_state(old(self).states_view(), id)
                    && final(self).pending_view() == Some(
                    StateView {
                        id,
                        parent_id: Some(old(self).current_view()),
                        timestamp,
                        packages: ids(packages@),
                    },
                ),
                Err(e) => final(self).pending_view() == old(self).pending_view() && e == (
                if old(self).pending_view() is Some {
                    StateError::TransactionPending
                } else {
                    StateError::AlreadyExists { id }
                }) && (old(self).pending_view() is Some || has_state(old(self).states_view(), id)),
            },
    {
        if self.pending.is_some() {
            return Err(StateError::TransactionPending);
        }
        if self.state_exists(id) {
            return Err(StateError::AlreadyExists { id });
        }
        self.pending = Some(
            StateRecord { id, parent_id: Some(self.current), timestamp, packages },
        );
        Ok(())
    }

    /// Gives up the transaction that is under way, if any. This is also
    /// what a restart does after a transaction was interrupted. The
    /// recorded states and the current pointer stay as they are.
    pub fn abort(&mut self)
        requires
            old(self).wf(),
        ensures
            final(self).wf(),
            final(self).states_view() == old(self).states_view(),
            final(self).current_view() == old(self).current_view(),
            final(self).pending_view() is None,
    {
        self.pending = None;
    }

    /// Activates the prepared state: in one step it is recorded and becomes
    /// the current state. Its parent is the state that was current.
    pub fn activate(&mut self) -> (r: Result<u128, StateError>)
        requires
            old(self).wf(),
        ensures
            final(self).wf(),
            final(self).pending_view() is None,
            match r {
                Ok(id) => old(self).pending_view() matches Some(prepared) && prepared.id == id
                    && final(self).states_view() == old(self).states_view().push(prepared) && final(self).current_view() == id && prepared.parent_id == Some(old(self).current_view()),
                Err(e) => e == StateError::NoTransaction && old(self).pending_view() is None
                    && final(self).states_view() == old(self).states_view() && final(self).current_view() == old(self).current_view(),
            },
    {
        let prepared = match self.pending.take() {
            Some(p) => p,
            None => {
                return Err(StateError::NoTransaction);
            },
        };
        let id = prepared.id;
        let ghost before = self.states_view();
        let ghost added = prepared@;
        self.states.push(prepared);
        self.current = id;
        proof {
            let after = self.states_view();
            assert(after == before.push(added));
            assert(after[after.len() - 1].id == id);
            assert forall|i: int| 0 <= i < after.len() implies match (#[trigger] after[i]).parent_id {
                Some(p) => has_state(after, p),
                None => true,
            } by {
                match after[i].parent_id {
                    Some(p) => {
                        if i < before.len() {
                            assert(after[i] == before[i]);
                            assert(has_state(before, p));
                            let j = choose|j: int| 0 <= j < before.len() && (#[trigger] before[j]).id == p;
                            assert(after[j].id == p);
                        } else {
                            assert(p == old(self).current_view());
                            assert(has_state(before, p));
                            let j = choose|j: int| 0 <= j < before.len() && (#[trigger] before[j]).id == p;
                            assert(after[j].id == p);
                        }
                    },
                    None => {},
                }
            }
            assert forall|i: int, j: int|
                0 <= i < after.len() && 0 <= j < after.len() && i != j implies (
            #[trigger] after[i]).id != (#[trigger] after[j]).id by {
                if i < before.len() && j < before.len() {
                    assert(after[i] == before[i] && after[j] == before[j]);
                } else if i < before.len() {
                    assert(after[i] == before[i]);
                } else {
                    assert(after[j] == before[j]);
                }
            }
        }
        Ok(id)
    }

    /// Makes `target` the current state. The recorded states stay as they
    /// are.
    pub fn rollback(&mut self, target: u128) -> (r: Result<(), StateError>)
        requires
            old(self).wf(),
        ensures
            final(self).wf(),
            final(self).states_view() == old(self).states_view(),
            final(self).pending_view() == old(self).pending_view(),
            match r {
                Ok(_) => old(self).pending_view() is None && has_state(
                    old(self).states_view(),
                    target,
                ) && final(self).current_view() == target,
                Err(e) => final(self).current_view() == old(self).current_view() && e == (
                if old(self).pending_view() is Some {
                    StateError::TransactionPending
                } else {
                    StateError::NotFound { id: target }
                }) && (old(self).pending_view() is Some || !has_state(
                    old(self).states_view(),
                    target,
                )),
            },
    {
        if self.pending.is_some() {
            return Err(StateError::TransactionPending);
        }
        if !self.state_exists(target) {
            return Err(StateError::NotFound { id: target });
        }
        self.current = target;
        Ok(())
    }

    /// Installs packages: prepares and activates a state that holds the
    /// current packages and the new ones, a new package taking the place of
    /// one with the same name.
    pub fn install(&mut self, id: u128, timestamp: i64, new: &Vec<PackageId>) -> (r: Result<
        (),
        StateError,
    >)
        requires
            old(self).wf(),
        ensures
            final(self).wf(),
            match r {
                Ok(_) => old(self).refused(id) is None && final(self).current_view() == id && final(self).pending_view() is None
                    && exists|before: StateView|
                    old(self).states_view().contains(before) && before.id == old(self).current_view() && final(self).states_view() == old(self).states_view().push(
                        StateView {
                            id,
                            parent_id: Some(old(self).current_view()),
                            timestamp,
                            packages: with_packages(before.packages, ids(new@)),
                        },
                    ),
                Err(e) => old(self).refused(id) == Some(e) && final(self).states_view() == old(self).states_view() && final(self).current_view() == old(self).current_view() && final(self).pending_view() == old(self).pending_view(),
            },
    {
        let now = self.current_state();
        let ghost before = now@;
        let packages = install_set(&now.packages, new);
        match self.begin(id, timestamp, packages) {
            Ok(_) => {},
            Err(e) => {
                return Err(e);
            },
        }
        match self.activate() {
            Ok(_) => {
                assert(old(self).states_view().contains(before));
                Ok(())
            },
            Err(e) => Err(e),
        }
    }

    /// Uninstalls the packages called `names`: prepares and activates a
    /// state that holds the current packages without them.
    pub fn uninstall(&mut self, id: u128, timestamp: i64, names: &Vec<String>) -> (r: Result<
        (),
        StateError,
    >)
        requires
            old(self).wf(),
        ensures
            final(self).wf(),
            match r {
                Ok(_) => old(self).refused(id) is None && final(self).current_view() == id && final(self).pending_view() is None
                    && exists|before: StateView|
                    old(self).states_view().contains(before) && before.id == old(self).current_view() && final(self).states_view() == old(self).states_view().push(
                        StateView {
                            id,
                            parent_id: Some(old(self).current_view()),
                            timestamp,
                            packages: without_names(before.packages, texts(names@)),
                        },
                    ),
                Err(e) => old(self).refused(id) == Some(e) && final(self).states_view() == old(self).states_view() && final(self).current_view() == old(self).current_view() && final(self).pending_view() == old(self).pending_view(),
            },
    {
        let now = self.current_state();
        let ghost before = now@;
        let packages = uninstall_set(&now.packages, names);
        match self.begin(id, timestamp, packages) {
            Ok(_) => {},
            Err(e) => {
                return Err(e);
            },
        }
        match self.activate() {
            Ok(_) => {
                assert(old(self).states_view().contains(before));
                Ok(())
            },
            Err(e) => Err(e),
        }
    }

    /// Updates packages: like an install of the versions that the resolver
    /// chose.
    pub fn update(&mut self, id: u128, timestamp: i64, resolved: &Vec<PackageId>) -> (r: Result<
        (),
        StateError,
    >)
        requires
            old(self).wf(),
        ensures
            final(self).wf(),
            match r {
                Ok(_) => old(self).refused(id) is None && final(self).current_view() == id && final(self).pending_view() is None
                    && exists|before: StateView|
                    old(self).states_view().contains(before) && before.id == old(self).current_view() && final(self).states_view() == old(self).states_view().push(
                        StateView {
                            id,
                            parent_id: Some(old(self).current_view()),
                            timestamp,
                            packages: with_packages(before.packages, ids(resolved@)),
                        },
                    ),
                Err(e) => old(self).refused(id) == Some(e) && final(self).states_view() == old(self).states_view() && final(self).current_view() == old(self).current_view() && final(self).pending_view() == old(self).pending_view(),
            },
    {
        self.install(id, timestamp, resolved)
    }
}


/// Whether the state at position `i` outlives a cleanup that keeps the
/// `retention` most recent states: it is one of these, or it is current.
pub open spec fn is_retained(states: Seq<StateView>, i: int, retention: nat, current: u128) -> bool {
    0 <= i < states.len() && (i >= states.len() - retention || states[i].id == current)
}

/// Whether a state with the identifier `id` outlives the cleanup.
pub open spec fn id_retained(states: Seq<StateView>, id: u128, retention: nat, current: u128) -> bool {
    exists|j: int| is_retained(states, j, retention, current) && (#[trigger] states[j]).id == id
}

/// A state as it is after the cleanup: a parent that does not outlive the
/// cleanup is forgotten, so that the state becomes a root.
pub open spec fn after_cleanup(
    states: Seq<StateView>,
    i: int,
    retention: nat,
    current: u128,
) -> StateView {
    StateView {
        parent_id: match states[i].parent_id {
            Some(p) => if id_retained(states, p, retention, current) {
                Some(p)
            } else {
                None
            },
            None => None,
        },
        ..states[i]
    }
}

/// The first `n` states after the cleanup.
pub open spec fn cleaned_upto(
    states: Seq<StateView>,
    n: int,
    retention: nat,
    current: u128,
) -> Seq<StateView>
    decreases n,
{
    if n <= 0 {
        Seq::<StateView>::empty()
    } else {
        let before = cleaned_upto(states, n - 1, retention, current);
        if is_retained(states, n - 1, retention, current) {
            before.push(after_cleanup(states, n - 1, retention, current))
        } else {
            before
        }
    }
}

/// The states after a cleanup that keeps the `retention` most recent states
/// and the current one.
pub open spec fn cleaned(states: Seq<StateView>, retention: nat, current: u128) -> Seq<StateView> {
    cleaned_upto(states, states.len() as int, retention, current)
}

/// The identifiers of those of the first `n` states that do not outlive
/// the cleanup, oldest first.
pub open spec fn forgotten_upto(
    states: Seq<StateView>,
    n: int,
    retention: nat,
    current: u128,
) -> Seq<u128>
    decreases n,
{
    if n <= 0 {
        Seq::<u128>::empty()
    } else {
        let before = forgotten_upto(states, n - 1, retention, current);
        if is_retained(states, n - 1, retention, current) {
            before
        } else {
            before.push(states[n - 1].id)
        }
    }
}

/// The identifiers of the states that a cleanup removes, oldest first.
pub open spec fn forgotten(states: Seq<StateView>, retention: nat, current: u128) -> Seq<u128> {
    forgotten_upto(states, states.len() as int, retention, current)
}

/// What is in the cleaned states: exactly the states that are retained.
proof fn lemma_cleaned_members(states: Seq<StateView>, n: int, retention: nat, current: u128)
    requires
        0 <= n <= states.len(),
    ensures
        forall|x: int|
            0 <= x < cleaned_upto(states, n, retention, current).len() ==> exists|k: int|
                0 <= k < n && is_retained(states, k, retention, current) && #[trigger] cleaned_upto(
                    states,
                    n,
                    retention,
                    current,
                )[x] == after_cleanup(states, k, retention, current),
        forall|k: int|
            0 <= k < n && is_retained(states, k, retention, current) ==> has_state(
                cleaned_upto(states, n, retention, current),
                (#[trigger] states[k]).id,
            ),
    decreases n,
{
    if n > 0 {
        lemma_cleaned_members(states, n - 1, retention, current);
        let before = cleaned_upto(states, n - 1, retention, current);
        let now = cleaned_upto(states, n, retention, current);
        assert forall|x: int| 0 <= x < now.len() implies exists|k: int|
            0 <= k < n && is_retained(states, k, retention, current) && #[trigger] now[x]
                == after_cleanup(states, k, retention, current) by {
            if x < before.len() {
                let k = choose|k: int|
                    0 <= k < n - 1 && is_retained(states, k, retention, current) && before[x]
                        == after_cleanup(states, k, retention, current);
                assert(now[x] == before[x]);
            } else {
                assert(now[x] == after_cleanup(states, n - 1, retention, current));
            }
        }
        assert forall|k: int|
            0 <= k < n && is_retained(states, k, retention, current) implies has_state(
            now,
            (#[trigger] states[k]).id,
        ) by {
            if k < n - 1 {
                assert(has_state(before, states[k].id));
                let x = choose|x: int| 0 <= x < before.len() && (#[trigger] before[x]).id == states[k].id;
                assert(now[x] == before[x]);
            } else {
                assert(now[now.len() - 1].id == states[k].id);
            }
        }
    }
}

/// A cleanup leaves the states and the pointer consistent.
pub proof fn law_cleanup_keeps_consistency(states: Seq<StateView>, retention: nat, current: u128)
    requires
        consistent(states, current),
    ensures
        consistent(cleaned(states, retention, current), current),
{
    let out = cleaned(states, retention, current);
    let n = states.len() as int;
    lemma_cleaned_members(states, n, retention, current);
    let c = choose|c: int| 0 <= c < states.len() && (#[trigger] states[c]).id == current;
    assert(is_retained(states, c, retention, current));
    assert(has_state(out, current));
    lemma_cleaned_distinct(states, n, retention, current);
    assert forall|i: int| 0 <= i < out.len() implies match (#[trigger] out[i]).parent_id {
        Some(p) => has_state(out, p),
        None => true,
    } by {
        let k = choose|k: int|
            0 <= k < n && is_retained(states, k, retention, current) && out[i] == after_cleanup(
                states,
                k,
                retention,
                current,
            );
        match out[i].parent_id {
            Some(p) => {
                assert(id_retained(states, p, retention, current));
                let j = choose|j: int|
                    is_retained(states, j, retention, current) && (#[trigger] states[j]).id == p;
                assert(has_state(out, states[j].id));
            },
            None => {},
        }
    }
}

/// The cleaned states have different identifiers, as the states had.
proof fn lemma_cleaned_distinct(states: Seq<StateView>, n: int, retention: nat, current: u128)
    requires
        0 <= n <= states.len(),
        forall|i: int, j: int|
            0 <= i < states.len() && 0 <= j < states.len() && i != j ==> (#[trigger] states[i]).id
                != (#[trigger] states[j]).id,
    ensures
        forall|i: int, j: int|
            0 <= i < cleaned_upto(states, n, retention, current).len() && 0 <= j < cleaned_upto(
                states,
                n,
                retention,
                current,
            ).len() && i != j ==> (#[trigger] cleaned_upto(states, n, retention, current)[i]).id
                != (#[trigger] cleaned_upto(states, n, retention, current)[j]).id,
    decreases n,
{
    if n > 0 {
        lemma_cleaned_distinct(states, n - 1, retention, current);
        lemma_cleaned_members(states, n - 1, retention, current);
        let before = cleaned_upto(states, n - 1, retention, current);
        let now = cleaned_upto(states, n, retention, current);
        assert forall|i: int, j: int|
            0 <= i < now.len() && 0 <= j < now.len() && i != j implies (#[trigger] now[i]).id != (
        #[trigger] now[j]).id by {
            if i < before.len() && j < before.len() {
                assert(now[i] == before[i] && now[j] == before[j]);
            } else if i < before.len() {
                let k = choose|k: int|
                    0 <= k < n - 1 && is_retained(states, k, retention, current) && before[i]
                        == after_cleanup(states, k, retention, current);
                assert(now[i] == before[i]);
                assert(now[j].id == states[n - 1].id);
                assert(states[k].id != states[n - 1].id);
            } else if j < before.len() {
                let k = choose|k: int|
                    0 <= k < n - 1 && is_retained(states, k, retention, current) && before[j]
                        == after_cleanup(states, k, retention, current);
                assert(now[j] == before[j]);
                assert(now[i].id == states[n - 1].id);
                assert(states[k].id != states[n - 1].id);
            }
        }
    }
}

impl StateDb {
    /// Forgets old states: the `retention` most recent states and the
    /// current state stay, the others go. A state whose parent goes becomes
    /// a root. Returns the identifiers of the states that went, oldest
    /// first. While a transaction is under way nothing is forgotten.
    pub fn cleanup_old_states(&mut self, retention: usize) -> (r: Result<Vec<u128>, StateError>)
        requires
            old(self).wf(),
        ensures
            final(self).wf(),
            final(self).current_view() == old(self).current_view(),
            final(self).pending_view() == old(self).pending_view(),
            match r {
                Ok(removed) => old(self).pending_view() is None && final(self).states_view()
                    == cleaned(
                    old(self).states_view(),
                    retention as nat,
                    old(self).current_view(),
                ) && removed@ == forgotten(
                    old(self).states_view(),
                    retention as nat,
                    old(self).current_view(),
                ) && removed@.len() + final(self).states_view().len() == old(self).states_view().len() && forall|k: int|
                    0 <= k < removed@.len() ==> has_state(
                        old(self).states_view(),
                        #[trigger] removed@[k],
                    ) && !id_retained(
                        old(self).states_view(),
                        removed@[k],
                        retention as nat,
                        old(self).current_view(),
                    ),
                Err(e) => e == StateError::TransactionPending && old(self).pending_view() is Some
                    && final(self).states_view() == old(self).states_view(),
            },
    {
        if self.pending.is_some() {
            return Err(StateError::TransactionPending);
        }
        let ghost all = self.states_view();
        let ghost keep = retention as nat;
        let current = self.current;
        let n = self.states.len();
        let from: usize = if retention >= n {
            0
        } else {
            n - retention
        };
        let mut kept: Vec<StateRecord> = Vec::new();
        let mut removed: Vec<u128> = Vec::new();
        let mut i: usize = 0;
        while i < n
            invariant
                i <= n,
                n == self.states@.len(),
                all == self.states_view(),
                keep == retention as nat,
                current == self.current,
                self.wf(),
                self.pending is None,
                from as int == if retention >= n {
                    0
                } else {
                    n - retention
                },
                state_views(kept@) == cleaned_upto(all, i as int, keep, current),
                removed@.len() + kept@.len() == i,
                removed@ == forgotten_upto(all, i as int, keep, current),
                forall|k: int|
                    0 <= k < removed@.len() ==> has_state(all, #[trigger] removed@[k])
                        && !id_retained(all, removed@[k], keep, current),
            decreases n - i,
        {
            let state = &self.states[i];
            assert(all[i as int] == state@);
            if i >= from || state.id == current {
                let parent = match state.parent_id {
                    Some(p) => match self.find(p) {
                        Some(j) => {
                            if j >= from || self.states[j].id == current {
                                assert(is_retained(all, j as int, keep, current));
                                Some(p)
                            } else {
                                proof {
                                    assert forall|x: int|
                                        is_retained(all, x, keep, current) implies (
                                    #[trigger] all[x]).id != p by {
                                        if all[x].id == p {
                                            assert(x == j);
                                        }
                                    }
                                }
                                None
                            }
                        },
                        None => None,
                    },
                    None => None,
                };
                let record = StateRecord {
                    id: state.id,
                    parent_id: parent,
                    timestamp: state.timestamp,
                    packages: copy_ids(&state.packages),
                };
                assert(record@ == after_cleanup(all, i as int, keep, current));
                let ghost before = kept@;
                kept.push(record);
                assert(state_views(kept@) == state_views(before).push(record@));
            } else {
                proof {
                    assert forall|x: int| is_retained(all, x, keep, current) implies (
                    #[trigger] all[x]).id != state.id by {
                        if all[x].id == state.id {
                            assert(x == i);
                        }
                    }
                }
                removed.push(state.id);
            }
            i += 1;
        }
        proof {
            law_cleanup_keeps_consistency(all, keep, current);
        }
        self.states = kept;
        Ok(removed)
    }
}


/// The parent of a new current state is the state that was current before:
/// activating a prepared state keeps every recorded state, adds the
/// prepared one, which points back to the state that was current, and
/// leaves the states and the pointer consistent.
pub proof fn law_activation_links_to_previous_current(
    states: Seq<StateView>,
    current: u128,
    prepared: StateView,
)
    requires
        consistent(states, current),
        !has_state(states, prepared.id),
        prepared.parent_id == Some(current),
    ensures
        consistent(states.push(prepared), prepared.id),
        states.push(prepared).last().id == prepared.id,
        states.push(prepared).last().parent_id == Some(current),
        forall|i: int| 0 <= i < states.len() ==> states.push(prepared)[i] == #[trigger] states[i],
{
    let after = states.push(prepared);
    assert(after[after.len() - 1].id == prepared.id);
    assert forall|i: int| 0 <= i < after.len() implies match (#[trigger] after[i]).parent_id {
        Some(p) => has_state(after, p),
        None => true,
    } by {
        match after[i].parent_id {
            Some(p) => {
                if i < states.len() {
                    assert(after[i] == states[i]);
                }
                assert(has_state(states, p));
                let j = choose|j: int| 0 <= j < states.len() && (#[trigger] states[j]).id == p;
                assert(after[j].id == p);
            },
            None => {},
        }
    }
    assert forall|i: int, j: int|
        0 <= i < after.len() && 0 <= j < after.len() && i != j implies (#[trigger] after[i]).id != (
    #[trigger] after[j]).id by {
        if i < states.len() && j < states.len() {
            assert(after[i] == states[i] && after[j] == states[j]);
        } else if i < states.len() {
            assert(after[i] == states[i]);
        } else {
            assert(after[j] == states[j]);
        }
    }
}

/// A rollback changes nothing but the pointer, and leaves the states and
/// the pointer consistent.
pub proof fn law_rollback_keeps_consistency(states: Seq<StateView>, current: u128, target: u128)
    requires
        consistent(states, current),
        has_state(states, target),
    ensures
        consistent(states, target),
{
}


/// The steps of a transaction, in the order in which they are taken.
#[derive(Clone, Copy, Debug, PartialEq, Eq, Structural)]
pub enum TransactionStep {
    /// The state lock is taken.
    Lock,
    /// The target package set is computed.
    ComputeTarget,
    /// Every store object of the target set is made present.
    EnsureObjects,
    /// The new state directory is made of links to store objects.
    Materialize,
    /// The new state is recorded.
    Record,
    /// The live prefix is switched to the new state.
    Activate,
    /// The state lock is given back.
    Unlock,
    /// The guard verifies the new state.
    Verify,
    /// States and objects that are no longer kept are removed.
    Collect,
}

/// The place of a step in a transaction, counted from 1.
pub open spec fn step_number(step: TransactionStep) -> nat {
    match step {
        TransactionStep::Lock => 1,
        TransactionStep::ComputeTarget => 2,
        TransactionStep::EnsureObjects => 3,
        TransactionStep::Materialize => 4,
        TransactionStep::Record => 5,
        TransactionStep::Activate => 6,
        TransactionStep::Unlock => 7,
        TransactionStep::Verify => 8,
        TransactionStep::Collect => 9,
    }
}

/// The step that follows `step`, if any does.
pub open spec fn step_after(step: TransactionStep) -> Option<TransactionStep> {
    match step {
        TransactionStep::Lock => Some(TransactionStep::ComputeTarget),
        TransactionStep::ComputeTarget => Some(TransactionStep::EnsureObjects),
        TransactionStep::EnsureObjects => Some(TransactionStep::Materialize),
        TransactionStep::Materialize => Some(TransactionStep::Record),
        TransactionStep::Record => Some(TransactionStep::Activate),
        TransactionStep::Activate => Some(TransactionStep::Unlock),
        TransactionStep::Unlock => Some(TransactionStep::Verify),
        TransactionStep::Verify => Some(TransactionStep::Collect),
        TransactionStep::Collect => None,
    }
}

/// What a transaction does when it is cancelled.
#[derive(Clone, Copy, Debug, PartialEq, Eq, Structural)]
pub enum Cancellation {
    /// It finishes recording and then stops: the live prefix is not
    /// switched.
    StopBeforeActivation,
    /// It runs to its end: the live prefix has been switched already.
    Complete,
}

/// What a transaction does when it is cancelled after `done`, the last step
/// that it has finished, or before any step when there is none: it stops
/// without switching the live prefix, unless that has happened.
pub open spec fn cancellation_after(done: Option<TransactionStep>) -> Cancellation {
    match done {
        Some(step) => if step_number(step) >= 6 {
            Cancellation::Complete
        } else {
            Cancellation::StopBeforeActivation
        },
        None => Cancellation::StopBeforeActivation,
    }
}

impl TransactionStep {
    /// The first step.
    pub fn first() -> (step: TransactionStep)
        ensures
            step == TransactionStep::Lock,
    {
        TransactionStep::Lock
    }

    /// The step that follows this one.
    pub fn next(self) -> (r: Option<TransactionStep>)
        ensures
            r == step_after(self),
    {
        match self {
            TransactionStep::Lock => Some(TransactionStep::ComputeTarget),
            TransactionStep::ComputeTarget => Some(TransactionStep::EnsureObjects),
            TransactionStep::EnsureObjects => Some(TransactionStep::Materialize),
            TransactionStep::Materialize => Some(TransactionStep::Record),
            TransactionStep::Record => Some(TransactionStep::Activate),
            TransactionStep::Activate => Some(TransactionStep::Unlock),
            TransactionStep::Unlock => Some(TransactionStep::Verify),
            TransactionStep::Verify => Some(TransactionStep::Collect),
            TransactionStep::Collect => None,
        }
    }

    /// Whether the live prefix has been switched once this step is done.
    pub fn is_past_activation(self) -> (r: bool)
        ensures
            r == (step_number(self) >= 6),
    {
        match self {
            TransactionStep::Lock
            | TransactionStep::ComputeTarget
            | TransactionStep::EnsureObjects
            | TransactionStep::Materialize
            | TransactionStep::Record => false,
            _ => true,
        }
    }
}

/// Decides what a cancelled transaction does.
pub fn on_cancellation(done: Option<TransactionStep>) -> (c: Cancellation)
    ensures
        c == cancellation_after(done),
{
    match done {
        Some(step) => {
            if step.is_past_activation() {
                Cancellation::Complete
            } else {
                Cancellation::StopBeforeActivation
            }
        },
        None => Cancellation::StopBeforeActivation,
    }
}

/// The steps of a transaction follow one another in strict sequence: each
/// step is followed by the step with the next number, and the ninth step is
/// the last.
pub proof fn law_steps_are_in_sequence(step: TransactionStep)
    ensures
        match step_after(step) {
            Some(next) => step_number(next) == step_number(step) + 1,
            None => step_number(step) == 9,
        },
        1 <= step_number(step) <= 9,
{
}

} // verus!
