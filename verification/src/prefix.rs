//! The states with their files: the state engine, the store, and for each
//! state the tree of files that materialises it.
//!
//! A state is made in two steps. It is prepared: its tree is built by
//! linking every file of every package from the object with the hash of
//! the file, while the recorded states, the current state, the live link
//! and the trees of the recorded states stay as they are. Then it is made
//! current in one step. Whatever happens before that step leaves nothing
//! that can be observed; a restart drops what was prepared.

use crate::graph::{ids, PackageId, PackageIdView};
use crate::seq_lemmas::{lemma_filter_member, lemma_filter_same};
use crate::state::{
    after_cleanup, cleaned, cleaned_upto, forgotten, has_state, is_retained, StateDb, StateError,
    StateView,
};
use crate::store::{is_root, linked_at, linked_paths, ContentStore, LinkedFile, PackageManifest};
use crate::text::{lemma_position_is, lemma_position_of, push_text, same_text, texts};
use crate::version::render;
use vstd::prelude::*;

verus! {

/// A file of a package as a plain value: its path and the hash of its
/// content.
pub struct FileView {
    pub path: Seq<char>,
    pub hash: Seq<char>,
}

/// Paths with hashes as plain values.
pub open spec fn file_views(v: Seq<LinkedFile>) -> Seq<FileView> {
    Seq::new(v.len(), |i: int| FileView { path: v[i].path@, hash: v[i].hash@ })
}

/// The files of one manifest, in order.
pub open spec fn files_of(m: PackageManifest) -> Seq<FileView> {
    Seq::new(m.files@.len(), |i: int| FileView { path: m.files@[i].path@, hash: m.files@[i].hash@ })
}

/// The files of the first `n` manifests, in order.
pub open spec fn files_upto(manifests: Seq<PackageManifest>, n: int) -> Seq<FileView>
    decreases n,
{
    if n <= 0 {
        Seq::<FileView>::empty()
    } else {
        files_upto(manifests, n - 1) + files_of(manifests[n - 1])
    }
}

/// The files of all the manifests, in order.
pub open spec fn all_files(manifests: Seq<PackageManifest>) -> Seq<FileView> {
    files_upto(manifests, manifests.len() as int)
}

/// Whether the tree holds the first `n` files and nothing else: each of
/// them is linked to the object with its hash, and every path of the tree
/// is the path of one of them.
pub open spec fn holds_upto(tree: Seq<LinkedFile>, files: Seq<FileView>, n: int) -> bool {
    &&& forall|k: int|
        0 <= k < n ==> linked_at(tree, (#[trigger] files[k]).path) == Some(files[k].hash)
    &&& forall|path: Seq<char>| #[trigger]
        linked_at(tree, path) is Some ==> exists|k: int|
            0 <= k < n && (#[trigger] files[k]).path == path
}

/// Whether the tree holds exactly the files.
pub open spec fn holds(tree: Seq<LinkedFile>, files: Seq<FileView>) -> bool {
    holds_upto(tree, files, files.len() as int)
}

/// Whether the store has the object of each of the first `n` files.
pub open spec fn stored_upto(objects: Seq<Seq<char>>, files: Seq<FileView>, n: int) -> bool {
    forall|k: int| 0 <= k < n ==> objects.contains((#[trigger] files[k]).hash)
}

/// Whether the store has the object of every file.
pub open spec fn stored(objects: Seq<Seq<char>>, files: Seq<FileView>) -> bool {
    stored_upto(objects, files, files.len() as int)
}

/// Why the files of a state cannot be linked.
#[derive(Clone, Debug, PartialEq, Eq)]
pub enum FileProblem {
    /// The store has no object with the hash of a file.
    MissingObject { hash: String },
    /// Two packages have a file at the same path with different content.
    ConflictingFiles { path: String },
}

/// A problem as a plain value.
pub enum ProblemView {
    MissingObject { hash: Seq<char> },
    ConflictingFiles { path: Seq<char> },
}

impl View for FileProblem {
    type V = ProblemView;

    open spec fn view(&self) -> ProblemView {
        match self {
            FileProblem::MissingObject { hash } => ProblemView::MissingObject { hash: hash@ },
            FileProblem::ConflictingFiles { path } => ProblemView::ConflictingFiles { path: path@ },
        }
    }
}

/// Whether the file at position `k` clashes with an earlier one: the same
/// path with another hash.
pub open spec fn clashes(files: Seq<FileView>, k: int) -> bool {
    exists|j: int|
        0 <= j < k && (#[trigger] files[j]).path == files[k].path && files[j].hash != files[k].hash
}

/// What is wrong with the file at position `k`, if anything: its object is
/// missing, or it clashes with an earlier file.
pub open spec fn file_problem(files: Seq<FileView>, objects: Seq<Seq<char>>, k: int) -> Option<
    ProblemView,
> {
    if !objects.contains(files[k].hash) {
        Some(ProblemView::MissingObject { hash: files[k].hash })
    } else if clashes(files, k) {
        Some(ProblemView::ConflictingFiles { path: files[k].path })
    } else {
        None
    }
}

/// The first problem among the first `n` files.
pub open spec fn problem_upto(files: Seq<FileView>, objects: Seq<Seq<char>>, n: int) -> Option<
    ProblemView,
>
    decreases n,
{
    if n <= 0 {
        None
    } else {
        match problem_upto(files, objects, n - 1) {
            Some(p) => Some(p),
            None => file_problem(files, objects, n - 1),
        }
    }
}

/// The first problem among the files.
pub open spec fn first_problem(files: Seq<FileView>, objects: Seq<Seq<char>>) -> Option<
    ProblemView,
> {
    problem_upto(files, objects, files.len() as int)
}

/// The first problem stays the first when more files follow.
proof fn lemma_problem_stays(files: Seq<FileView>, objects: Seq<Seq<char>>, n: int, m: int)
    requires
        0 <= n <= m,
        problem_upto(files, objects, n) is Some,
    ensures
        problem_upto(files, objects, m) == problem_upto(files, objects, n),
    decreases m - n,
{
    if n < m {
        lemma_problem_stays(files, objects, n, m - 1);
    }
}

/// The files of the manifests in one list.
pub fn flatten(manifests: &Vec<PackageManifest>) -> (out: Vec<LinkedFile>)
    ensures
        file_views(out@) == all_files(manifests@),
{
    let mut out: Vec<LinkedFile> = Vec::new();
    let mut m: usize = 0;
    assert(file_views(out@) == files_upto(manifests@, 0));
    while m < manifests.len()
        invariant
            m <= manifests.len(),
            file_views(out@) == files_upto(manifests@, m as int),
        decreases manifests.len() - m,
    {
        let files = &manifests[m].files;
        let ghost before = file_views(out@);
        let ghost these = files_of(manifests@[m as int]);
        let mut f: usize = 0;
        assert(file_views(out@) == before + these.take(0));
        while f < files.len()
            invariant
                m < manifests.len(),
                f <= files.len(),
                files@ == manifests@[m as int].files@,
                these == files_of(manifests@[m as int]),
                file_views(out@) == before + these.take(f as int),
            decreases files.len() - f,
        {
            let ghost so_far = out@;
            out.push(LinkedFile { path: files[f].path.clone(), hash: files[f].hash.clone() });
            assert(file_views(out@) == file_views(so_far).push(these[f as int]));
            assert(these.take(f + 1) == these.take(f as int).push(these[f as int]));
            assert(before + these.take(f + 1) == (before + these.take(f as int)).push(
                these[f as int],
            ));
            f += 1;
        }
        assert(these.take(files.len() as int) == these);
        m += 1;
    }
    out
}

/// The place in the tree of the file at `path`.
fn link_at(tree: &Vec<LinkedFile>, path: &str) -> (r: Option<usize>)
    ensures
        match r {
            Some(k) => k < tree.len() && linked_at(tree@, path@) == Some(tree@[k as int].hash@),
            None => linked_at(tree@, path@) is None,
        },
{
    let ghost paths = linked_paths(tree@);
    let mut i: usize = 0;
    while i < tree.len()
        invariant
            i <= tree.len(),
            paths == linked_paths(tree@),
            forall|j: int| 0 <= j < i ==> #[trigger] paths[j] != path@,
        decreases tree.len() - i,
    {
        if same_text(tree[i].path.as_str(), path) {
            proof {
                lemma_position_is(paths, path@, i as int);
            }
            return Some(i);
        }
        i += 1;
    }
    proof {
        lemma_position_of(paths, path@);
    }
    None
}

/// Builds the tree of a state: every file is linked from the object with
/// its hash. The first file whose object is missing, or that clashes with
/// an earlier file, ends the attempt.
pub fn materialize(store: &ContentStore, files: &Vec<LinkedFile>) -> (r: Result<
    Vec<LinkedFile>,
    FileProblem,
>)
    ensures
        match r {
            Ok(tree) => first_problem(file_views(files@), store.objects()) is None && holds(
                tree@,
                file_views(files@),
            ) && stored(store.objects(), file_views(files@)),
            Err(problem) => first_problem(file_views(files@), store.objects()) == Some(problem@),
        },
{
    let ghost all = file_views(files@);
    let ghost objects = store.objects();
    let mut tree: Vec<LinkedFile> = Vec::new();
    let mut n: usize = 0;
    proof {
        lemma_position_of(linked_paths(tree@), Seq::<char>::empty());
        assert forall|path: Seq<char>| linked_at(tree@, path) is None by {
            lemma_position_of(linked_paths(tree@), path);
        }
    }
    while n < files.len()
        invariant
            n <= files.len(),
            all == file_views(files@),
            objects == store.objects(),
            problem_upto(all, objects, n as int) is None,
            holds_upto(tree@, all, n as int),
            stored_upto(objects, all, n as int),
        decreases files.len() - n,
    {
        let file = &files[n];
        assert(all[n as int] == (FileView { path: file.path@, hash: file.hash@ }));
        if !store.has_object(file.hash.as_str()) {
            proof {
                assert(problem_upto(all, objects, n + 1) == file_problem(all, objects, n as int));
                lemma_problem_stays(all, objects, n + 1, all.len() as int);
            }
            return Err(FileProblem::MissingObject { hash: file.hash.clone() });
        }
        let ghost before = tree@;
        match link_at(&tree, file.path.as_str()) {
            Some(k) => {
                if !same_text(tree[k].hash.as_str(), file.hash.as_str()) {
                    proof {
                        let j = choose|j: int| 0 <= j < n && (#[trigger] all[j]).path == file.path@;
                        assert(linked_at(before, all[j].path) == Some(all[j].hash));
                        assert(clashes(all, n as int));
                        assert(problem_upto(all, objects, n + 1) == file_problem(
                            all,
                            objects,
                            n as int,
                        ));
                        lemma_problem_stays(all, objects, n + 1, all.len() as int);
                    }
                    return Err(FileProblem::ConflictingFiles { path: file.path.clone() });
                }
                proof {
                    assert(!clashes(all, n as int)) by {
                        if clashes(all, n as int) {
                            let j = choose|j: int|
                                0 <= j < n && (#[trigger] all[j]).path == all[n as int].path
                                    && all[j].hash != all[n as int].hash;
                            assert(linked_at(before, all[j].path) == Some(all[j].hash));
                        }
                    }
                }
            },
            None => {
                proof {
                    assert(!clashes(all, n as int)) by {
                        if clashes(all, n as int) {
                            let j = choose|j: int|
                                0 <= j < n && (#[trigger] all[j]).path == all[n as int].path
                                    && all[j].hash != all[n as int].hash;
                            assert(linked_at(before, all[j].path) == Some(all[j].hash));
                        }
                    }
                }
                match store.link_into(&mut tree, file.hash.as_str(), file.path.as_str()) {
                    Ok(_) => {},
                    Err(_) => {
                        assert(false);
                    },
                }
            },
        }
        proof {
            assert forall|k: int| 0 <= k < n + 1 implies linked_at(tree@, (#[trigger] all[k]).path)
                == Some(all[k].hash) by {
                if k < n {
                    assert(linked_at(before, all[k].path) == Some(all[k].hash));
                }
            }
            assert forall|path: Seq<char>| #[trigger]
                linked_at(tree@, path) is Some implies exists|k: int|
                0 <= k < n + 1 && (#[trigger] all[k]).path == path by {
                if path == file.path@ {
                    assert(all[n as int].path == path);
                } else {
                    assert(linked_at(before, path) is Some);
                    let k = choose|k: int| 0 <= k < n && (#[trigger] all[k]).path == path;
                    assert(all[k].path == path);
                }
            }
        }
        n += 1;
    }
    Ok(tree)
}

/// Whether the manifests are those of the packages: one for each, in
/// order, with the name and the version of the package.
pub open spec fn describe(packages: Seq<PackageIdView>, manifests: Seq<PackageManifest>) -> bool {
    packages.len() == manifests.len() && forall|i: int|
        0 <= i < packages.len() ==> (#[trigger] manifests[i]).name@ == packages[i].name
            && manifests[i].version@ == render(packages[i].version)
}

/// Tells whether the manifests are those of the packages.
pub fn describes(packages: &Vec<PackageId>, manifests: &Vec<PackageManifest>) -> (r: bool)
    ensures
        r == describe(ids(packages@), manifests@),
{
    if packages.len() != manifests.len() {
        return false;
    }
    let mut i: usize = 0;
    while i < packages.len()
        invariant
            i <= packages.len(),
            packages.len() == manifests.len(),
            forall|k: int|
                0 <= k < i ==> (#[trigger] manifests@[k]).name@ == ids(packages@)[k].name
                    && manifests@[k].version@ == render(ids(packages@)[k].version),
        decreases packages.len() - i,
    {
        assert(ids(packages@)[i as int] == packages@[i as int]@);
        let version = packages[i].version.to_string();
        if !same_text(manifests[i].name.as_str(), packages[i].name.as_str()) || !same_text(
            manifests[i].version.as_str(),
            version.as_str(),
        ) {
            assert(!(manifests@[i as int].name@ == ids(packages@)[i as int].name
                && manifests@[i as int].version@ == render(ids(packages@)[i as int].version)));
            return false;
        }
        i += 1;
    }
    true
}

/// A state made of files: the manifests of its packages and the tree that
/// holds their files.
#[derive(Debug)]
pub struct Materialized {
    pub id: u128,
    pub manifests: Vec<PackageManifest>,
    pub tree: Vec<LinkedFile>,
}

/// Whether the tree is that of the state: it has the identifier of the
/// state and the manifests of its packages, it holds exactly their files,
/// and the store has the object of each.
pub open spec fn sound(t: Materialized, s: StateView, objects: Seq<Seq<char>>) -> bool {
    &&& t.id == s.id
    &&& describe(s.packages, t.manifests@)
    &&& holds(t.tree@, all_files(t.manifests@))
    &&& stored(objects, all_files(t.manifests@))
}

/// Why a state could not be prepared.
#[derive(Clone, Debug, PartialEq, Eq)]
pub enum CommitError {
    /// The state engine refused.
    State(StateError),
    /// The manifests are not those of the packages.
    PackagesMismatch,
    /// The files could not be linked.
    Files(FileProblem),
}

/// An error as a plain value.
pub enum CommitErrorView {
    State(StateError),
    PackagesMismatch,
    Files(ProblemView),
}

impl View for CommitError {
    type V = CommitErrorView;

    open spec fn view(&self) -> CommitErrorView {
        match self {
            CommitError::State(e) => CommitErrorView::State(*e),
            CommitError::PackagesMismatch => CommitErrorView::PackagesMismatch,
            CommitError::Files(p) => CommitErrorView::Files(p@),
        }
    }
}

/// The states with their files.
#[derive(Debug)]
pub struct Prefix {
    /// The state engine.
    pub states: StateDb,
    /// The store that the files are linked from.
    pub store: ContentStore,
    /// The tree of each recorded state, in the order of the states.
    pub trees: Vec<Materialized>,
    /// The tree of the state that a transaction has prepared.
    pub prepared: Option<Materialized>,
    /// The state that the live link points at.
    pub live: u128,
}

/// The trees of those of the first `n` states that outlive a cleanup.
pub open spec fn retained_trees_upto(
    trees: Seq<Materialized>,
    states: Seq<StateView>,
    n: int,
    retention: nat,
    current: u128,
) -> Seq<Materialized>
    decreases n,
{
    if n <= 0 {
        Seq::<Materialized>::empty()
    } else {
        let before = retained_trees_upto(trees, states, n - 1, retention, current);
        if is_retained(states, n - 1, retention, current) {
            before.push(trees[n - 1])
        } else {
            before
        }
    }
}

/// The trees of the states that outlive a cleanup.
pub open spec fn retained_trees(
    trees: Seq<Materialized>,
    states: Seq<StateView>,
    retention: nat,
    current: u128,
) -> Seq<Materialized> {
    retained_trees_upto(trees, states, states.len() as int, retention, current)
}

/// The trees that outlive a cleanup are those of the states that outlive
/// it, each in its place.
proof fn lemma_retained_trees_fit(
    trees: Seq<Materialized>,
    states: Seq<StateView>,
    n: int,
    retention: nat,
    current: u128,
    objects: Seq<Seq<char>>,
)
    requires
        0 <= n <= states.len(),
        trees.len() == states.len(),
        forall|i: int| 0 <= i < trees.len() ==> sound(#[trigger] trees[i], states[i], objects),
    ensures
        retained_trees_upto(trees, states, n, retention, current).len() == cleaned_upto(
            states,
            n,
            retention,
            current,
        ).len(),
        forall|k: int|
            0 <= k < retained_trees_upto(trees, states, n, retention, current).len() ==> sound(
                #[trigger] retained_trees_upto(trees, states, n, retention, current)[k],
                cleaned_upto(states, n, retention, current)[k],
                objects,
            ),
    decreases n,
{
    if n > 0 {
        lemma_retained_trees_fit(trees, states, n - 1, retention, current, objects);
        let before = retained_trees_upto(trees, states, n - 1, retention, current);
        let now = retained_trees_upto(trees, states, n, retention, current);
        let states_before = cleaned_upto(states, n - 1, retention, current);
        let states_now = cleaned_upto(states, n, retention, current);
        assert(sound(trees[n - 1], states[n - 1], objects));
        assert forall|k: int| 0 <= k < now.len() implies sound(
            #[trigger] now[k],
            states_now[k],
            objects,
        ) by {
            if k < before.len() {
                assert(now[k] == before[k]);
                assert(states_now[k] == states_before[k]);
            } else {
                assert(now[k] == trees[n - 1]);
                assert(states_now[k] == after_cleanup(states, n - 1, retention, current));
            }
        }
    }
}

/// The hashes of the files, in order.
pub open spec fn hashes_of(files: Seq<FileView>) -> Seq<Seq<char>> {
    Seq::new(files.len(), |k: int| files[k].hash)
}

/// The hashes that the first `n` trees refer to, in order.
pub open spec fn roots_upto(trees: Seq<Materialized>, n: int) -> Seq<Seq<char>>
    decreases n,
{
    if n <= 0 {
        Seq::<Seq<char>>::empty()
    } else {
        roots_upto(trees, n - 1) + hashes_of(all_files(trees[n - 1].manifests@))
    }
}

/// The test "a file of a package of one of the states has this hash".
pub open spec fn is_needed(trees: Seq<Materialized>) -> spec_fn(Seq<char>) -> bool {
    |hash: Seq<char>| roots_upto(trees, trees.len() as int).contains(hash)
}

/// The hashes that the trees refer to are the hashes of the files of their
/// packages.
pub proof fn lemma_roots(trees: Seq<Materialized>, n: int, hash: Seq<char>)
    requires
        0 <= n <= trees.len(),
    ensures
        roots_upto(trees, n).contains(hash) <==> exists|i: int, k: int|
            0 <= i < n && 0 <= k < all_files(trees[i].manifests@).len() && (#[trigger] all_files(
                trees[i].manifests@,
            )[k]).hash == hash,
    decreases n,
{
    if n > 0 {
        lemma_roots(trees, n - 1, hash);
        let before = roots_upto(trees, n - 1);
        let files = all_files(trees[n - 1].manifests@);
        let last = hashes_of(files);
        let now = roots_upto(trees, n);
        assert(now == before + last);
        if now.contains(hash) {
            let x = choose|x: int| 0 <= x < now.len() && now[x] == hash;
            if x < before.len() {
                assert(before[x] == hash);
                assert(before.contains(hash));
            } else {
                let k = x - before.len();
                assert(last[k] == hash);
                assert(all_files(trees[n - 1].manifests@)[k].hash == hash);
            }
        }
        if exists|i: int, k: int|
            0 <= i < n && 0 <= k < all_files(trees[i].manifests@).len() && (#[trigger] all_files(
                trees[i].manifests@,
            )[k]).hash == hash {
            let (i, k) = choose|i: int, k: int|
                0 <= i < n && 0 <= k < all_files(trees[i].manifests@).len() && (
                #[trigger] all_files(trees[i].manifests@)[k]).hash == hash;
            if i < n - 1 {
                assert(before.contains(hash));
                let x = choose|x: int| 0 <= x < before.len() && before[x] == hash;
                assert(now[x] == hash);
            } else {
                assert(last[k] == hash);
                assert(now[before.len() + k] == hash);
            }
        }
    }
}

/// The store keeps what it has when an object is added.
proof fn lemma_stored_grows(
    objects: Seq<Seq<char>>,
    more: Seq<Seq<char>>,
    files: Seq<FileView>,
)
    requires
        stored(objects, files),
        forall|h: Seq<char>| objects.contains(h) ==> #[trigger] more.contains(h),
    ensures
        stored(more, files),
{
    assert forall|k: int| 0 <= k < files.len() implies more.contains((#[trigger] files[k]).hash) by {
        assert(objects.contains(files[k].hash));
    }
}

impl Prefix {
    /// Whether the files fit the states: the live link points at the
    /// current state; every recorded state has its tree, which holds
    /// exactly the files of its packages, each linked from an object that
    /// the store has; and so has the state that a transaction has prepared.
    pub open spec fn inv(&self) -> bool {
        &&& self.states.wf()
        &&& self.live == self.states.current_view()
        &&& self.trees@.len() == self.states.states_view().len()
        &&& forall|i: int|
            0 <= i < self.trees@.len() ==> sound(
                #[trigger] self.trees@[i],
                self.states.states_view()[i],
                self.store.objects(),
            )
        &&& match self.states.pending_view() {
            Some(p) => self.prepared matches Some(t) && sound(t, p, self.store.objects()),
            None => self.prepared is None,
        }
    }

    /// Why a state with the identifier `id`, the packages and the
    /// manifests cannot be prepared, if it cannot: the state engine
    /// refuses; else the manifests are not those of the packages; else a
    /// file cannot be linked.
    pub open spec fn refusal(
        &self,
        id: u128,
        packages: Seq<PackageIdView>,
        manifests: Seq<PackageManifest>,
    ) -> Option<CommitErrorView> {
        match self.states.refused(id) {
            Some(e) => Some(CommitErrorView::State(e)),
            None => if !describe(packages, manifests) {
                Some(CommitErrorView::PackagesMismatch)
            } else {
                match first_problem(all_files(manifests), self.store.objects()) {
                    Some(p) => Some(CommitErrorView::Files(p)),
                    None => None,
                }
            },
        }
    }

    /// The prefix with one state: the root, which has no packages and no
    /// files, and an empty store.
    pub fn new(root_id: u128, timestamp: i64) -> (p: Prefix)
        ensures
            p.inv(),
            p.states.states_view() == seq![
                StateView {
                    id: root_id,
                    parent_id: None,
                    timestamp,
                    packages: Seq::<PackageIdView>::empty(),
                },
            ],
            p.states.current_view() == root_id,
            p.states.pending_view() is None,
            p.live == root_id,
            p.store.objects() == Seq::<Seq<char>>::empty(),
            p.trees@.len() == 1,
            p.trees@[0].tree@.len() == 0,
    {
        let states = StateDb::new(root_id, timestamp);
        let store = ContentStore::new();
        let root = Materialized { id: root_id, manifests: Vec::new(), tree: Vec::new() };
        let mut trees: Vec<Materialized> = Vec::new();
        proof {
            assert(all_files(root.manifests@) == Seq::<FileView>::empty());
            assert forall|path: Seq<char>| linked_at(root.tree@, path) is None by {
                lemma_position_of(linked_paths(root.tree@), path);
            }
            assert(sound(root, states.states_view()[0], store.objects()));
        }
        trees.push(root);
        Prefix { states, store, trees, prepared: None, live: root_id }
    }

    /// Puts content into the store and returns its hash. States, trees and
    /// the live link stay as they are.
    pub fn put(&mut self, content: &[u8]) -> (hash: String)
        requires
            old(self).inv(),
        ensures
            final(self).inv(),
            hash@ == crate::hash::hex_of(crate::hash::blake3_digest(content@)),
            final(self).store.objects() == if old(self).store.objects().contains(hash@) {
                old(self).store.objects()
            } else {
                old(self).store.objects().push(hash@)
            },
            final(self).states == old(self).states,
            final(self).trees == old(self).trees,
            final(self).prepared == old(self).prepared,
            final(self).live == old(self).live,
    {
        let ghost before = self.store.objects();
        let hash = self.store.put(content);
        proof {
            let after = self.store.objects();
            assert forall|h: Seq<char>| before.contains(h) implies #[trigger] after.contains(h) by {
                let k = choose|k: int| 0 <= k < before.len() && before[k] == h;
                assert(after[k] == h);
            }
            assert forall|i: int| 0 <= i < self.trees@.len() implies sound(
                #[trigger] self.trees@[i],
                self.states.states_view()[i],
                after,
            ) by {
                assert(sound(old(self).trees@[i], self.states.states_view()[i], before));
                lemma_stored_grows(before, after, all_files(self.trees@[i].manifests@));
            }
            if self.prepared is Some {
                lemma_stored_grows(before, after, all_files(self.prepared->Some_0.manifests@));
            }
        }
        hash
    }

    /// Prepares the state `id` with the given packages: its tree is built,
    /// and the state engine holds it ready. Nothing that can be observed
    /// changes: the recorded states, the current state, the live link, the
    /// trees and the store stay as they are. A state that cannot be
    /// prepared leaves no trace at all.
    pub fn prepare(
        &mut self,
        id: u128,
        timestamp: i64,
        packages: Vec<PackageId>,
        manifests: Vec<PackageManifest>,
    ) -> (r: Result<(), CommitError>)
        requires
            old(self).inv(),
        ensures
            final(self).inv(),
            final(self).states.states_view() == old(self).states.states_view(),
            final(self).states.current_view() == old(self).states.current_view(),
            final(self).live == old(self).live,
            final(self).trees == old(self).trees,
            final(self).store == old(self).store,
            match r {
                Ok(_) => old(self).refusal(id, ids(packages@), manifests@) is None
                    && final(self).states.pending_view() == Some(
                    StateView {
                        id,
                        parent_id: Some(old(self).states.current_view()),
                        timestamp,
                        packages: ids(packages@),
                    },
                ) && (final(self).prepared matches Some(t) && t.id == id && t.manifests
                    == manifests),
                Err(e) => old(self).refusal(id, ids(packages@), manifests@) == Some(e@)
                    && final(self).states.pending_view() == old(self).states.pending_view()
                    && final(self).prepared == old(self).prepared,
            },
    {
        if self.states.in_transaction() {
            return Err(CommitError::State(StateError::TransactionPending));
        }
        if self.states.state_exists(id) {
            return Err(CommitError::State(StateError::AlreadyExists { id }));
        }
        if !describes(&packages, &manifests) {
            return Err(CommitError::PackagesMismatch);
        }
        let files = flatten(&manifests);
        let tree = match materialize(&self.store, &files) {
            Ok(tree) => tree,
            Err(problem) => {
                return Err(CommitError::Files(problem));
            },
        };
        let ghost wanted = ids(packages@);
        match self.states.begin(id, timestamp, packages) {
            Ok(_) => {},
            Err(_) => {
                assert(false);
            },
        }
        self.prepared = Some(Materialized { id, manifests, tree });
        Ok(())
    }

    /// Makes the prepared state the current one, in one step: it is
    /// recorded, it becomes current, the live link points at it, and its
    /// tree stands with the trees of the recorded states.
    pub fn flip(&mut self) -> (r: Result<u128, StateError>)
        requires
            old(self).inv(),
        ensures
            final(self).inv(),
            final(self).store == old(self).store,
            final(self).states.pending_view() is None,
            final(self).prepared is None,
            match r {
                Ok(id) => final(self).states.current_view() == id && final(self).live == id && (
                old(self).states.pending_view() matches Some(p) && p.id == id
                    && final(self).states.states_view() == old(self).states.states_view().push(p))
                    && (old(self).prepared matches Some(t) && final(self).trees@ == old(self).trees@.push(t)),
                Err(e) => e == StateError::NoTransaction && old(self).states.pending_view() is None
                    && final(self).states.states_view() == old(self).states.states_view()
                    && final(self).states.current_view() == old(self).states.current_view()
                    && final(self).live == old(self).live && final(self).trees == old(self).trees,
            },
    {
        let id = match self.states.activate() {
            Ok(id) => id,
            Err(e) => {
                return Err(e);
            },
        };
        match self.prepared.take() {
            Some(tree) => {
                self.trees.push(tree);
            },
            None => {
                assert(false);
            },
        }
        self.live = id;
        proof {
            let p = old(self).states.pending_view()->Some_0;
            let now = self.states.states_view();
            assert forall|i: int| 0 <= i < self.trees@.len() implies sound(
                #[trigger] self.trees@[i],
                now[i],
                self.store.objects(),
            ) by {
                if i < old(self).trees@.len() {
                    assert(self.trees@[i] == old(self).trees@[i]);
                    assert(now[i] == old(self).states.states_view()[i]);
                }
            }
        }
        Ok(id)
    }

    /// Drops what a transaction has prepared, as a restart does after an
    /// interruption. Everything that can be observed stays as it is.
    pub fn recover(&mut self)
        requires
            old(self).inv(),
        ensures
            final(self).inv(),
            final(self).states.states_view() == old(self).states.states_view(),
            final(self).states.current_view() == old(self).states.current_view(),
            final(self).states.pending_view() is None,
            final(self).prepared is None,
            final(self).live == old(self).live,
            final(self).trees == old(self).trees,
            final(self).store == old(self).store,
    {
        self.states.abort();
        self.prepared = None;
    }

    /// Makes the state `id` with the given packages and makes it current.
    /// On success the new state is recorded with the state that was
    /// current as its parent, the live link points at it, and its tree
    /// holds exactly the files of its packages. On failure nothing has
    /// changed.
    pub fn commit(
        &mut self,
        id: u128,
        timestamp: i64,
        packages: Vec<PackageId>,
        manifests: Vec<PackageManifest>,
    ) -> (r: Result<(), CommitError>)
        requires
            old(self).inv(),
        ensures
            final(self).inv(),
            final(self).store == old(self).store,
            match r {
                Ok(_) => old(self).refusal(id, ids(packages@), manifests@) is None
                    && final(self).states.states_view() == old(self).states.states_view().push(
                    StateView {
                        id,
                        parent_id: Some(old(self).states.current_view()),
                        timestamp,
                        packages: ids(packages@),
                    },
                ) && final(self).states.current_view() == id && final(self).live == id
                    && final(self).states.pending_view() is None && final(self).trees@.len()
                    == old(self).trees@.len() + 1 && final(self).trees@.take(
                    old(self).trees@.len() as int,
                ) == old(self).trees@ && final(self).trees@.last().id == id && final(self).trees@.last().manifests == manifests,
                Err(e) => old(self).refusal(id, ids(packages@), manifests@) == Some(e@)
                    && final(self).states.states_view() == old(self).states.states_view()
                    && final(self).states.current_view() == old(self).states.current_view()
                    && final(self).states.pending_view() == old(self).states.pending_view()
                    && final(self).live == old(self).live && final(self).trees == old(self).trees
                    && final(self).prepared == old(self).prepared,
            },
    {
        match self.prepare(id, timestamp, packages, manifests) {
            Ok(_) => {},
            Err(e) => {
                return Err(e);
            },
        }
        match self.flip() {
            Ok(_) => {},
            Err(_) => {
                assert(false);
            },
        }
        assert(self.trees@.take(old(self).trees@.len() as int) == old(self).trees@);
        Ok(())
    }

    /// Makes `target` the current state and points the live link at it.
    /// The recorded states, their trees and the store stay as they are.
    pub fn rollback(&mut self, target: u128) -> (r: Result<(), StateError>)
        requires
            old(self).inv(),
        ensures
            final(self).inv(),
            final(self).states.states_view() == old(self).states.states_view(),
            final(self).states.pending_view() == old(self).states.pending_view(),
            final(self).trees == old(self).trees,
            final(self).prepared == old(self).prepared,
            final(self).store == old(self).store,
            match r {
                Ok(_) => old(self).states.pending_view() is None && has_state(
                    old(self).states.states_view(),
                    target,
                ) && final(self).states.current_view() == target && final(self).live == target,
                Err(e) => final(self).states.current_view() == old(self).states.current_view()
                    && final(self).live == old(self).live && e == (
                if old(self).states.pending_view() is Some {
                    StateError::TransactionPending
                } else {
                    StateError::NotFound { id: target }
                }) && (old(self).states.pending_view() is Some || !has_state(
                    old(self).states.states_view(),
                    target,
                )),
            },
    {
        match self.states.rollback(target) {
            Ok(_) => {
                self.live = target;
                Ok(())
            },
            Err(e) => Err(e),
        }
    }

    /// Forgets old states with their trees: the `retention` most recent
    /// states and the current state stay, the others go. Returns the
    /// identifiers of the states that went, oldest first. While a
    /// transaction is under way nothing is forgotten.
    pub fn cleanup(&mut self, retention: usize) -> (r: Result<Vec<u128>, StateError>)
        requires
            old(self).inv(),
        ensures
            final(self).inv(),
            final(self).live == old(self).live,
            final(self).store == old(self).store,
            final(self).prepared == old(self).prepared,
            final(self).states.current_view() == old(self).states.current_view(),
            final(self).states.pending_view() == old(self).states.pending_view(),
            match r {
                Ok(removed) => old(self).states.pending_view() is None
                    && final(self).states.states_view() == cleaned(
                    old(self).states.states_view(),
                    retention as nat,
                    old(self).states.current_view(),
                ) && removed@ == forgotten(
                    old(self).states.states_view(),
                    retention as nat,
                    old(self).states.current_view(),
                ) && final(self).trees@ == retained_trees(
                    old(self).trees@,
                    old(self).states.states_view(),
                    retention as nat,
                    old(self).states.current_view(),
                ),
                Err(e) => e == StateError::TransactionPending && old(self).states.pending_view()
                    is Some && final(self).states.states_view() == old(self).states.states_view()
                    && final(self).trees == old(self).trees,
            },
    {
        let ghost all = self.states.states_view();
        let ghost orig = self.trees@;
        let ghost keep = retention as nat;
        let ghost objects = self.store.objects();
        let current = self.states.current_id();
        let removed = match self.states.cleanup_old_states(retention) {
            Ok(removed) => removed,
            Err(e) => {
                return Err(e);
            },
        };
        let n = self.trees.len();
        let from: usize = if retention >= n {
            0
        } else {
            n - retention
        };
        let mut i: usize = 0;
        let mut j: usize = 0;
        let ghost settled = self.states;
        assert(self.trees@.take(0) == retained_trees_upto(orig, all, 0, keep, current));
        assert(self.trees@.skip(0) == orig.skip(0));
        while j < n
            invariant
                j <= n,
                i <= j,
                n == all.len(),
                orig.len() == n,
                keep == retention as nat,
                from as int == if retention >= n {
                    0
                } else {
                    n - retention
                },
                forall|x: int| 0 <= x < n ==> sound(#[trigger] orig[x], all[x], objects),
                self.states == settled,
                objects == self.store.objects(),
                self.trees@.len() == i + (n - j),
                self.trees@.take(i as int) == retained_trees_upto(orig, all, j as int, keep, current),
                self.trees@.skip(i as int) == orig.skip(j as int),
                self.store == old(self).store,
                self.prepared == old(self).prepared,
                self.live == old(self).live,
            decreases n - j,
        {
            let ghost before = self.trees@;
            assert(before[i as int] == before.skip(i as int)[0]);
            assert(orig.skip(j as int)[0] == orig[j as int]);
            assert(sound(orig[j as int], all[j as int], objects));
            if j >= from || self.trees[i].id == current {
                assert(is_retained(all, j as int, keep, current));
                assert(before.take(i + 1) == before.take(i as int).push(before[i as int]));
                assert(before.skip(i + 1) == orig.skip(j + 1)) by {
                    assert(before.skip(i + 1) =~= before.skip(i as int).skip(1));
                    assert(orig.skip(j + 1) =~= orig.skip(j as int).skip(1));
                }
                i += 1;
            } else {
                assert(!is_retained(all, j as int, keep, current));
                self.trees.remove(i);
                assert(self.trees@.take(i as int) == before.take(i as int));
                assert(self.trees@.skip(i as int) == orig.skip(j + 1)) by {
                    assert(self.trees@.skip(i as int) =~= before.skip(i as int).skip(1));
                    assert(orig.skip(j + 1) =~= orig.skip(j as int).skip(1));
                }
            }
            j += 1;
        }
        proof {
            assert(self.trees@.take(i as int) == self.trees@);
            lemma_retained_trees_fit(orig, all, n as int, keep, current, objects);
        }
        Ok(removed)
    }

    /// Removes from the store every object that no file of a recorded
    /// state is linked from, and returns how many were removed. While a
    /// transaction is under way nothing is removed.
    pub fn collect_garbage(&mut self) -> (r: Result<usize, StateError>)
        requires
            old(self).inv(),
        ensures
            final(self).inv(),
            final(self).states == old(self).states,
            final(self).trees == old(self).trees,
            final(self).prepared == old(self).prepared,
            final(self).live == old(self).live,
            match r {
                Ok(removed) => old(self).states.pending_view() is None
                    && final(self).store.objects() == old(self).store.objects().filter(
                    is_needed(old(self).trees@),
                ) && removed == old(self).store.objects().len() - final(self).store.objects().len(),
                Err(e) => e == StateError::TransactionPending && old(self).states.pending_view()
                    is Some && final(self).store == old(self).store,
            },
    {
        if self.states.in_transaction() {
            return Err(StateError::TransactionPending);
        }
        let ghost trees = self.trees@;
        let ghost before = self.store.objects();
        let mut roots: Vec<String> = Vec::new();
        let mut i: usize = 0;
        assert(texts(roots@) == roots_upto(trees, 0));
        while i < self.trees.len()
            invariant
                i <= self.trees.len(),
                trees == self.trees@,
                texts(roots@) == roots_upto(trees, i as int),
            decreases self.trees.len() - i,
        {
            let files = flatten(&self.trees[i].manifests);
            let ghost start = texts(roots@);
            let ghost these = hashes_of(all_files(trees[i as int].manifests@));
            let mut k: usize = 0;
            assert(texts(roots@) == start + these.take(0));
            while k < files.len()
                invariant
                    k <= files.len(),
                    these == hashes_of(file_views(files@)),
                    texts(roots@) == start + these.take(k as int),
                decreases files.len() - k,
            {
                assert(these.take(k + 1) == these.take(k as int).push(files@[k as int].hash@));
                assert(start + these.take(k + 1) == (start + these.take(k as int)).push(
                    files@[k as int].hash@,
                ));
                push_text(&mut roots, files[k].hash.clone());
                k += 1;
            }
            assert(these.take(files.len() as int) == these);
            i += 1;
        }
        let removed = self.store.garbage_collect(&roots);
        proof {
            let after = self.store.objects();
            lemma_filter_same(before, is_root(texts(roots@)), is_needed(trees));
            assert forall|x: int| 0 <= x < trees.len() implies sound(
                #[trigger] self.trees@[x],
                self.states.states_view()[x],
                after,
            ) by {
                assert(sound(trees[x], self.states.states_view()[x], before));
                let files = all_files(trees[x].manifests@);
                assert forall|k: int| 0 <= k < files.len() implies after.contains(
                    (#[trigger] files[k]).hash,
                ) by {
                    lemma_roots(trees, trees.len() as int, files[k].hash);
                    assert(all_files(trees[x].manifests@)[k].hash == files[k].hash);
                    lemma_filter_member(before, is_needed(trees), files[k].hash);
                }
            }
        }
        Ok(removed)
    }

    /// The tree that the live link points at: that of the current state.
    /// It holds exactly the files of the packages of that state, each
    /// linked from an object that the store has.
    pub fn live_tree(&self) -> (t: &Materialized)
        requires
            self.inv(),
        ensures
            t.id == self.live,
            holds(t.tree@, all_files(t.manifests@)),
            stored(self.store.objects(), all_files(t.manifests@)),
            exists|i: int|
                0 <= i < self.trees@.len() && #[trigger] self.trees@[i] == *t
                    && self.states.states_view()[i].id == self.states.current_view() && describe(
                    self.states.states_view()[i].packages,
                    t.manifests@,
                ),
    {
        let mut i: usize = 0;
        while i < self.trees.len()
            invariant
                i <= self.trees.len(),
                self.inv(),
                forall|k: int| 0 <= k < i ==> (#[trigger] self.trees@[k]).id != self.live,
            decreases self.trees.len() - i,
        {
            if self.trees[i].id == self.live {
                assert(sound(
                    self.trees@[i as int],
                    self.states.states_view()[i as int],
                    self.store.objects(),
                ));
                return &self.trees[i];
            }
            i += 1;
        }
        proof {
            self.states.lemma_wf();
            let states = self.states.states_view();
            let c = choose|c: int| 0 <= c < states.len() && (#[trigger] states[c]).id == self.live;
            assert(sound(self.trees@[c], states[c], self.store.objects()));
            assert(false);
        }
        &self.trees[0]
    }
}

/// Every file of the first `n` manifests is among their files.
proof fn lemma_file_is_listed(manifests: Seq<PackageManifest>, n: int, m: int, f: int)
    requires
        0 <= m < n <= manifests.len(),
        0 <= f < manifests[m].files@.len(),
    ensures
        exists|k: int|
            0 <= k < files_upto(manifests, n).len() && #[trigger] files_upto(manifests, n)[k]
                == (FileView {
                path: manifests[m].files@[f].path@,
                hash: manifests[m].files@[f].hash@,
            }),
    decreases n,
{
    let before = files_upto(manifests, n - 1);
    let last = files_of(manifests[n - 1]);
    let want = FileView { path: manifests[m].files@[f].path@, hash: manifests[m].files@[f].hash@ };
    let now = files_upto(manifests, n);
    assert(now == before + last);
    if m == n - 1 {
        assert(last[f] == want);
        assert(now[before.len() + f] == want);
    } else {
        lemma_file_is_listed(manifests, n - 1, m, f);
        let k = choose|k: int| 0 <= k < before.len() && #[trigger] before[k] == want;
        assert(now[k] == want);
    }
}

/// Each of the files of the first `n` manifests is a file of one of them.
proof fn lemma_listed_is_a_file(manifests: Seq<PackageManifest>, n: int, k: int)
    requires
        0 <= n <= manifests.len(),
        0 <= k < files_upto(manifests, n).len(),
    ensures
        exists|m: int, f: int|
            0 <= m < n && 0 <= f < manifests[m].files@.len() && (
            #[trigger] manifests[m].files@[f]).path@ == files_upto(manifests, n)[k].path,
    decreases n,
{
    let before = files_upto(manifests, n - 1);
    let last = files_of(manifests[n - 1]);
    if k < before.len() {
        lemma_listed_is_a_file(manifests, n - 1, k);
        let (m, f) = choose|m: int, f: int|
            0 <= m < n - 1 && 0 <= f < manifests[m].files@.len() && (
            #[trigger] manifests[m].files@[f]).path@ == before[k].path;
        assert((before + last)[k] == before[k]);
        assert(manifests[m].files@[f].path@ == files_upto(manifests, n)[k].path);
    } else {
        let f = k - before.len();
        assert((before + last)[k] == last[f]);
        assert(manifests[n - 1].files@[f].path@ == files_upto(manifests, n)[k].path);
    }
}

/// Every file of every package of every recorded state is linked, in the
/// tree of the state, from the object with its hash, and the store has
/// that object.
pub proof fn law_every_file_of_every_state_is_linked(p: Prefix, i: int, m: int, f: int)
    requires
        p.inv(),
        0 <= i < p.trees@.len(),
        0 <= m < p.trees@[i].manifests@.len(),
        0 <= f < p.trees@[i].manifests@[m].files@.len(),
    ensures
        linked_at(p.trees@[i].tree@, p.trees@[i].manifests@[m].files@[f].path@) == Some(
            p.trees@[i].manifests@[m].files@[f].hash@,
        ),
        p.store.objects().contains(p.trees@[i].manifests@[m].files@[f].hash@),
{
    let manifests = p.trees@[i].manifests@;
    let files = all_files(manifests);
    assert(sound(p.trees@[i], p.states.states_view()[i], p.store.objects()));
    lemma_file_is_listed(manifests, manifests.len() as int, m, f);
    let want = FileView { path: manifests[m].files@[f].path@, hash: manifests[m].files@[f].hash@ };
    let k = choose|k: int| 0 <= k < files.len() && #[trigger] files[k] == want;
    assert(linked_at(p.trees@[i].tree@, files[k].path) == Some(files[k].hash));
    assert(p.store.objects().contains(files[k].hash));
}

/// The tree of a state holds no file but those of its packages: a path
/// that is linked there is the path of a file of one of them.
pub proof fn law_a_tree_holds_nothing_else(p: Prefix, i: int, path: Seq<char>)
    requires
        p.inv(),
        0 <= i < p.trees@.len(),
        linked_at(p.trees@[i].tree@, path) is Some,
    ensures
        exists|m: int, f: int|
            0 <= m < p.trees@[i].manifests@.len() && 0 <= f < p.trees@[i].manifests@[m].files@.len()
                && (#[trigger] p.trees@[i].manifests@[m].files@[f]).path@ == path,
{
    let manifests = p.trees@[i].manifests@;
    let files = all_files(manifests);
    assert(sound(p.trees@[i], p.states.states_view()[i], p.store.objects()));
    let k = choose|k: int| 0 <= k < files.len() && (#[trigger] files[k]).path == path;
    lemma_listed_is_a_file(manifests, manifests.len() as int, k);
    let (m, f) = choose|m: int, f: int|
        0 <= m < manifests.len() && 0 <= f < manifests[m].files@.len() && (
        #[trigger] manifests[m].files@[f]).path@ == files[k].path;
    assert(manifests[m].files@[f].path@ == path);
}

} // verus!
