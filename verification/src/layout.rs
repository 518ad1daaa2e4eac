//! Where things lie on disk, and the steps that make a state and make it
//! the current one.
//!
//! Under the root directory lie the store with one file for each object,
//! named by its hash; one directory for each state, named by its
//! identifier; the link to the directory of the current state; and the
//! database of the states. A state is made by linking each file of each of
//! its packages from the object with the hash of the file. It is made
//! current by pointing a new link at its directory and renaming that link
//! over the live one, so that the live link is never missing.

use crate::installer::{hyphenated, state_id_text};
use crate::paths::{join_path, joined};
use crate::store::{ManifestFile, PackageManifest};
use crate::text::has_prefix;
use vstd::prelude::*;

verus! {

/// The file of the object `hash`.
pub open spec fn object_path_of(root: Seq<char>, hash: Seq<char>) -> Seq<char> {
    joined(joined(root, "store"@), hash)
}

/// The directory of the state `id`.
pub open spec fn state_dir_of(root: Seq<char>, id: u128) -> Seq<char> {
    joined(joined(root, "states"@), hyphenated(id))
}

/// The link to the directory of the current state.
pub open spec fn live_link_of(root: Seq<char>) -> Seq<char> {
    joined(root, "live"@)
}

/// The link that is prepared before it takes the place of the live one.
pub open spec fn staged_link_of(root: Seq<char>) -> Seq<char> {
    joined(root, "live.tmp"@)
}

/// The database of the states.
pub open spec fn database_of(root: Seq<char>) -> Seq<char> {
    joined(root, "state.db"@)
}

/// The file of the object `hash`.
pub fn object_path(root: &str, hash: &str) -> (path: String)
    ensures
        path@ == object_path_of(root@, hash@),
{
    let store = join_path(root, "store");
    join_path(store.as_str(), hash)
}

/// The directory of the state `id`.
pub fn state_dir(root: &str, id: u128) -> (path: String)
    ensures
        path@ == state_dir_of(root@, id),
{
    let states = join_path(root, "states");
    let name = state_id_text(id);
    join_path(states.as_str(), name.as_str())
}

/// The link to the directory of the current state.
pub fn live_link(root: &str) -> (path: String)
    ensures
        path@ == live_link_of(root@),
{
    join_path(root, "live")
}

/// The database of the states.
pub fn database_path(root: &str) -> (path: String)
    ensures
        path@ == database_of(root@),
{
    join_path(root, "state.db")
}

/// A link to make: the file `dest` is linked from the file `object`.
#[derive(Clone, Debug, PartialEq, Eq)]
pub struct LinkStep {
    pub object: String,
    pub dest: String,
}

/// A link as a plain value.
pub struct LinkView {
    pub object: Seq<char>,
    pub dest: Seq<char>,
}

impl View for LinkStep {
    type V = LinkView;

    open spec fn view(&self) -> LinkView {
        LinkView { object: self.object@, dest: self.dest@ }
    }
}

/// The links of a vector as plain values.
pub open spec fn link_views(v: Seq<LinkStep>) -> Seq<LinkView> {
    Seq::new(v.len(), |i: int| v[i]@)
}

/// The link for a file of the state `id`: from the object with the hash of
/// the file to the path of the file under the directory of the state.
pub open spec fn link_for(root: Seq<char>, id: u128, file: ManifestFile) -> LinkView {
    LinkView {
        object: object_path_of(root, file.hash@),
        dest: joined(state_dir_of(root, id), file.path@),
    }
}

/// The links for the first `n` files.
pub open spec fn links_of_files(
    root: Seq<char>,
    id: u128,
    files: Seq<ManifestFile>,
    n: int,
) -> Seq<LinkView>
    decreases n,
{
    if n <= 0 {
        Seq::<LinkView>::empty()
    } else {
        links_of_files(root, id, files, n - 1).push(link_for(root, id, files[n - 1]))
    }
}

/// The links for the files of the first `m` packages.
pub open spec fn links_upto(
    root: Seq<char>,
    id: u128,
    manifests: Seq<PackageManifest>,
    m: int,
) -> Seq<LinkView>
    decreases m,
{
    if m <= 0 {
        Seq::<LinkView>::empty()
    } else {
        links_upto(root, id, manifests, m - 1) + links_of_files(
            root,
            id,
            manifests[m - 1].files@,
            manifests[m - 1].files@.len() as int,
        )
    }
}

/// The links that make the state `id`: one for each file of each package,
/// in the order of the manifests.
pub open spec fn materialization(
    root: Seq<char>,
    id: u128,
    manifests: Seq<PackageManifest>,
) -> Seq<LinkView> {
    links_upto(root, id, manifests, manifests.len() as int)
}

/// Plans the links that make the state `id` with the given packages.
pub fn materialize_plan(root: &str, id: u128, manifests: &Vec<PackageManifest>) -> (plan: Vec<
    LinkStep,
>)
    ensures
        link_views(plan@) == materialization(root@, id, manifests@),
{
    let dir = state_dir(root, id);
    let mut plan: Vec<LinkStep> = Vec::new();
    let mut m: usize = 0;
    assert(link_views(plan@) == links_upto(root@, id, manifests@, 0));
    while m < manifests.len()
        invariant
            m <= manifests.len(),
            dir@ == state_dir_of(root@, id),
            link_views(plan@) == links_upto(root@, id, manifests@, m as int),
        decreases manifests.len() - m,
    {
        let files = &manifests[m].files;
        let ghost before = link_views(plan@);
        let mut f: usize = 0;
        assert(link_views(plan@) == before + links_of_files(root@, id, files@, 0));
        while f < files.len()
            invariant
                f <= files.len(),
                dir@ == state_dir_of(root@, id),
                link_views(plan@) == before + links_of_files(root@, id, files@, f as int),
            decreases files.len() - f,
        {
            let ghost so_far = plan@;
            let step = LinkStep {
                object: object_path(root, files[f].hash.as_str()),
                dest: join_path(dir.as_str(), files[f].path.as_str()),
            };
            plan.push(step);
            assert(link_views(plan@) == link_views(so_far).push(
                link_for(root@, id, files@[f as int]),
            ));
            assert(link_views(plan@) == before + links_of_files(root@, id, files@, f + 1));
            f += 1;
        }
        m += 1;
    }
    plan
}

/// A step of making a state current.
#[derive(Clone, Debug, PartialEq, Eq)]
pub enum ActivationStep {
    /// Make the symbolic link `link` point at `target`.
    PointAt { link: String, target: String },
    /// Rename the first over the second, in one step.
    Rename { from: String, to: String },
}

/// The steps that make the state `id` current: a new link is pointed at
/// the directory of the state and then renamed over the live link. A
/// rollback takes the same steps with the state that it goes back to.
pub fn activation_steps(root: &str, id: u128) -> (steps: (ActivationStep, ActivationStep))
    ensures
        steps.0 matches ActivationStep::PointAt { link, target } && link@ == staged_link_of(root@)
            && target@ == state_dir_of(root@, id),
        steps.1 matches ActivationStep::Rename { from, to } && from@ == staged_link_of(root@)
            && to@ == live_link_of(root@),
{
    (
        ActivationStep::PointAt { link: join_path(root, "live.tmp"), target: state_dir(root, id) },
        ActivationStep::Rename { from: join_path(root, "live.tmp"), to: live_link(root) },
    )
}

proof fn lemma_file_has_its_link(root: Seq<char>, id: u128, files: Seq<ManifestFile>, n: int, f: int)
    requires
        0 <= f < n <= files.len(),
    ensures
        links_of_files(root, id, files, n).contains(link_for(root, id, files[f])),
    decreases n,
{
    let now = links_of_files(root, id, files, n);
    if f == n - 1 {
        assert(now[now.len() - 1] == link_for(root, id, files[f]));
    } else {
        lemma_file_has_its_link(root, id, files, n - 1, f);
        let before = links_of_files(root, id, files, n - 1);
        let k = choose|k: int| 0 <= k < before.len() && before[k] == link_for(root, id, files[f]);
        assert(now[k] == before[k]);
    }
}

proof fn lemma_package_has_its_links(
    root: Seq<char>,
    id: u128,
    manifests: Seq<PackageManifest>,
    n: int,
    m: int,
    f: int,
)
    requires
        0 <= m < n <= manifests.len(),
        0 <= f < manifests[m].files@.len(),
    ensures
        links_upto(root, id, manifests, n).contains(link_for(root, id, manifests[m].files@[f])),
    decreases n,
{
    let before = links_upto(root, id, manifests, n - 1);
    let last = links_of_files(
        root,
        id,
        manifests[n - 1].files@,
        manifests[n - 1].files@.len() as int,
    );
    let want = link_for(root, id, manifests[m].files@[f]);
    if m == n - 1 {
        lemma_file_has_its_link(root, id, manifests[m].files@, manifests[m].files@.len() as int, f);
        let k = choose|k: int| 0 <= k < last.len() && last[k] == want;
        assert((before + last)[before.len() + k] == want);
    } else {
        lemma_package_has_its_links(root, id, manifests, n - 1, m, f);
        let k = choose|k: int| 0 <= k < before.len() && before[k] == want;
        assert((before + last)[k] == want);
    }
}

/// Every file of every package of a state is linked from the object that
/// has the hash of the file.
pub proof fn law_every_file_is_linked_from_its_object(
    root: Seq<char>,
    id: u128,
    manifests: Seq<PackageManifest>,
    m: int,
    f: int,
)
    requires
        0 <= m < manifests.len(),
        0 <= f < manifests[m].files@.len(),
    ensures
        materialization(root, id, manifests).contains(
            LinkView {
                object: object_path_of(root, manifests[m].files@[f].hash@),
                dest: joined(state_dir_of(root, id), manifests[m].files@[f].path@),
            },
        ),
{
    lemma_package_has_its_links(root, id, manifests, manifests.len() as int, m, f);
}

/// A file whose path is not absolute lies under the directory of its
/// state.
pub proof fn law_relative_files_stay_in_the_state(root: Seq<char>, id: u128, file: ManifestFile)
    requires
        file.path@.len() == 0 || file.path@[0] != '/',
    ensures
        has_prefix(link_for(root, id, file).dest, state_dir_of(root, id)),
{
    let dir = state_dir_of(root, id);
    let dest = joined(dir, file.path@);
    assert(dest.subrange(0, dir.len() as int) =~= dir);
}

} // verus!
