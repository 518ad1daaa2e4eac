//! The content-addressed store and what is linked from it.
//!
//! The store holds one object for each content, named by the hash of the
//! content in lowercase hexadecimal. States refer to objects by hash; the
//! store itself keeps no count of references. Garbage collection is given
//! the hashes that the retained states refer to and removes every other
//! object.

use crate::hash::{blake3_digest, hex_of};
use crate::text::{lemma_position_of, lemma_position_push, position_of, push_text, same_text, texts};
use vstd::prelude::*;

verus! {

/// A file of a package as its manifest lists it.
#[derive(Clone, Debug)]
pub struct ManifestFile {
    pub path: String,
    /// The hash of the content, in lowercase hexadecimal.
    pub hash: String,
    pub mode: u32,
}

/// A declared dependency: a name and a version specification.
#[derive(Clone, Debug)]
pub struct ManifestDependency {
    pub name: String,
    pub spec: String,
}

/// The manifest of a package.
#[derive(Clone, Debug)]
pub struct PackageManifest {
    pub name: String,
    pub version: String,
    pub dependencies: Vec<ManifestDependency>,
    pub files: Vec<ManifestFile>,
}

/// Whether one of the manifests lists a file with the hash `hash`.
pub open spec fn is_referenced(manifests: Seq<PackageManifest>, hash: Seq<char>) -> bool {
    exists|m: int, f: int|
        0 <= m < manifests.len() && 0 <= f < manifests[m].files@.len() && (
        #[trigger] manifests[m].files@[f]).hash@ == hash
}

/// Whether the objects cover the manifests: every file that a manifest
/// lists has its object.
pub open spec fn covers(objects: Seq<Seq<char>>, manifests: Seq<PackageManifest>) -> bool {
    forall|hash: Seq<char>| is_referenced(manifests, hash) ==> #[trigger] objects.contains(hash)
}

/// The test "is one of `roots`".
pub open spec fn is_root(roots: Seq<Seq<char>>) -> spec_fn(Seq<char>) -> bool {
    |hash: Seq<char>| roots.contains(hash)
}

/// The objects that a garbage collection keeps: those among the roots.
pub open spec fn collected(objects: Seq<Seq<char>>, roots: Seq<Seq<char>>) -> Seq<Seq<char>> {
    objects.filter(is_root(roots))
}

/// The test "one of the manifests lists a file with this hash".
pub open spec fn is_live(manifests: Seq<PackageManifest>) -> spec_fn(Seq<char>) -> bool {
    |hash: Seq<char>| is_referenced(manifests, hash)
}

/// The objects that are left when everything is removed that none of the
/// manifests refers to.
pub open spec fn swept(objects: Seq<Seq<char>>, manifests: Seq<PackageManifest>) -> Seq<Seq<char>> {
    objects.filter(is_live(manifests))
}

/// The hashes that the manifests refer to, in order.
pub fn referenced_hashes(manifests: &Vec<PackageManifest>) -> (roots: Vec<String>)
    ensures
        forall|hash: Seq<char>|
            is_referenced(manifests@, hash) <==> #[trigger] texts(roots@).contains(hash),
{
    let mut roots: Vec<String> = Vec::new();
    let mut m: usize = 0;
    while m < manifests.len()
        invariant
            m <= manifests.len(),
            forall|hash: Seq<char>|
                #[trigger] texts(roots@).contains(hash) <==> exists|a: int, f: int|
                    0 <= a < m && 0 <= f < manifests@[a].files@.len() && (
                    #[trigger] manifests@[a].files@[f]).hash@ == hash,
        decreases manifests.len() - m,
    {
        let files = &manifests[m].files;
        let mut f: usize = 0;
        while f < files.len()
            invariant
                m < manifests.len(),
                f <= files.len(),
                files@ == manifests@[m as int].files@,
                forall|hash: Seq<char>|
                    #[trigger] texts(roots@).contains(hash) <==> (exists|a: int, b: int|
                        0 <= a < m && 0 <= b < manifests@[a].files@.len() && (
                        #[trigger] manifests@[a].files@[b]).hash@ == hash) || (exists|b: int|
                        0 <= b < f && (#[trigger] files@[b]).hash@ == hash),
            decreases files.len() - f,
        {
            let ghost before = texts(roots@);
            push_text(&mut roots, files[f].hash.clone());
            proof {
                let added = files@[f as int].hash@;
                assert forall|hash: Seq<char>| #[trigger]
                    texts(roots@).contains(hash) <==> (exists|a: int, b: int|
                        0 <= a < m && 0 <= b < manifests@[a].files@.len() && (
                        #[trigger] manifests@[a].files@[b]).hash@ == hash) || (exists|b: int|
                        0 <= b < f + 1 && (#[trigger] files@[b]).hash@ == hash) by {
                    let now = texts(roots@);
                    if now.contains(hash) {
                        let i = choose|i: int| 0 <= i < now.len() && now[i] == hash;
                        if i < before.len() {
                            assert(before[i] == hash);
                            assert(before.contains(hash));
                        } else {
                            assert(files@[f as int].hash@ == hash);
                        }
                    }
                    if before.contains(hash) {
                        let i = choose|i: int| 0 <= i < before.len() && before[i] == hash;
                        assert(now[i] == hash);
                    }
                    if hash == added {
                        assert(now[now.len() - 1] == hash);
                    }
                    if exists|b: int| 0 <= b < f + 1 && (#[trigger] files@[b]).hash@ == hash {
                        let b = choose|b: int| 0 <= b < f + 1 && (#[trigger] files@[b]).hash@ == hash;
                        if b < f {
                            assert(before.contains(hash));
                        }
                    }
                }
            }
            f += 1;
        }
        proof {
            assert forall|hash: Seq<char>| #[trigger]
                texts(roots@).contains(hash) <==> exists|a: int, b: int|
                    0 <= a < m + 1 && 0 <= b < manifests@[a].files@.len() && (
                    #[trigger] manifests@[a].files@[b]).hash@ == hash by {
                if exists|b: int| 0 <= b < files@.len() && (#[trigger] files@[b]).hash@ == hash {
                    let b = choose|b: int| 0 <= b < files@.len() && (#[trigger] files@[b]).hash@ == hash;
                    assert(manifests@[m as int].files@[b].hash@ == hash);
                }
                if exists|a: int, b: int|
                    0 <= a < m + 1 && 0 <= b < manifests@[a].files@.len() && (
                    #[trigger] manifests@[a].files@[b]).hash@ == hash {
                    let (a, b) = choose|a: int, b: int|
                        0 <= a < m + 1 && 0 <= b < manifests@[a].files@.len() && (
                        #[trigger] manifests@[a].files@[b]).hash@ == hash;
                    if a == m {
                        assert(files@[b].hash@ == hash);
                    }
                }
            }
        }
        m += 1;
    }
    roots
}

/// Why the store refused.
#[derive(Clone, Debug)]
pub enum StoreError {
    /// The store holds no object with this hash.
    MissingObject { hash: String },
}

/// A file under a live prefix: a path and the hash of the object that it
/// is linked to.
#[derive(Clone, Debug)]
pub struct LinkedFile {
    pub path: String,
    pub hash: String,
}

/// The paths of the linked files.
pub open spec fn linked_paths(files: Seq<LinkedFile>) -> Seq<Seq<char>> {
    Seq::new(files.len(), |i: int| files[i].path@)
}

/// The hash of the object that `path` is linked to.
pub open spec fn linked_at(files: Seq<LinkedFile>, path: Seq<char>) -> Option<Seq<char>> {
    match position_of(linked_paths(files), path) {
        Some(i) => Some(files[i].hash@),
        None => None,
    }
}

/// The content store, given by the hashes of its objects.
#[derive(Clone, Debug)]
pub struct ContentStore {
    objects: Vec<String>,
}

impl ContentStore {
    /// The hashes of the objects in the store.
    pub closed spec fn objects(&self) -> Seq<Seq<char>> {
        texts(self.objects@)
    }

    /// An empty store.
    pub fn new() -> (s: ContentStore)
        ensures
            s.objects() == Seq::<Seq<char>>::empty(),
    {
        let s = ContentStore { objects: Vec::new() };
        assert(s.objects() =~= Seq::<Seq<char>>::empty());
        s
    }

    /// Whether the store holds the object with this hash.
    pub fn has_object(&self, hash: &str) -> (r: bool)
        ensures
            r == self.objects().contains(hash@),
    {
        let mut i: usize = 0;
        while i < self.objects.len()
            invariant
                i <= self.objects.len(),
                forall|k: int| 0 <= k < i ==> #[trigger] self.objects()[k] != hash@,
            decreases self.objects.len() - i,
        {
            if same_text(self.objects[i].as_str(), hash) {
                assert(self.objects()[i as int] == hash@);
                return true;
            }
            i += 1;
        }
        false
    }

    /// The number of objects.
    pub fn len(&self) -> (n: usize)
        ensures
            n == self.objects().len(),
    {
        self.objects.len()
    }

    /// Puts content into the store and returns its hash. Content that is
    /// there already is not stored twice.
    pub fn put(&mut self, content: &[u8]) -> (hash: String)
        ensures
            hash@ == hex_of(blake3_digest(content@)),
            final(self).objects() == if old(self).objects().contains(hash@) {
                old(self).objects()
            } else {
                old(self).objects().push(hash@)
            },
            final(self).objects().contains(hash@),
    {
        let hash = crate::hash::Hash::from_data(content).to_hex();
        if !self.has_object(hash.as_str()) {
            push_text(&mut self.objects, hash.clone());
            assert(self.objects()[self.objects().len() - 1] == hash@);
        }
        hash
    }

    /// Links the object `hash` to `dest` under a live prefix: afterwards
    /// `dest` is linked to the object, and every other path is as it was. A
    /// hash that the store does not hold is refused and nothing changes.
    pub fn link_into(&self, tree: &mut Vec<LinkedFile>, hash: &str, dest: &str) -> (r: Result<
        (),
        StoreError,
    >)
        ensures
            match r {
                Ok(_) => self.objects().contains(hash@) && linked_at(final(tree)@, dest@) == Some(
                    hash@,
                ) && forall|other: Seq<char>|
                    other != dest@ ==> linked_at(final(tree)@, other) == linked_at(
                        old(tree)@,
                        other,
                    ),
                Err(StoreError::MissingObject { hash: missing }) => !self.objects().contains(hash@)
                    && missing@ == hash@ && final(tree)@ == old(tree)@,
            },
    {
        if !self.has_object(hash) {
            return Err(StoreError::MissingObject { hash: hash.to_owned() });
        }
        let ghost paths = linked_paths(tree@);
        let mut i: usize = 0;
        while i < tree.len()
            invariant
                i <= tree.len(),
                tree@ == old(tree)@,
                paths == linked_paths(tree@),
                self.objects().contains(hash@),
                forall|k: int| 0 <= k < i ==> #[trigger] paths[k] != dest@,
            decreases tree.len() - i,
        {
            if same_text(tree[i].path.as_str(), dest) {
                proof {
                    crate::text::lemma_position_is(paths, dest@, i as int);
                }
                tree[i].hash = hash.to_owned();
                proof {
                    assert(linked_paths(tree@) =~= paths);
                    assert forall|other: Seq<char>| other != dest@ implies linked_at(tree@, other)
                        == linked_at(old(tree)@, other) by {
                        lemma_position_of(paths, other);
                    }
                }
                return Ok(());
            }
            i += 1;
        }
        let file = LinkedFile { path: dest.to_owned(), hash: hash.to_owned() };
        tree.push(file);
        proof {
            assert(linked_paths(tree@) =~= paths.push(dest@));
            lemma_position_of(paths, dest@);
            lemma_position_push(paths, dest@, dest@);
            assert forall|other: Seq<char>| other != dest@ implies linked_at(tree@, other)
                == linked_at(old(tree)@, other) by {
                lemma_position_push(paths, dest@, other);
                lemma_position_of(paths, other);
            }
        }
        Ok(())
    }

    /// Puts content into the store and links it to `dest`: afterwards the
    /// file at `dest` has the hash of the content.
    pub fn put_and_link(&mut self, tree: &mut Vec<LinkedFile>, content: &[u8], dest: &str) -> (hash:
        String)
        ensures
            hash@ == hex_of(blake3_digest(content@)),
            final(self).objects() == if old(self).objects().contains(hash@) {
                old(self).objects()
            } else {
                old(self).objects().push(hash@)
            },
            final(self).objects().contains(hash@),
            linked_at(final(tree)@, dest@) == Some(hash@),
            forall|other: Seq<char>|
                other != dest@ ==> linked_at(final(tree)@, other) == linked_at(old(tree)@, other),
    {
        let hash = self.put(content);
        match self.link_into(tree, hash.as_str(), dest) {
            Ok(_) => {},
            Err(_) => {
                assert(false);
            },
        }
        hash
    }

    /// Removes every object that none of the manifests refers to, and
    /// returns how many were removed. The manifests are those of the
    /// packages of all retained states.
    pub fn sweep(&mut self, manifests: &Vec<PackageManifest>) -> (removed: usize)
        ensures
            final(self).objects() == swept(old(self).objects(), manifests@),
            removed == old(self).objects().len() - final(self).objects().len(),
    {
        let roots = referenced_hashes(manifests);
        proof {
            crate::seq_lemmas::lemma_filter_same(
                self.objects(),
                is_root(texts(roots@)),
                is_live(manifests@),
            );
        }
        self.garbage_collect(&roots)
    }

    /// Removes every object whose hash is not among `roots` and returns how
    /// many were removed.
    pub fn garbage_collect(&mut self, roots: &Vec<String>) -> (removed: usize)
        ensures
            final(self).objects() == collected(old(self).objects(), texts(roots@)),
            removed == old(self).objects().len() - final(self).objects().len(),
    {
        let ghost all = self.objects();
        let ghost keep = is_root(texts(roots@));
        let mut kept: Vec<String> = Vec::new();
        let mut removed: usize = 0;
        let mut i: usize = 0;
        proof {
            reveal(Seq::filter);
            assert(all.take(0).filter(keep) == Seq::<Seq<char>>::empty());
        }
        while i < self.objects.len()
            invariant
                i <= self.objects.len(),
                all == self.objects(),
                keep == is_root(texts(roots@)),
                texts(kept@) == all.take(i as int).filter(keep),
                removed + kept@.len() == i,
            decreases self.objects.len() - i,
        {
            proof {
                crate::seq_lemmas::lemma_filter_step(all, keep, i as int);
            }
            let hash = &self.objects[i];
            let mut listed = false;
            let mut k: usize = 0;
            while k < roots.len() && !listed
                invariant
                    k <= roots.len(),
                    listed ==> texts(roots@).contains(hash@),
                    !listed ==> forall|j: int| 0 <= j < k ==> #[trigger] texts(roots@)[j] != hash@,
                decreases roots.len() - k + (if listed { 0int } else { 1int }),
            {
                if same_text(roots[k].as_str(), hash.as_str()) {
                    assert(texts(roots@)[k as int] == hash@);
                    listed = true;
                } else {
                    k += 1;
                }
            }
            if listed {
                let ghost before = kept@;
                push_text(&mut kept, hash.clone());
                assert(texts(kept@).len() == kept@.len());
                assert(texts(before).len() == before.len());
            } else {
                removed += 1;
            }
            i += 1;
        }
        assert(all.take(self.objects.len() as int) == all);
        assert(texts(kept@).len() == kept@.len());
        self.objects = kept;
        removed
    }
}

/// A sweep never removes what a retained state refers to: a store that
/// covers the manifests of the retained states still covers them
/// afterwards.
pub proof fn law_sweep_keeps_referenced_objects(
    objects: Seq<Seq<char>>,
    manifests: Seq<PackageManifest>,
)
    requires
        covers(objects, manifests),
    ensures
        covers(swept(objects, manifests), manifests),
{
    assert forall|hash: Seq<char>| is_referenced(manifests, hash) implies #[trigger] swept(
        objects,
        manifests,
    ).contains(hash) by {
        assert(objects.contains(hash));
        crate::seq_lemmas::lemma_filter_member(objects, is_live(manifests), hash);
    }
}

/// After a sweep the store holds nothing that no retained state refers
/// to.
pub proof fn law_sweep_leaves_no_garbage(
    objects: Seq<Seq<char>>,
    manifests: Seq<PackageManifest>,
    hash: Seq<char>,
)
    ensures
        swept(objects, manifests).contains(hash) <==> (objects.contains(hash) && is_referenced(
            manifests,
            hash,
        )),
{
    crate::seq_lemmas::lemma_filter_member(objects, is_live(manifests), hash);
}

/// Garbage collection never removes what a retained state refers to: a
/// store that covers the manifests of the retained states still covers
/// them after a collection whose roots hold every hash that they refer to.
pub proof fn law_collection_keeps_referenced_objects(
    objects: Seq<Seq<char>>,
    roots: Seq<Seq<char>>,
    manifests: Seq<PackageManifest>,
)
    requires
        covers(objects, manifests),
        forall|hash: Seq<char>| is_referenced(manifests, hash) ==> #[trigger] roots.contains(hash),
    ensures
        covers(collected(objects, roots), manifests),
{
    assert forall|hash: Seq<char>| is_referenced(manifests, hash) implies #[trigger] collected(
        objects,
        roots,
    ).contains(hash) by {
        assert(objects.contains(hash));
        assert(roots.contains(hash));
        crate::seq_lemmas::lemma_filter_member(objects, is_root(roots), hash);
    }
}

/// Garbage collection removes everything else: what is left is among the
/// roots and was in the store.
pub proof fn law_collection_removes_the_rest(
    objects: Seq<Seq<char>>,
    roots: Seq<Seq<char>>,
    hash: Seq<char>,
)
    ensures
        collected(objects, roots).contains(hash) <==> (objects.contains(hash) && roots.contains(
            hash,
        )),
{
    crate::seq_lemmas::lemma_filter_member(objects, is_root(roots), hash);
}

} // verus!
