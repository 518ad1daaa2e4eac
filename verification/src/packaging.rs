//! The layout of a package archive.
//!
//! A package must come out the same, byte for byte, whenever it is built
//! from the same staging tree. So its entries are written in the order of
//! their paths, every entry carries the same modification time, the owner
//! is always the root user, and of the mode only the masked bits count.

use crate::text::chars_of;
use vstd::prelude::*;

verus! {

/// An entry of a package archive.
#[derive(Clone, Debug)]
pub struct PackageEntry {
    pub path: String,
    pub mode: u32,
    /// The modification time, in seconds since the epoch.
    pub mtime: u64,
    pub uid: u32,
    pub gid: u32,
}

/// An entry of a package archive as a plain value.
pub struct PackageEntryView {
    pub path: Seq<char>,
    pub mode: u32,
    pub mtime: u64,
    pub uid: u32,
    pub gid: u32,
}

impl View for PackageEntry {
    type V = PackageEntryView;

    open spec fn view(&self) -> PackageEntryView {
        PackageEntryView {
            path: self.path@,
            mode: self.mode,
            mtime: self.mtime,
            uid: self.uid,
            gid: self.gid,
        }
    }
}

/// The entries of a vector as plain values.
pub open spec fn package_entry_views(v: Seq<PackageEntry>) -> Seq<PackageEntryView> {
    Seq::new(v.len(), |i: int| v[i]@)
}

/// What is fixed for every entry of a package.
#[derive(Clone, Copy, Debug, PartialEq, Eq, Structural)]
pub struct PackagingPolicy {
    /// The modification time that every entry gets.
    pub source_date_epoch: u64,
    /// The bits of the mode that are kept.
    pub mode_mask: u32,
}

/// Whether `a` comes before `b` or is `b`, in the order of dictionaries:
/// the first character in which they differ decides, and a text comes
/// before every text that it begins.
pub open spec fn text_le(a: Seq<char>, b: Seq<char>) -> bool
    decreases a.len(),
{
    if a.len() == 0 {
        true
    } else if b.len() == 0 {
        false
    } else if a[0] != b[0] {
        a[0] < b[0]
    } else {
        text_le(a.skip(1), b.skip(1))
    }
}

/// Of two texts one comes before the other or they are the same.
pub proof fn lemma_text_le_total(a: Seq<char>, b: Seq<char>)
    ensures
        text_le(a, b) || text_le(b, a),
    decreases a.len(),
{
    if a.len() > 0 && b.len() > 0 && a[0] == b[0] {
        lemma_text_le_total(a.skip(1), b.skip(1));
    }
}

/// The order of texts is transitive.
pub proof fn lemma_text_le_transitive(a: Seq<char>, b: Seq<char>, c: Seq<char>)
    requires
        text_le(a, b),
        text_le(b, c),
    ensures
        text_le(a, c),
    decreases a.len(),
{
    if a.len() > 0 && b.len() > 0 && c.len() > 0 && a[0] == b[0] && b[0] == c[0] {
        lemma_text_le_transitive(a.skip(1), b.skip(1), c.skip(1));
    }
}

/// Two texts each of which comes before the other are the same text.
pub proof fn lemma_text_le_antisymmetric(a: Seq<char>, b: Seq<char>)
    requires
        text_le(a, b),
        text_le(b, a),
    ensures
        a == b,
    decreases a.len(),
{
    if a.len() > 0 && b.len() > 0 {
        lemma_text_le_antisymmetric(a.skip(1), b.skip(1));
        assert(a == seq![a[0]] + a.skip(1));
        assert(b == seq![b[0]] + b.skip(1));
    } else {
        assert(a == b);
    }
}

fn chars_le(a: &Vec<char>, b: &Vec<char>) -> (r: bool)
    ensures
        r == text_le(a@, b@),
{
    let mut i: usize = 0;
    assert(a@.skip(0) == a@ && b@.skip(0) == b@);
    while i < a.len() && i < b.len()
        invariant
            i <= a.len(),
            i <= b.len(),
            text_le(a@, b@) == text_le(a@.skip(i as int), b@.skip(i as int)),
        decreases a.len() - i,
    {
        assert(a@.skip(i as int).skip(1) == a@.skip(i + 1));
        assert(b@.skip(i as int).skip(1) == b@.skip(i + 1));
        if a[i] != b[i] {
            return a[i] < b[i];
        }
        i += 1;
    }
    i == a.len()
}

/// An entry as it is written into a package: with the fixed time, the root
/// user as owner, and the masked mode.
pub open spec fn fixed(e: PackageEntryView, policy: PackagingPolicy) -> PackageEntryView {
    PackageEntryView {
        path: e.path,
        mode: e.mode & policy.mode_mask,
        mtime: policy.source_date_epoch,
        uid: 0,
        gid: 0,
    }
}

/// The entries as they are written into a package, in the order given.
pub open spec fn all_fixed(entries: Seq<PackageEntryView>, policy: PackagingPolicy) -> Seq<
    PackageEntryView,
> {
    Seq::new(entries.len(), |i: int| fixed(entries[i], policy))
}

/// Whether the entries stand in the order of their paths.
pub open spec fn in_path_order(entries: Seq<PackageEntryView>) -> bool {
    forall|i: int, j: int|
        0 <= i < j < entries.len() ==> text_le(
            (#[trigger] entries[i]).path,
            (#[trigger] entries[j]).path,
        )
}

/// The entries of a package in the order and with the attributes in which
/// they are written: the entries given, each with its fixed attributes, in
/// the order of their paths.
pub fn deterministic_entries(entries: &Vec<PackageEntry>, policy: PackagingPolicy) -> (out: Vec<
    PackageEntry,
>)
    ensures
        in_path_order(package_entry_views(out@)),
        package_entry_views(out@).to_multiset() == all_fixed(
            package_entry_views(entries@),
            policy,
        ).to_multiset(),
        out@.len() == entries@.len(),
{
    broadcast use vstd::seq_lib::group_to_multiset_ensures;

    let ghost goal = all_fixed(package_entry_views(entries@), policy);
    let mut out: Vec<PackageEntry> = Vec::new();
    let mut i: usize = 0;
    assert(package_entry_views(out@) == goal.take(0));
    while i < entries.len()
        invariant
            i <= entries.len(),
            goal == all_fixed(package_entry_views(entries@), policy),
            out@.len() == i,
            in_path_order(package_entry_views(out@)),
            package_entry_views(out@).to_multiset() == goal.take(i as int).to_multiset(),
        decreases entries.len() - i,
    {
        let e = &entries[i];
        let entry = PackageEntry {
            path: e.path.clone(),
            mode: e.mode & policy.mode_mask,
            mtime: policy.source_date_epoch,
            uid: 0,
            gid: 0,
        };
        assert(entry@ == goal[i as int]);
        let path = chars_of(entry.path.as_str());
        let mut at: usize = 0;
        while at < out.len() && chars_le(&chars_of(out[at].path.as_str()), &path)
            invariant
                at <= out.len(),
                path@ == entry.path@,
                forall|k: int|
                    0 <= k < at ==> text_le((#[trigger] package_entry_views(out@)[k]).path, path@),
            decreases out.len() - at,
        {
            at += 1;
        }
        let ghost before = package_entry_views(out@);
        proof {
            if at < out.len() {
                lemma_text_le_total(before[at as int].path, path@);
            }
        }
        out.insert(at, entry);
        proof {
            let after = package_entry_views(out@);
            assert(after == before.insert(at as int, entry@));
            assert forall|a: int, b: int| 0 <= a < b < after.len() implies text_le(
                (#[trigger] after[a]).path,
                (#[trigger] after[b]).path,
            ) by {
                if b < at {
                    assert(after[a] == before[a] && after[b] == before[b]);
                } else if b == at {
                    assert(after[a] == before[a]);
                } else if a < at {
                    assert(after[a] == before[a] && after[b] == before[b - 1]);
                } else if a == at {
                    assert(after[b] == before[b - 1]);
                    assert(text_le(path@, before[at as int].path));
                    if b - 1 > at {
                        lemma_text_le_transitive(path@, before[at as int].path, before[b - 1].path);
                    }
                } else {
                    assert(after[a] == before[a - 1] && after[b] == before[b - 1]);
                }
            }
            assert(goal.take(i + 1) == goal.take(i as int).push(goal[i as int]));
            vstd::seq_lib::to_multiset_insert(before, at as int, entry@);
            vstd::seq_lib::to_multiset_build(goal.take(i as int), goal[i as int]);
            assert(after.to_multiset() == goal.take(i + 1).to_multiset());
        }
        i += 1;
    }
    assert(goal.take(entries@.len() as int) == goal);
    out
}

/// Whether no two entries have the same path.
pub open spec fn distinct_entry_paths(entries: Seq<PackageEntryView>) -> bool {
    forall|i: int, j: int|
        0 <= i < j < entries.len() ==> (#[trigger] entries[i]).path != (#[trigger] entries[j]).path
}

/// A package does not depend on the order in which its entries were found:
/// two lists in path order that hold the same entries, each path once, are
/// the same list.
pub proof fn law_path_order_is_unique(a: Seq<PackageEntryView>, b: Seq<PackageEntryView>)
    requires
        in_path_order(a),
        in_path_order(b),
        distinct_entry_paths(a),
        a.to_multiset() == b.to_multiset(),
    ensures
        a == b,
    decreases a.len(),
{
    broadcast use vstd::seq_lib::group_to_multiset_ensures;

    vstd::seq_lib::to_multiset_len(a);
    vstd::seq_lib::to_multiset_len(b);
    assert(a.len() == b.len());
    if a.len() > 0 {
        assert(a.contains(a[0]));
        assert(b.to_multiset().count(a[0]) > 0);
        assert(b.contains(a[0]));
        let k = choose|k: int| 0 <= k < b.len() && b[k] == a[0];
        assert(b.contains(b[0]));
        assert(a.to_multiset().count(b[0]) > 0);
        assert(a.contains(b[0]));
        let j = choose|j: int| 0 <= j < a.len() && a[j] == b[0];
        if k > 0 {
            assert(text_le(b[0].path, b[k].path));
        }
        if j > 0 {
            assert(text_le(a[0].path, a[j].path));
            lemma_text_le_antisymmetric(a[0].path, b[0].path);
            assert(a[0].path == a[j].path);
        }
        assert(j == 0);
        assert(a[0] == b[0]);
        let a1 = a.remove(0);
        let b1 = b.remove(0);
        assert(a1.to_multiset() == b1.to_multiset());
        assert forall|x: int, y: int| 0 <= x < y < a1.len() implies text_le(
            (#[trigger] a1[x]).path,
            (#[trigger] a1[y]).path,
        ) && a1[x].path != a1[y].path by {
            assert(a1[x] == a[x + 1] && a1[y] == a[y + 1]);
        }
        assert forall|x: int, y: int| 0 <= x < y < b1.len() implies text_le(
            (#[trigger] b1[x]).path,
            (#[trigger] b1[y]).path,
        ) by {
            assert(b1[x] == b[x + 1] && b1[y] == b[y + 1]);
        }
        law_path_order_is_unique(a1, b1);
        assert(a == seq![a[0]] + a1);
        assert(b == seq![b[0]] + b1);
    } else {
        assert(a == b);
    }
}

} // verus!
