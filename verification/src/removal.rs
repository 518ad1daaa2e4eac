//! What an uninstall takes away: the named packages and, with them, the
//! packages that were only there for their sake.
//!
//! The named packages leave first. After that a package leaves when a
//! package that has left needed it and no package that is still there
//! needs it. This goes on in rounds until a round takes nothing more away.

use crate::state::name_listed;
use crate::store::PackageManifest;
use crate::text::{copy_texts, same_text, texts};
use vstd::prelude::*;

verus! {

/// Whether the package declares a dependency on a package called `name`.
pub open spec fn needs(m: PackageManifest, name: Seq<char>) -> bool {
    exists|d: int| 0 <= d < m.dependencies@.len() && (#[trigger] m.dependencies@[d]).name@ == name
}

/// Whether a package that has left needed the package at position `i`.
pub open spec fn was_needed(manifests: Seq<PackageManifest>, gone: Seq<bool>, i: int) -> bool {
    exists|j: int|
        0 <= j < manifests.len() && gone[j] && needs(#[trigger] manifests[j], manifests[i].name@)
}

/// Whether every package that needs the package at position `i` has left.
pub open spec fn is_free(manifests: Seq<PackageManifest>, gone: Seq<bool>, i: int) -> bool {
    forall|j: int|
        0 <= j < manifests.len() && needs(#[trigger] manifests[j], manifests[i].name@) ==> gone[j]
}

/// Whether the package at position `i` has left after one more round.
pub open spec fn leaves_next(manifests: Seq<PackageManifest>, gone: Seq<bool>, i: int) -> bool {
    gone[i] || (was_needed(manifests, gone, i) && is_free(manifests, gone, i))
}

/// The packages that have left after one more round.
pub open spec fn next_round(manifests: Seq<PackageManifest>, gone: Seq<bool>) -> Seq<bool> {
    Seq::new(manifests.len(), |i: int| leaves_next(manifests, gone, i))
}

/// The packages that leave at once: those that are named.
pub open spec fn named(manifests: Seq<PackageManifest>, names: Seq<Seq<char>>) -> Seq<bool> {
    Seq::new(manifests.len(), |i: int| names.contains(manifests[i].name@))
}

/// The packages that have left after `rounds` rounds.
pub open spec fn gone_after(
    manifests: Seq<PackageManifest>,
    names: Seq<Seq<char>>,
    rounds: nat,
) -> Seq<bool>
    decreases rounds,
{
    if rounds == 0 {
        named(manifests, names)
    } else {
        next_round(manifests, gone_after(manifests, names, (rounds - 1) as nat))
    }
}

/// The packages that an uninstall of `names` takes away: for each
/// installed package, whether it leaves. One round for each installed
/// package is enough for the rounds to come to rest.
pub open spec fn removal(manifests: Seq<PackageManifest>, names: Seq<Seq<char>>) -> Seq<bool> {
    gone_after(manifests, names, manifests.len())
}

/// The names of those of the first `n` installed packages that leave
/// without being named, in order.
pub open spec fn followers_upto(
    manifests: Seq<PackageManifest>,
    names: Seq<Seq<char>>,
    n: int,
) -> Seq<Seq<char>>
    decreases n,
{
    if n <= 0 {
        Seq::<Seq<char>>::empty()
    } else if removal(manifests, names)[n - 1] && !names.contains(manifests[n - 1].name@) {
        followers_upto(manifests, names, n - 1).push(manifests[n - 1].name@)
    } else {
        followers_upto(manifests, names, n - 1)
    }
}

/// The names of the packages that an uninstall of `names` takes away: the
/// names themselves, and after them the names of the installed packages
/// that leave with them.
pub open spec fn leaving(manifests: Seq<PackageManifest>, names: Seq<Seq<char>>) -> Seq<Seq<char>> {
    names + followers_upto(manifests, names, manifests.len() as int)
}

/// How many packages have left.
pub open spec fn count_gone(gone: Seq<bool>) -> nat
    decreases gone.len(),
{
    if gone.len() == 0 {
        0
    } else {
        count_gone(gone.drop_last()) + if gone.last() {
            1nat
        } else {
            0nat
        }
    }
}

proof fn lemma_count_bound(gone: Seq<bool>)
    ensures
        count_gone(gone) <= gone.len(),
    decreases gone.len(),
{
    if gone.len() > 0 {
        lemma_count_bound(gone.drop_last());
    }
}

/// When more packages have left, the count is higher.
proof fn lemma_count_grows(a: Seq<bool>, b: Seq<bool>)
    requires
        a.len() == b.len(),
        forall|i: int| 0 <= i < a.len() && a[i] ==> b[i],
    ensures
        count_gone(a) <= count_gone(b),
        a != b ==> count_gone(a) < count_gone(b),
    decreases a.len(),
{
    if a.len() > 0 {
        let a0 = a.drop_last();
        let b0 = b.drop_last();
        assert forall|i: int| 0 <= i < a0.len() && a0[i] implies b0[i] by {
            assert(a0[i] == a[i] && b0[i] == b[i]);
        }
        lemma_count_grows(a0, b0);
        if a0 == b0 && a.last() == b.last() {
            assert(a =~= b) by {
                assert forall|i: int| 0 <= i < a.len() implies a[i] == b[i] by {
                    if i < a.len() - 1 {
                        assert(a0[i] == a[i] && b0[i] == b[i]);
                    }
                }
            }
        }
    } else {
        assert(a =~= b);
    }
}

/// What has left stays away, round after round.
proof fn lemma_rounds_only_add(manifests: Seq<PackageManifest>, names: Seq<Seq<char>>, k: nat, m: nat)
    requires
        k <= m,
    ensures
        gone_after(manifests, names, k).len() == manifests.len(),
        gone_after(manifests, names, m).len() == manifests.len(),
        forall|i: int|
            0 <= i < manifests.len() && gone_after(manifests, names, k)[i] ==> gone_after(
                manifests,
                names,
                m,
            )[i],
    decreases m,
{
    if k < m {
        lemma_rounds_only_add(manifests, names, k, (m - 1) as nat);
    } else if k > 0 {
        lemma_rounds_only_add(manifests, names, (k - 1) as nat, (k - 1) as nat);
    }
}

/// Once a round takes nothing away, no later round does.
proof fn lemma_rest_stays(manifests: Seq<PackageManifest>, names: Seq<Seq<char>>, k: nat, m: nat)
    requires
        k <= m,
        gone_after(manifests, names, k + 1) == gone_after(manifests, names, k),
    ensures
        gone_after(manifests, names, m) == gone_after(manifests, names, k),
    decreases m,
{
    if k < m {
        lemma_rest_stays(manifests, names, k, (m - 1) as nat);
    }
}

/// A round that takes something away raises the count above the number of
/// the round.
proof fn lemma_rounds_progress(manifests: Seq<PackageManifest>, names: Seq<Seq<char>>, k: nat)
    ensures
        gone_after(manifests, names, k + 1) == gone_after(manifests, names, k) || count_gone(
            gone_after(manifests, names, k + 1),
        ) >= k + 1,
    decreases k,
{
    let now = gone_after(manifests, names, k);
    let then = gone_after(manifests, names, k + 1);
    lemma_rounds_only_add(manifests, names, k, k + 1);
    lemma_count_grows(now, then);
    if k > 0 {
        lemma_rounds_progress(manifests, names, (k - 1) as nat);
        if now == gone_after(manifests, names, (k - 1) as nat) {
            lemma_rest_stays(manifests, names, (k - 1) as nat, k + 1);
        }
    }
}

/// The named packages leave.
pub proof fn law_named_packages_leave(
    manifests: Seq<PackageManifest>,
    names: Seq<Seq<char>>,
    i: int,
)
    requires
        0 <= i < manifests.len(),
        names.contains(manifests[i].name@),
    ensures
        removal(manifests, names)[i],
{
    lemma_rounds_only_add(manifests, names, 0, manifests.len());
}

/// A package that stays keeps what it needs: a package that it needs
/// leaves only when it is named itself.
pub proof fn law_kept_package_keeps_what_it_needs(
    manifests: Seq<PackageManifest>,
    names: Seq<Seq<char>>,
    i: int,
    j: int,
)
    requires
        0 <= i < manifests.len(),
        0 <= j < manifests.len(),
        needs(manifests[j], manifests[i].name@),
        !names.contains(manifests[i].name@),
        !removal(manifests, names)[j],
    ensures
        !removal(manifests, names)[i],
{
    lemma_stays_while_needed(manifests, names, i, j, manifests.len());
}

proof fn lemma_stays_while_needed(
    manifests: Seq<PackageManifest>,
    names: Seq<Seq<char>>,
    i: int,
    j: int,
    k: nat,
)
    requires
        0 <= i < manifests.len(),
        0 <= j < manifests.len(),
        needs(manifests[j], manifests[i].name@),
        !names.contains(manifests[i].name@),
        !gone_after(manifests, names, k)[j],
    ensures
        !gone_after(manifests, names, k)[i],
    decreases k,
{
    if k > 0 {
        let before = gone_after(manifests, names, (k - 1) as nat);
        lemma_rounds_only_add(manifests, names, (k - 1) as nat, k);
        lemma_stays_while_needed(manifests, names, i, j, (k - 1) as nat);
        assert(!is_free(manifests, before, i));
    }
}

/// Installing packages and at once uninstalling them gives back the
/// packages that were there, provided the uninstall takes none of these
/// along: none of them has a name that leaves.
pub proof fn law_install_then_uninstall_restores(
    current: Seq<crate::graph::PackageIdView>,
    new: Seq<crate::graph::PackageIdView>,
    manifests: Seq<PackageManifest>,
)
    requires
        forall|i: int|
            0 <= i < current.len() ==> !leaving(
                manifests,
                crate::state::package_names(new),
            ).contains((#[trigger] current[i]).name),
    ensures
        crate::state::without_names(
            crate::state::with_packages(current, new),
            leaving(manifests, crate::state::package_names(new)),
        ) == current,
{
    let named = crate::state::package_names(new);
    let names = leaving(manifests, named);
    assert forall|i: int| 0 <= i < new.len() implies names.contains((#[trigger] new[i]).name) by {
        assert(names[i] == named[i]);
        assert(named[i] == new[i].name);
    }
    crate::state::law_install_then_removal(current, new, names);
}

/// The rounds have come to rest: one more round would take nothing away.
/// So no package stays that a package that left needed and that no
/// package that stays needs.
pub proof fn law_removal_is_at_rest(manifests: Seq<PackageManifest>, names: Seq<Seq<char>>)
    ensures
        next_round(manifests, removal(manifests, names)) == removal(manifests, names),
{
    let n = manifests.len();
    lemma_rounds_progress(manifests, names, n);
    lemma_rounds_only_add(manifests, names, n, n + 1);
    lemma_count_bound(gone_after(manifests, names, n + 1));
}

/// Whether the package declares a dependency on a package called `name`.
fn needs_name(m: &PackageManifest, name: &str) -> (r: bool)
    ensures
        r == needs(*m, name@),
{
    let mut d: usize = 0;
    while d < m.dependencies.len()
        invariant
            d <= m.dependencies.len(),
            forall|k: int| 0 <= k < d ==> (#[trigger] m.dependencies@[k]).name@ != name@,
        decreases m.dependencies.len() - d,
    {
        if same_text(m.dependencies[d].name.as_str(), name) {
            return true;
        }
        d += 1;
    }
    false
}

/// Whether the package at position `i` has left after one more round.
fn leaves(manifests: &Vec<PackageManifest>, gone: &Vec<bool>, i: usize) -> (r: bool)
    requires
        gone.len() == manifests.len(),
        i < manifests.len(),
    ensures
        r == leaves_next(manifests@, gone@, i as int),
{
    if gone[i] {
        return true;
    }
    let name = manifests[i].name.as_str();
    let mut wanted = false;
    let mut free = true;
    let mut j: usize = 0;
    while j < manifests.len()
        invariant
            j <= manifests.len(),
            gone.len() == manifests.len(),
            i < manifests.len(),
            name@ == manifests@[i as int].name@,
            wanted == exists|k: int|
                0 <= k < j && gone@[k] && needs(#[trigger] manifests@[k], name@),
            free == forall|k: int|
                0 <= k < j && needs(#[trigger] manifests@[k], name@) ==> gone@[k],
        decreases manifests.len() - j,
    {
        if needs_name(&manifests[j], name) {
            if gone[j] {
                wanted = true;
            } else {
                free = false;
            }
        }
        j += 1;
    }
    wanted && free
}

/// Computes for each installed package whether an uninstall of the
/// packages called `names` takes it away.
pub fn packages_to_remove(manifests: &Vec<PackageManifest>, names: &Vec<String>) -> (gone: Vec<
    bool,
>)
    ensures
        gone@ == removal(manifests@, texts(names@)),
{
    let n = manifests.len();
    let mut gone: Vec<bool> = Vec::new();
    let mut i: usize = 0;
    while i < n
        invariant
            i <= n,
            n == manifests.len(),
            gone@ == named(manifests@, texts(names@)).take(i as int),
        decreases n - i,
    {
        let listed = name_listed(names, manifests[i].name.as_str());
        gone.push(listed);
        assert(gone@ == named(manifests@, texts(names@)).take(i + 1));
        i += 1;
    }
    assert(named(manifests@, texts(names@)).take(n as int) == named(manifests@, texts(names@)));
    let mut round: usize = 0;
    while round < n
        invariant
            round <= n,
            n == manifests.len(),
            gone@ == gone_after(manifests@, texts(names@), round as nat),
            gone@.len() == n,
        decreases n - round,
    {
        let mut next: Vec<bool> = Vec::new();
        let mut changed = false;
        let mut a: usize = 0;
        assert(next@ == gone@.take(0));
        while a < n
            invariant
                a <= n,
                n == manifests.len(),
                gone@.len() == n,
                next@ == next_round(manifests@, gone@).take(a as int),
                changed == (next@ != gone@.take(a as int)),
            decreases n - a,
        {
            let out = leaves(manifests, &gone, a);
            let ghost before = next@;
            next.push(out);
            assert(next@ == next_round(manifests@, gone@).take(a + 1));
            proof {
                let x = gone@.take(a as int);
                let y = gone@.take(a + 1);
                assert(y == x.push(gone@[a as int]));
                if before == x && out == gone@[a as int] {
                    assert(next@ == y);
                } else if before != x {
                    assert(next@.drop_last() == before);
                    assert(y.drop_last() == x);
                } else {
                    assert(next@.last() != y.last());
                }
            }
            if out != gone[a] {
                changed = true;
            }
            a += 1;
        }
        assert(next_round(manifests@, gone@).take(n as int) == next_round(manifests@, gone@));
        assert(gone@.take(n as int) == gone@);
        if !changed {
            proof {
                lemma_rest_stays(manifests@, texts(names@), round as nat, n as nat);
            }
            return gone;
        }
        gone = next;
        round += 1;
    }
    gone
}

/// The names of the packages that an uninstall of the packages called
/// `names` takes away, given the manifests of the installed packages.
pub fn names_to_remove(manifests: &Vec<PackageManifest>, names: &Vec<String>) -> (out: Vec<String>)
    ensures
        texts(out@) == leaving(manifests@, texts(names@)),
{
    let gone = packages_to_remove(manifests, names);
    let mut out: Vec<String> = copy_texts(names);
    let mut i: usize = 0;
    assert(texts(out@) == texts(names@) + followers_upto(manifests@, texts(names@), 0));
    while i < manifests.len()
        invariant
            i <= manifests.len(),
            gone@ == removal(manifests@, texts(names@)),
            gone@.len() == manifests.len(),
            texts(out@) == texts(names@) + followers_upto(manifests@, texts(names@), i as int),
        decreases manifests.len() - i,
    {
        if gone[i] && !name_listed(names, manifests[i].name.as_str()) {
            let ghost before = out@;
            out.push(manifests[i].name.clone());
            assert(texts(out@) == texts(before).push(manifests@[i as int].name@));
            assert(texts(out@) == texts(names@) + followers_upto(
                manifests@,
                texts(names@),
                i + 1,
            ));
        }
        i += 1;
    }
    out
}

} // verus!
