//! Lemmas about filtered sequences, shared by the modules that select from
//! lists.

use vstd::prelude::*;

verus! {

/// A test and its negation split a sequence in two.
pub proof fn lemma_filter_split<A>(s: Seq<A>, yes: spec_fn(A) -> bool, no: spec_fn(A) -> bool)
    requires
        forall|a: A| #[trigger] no(a) == !yes(a),
    ensures
        s.filter(yes).len() + s.filter(no).len() == s.len(),
    decreases s.len(),
{
    reveal(Seq::filter);
    if s.len() > 0 {
        lemma_filter_split(s.drop_last(), yes, no);
    }
}

/// Filtering a sequence that grew by one element.
pub proof fn lemma_filter_step<A>(s: Seq<A>, keep: spec_fn(A) -> bool, i: int)
    requires
        0 <= i < s.len(),
    ensures
        s.take(i + 1).filter(keep) == if keep(s[i]) {
            s.take(i).filter(keep).push(s[i])
        } else {
            s.take(i).filter(keep)
        },
{
    reveal(Seq::filter);
    assert(s.take(i + 1).drop_last() == s.take(i));
}

/// What passes a filter is what was there and meets the test.
pub proof fn lemma_filter_member<A>(s: Seq<A>, keep: spec_fn(A) -> bool, x: A)
    ensures
        s.filter(keep).contains(x) <==> (s.contains(x) && keep(x)),
    decreases s.len(),
{
    reveal(Seq::filter);
    if s.len() > 0 {
        let init = s.drop_last();
        lemma_filter_member(init, keep, x);
        let kept = init.filter(keep);
        if s.contains(x) {
            let i = choose|i: int| 0 <= i < s.len() && s[i] == x;
            if i < s.len() - 1 {
                assert(init[i] == x);
            }
        }
        if init.contains(x) {
            let i = choose|i: int| 0 <= i < init.len() && init[i] == x;
            assert(s[i] == x);
        }
        if keep(s.last()) {
            assert(kept.push(s.last()).last() == s.last());
            if kept.contains(x) {
                let i = choose|i: int| 0 <= i < kept.len() && kept[i] == x;
                assert(kept.push(s.last())[i] == x);
            }
            if kept.push(s.last()).contains(x) {
                let i = choose|i: int|
                    0 <= i < kept.push(s.last()).len() && kept.push(s.last())[i] == x;
                if i < kept.len() {
                    assert(kept[i] == x);
                } else {
                    assert(s[s.len() - 1] == x);
                }
            }
        } else {
            if s.contains(x) && keep(x) {
                let i = choose|i: int| 0 <= i < s.len() && s[i] == x;
                assert(i < s.len() - 1);
            }
        }
    }
}

/// A test and its negation split a sequence into two that together hold
/// what it held.
pub proof fn lemma_filter_split_multiset<A>(
    s: Seq<A>,
    yes: spec_fn(A) -> bool,
    no: spec_fn(A) -> bool,
)
    requires
        forall|a: A| #[trigger] no(a) == !yes(a),
    ensures
        s.to_multiset() == s.filter(yes).to_multiset().add(s.filter(no).to_multiset()),
    decreases s.len(),
{
    broadcast use vstd::seq_lib::group_to_multiset_ensures;

    reveal(Seq::filter);
    if s.len() > 0 {
        let init = s.drop_last();
        lemma_filter_split_multiset(init, yes, no);
        assert(s == init.push(s.last()));
        assert(s.to_multiset() == init.to_multiset().insert(s.last()));
        if yes(s.last()) {
            assert(s.filter(yes) == init.filter(yes).push(s.last()));
            assert(s.filter(no) == init.filter(no));
        } else {
            assert(s.filter(no) == init.filter(no).push(s.last()));
            assert(s.filter(yes) == init.filter(yes));
        }
        assert(s.to_multiset() =~= s.filter(yes).to_multiset().add(s.filter(no).to_multiset()));
    } else {
        assert(s.to_multiset() =~= s.filter(yes).to_multiset().add(s.filter(no).to_multiset()));
    }
}

/// Two tests that agree on the items of a sequence keep the same items.
pub proof fn lemma_filter_same<A>(s: Seq<A>, p: spec_fn(A) -> bool, q: spec_fn(A) -> bool)
    requires
        forall|i: int| 0 <= i < s.len() ==> p(#[trigger] s[i]) == q(s[i]),
    ensures
        s.filter(p) == s.filter(q),
    decreases s.len(),
{
    reveal(Seq::filter);
    if s.len() > 0 {
        let init = s.drop_last();
        assert forall|i: int| 0 <= i < init.len() implies p(#[trigger] init[i]) == q(init[i]) by {
            assert(init[i] == s[i]);
        }
        lemma_filter_same(init, p, q);
        assert(p(s[s.len() - 1]) == q(s[s.len() - 1]));
    }
}

/// Filtering by a test that everything passes changes nothing.
pub proof fn lemma_filter_all<A>(s: Seq<A>, keep: spec_fn(A) -> bool)
    requires
        forall|i: int| 0 <= i < s.len() ==> keep(#[trigger] s[i]),
    ensures
        s.filter(keep) == s,
    decreases s.len(),
{
    reveal(Seq::filter);
    if s.len() > 0 {
        let init = s.drop_last();
        assert forall|i: int| 0 <= i < init.len() implies keep(#[trigger] init[i]) by {
            assert(init[i] == s[i]);
        }
        lemma_filter_all(init, keep);
        assert(keep(s[s.len() - 1]));
        assert(init.push(s.last()) == s);
    }
}

/// Filtering by a test that nothing passes leaves nothing.
pub proof fn lemma_filter_none<A>(s: Seq<A>, keep: spec_fn(A) -> bool)
    requires
        forall|i: int| 0 <= i < s.len() ==> !keep(#[trigger] s[i]),
    ensures
        s.filter(keep) == Seq::<A>::empty(),
    decreases s.len(),
{
    reveal(Seq::filter);
    if s.len() > 0 {
        let init = s.drop_last();
        assert forall|i: int| 0 <= i < init.len() implies !keep(#[trigger] init[i]) by {
            assert(init[i] == s[i]);
        }
        lemma_filter_none(init, keep);
        assert(!keep(s[s.len() - 1]));
    }
}

/// A filtered prefix is no longer than the filtered whole.
pub proof fn lemma_filter_grows<A>(s: Seq<A>, keep: spec_fn(A) -> bool, i: int)
    requires
        0 <= i <= s.len(),
    ensures
        s.take(i).filter(keep).len() <= s.filter(keep).len(),
    decreases s.len() - i,
{
    if i < s.len() {
        lemma_filter_step(s, keep, i);
        lemma_filter_grows(s, keep, i + 1);
    } else {
        assert(s.take(i) == s);
    }
}

} // verus!
