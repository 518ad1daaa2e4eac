//! Paths as texts, with `/` as the separator.

use crate::text::{chars_of, concat2, concat3, string_of};
use vstd::prelude::*;

verus! {

/// `name` under the directory `base`: an absolute `name` stands for itself;
/// otherwise it follows `base`, with a separator unless `base` is empty or
/// ends with one.
pub open spec fn joined(base: Seq<char>, name: Seq<char>) -> Seq<char> {
    if name.len() > 0 && name[0] == '/' {
        name
    } else if base.len() == 0 || base.last() == '/' {
        base + name
    } else {
        base + seq!['/'] + name
    }
}

/// Joins `name` to the directory `base`.
pub fn join_path(base: &str, name: &str) -> (out: String)
    ensures
        out@ == joined(base@, name@),
{
    let b = chars_of(base);
    let n = chars_of(name);
    if n.len() > 0 && n[0] == '/' {
        name.to_owned()
    } else if b.len() == 0 || b[b.len() - 1] == '/' {
        concat2(base, name)
    } else {
        proof {
            reveal_strlit("/");
            assert("/"@ == seq!['/']);
        }
        concat3(base, "/", name)
    }
}

/// What follows the last `stop` in `s`, all of `s` when it has none.
pub open spec fn after_last(s: Seq<char>, stop: char) -> Seq<char>
    decreases s.len(),
{
    if s.len() == 0 || s.last() == stop {
        Seq::<char>::empty()
    } else {
        after_last(s.drop_last(), stop).push(s.last())
    }
}

/// Cuts off `s` up to and including its last `stop`.
pub fn text_after_last(s: &str, stop: char) -> (out: String)
    ensures
        out@ == after_last(s@, stop),
{
    let v = chars_of(s);
    let mut start: usize = v.len();
    proof {
        assert(v@.take(v.len() as int) == v@);
        assert(after_last(v@, stop) + v@.skip(v.len() as int) == after_last(v@, stop));
    }
    while start > 0 && v[start - 1] != stop
        invariant
            start <= v.len(),
            after_last(v@, stop) == after_last(v@.take(start as int), stop) + v@.skip(start as int),
        decreases start,
    {
        proof {
            let upto = v@.take(start as int);
            assert(upto.drop_last() == v@.take(start - 1));
            assert(after_last(upto, stop) == after_last(v@.take(start - 1), stop).push(
                v@[start - 1],
            ));
            assert(after_last(v@.take(start - 1), stop).push(v@[start - 1]) + v@.skip(
                start as int,
            ) == after_last(v@.take(start - 1), stop) + v@.skip(start - 1));
        }
        start -= 1;
    }
    proof {
        assert(after_last(v@.take(start as int), stop) == Seq::<char>::empty());
        assert(Seq::<char>::empty() + v@.skip(start as int) == v@.skip(start as int));
        assert(v@.subrange(start as int, v.len() as int) == v@.skip(start as int));
    }
    let tail = crate::text::slice_of(&v, start, v.len());
    string_of(&tail)
}

/// `s` without the ending `suffix`, where it has that ending.
pub open spec fn without_suffix(s: Seq<char>, suffix: Seq<char>) -> Seq<char> {
    if crate::text::has_suffix(s, suffix) {
        s.take(s.len() - suffix.len())
    } else {
        s
    }
}

/// Drops the ending `suffix` from `s`, where it has that ending.
pub fn strip_suffix(s: &str, suffix: &str) -> (out: String)
    ensures
        out@ == without_suffix(s@, suffix@),
{
    let v = chars_of(s);
    let x = chars_of(suffix);
    if crate::text::ends_with(&v, &x) {
        let head = crate::text::slice_of(&v, 0, v.len() - x.len());
        assert(v@.subrange(0, v.len() - x.len()) == v@.take(v.len() - x.len()));
        string_of(&head)
    } else {
        s.to_owned()
    }
}

} // verus!
