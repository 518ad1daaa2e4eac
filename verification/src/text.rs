//! Character-level text helpers shared by the parsers and argument builders.
//!
//! Every routine works on the characters of a string (`Seq<char>` in
//! contracts, `Vec<char>` in code), so that positions are character
//! positions and no encoding question arises.

use vstd::prelude::*;

verus! {

/// `String::push` appends one character to the end of the string.
pub assume_specification[ String::push ](s: &mut String, c: char)
    ensures
        final(s)@ == old(s)@.push(c),
;

/// The characters of `s`, in order.
pub fn chars_of(s: &str) -> (out: Vec<char>)
    ensures
        out@ == s@,
{
    let mut out: Vec<char> = Vec::new();
    for c in it: s.chars()
        invariant
            it.seq() == s@,
            out@ == it.seq().take(it.index()),
    {
        out.push(c);
    }
    out
}

/// The string made of the characters of `v`, in order.
pub fn string_of(v: &Vec<char>) -> (out: String)
    ensures
        out@ == v@,
{
    let mut out = String::new();
    let mut i: usize = 0;
    while i < v.len()
        invariant
            i <= v.len(),
            out@ == v@.take(i as int),
        decreases v.len() - i,
    {
        out.push(v[i]);
        i += 1;
    }
    out
}

/// Whether two strings hold the same characters.
pub fn same_text(a: &str, b: &str) -> (r: bool)
    ensures
        r == (a@ == b@),
{
    let x = chars_of(a);
    let y = chars_of(b);
    same_chars(&x, &y)
}

/// Whether two character vectors are equal.
pub fn same_chars(a: &Vec<char>, b: &Vec<char>) -> (r: bool)
    ensures
        r == (a@ == b@),
{
    if a.len() != b.len() {
        return false;
    }
    let mut i: usize = 0;
    while i < a.len()
        invariant
            i <= a.len(),
            a.len() == b.len(),
            a@.take(i as int) == b@.take(i as int),
        decreases a.len() - i,
    {
        if a[i] != b[i] {
            return false;
        }
        assert(a@.take(i + 1) == a@.take(i as int).push(a@[i as int]));
        assert(b@.take(i + 1) == b@.take(i as int).push(b@[i as int]));
        i += 1;
    }
    assert(a@.take(a.len() as int) == a@);
    assert(b@.take(b.len() as int) == b@);
    true
}

/// Unicode white space: the code points with the `White_Space` property.
pub open spec fn is_space(c: char) -> bool {
    let n = c as u32;
    ||| 0x09 <= n <= 0x0D
    ||| n == 0x20
    ||| n == 0x85
    ||| n == 0xA0
    ||| n == 0x1680
    ||| 0x2000 <= n <= 0x200A
    ||| n == 0x2028
    ||| n == 0x2029
    ||| n == 0x202F
    ||| n == 0x205F
    ||| n == 0x3000
}

/// Executable test for [`is_space`].
pub fn is_space_char(c: char) -> (r: bool)
    ensures
        r == is_space(c),
{
    let n: u32 = c as u32;
    (0x09 <= n && n <= 0x0D) || n == 0x20 || n == 0x85 || n == 0xA0 || n == 0x1680 || (0x2000 <= n
        && n <= 0x200A) || n == 0x2028 || n == 0x2029 || n == 0x202F || n == 0x205F || n == 0x3000
}

/// `s` without its leading white space.
pub open spec fn trim_start(s: Seq<char>) -> Seq<char>
    decreases s.len(),
{
    if s.len() > 0 && is_space(s[0]) {
        trim_start(s.skip(1))
    } else {
        s
    }
}

/// `s` without its trailing white space.
pub open spec fn trim_end(s: Seq<char>) -> Seq<char>
    decreases s.len(),
{
    if s.len() > 0 && is_space(s.last()) {
        trim_end(s.drop_last())
    } else {
        s
    }
}

/// `s` without leading and trailing white space.
pub open spec fn trim(s: Seq<char>) -> Seq<char> {
    trim_end(trim_start(s))
}

/// Trims white space from both ends.
pub fn trim_chars(s: &Vec<char>) -> (out: Vec<char>)
    ensures
        out@ == trim(s@),
{
    let mut start: usize = 0;
    assert(s@.skip(0) == s@);
    while start < s.len() && is_space_char(s[start])
        invariant
            start <= s.len(),
            trim_start(s@) == trim_start(s@.skip(start as int)),
        decreases s.len() - start,
    {
        assert(s@.skip(start as int).skip(1) == s@.skip(start + 1));
        start += 1;
    }
    let mut end: usize = s.len();
    assert(s@.subrange(start as int, end as int) == s@.skip(start as int));
    while end > start && is_space_char(s[end - 1])
        invariant
            start <= end <= s.len(),
            trim_start(s@) == s@.skip(start as int),
            trim(s@) == trim_end(s@.subrange(start as int, end as int)),
        decreases end,
    {
        assert(s@.subrange(start as int, end as int).drop_last() == s@.subrange(
            start as int,
            end - 1,
        ));
        end -= 1;
    }
    slice_of(s, start, end)
}

/// The characters of `s` from position `from` up to, not including, `to`.
pub fn slice_of(s: &Vec<char>, from: usize, to: usize) -> (out: Vec<char>)
    requires
        from <= to <= s.len(),
    ensures
        out@ == s@.subrange(from as int, to as int),
{
    let mut out: Vec<char> = Vec::new();
    let mut i: usize = from;
    while i < to
        invariant
            from <= i <= to <= s.len(),
            out@ == s@.subrange(from as int, i as int),
        decreases to - i,
    {
        out.push(s[i]);
        i += 1;
    }
    out
}

/// Whether `p` occurs in `s` at position `i`.
pub open spec fn occurs_at(s: Seq<char>, p: Seq<char>, i: int) -> bool {
    0 <= i && i + p.len() <= s.len() && s.subrange(i, i + p.len()) == p
}

/// Whether `s` begins with `p`.
pub open spec fn has_prefix(s: Seq<char>, p: Seq<char>) -> bool {
    occurs_at(s, p, 0)
}

/// Whether `s` ends with `p`.
pub open spec fn has_suffix(s: Seq<char>, p: Seq<char>) -> bool {
    occurs_at(s, p, s.len() - p.len())
}

/// Whether `p` occurs somewhere in `s`.
pub open spec fn contains_text(s: Seq<char>, p: Seq<char>) -> bool {
    exists|i: int| occurs_at(s, p, i)
}

/// Tests whether `p` occurs in `s` at position `i`.
pub fn occurs_at_index(s: &Vec<char>, p: &Vec<char>, i: usize) -> (r: bool)
    ensures
        r == occurs_at(s@, p@, i as int),
{
    if p.len() > s.len() || i > s.len() - p.len() {
        return false;
    }
    let mut k: usize = 0;
    while k < p.len()
        invariant
            k <= p.len(),
            i + p.len() <= s.len(),
            s@.subrange(i as int, i + k) == p@.take(k as int),
        decreases p.len() - k,
    {
        if s[i + k] != p[k] {
            assert(s@.subrange(i as int, i + p.len())[k as int] != p@[k as int]);
            return false;
        }
        assert(s@.subrange(i as int, i + k + 1) == s@.subrange(i as int, i + k).push(
            s@[i + k],
        ));
        assert(p@.take(k + 1) == p@.take(k as int).push(p@[k as int]));
        k += 1;
    }
    assert(p@.take(p.len() as int) == p@);
    true
}

/// Tests whether `s` begins with `p`.
pub fn starts_with(s: &Vec<char>, p: &Vec<char>) -> (r: bool)
    ensures
        r == has_prefix(s@, p@),
{
    occurs_at_index(s, p, 0)
}

/// Tests whether `s` ends with `p`.
pub fn ends_with(s: &Vec<char>, p: &Vec<char>) -> (r: bool)
    ensures
        r == has_suffix(s@, p@),
{
    if p.len() > s.len() {
        return false;
    }
    occurs_at_index(s, p, s.len() - p.len())
}

/// The first position at or after `from` where `p` occurs in `s`.
pub fn find_from(s: &Vec<char>, p: &Vec<char>, from: usize) -> (r: Option<usize>)
    ensures
        match r {
            Some(i) => from <= i && occurs_at(s@, p@, i as int) && forall|j: int|
                from <= j < i ==> !occurs_at(s@, p@, j),
            None => forall|j: int| from <= j ==> !occurs_at(s@, p@, j),
        },
{
    if from > s.len() {
        return None;
    }
    let mut i: usize = from;
    while i < s.len()
        invariant
            from <= i <= s.len(),
            forall|j: int| from <= j < i ==> !occurs_at(s@, p@, j),
        decreases s.len() - i,
    {
        if occurs_at_index(s, p, i) {
            return Some(i);
        }
        i += 1;
    }
    if occurs_at_index(s, p, i) {
        return Some(i);
    }
    None
}

/// Tests whether `p` occurs somewhere in `s`.
pub fn contains(s: &Vec<char>, p: &Vec<char>) -> (r: bool)
    ensures
        r == contains_text(s@, p@),
{
    match find_from(s, p, 0) {
        Some(i) => {
            assert(occurs_at(s@, p@, i as int));
            true
        },
        None => {
            assert(forall|j: int| !occurs_at(s@, p@, j));
            false
        },
    }
}

/// Tests whether the text `p` occurs somewhere in the text `s`.
pub fn text_contains(s: &str, p: &str) -> (r: bool)
    ensures
        r == contains_text(s@, p@),
{
    let a = chars_of(s);
    let b = chars_of(p);
    contains(&a, &b)
}

/// Tests whether the text `s` begins with the text `p`.
pub fn text_starts_with(s: &str, p: &str) -> (r: bool)
    ensures
        r == has_prefix(s@, p@),
{
    let a = chars_of(s);
    let b = chars_of(p);
    starts_with(&a, &b)
}

/// Tests whether the text `s` ends with the text `p`.
pub fn text_ends_with(s: &str, p: &str) -> (r: bool)
    ensures
        r == has_suffix(s@, p@),
{
    let a = chars_of(s);
    let b = chars_of(p);
    ends_with(&a, &b)
}

/// Every occurrence of `pat` in `s`, taken from the left without overlap,
/// replaced by `with`. An empty pattern replaces nothing.
pub open spec fn replace_all(s: Seq<char>, pat: Seq<char>, with: Seq<char>) -> Seq<char>
    decreases s.len(),
{
    if pat.len() == 0 || s.len() < pat.len() {
        s
    } else if has_prefix(s, pat) {
        with + replace_all(s.skip(pat.len() as int), pat, with)
    } else {
        seq![s[0]] + replace_all(s.skip(1), pat, with)
    }
}

/// Appends the characters of `extra` to `out`.
pub fn extend_chars(out: &mut Vec<char>, extra: &Vec<char>)
    ensures
        final(out)@ == old(out)@ + extra@,
{
    let mut i: usize = 0;
    while i < extra.len()
        invariant
            i <= extra.len(),
            out@ == old(out)@ + extra@.take(i as int),
        decreases extra.len() - i,
    {
        out.push(extra[i]);
        i += 1;
    }
    assert(extra@.take(extra.len() as int) == extra@);
}

/// Replaces every occurrence of `pat` in `s` by `with`.
pub fn replace_chars(s: &Vec<char>, pat: &Vec<char>, with: &Vec<char>) -> (out: Vec<char>)
    ensures
        out@ == replace_all(s@, pat@, with@),
{
    if pat.len() == 0 {
        return s.clone();
    }
    let mut out: Vec<char> = Vec::new();
    let mut i: usize = 0;
    assert(s@.skip(0) == s@);
    while i < s.len()
        invariant
            i <= s.len(),
            pat.len() > 0,
            replace_all(s@, pat@, with@) == out@ + replace_all(s@.skip(i as int), pat@, with@),
        decreases s.len() - i,
    {
        let ghost rest = s@.skip(i as int);
        if occurs_at_index(s, pat, i) {
            assert(rest.subrange(0, pat.len() as int) == s@.subrange(i as int, i + pat.len()));
            assert(rest.skip(pat.len() as int) == s@.skip(i + pat.len()));
            extend_chars(&mut out, with);
            i += pat.len();
        } else {
            assert(rest.len() >= pat.len() ==> rest.subrange(0, pat.len() as int) == s@.subrange(
                i as int,
                i + pat.len(),
            ));
            assert(rest.skip(1) == s@.skip(i + 1));
            assert(replace_all(rest, pat@, with@) == seq![rest[0]] + replace_all(
                rest.skip(1),
                pat@,
                with@,
            )) by {
                if rest.len() < pat.len() {
                    lemma_replace_short(rest, pat@, with@);
                    lemma_replace_short(rest.skip(1), pat@, with@);
                    assert(rest == seq![rest[0]] + rest.skip(1));
                }
            }
            out.push(s[i]);
            i += 1;
        }
    }
    assert(s@.skip(s.len() as int) == Seq::<char>::empty());
    out
}

/// A text shorter than the pattern is left as it is.
pub proof fn lemma_replace_short(s: Seq<char>, pat: Seq<char>, with: Seq<char>)
    requires
        s.len() < pat.len(),
    ensures
        replace_all(s, pat, with) == s,
{
}

/// A text in which the pattern does not occur is left as it is.
pub proof fn lemma_replace_absent(s: Seq<char>, pat: Seq<char>, with: Seq<char>)
    requires
        !contains_text(s, pat),
    ensures
        replace_all(s, pat, with) == s,
    decreases s.len(),
{
    if pat.len() == 0 || s.len() < pat.len() {
    } else {
        assert(!occurs_at(s, pat, 0));
        let t = s.skip(1);
        assert forall|i: int| !occurs_at(t, pat, i) by {
            if occurs_at(t, pat, i) {
                assert(s.subrange(i + 1, i + 1 + pat.len()) == t.subrange(i, i + pat.len()));
                assert(occurs_at(s, pat, i + 1));
            }
        }
        lemma_replace_absent(t, pat, with);
        assert(s == seq![s[0]] + t);
    }
}

/// Replaces every occurrence of the text `pat` in the text `s` by `with`.
pub fn replace_text(s: &str, pat: &str, with: &str) -> (out: String)
    ensures
        out@ == replace_all(s@, pat@, with@),
{
    let a = chars_of(s);
    let b = chars_of(pat);
    let c = chars_of(with);
    let r = replace_chars(&a, &b, &c);
    string_of(&r)
}


/// The views of a vector of character vectors.
pub open spec fn views(v: Seq<Vec<char>>) -> Seq<Seq<char>> {
    Seq::new(v.len(), |i: int| v[i]@)
}

/// The views of a vector of strings.
pub open spec fn texts(v: Seq<String>) -> Seq<Seq<char>> {
    Seq::new(v.len(), |i: int| v[i]@)
}

/// The pieces of `s` between occurrences of `sep`. A text without the
/// separator is one piece; two separators in a row enclose an empty piece.
pub open spec fn split_on(s: Seq<char>, sep: char) -> Seq<Seq<char>>
    decreases s.len(),
{
    if s.len() == 0 {
        seq![Seq::<char>::empty()]
    } else {
        let before = split_on(s.drop_last(), sep);
        if s.last() == sep {
            before.push(Seq::<char>::empty())
        } else {
            before.drop_last().push(before.last().push(s.last()))
        }
    }
}

/// `split_on` always yields at least one piece.
pub proof fn lemma_split_nonempty(s: Seq<char>, sep: char)
    ensures
        split_on(s, sep).len() >= 1,
    decreases s.len(),
{
    if s.len() > 0 {
        lemma_split_nonempty(s.drop_last(), sep);
    }
}

/// Splits `s` at every occurrence of `sep`.
pub fn split_chars(s: &Vec<char>, sep: char) -> (out: Vec<Vec<char>>)
    ensures
        views(out@) == split_on(s@, sep),
        out.len() >= 1,
{
    let mut done: Vec<Vec<char>> = Vec::new();
    let mut cur: Vec<char> = Vec::new();
    let mut i: usize = 0;
    assert(views(done@).push(cur@) == split_on(s@.take(0), sep));
    while i < s.len()
        invariant
            i <= s.len(),
            views(done@).push(cur@) == split_on(s@.take(i as int), sep),
        decreases s.len() - i,
    {
        let ghost prefix = s@.take(i + 1);
        assert(prefix.drop_last() == s@.take(i as int));
        let ghost before = split_on(s@.take(i as int), sep);
        assert(before.last() == cur@);
        assert(before.drop_last() == views(done@));
        if s[i] == sep {
            let ghost old_done = done@;
            done.push(cur);
            cur = Vec::new();
            assert(views(done@) == views(old_done).push(before.last()));
        } else {
            cur.push(s[i]);
        }
        i += 1;
    }
    assert(s@.take(s.len() as int) == s@);
    let ghost old_done = done@;
    let ghost last = cur@;
    done.push(cur);
    assert(views(done@) == views(old_done).push(last));
    done
}

/// The parts joined into one text with `sep` between neighbours.
pub open spec fn join(parts: Seq<Seq<char>>, sep: Seq<char>) -> Seq<char>
    decreases parts.len(),
{
    if parts.len() == 0 {
        Seq::<char>::empty()
    } else if parts.len() == 1 {
        parts[0]
    } else {
        join(parts.drop_last(), sep) + sep + parts.last()
    }
}

/// Joins the strings of `parts` with `sep` between neighbours.
pub fn join_texts(parts: &Vec<String>, sep: &str) -> (out: String)
    ensures
        out@ == join(texts(parts@), sep@),
{
    let mut out = String::new();
    let mut i: usize = 0;
    while i < parts.len()
        invariant
            i <= parts.len(),
            out@ == join(texts(parts@).take(i as int), sep@),
        decreases parts.len() - i,
    {
        let ghost done = texts(parts@).take(i as int);
        let ghost next = texts(parts@).take(i + 1);
        assert(next.drop_last() == done);
        assert(next.last() == parts@[i as int]@);
        if i > 0 {
            out.append(sep);
        }
        out.append(parts[i].as_str());
        i += 1;
    }
    assert(texts(parts@).take(parts.len() as int) == texts(parts@));
    out
}

/// The maximal runs of characters of `s` that are not white space, in order:
/// what is left of the pieces between white space once the empty ones are
/// dropped.
pub open spec fn words(s: Seq<char>) -> Seq<Seq<char>> {
    space_pieces(s).filter(|p: Seq<char>| p.len() > 0)
}

/// The pieces of `s` between white-space characters, empty ones included.
pub open spec fn space_pieces(s: Seq<char>) -> Seq<Seq<char>>
    decreases s.len(),
{
    if s.len() == 0 {
        seq![Seq::<char>::empty()]
    } else {
        let before = space_pieces(s.drop_last());
        if is_space(s.last()) {
            before.push(Seq::<char>::empty())
        } else {
            before.drop_last().push(before.last().push(s.last()))
        }
    }
}

proof fn lemma_filter_push(a: Seq<Seq<char>>, x: Seq<char>)
    ensures
        a.push(x).filter(|p: Seq<char>| p.len() > 0) == if x.len() > 0 {
            a.filter(|p: Seq<char>| p.len() > 0).push(x)
        } else {
            a.filter(|p: Seq<char>| p.len() > 0)
        },
{
    reveal(Seq::filter);
    assert(a.push(x).drop_last() == a);
}

/// Splits `s` at white space and keeps the pieces that are not empty.
pub fn split_words(s: &Vec<char>) -> (out: Vec<Vec<char>>)
    ensures
        views(out@) == words(s@),
{
    let mut done: Vec<Vec<char>> = Vec::new();
    let mut cur: Vec<char> = Vec::new();
    let mut i: usize = 0;
    let ghost keep = |p: Seq<char>| p.len() > 0;
    proof {
        reveal(Seq::filter);
        assert(space_pieces(s@.take(0)).drop_last() == Seq::<Seq<char>>::empty());
    }
    while i < s.len()
        invariant
            i <= s.len(),
            keep == (|p: Seq<char>| p.len() > 0),
            space_pieces(s@.take(i as int)).len() >= 1,
            views(done@) == space_pieces(s@.take(i as int)).drop_last().filter(keep),
            cur@ == space_pieces(s@.take(i as int)).last(),
        decreases s.len() - i,
    {
        let ghost prefix = s@.take(i + 1);
        let ghost before = space_pieces(s@.take(i as int));
        assert(prefix.drop_last() == s@.take(i as int));
        if is_space_char(s[i]) {
            proof {
                assert(space_pieces(prefix) == before.push(Seq::<char>::empty()));
                assert(space_pieces(prefix).drop_last() == before);
                assert(before == before.drop_last().push(before.last()));
                lemma_filter_push(before.drop_last(), before.last());
            }
            if cur.len() > 0 {
                let ghost old_done = done@;
                done.push(cur);
                assert(views(done@) == views(old_done).push(before.last()));
            }
            cur = Vec::new();
        } else {
            proof {
                assert(space_pieces(prefix).drop_last() == before.drop_last());
            }
            cur.push(s[i]);
        }
        i += 1;
    }
    assert(s@.take(s.len() as int) == s@);
    proof {
        let all = space_pieces(s@);
        assert(all == all.drop_last().push(all.last()));
        lemma_filter_push(all.drop_last(), all.last());
    }
    if cur.len() > 0 {
        let ghost old_done = done@;
        let ghost last = cur@;
        done.push(cur);
        assert(views(done@) == views(old_done).push(last));
    }
    done
}

/// A line without the carriage return that may end it.
pub open spec fn strip_cr(line: Seq<char>) -> Seq<char> {
    if line.len() > 0 && line.last() == '\r' {
        line.drop_last()
    } else {
        line
    }
}

/// The lines of `s`: the pieces between line feeds, each without the
/// carriage return before its line feed. What follows the last line feed is
/// a line only if it is not empty.
pub open spec fn lines_of(s: Seq<char>) -> Seq<Seq<char>> {
    let pieces = split_on(s, '\n');
    let ended = Seq::new((pieces.len() - 1) as nat, |i: int| strip_cr(pieces[i]));
    if pieces.last().len() > 0 {
        ended.push(pieces.last())
    } else {
        ended
    }
}

/// Splits `s` into its lines.
pub fn split_lines(s: &Vec<char>) -> (out: Vec<Vec<char>>)
    ensures
        views(out@) == lines_of(s@),
{
    let pieces = split_chars(s, '\n');
    let mut out: Vec<Vec<char>> = Vec::new();
    let n = pieces.len();
    let mut i: usize = 0;
    while i + 1 < n
        invariant
            n == pieces.len(),
            n >= 1,
            i + 1 <= n,
            views(pieces@) == split_on(s@, '\n'),
            views(out@) == Seq::new(i as nat, |k: int| strip_cr(views(pieces@)[k])),
        decreases n - i,
    {
        let piece = &pieces[i];
        let ghost old_out = out@;
        let line = if piece.len() > 0 && piece[piece.len() - 1] == '\r' {
            slice_of(piece, 0, piece.len() - 1)
        } else {
            piece.clone()
        };
        assert(line@ == strip_cr(views(pieces@)[i as int])) by {
            assert(piece@.subrange(0, piece.len() - 1) == piece@.drop_last());
        }
        out.push(line);
        assert(views(out@) == views(old_out).push(strip_cr(views(pieces@)[i as int])));
        i += 1;
    }
    let last = &pieces[n - 1];
    assert(last@ == views(pieces@).last());
    if last.len() > 0 {
        let ghost old_out = out@;
        out.push(last.clone());
        assert(views(out@) == views(old_out).push(last@));
    }
    out
}

/// Whether `c` is one of the ten ASCII digits.
pub open spec fn is_digit(c: char) -> bool {
    '0' <= c <= '9'
}

/// Whether every character of `s` is an ASCII digit.
pub open spec fn all_digits(s: Seq<char>) -> bool {
    forall|i: int| 0 <= i < s.len() ==> is_digit(#[trigger] s[i])
}

/// The number that the decimal digits of `s` write.
pub open spec fn digits_value(s: Seq<char>) -> nat
    decreases s.len(),
{
    if s.len() == 0 {
        0
    } else {
        digits_value(s.drop_last()) * 10 + (s.last() as nat - '0' as nat) as nat
    }
}

/// The number written by `s` in decimal, with an optional `+` in front, if
/// it has at least one digit, nothing but digits, and fits a `usize`.
pub open spec fn parse_count(s: Seq<char>) -> Option<usize> {
    let d = if s.len() > 0 && s[0] == '+' {
        s.skip(1)
    } else {
        s
    };
    if d.len() > 0 && all_digits(d) && digits_value(d) <= usize::MAX {
        Some(digits_value(d) as usize)
    } else {
        None
    }
}

proof fn lemma_digits_value_grows(s: Seq<char>, i: int)
    requires
        all_digits(s),
        0 <= i <= s.len(),
    ensures
        digits_value(s.take(i)) <= digits_value(s),
    decreases s.len() - i,
{
    if i < s.len() {
        assert(s.take(i + 1).drop_last() == s.take(i));
        assert(is_digit(s[i]));
        lemma_digits_value_grows(s, i + 1);
    } else {
        assert(s.take(i) == s);
    }
}

/// Reads a decimal count.
pub fn parse_count_chars(s: &Vec<char>) -> (r: Option<usize>)
    ensures
        r == parse_count(s@),
{
    let start: usize = if s.len() > 0 && s[0] == '+' {
        1
    } else {
        0
    };
    if start == s.len() {
        return None;
    }
    let ghost d = s@.skip(start as int);
    assert(s@.skip(0) == s@);
    let mut value: usize = 0;
    let mut i: usize = start;
    assert(d.take(0) == Seq::<char>::empty());
    while i < s.len()
        invariant
            start <= i <= s.len(),
            start < s.len(),
            d == s@.skip(start as int),
            d == (if s@.len() > 0 && s@[0] == '+' {
                s@.skip(1)
            } else {
                s@
            }),
            all_digits(d.take(i - start)),
            value == digits_value(d.take(i - start)),
        decreases s.len() - i,
    {
        let c = s[i];
        assert(d[i - start] == c);
        assert(d.take(i - start + 1).drop_last() == d.take(i - start));
        if !('0' <= c && c <= '9') {
            assert(!is_digit(d[i - start]));
            return None;
        }
        let digit: usize = (c as u32 - '0' as u32) as usize;
        let next = match value.checked_mul(10) {
            Some(m) => m.checked_add(digit),
            None => None,
        };
        match next {
            Some(v) => {
                value = v;
            },
            None => {
                proof {
                    if all_digits(d) {
                        lemma_digits_value_grows(d, i - start + 1);
                    }
                }
                return None;
            },
        }
        assert(all_digits(d.take(i - start + 1))) by {
            assert forall|k: int| 0 <= k < i - start + 1 implies is_digit(
                #[trigger] d.take(i - start + 1)[k],
            ) by {
                if k < i - start {
                    assert(d.take(i - start)[k] == d[k]);
                }
            }
        }
        i += 1;
    }
    assert(d.take(d.len() as int) == d);
    Some(value)
}

/// The character that writes the digit `d`.
pub open spec fn digit_char(d: nat) -> char {
    if d == 0 {
        '0'
    } else if d == 1 {
        '1'
    } else if d == 2 {
        '2'
    } else if d == 3 {
        '3'
    } else if d == 4 {
        '4'
    } else if d == 5 {
        '5'
    } else if d == 6 {
        '6'
    } else if d == 7 {
        '7'
    } else if d == 8 {
        '8'
    } else {
        '9'
    }
}

/// The decimal digits of `n`, without leading zeros.
pub open spec fn decimal(n: nat) -> Seq<char>
    decreases n,
{
    if n < 10 {
        seq![digit_char(n)]
    } else {
        decimal(n / 10).push(digit_char(n % 10))
    }
}

fn digit_of(d: u64) -> (c: char)
    requires
        d < 10,
    ensures
        c == digit_char(d as nat),
{
    if d == 0 {
        '0'
    } else if d == 1 {
        '1'
    } else if d == 2 {
        '2'
    } else if d == 3 {
        '3'
    } else if d == 4 {
        '4'
    } else if d == 5 {
        '5'
    } else if d == 6 {
        '6'
    } else if d == 7 {
        '7'
    } else if d == 8 {
        '8'
    } else {
        '9'
    }
}

/// Appends the decimal digits of `n` to `out`.
pub fn push_decimal(out: &mut Vec<char>, n: u64)
    ensures
        final(out)@ == old(out)@ + decimal(n as nat),
    decreases n,
{
    if n >= 10 {
        push_decimal(out, n / 10);
    }
    out.push(digit_of(n % 10));
}

/// The decimal digits of `n` as a string.
pub fn decimal_text(n: u64) -> (out: String)
    ensures
        out@ == decimal(n as nat),
{
    let mut v: Vec<char> = Vec::new();
    push_decimal(&mut v, n);
    string_of(&v)
}

/// What `str::to_lowercase` returns for the text `s`.
pub uninterp spec fn lowercase(s: Seq<char>) -> Seq<char>;

/// `str::to_lowercase`: the text with every character mapped to its
/// lowercase form by the Unicode rules, which depend on the text alone.
#[verifier::external_body]
pub(crate) fn to_lowercase(s: &str) -> (out: String)
    ensures
        out@ == lowercase(s@),
{
    s.to_lowercase()
}


/// The two texts one after the other.
pub fn concat2(a: &str, b: &str) -> (out: String)
    ensures
        out@ == a@ + b@,
{
    let mut out = a.to_owned();
    out.append(b);
    out
}

/// The three texts one after the other.
pub fn concat3(a: &str, b: &str, c: &str) -> (out: String)
    ensures
        out@ == a@ + b@ + c@,
{
    let mut out = a.to_owned();
    out.append(b);
    out.append(c);
    out
}

/// Whether one of the texts begins with `prefix`.
pub open spec fn any_prefixed(items: Seq<Seq<char>>, prefix: Seq<char>) -> bool {
    exists|i: int| 0 <= i < items.len() && has_prefix(#[trigger] items[i], prefix)
}

/// Tests whether one of the strings begins with `prefix`.
pub fn any_starts_with(items: &Vec<String>, prefix: &str) -> (r: bool)
    ensures
        r == any_prefixed(texts(items@), prefix@),
{
    let p = chars_of(prefix);
    let mut i: usize = 0;
    while i < items.len()
        invariant
            i <= items.len(),
            p@ == prefix@,
            forall|k: int| 0 <= k < i ==> !has_prefix(#[trigger] texts(items@)[k], prefix@),
        decreases items.len() - i,
    {
        let item = chars_of(items[i].as_str());
        if starts_with(&item, &p) {
            assert(has_prefix(texts(items@)[i as int], prefix@));
            return true;
        }
        i += 1;
    }
    false
}

/// The part of `s` before its first `stop`, all of `s` when it has none.
pub open spec fn before_first(s: Seq<char>, stop: char) -> Seq<char>
    decreases s.len(),
{
    if s.len() == 0 || s[0] == stop {
        Seq::<char>::empty()
    } else {
        seq![s[0]] + before_first(s.skip(1), stop)
    }
}

/// Cuts `s` off at its first `stop`.
pub fn text_before_first(s: &str, stop: char) -> (out: String)
    ensures
        out@ == before_first(s@, stop),
{
    let v = chars_of(s);
    let mut out: Vec<char> = Vec::new();
    let mut i: usize = 0;
    assert(v@.skip(0) == v@);
    while i < v.len() && v[i] != stop
        invariant
            i <= v.len(),
            before_first(v@, stop) == out@ + before_first(v@.skip(i as int), stop),
        decreases v.len() - i,
    {
        assert(v@.skip(i as int).skip(1) == v@.skip(i + 1));
        out.push(v[i]);
        i += 1;
    }
    string_of(&out)
}

/// A copy of a list of strings.
pub fn copy_texts(items: &Vec<String>) -> (out: Vec<String>)
    ensures
        texts(out@) == texts(items@),
{
    let mut out: Vec<String> = Vec::new();
    let mut i: usize = 0;
    while i < items.len()
        invariant
            i <= items.len(),
            texts(out@) == texts(items@).take(i as int),
        decreases items.len() - i,
    {
        let ghost before = out@;
        let item = items[i].clone();
        out.push(item);
        assert(texts(out@) == texts(before).push(items@[i as int]@));
        i += 1;
    }
    assert(texts(items@).take(items.len() as int) == texts(items@));
    out
}

/// Appends one string to a list of strings.
pub fn push_text(items: &mut Vec<String>, item: String)
    ensures
        texts(final(items)@) == texts(old(items)@).push(item@),
{
    items.push(item);
    assert(texts(items@) == texts(old(items)@).push(item@));
}

/// Appends copies of the strings of `extra` to `items`.
pub fn extend_texts(items: &mut Vec<String>, extra: &Vec<String>)
    ensures
        texts(final(items)@) == texts(old(items)@) + texts(extra@),
{
    let mut i: usize = 0;
    assert(texts(extra@).take(0) == Seq::<Seq<char>>::empty());
    while i < extra.len()
        invariant
            i <= extra.len(),
            texts(items@) == texts(old(items)@) + texts(extra@).take(i as int),
        decreases extra.len() - i,
    {
        let item = extra[i].clone();
        assert(texts(extra@).take(i + 1) == texts(extra@).take(i as int).push(extra@[i as int]@));
        push_text(items, item);
        i += 1;
    }
    assert(texts(extra@).take(extra.len() as int) == texts(extra@));
}

/// The strings that the character vectors of `v` write.
pub fn strings_of(v: &Vec<Vec<char>>) -> (out: Vec<String>)
    ensures
        texts(out@) == views(v@),
{
    let mut out: Vec<String> = Vec::new();
    let mut i: usize = 0;
    while i < v.len()
        invariant
            i <= v.len(),
            texts(out@) == views(v@).take(i as int),
        decreases v.len() - i,
    {
        let item = string_of(&v[i]);
        assert(views(v@).take(i + 1) == views(v@).take(i as int).push(v@[i as int]@));
        push_text(&mut out, item);
        i += 1;
    }
    assert(views(v@).take(v.len() as int) == views(v@));
    out
}

/// The words of a text: its maximal runs without white space.
pub fn text_words(s: &str) -> (out: Vec<String>)
    ensures
        texts(out@) == words(s@),
{
    let v = chars_of(s);
    let w = split_words(&v);
    strings_of(&w)
}

/// The lines of a text.
pub fn text_lines(s: &str) -> (out: Vec<String>)
    ensures
        texts(out@) == lines_of(s@),
{
    let v = chars_of(s);
    let l = split_lines(&v);
    strings_of(&l)
}

/// The pieces of a text between occurrences of `sep`.
pub fn text_split(s: &str, sep: char) -> (out: Vec<String>)
    ensures
        texts(out@) == split_on(s@, sep),
{
    let v = chars_of(s);
    let l = split_chars(&v, sep);
    strings_of(&l)
}

/// Reads a decimal count from a text.
pub fn text_parse_count(s: &str) -> (r: Option<usize>)
    ensures
        r == parse_count(s@),
{
    let v = chars_of(s);
    parse_count_chars(&v)
}

/// The position of the first of `items` that equals `needle`.
pub open spec fn position_of(items: Seq<Seq<char>>, needle: Seq<char>) -> Option<int>
    decreases items.len(),
{
    if items.len() == 0 {
        None
    } else if items[0] == needle {
        Some(0)
    } else {
        match position_of(items.skip(1), needle) {
            Some(k) => Some(k + 1),
            None => None,
        }
    }
}

/// Finds the first string that equals `needle`.
pub fn find_text(items: &Vec<String>, needle: &str) -> (r: Option<usize>)
    ensures
        match r {
            Some(k) => k < items.len() && position_of(texts(items@), needle@) == Some(k as int),
            None => position_of(texts(items@), needle@) is None,
        },
{
    let ghost all = texts(items@);
    let mut i: usize = 0;
    assert(all.skip(0) == all);
    while i < items.len()
        invariant
            i <= items.len(),
            all == texts(items@),
            position_of(all, needle@) == match position_of(all.skip(i as int), needle@) {
                Some(k) => Some(k + i),
                None => None,
            },
        decreases items.len() - i,
    {
        assert(all.skip(i as int).skip(1) == all.skip(i + 1));
        assert(all.skip(i as int)[0] == items@[i as int]@);
        if same_text(items[i].as_str(), needle) {
            return Some(i);
        }
        i += 1;
    }
    None
}


/// What `position_of` finds is the first of the items that equals the
/// needle; it finds nothing only when no item does.
pub proof fn lemma_position_of(items: Seq<Seq<char>>, needle: Seq<char>)
    ensures
        match position_of(items, needle) {
            Some(k) => 0 <= k < items.len() && items[k] == needle && forall|j: int|
                0 <= j < k ==> #[trigger] items[j] != needle,
            None => forall|j: int| 0 <= j < items.len() ==> #[trigger] items[j] != needle,
        },
    decreases items.len(),
{
    if items.len() > 0 && items[0] != needle {
        let rest = items.skip(1);
        lemma_position_of(rest, needle);
        match position_of(rest, needle) {
            Some(k) => {
                assert forall|j: int| 0 <= j < k + 1 implies #[trigger] items[j] != needle by {
                    if j > 0 {
                        assert(rest[j - 1] == items[j]);
                    }
                }
            },
            None => {
                assert forall|j: int| 0 <= j < items.len() implies #[trigger] items[j]
                    != needle by {
                    if j > 0 {
                        assert(rest[j - 1] == items[j]);
                    }
                }
            },
        }
    }
}

/// An item that equals the needle and has none before it that does is what
/// `position_of` finds.
pub proof fn lemma_position_is(items: Seq<Seq<char>>, needle: Seq<char>, k: int)
    requires
        0 <= k < items.len(),
        items[k] == needle,
        forall|j: int| 0 <= j < k ==> #[trigger] items[j] != needle,
    ensures
        position_of(items, needle) == Some(k),
{
    lemma_position_of(items, needle);
}


/// Where a needle is found once one more item stands at the end.
pub proof fn lemma_position_push(items: Seq<Seq<char>>, last: Seq<char>, needle: Seq<char>)
    ensures
        position_of(items.push(last), needle) == match position_of(items, needle) {
            Some(k) => Some(k),
            None => if last == needle {
                Some(items.len() as int)
            } else {
                None
            },
        },
    decreases items.len(),
{
    let all = items.push(last);
    if items.len() == 0 {
        assert(all.skip(1) == items);
    } else {
        assert(all.skip(1) == items.skip(1).push(last));
        assert(all[0] == items[0]);
        lemma_position_push(items.skip(1), last, needle);
    }
}

} // verus!
