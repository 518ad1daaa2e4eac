//! The header patcher: include lines that name a header by its path under
//! the build prefix are rewritten to name it by its relative path.
//!
//! An include line here is `#`, `include` and a quoted path, with any white
//! space after the `#` and before the quote. It is rewritten when the path
//! begins with the build prefix and goes on after it. Includes in angle
//! brackets are left alone.

use crate::paths::{join_path, joined};
use crate::text::{
    chars_of, extend_chars, has_prefix, is_space, is_space_char, occurs_at, occurs_at_index,
    push_text, slice_of, string_of, texts,
};
use vstd::prelude::*;

verus! {

/// The word `include`.
pub open spec fn include_word() -> Seq<char> {
    seq!['i', 'n', 'c', 'l', 'u', 'd', 'e']
}

/// The first position at or after `i` that holds no white space.
pub open spec fn skip_spaces(s: Seq<char>, i: int) -> int
    decreases s.len() - i,
{
    if 0 <= i < s.len() && is_space(s[i]) {
        skip_spaces(s, i + 1)
    } else {
        i
    }
}

/// The first position at or after `i` that holds a double quote, the
/// length of the text when there is none.
pub open spec fn next_quote(s: Seq<char>, i: int) -> int
    decreases s.len() - i,
{
    if 0 <= i < s.len() && s[i] != '"' {
        next_quote(s, i + 1)
    } else {
        i
    }
}

/// The include line that begins at position `i`, if one does: the position
/// where its path begins and the position of its closing quote.
pub open spec fn include_at(s: Seq<char>, prefix: Seq<char>, i: int) -> Option<(int, int)> {
    if 0 <= i < s.len() && s[i] == '#' {
        let word = skip_spaces(s, i + 1);
        if occurs_at(s, include_word(), word) {
            let quote = skip_spaces(s, word + 7);
            if quote < s.len() && s[quote] == '"' && occurs_at(s, prefix, quote + 1) {
                let rest = quote + 1 + prefix.len();
                let close = next_quote(s, rest);
                if rest < close && close < s.len() {
                    Some((quote + 1, close))
                } else {
                    None
                }
            } else {
                None
            }
        } else {
            None
        }
    } else {
        None
    }
}

/// `path` without the build prefix at its front, as often as it stands
/// there.
pub open spec fn strip_prefixes(path: Seq<char>, prefix: Seq<char>) -> Seq<char>
    decreases path.len(),
{
    if prefix.len() > 0 && has_prefix(path, prefix) {
        strip_prefixes(path.skip(prefix.len() as int), prefix)
    } else {
        path
    }
}

/// `path` without the slashes at its front.
pub open spec fn strip_slashes(path: Seq<char>) -> Seq<char>
    decreases path.len(),
{
    if path.len() > 0 && path[0] == '/' {
        strip_slashes(path.skip(1))
    } else {
        path
    }
}

/// The relative path that replaces a path under the build prefix.
pub open spec fn relative_include(path: Seq<char>, prefix: Seq<char>) -> Seq<char> {
    strip_slashes(strip_prefixes(path, prefix))
}

/// The include line for a relative path.
pub open spec fn include_line(relative: Seq<char>) -> Seq<char> {
    seq!['#', 'i', 'n', 'c', 'l', 'u', 'd', 'e', ' ', '"'] + relative + seq!['"']
}

/// Skipping white space never goes backward nor past the end.
pub proof fn lemma_skip_spaces_bounds(s: Seq<char>, i: int)
    requires
        0 <= i,
    ensures
        i <= skip_spaces(s, i),
        i <= s.len() ==> skip_spaces(s, i) <= s.len(),
        forall|k: int| i <= k < skip_spaces(s, i) ==> is_space(#[trigger] s[k]),
        skip_spaces(s, i) < s.len() ==> !is_space(s[skip_spaces(s, i)]),
    decreases s.len() - i,
{
    if i < s.len() && is_space(s[i]) {
        lemma_skip_spaces_bounds(s, i + 1);
    }
}

/// Looking for a quote never goes backward nor past the end.
pub proof fn lemma_next_quote_bounds(s: Seq<char>, i: int)
    requires
        0 <= i,
    ensures
        i <= next_quote(s, i),
        i <= s.len() ==> next_quote(s, i) <= s.len(),
        forall|k: int| i <= k < next_quote(s, i) ==> #[trigger] s[k] != '"',
        next_quote(s, i) < s.len() ==> s[next_quote(s, i)] == '"',
    decreases s.len() - i,
{
    if i < s.len() && s[i] != '"' {
        lemma_next_quote_bounds(s, i + 1);
    }
}

/// An include line lies within the text and behind where it begins.
pub proof fn lemma_include_bounds(s: Seq<char>, prefix: Seq<char>, i: int)
    ensures
        match include_at(s, prefix, i) {
            Some((start, close)) => 0 <= i < start <= close < s.len(),
            None => true,
        },
{
    if 0 <= i < s.len() {
        lemma_skip_spaces_bounds(s, i + 1);
        let word = skip_spaces(s, i + 1);
        lemma_skip_spaces_bounds(s, word + 7);
        let quote = skip_spaces(s, word + 7);
        lemma_next_quote_bounds(s, quote + 1 + prefix.len());
    }
}

/// The text from position `i` on with every include line under the build
/// prefix rewritten. Lines are taken from the left and do not overlap.
pub open spec fn rewrite_from(s: Seq<char>, prefix: Seq<char>, i: int) -> Seq<char>
    decreases s.len() - i,
{
    if i < 0 || i >= s.len() {
        Seq::<char>::empty()
    } else {
        match include_at(s, prefix, i) {
            Some((start, close)) => {
                proof {
                    lemma_include_bounds(s, prefix, i);
                }
                include_line(relative_include(s.subrange(start, close), prefix)) + rewrite_from(
                    s,
                    prefix,
                    close + 1,
                )
            },
            None => seq![s[i]] + rewrite_from(s, prefix, i + 1),
        }
    }
}

/// The text with every include line under the build prefix rewritten.
pub open spec fn rewritten(s: Seq<char>, prefix: Seq<char>) -> Seq<char> {
    rewrite_from(s, prefix, 0)
}

/// Whether the text has an include line under the build prefix.
pub open spec fn has_build_includes(s: Seq<char>, prefix: Seq<char>) -> bool {
    exists|i: int| include_at(s, prefix, i) is Some
}

fn skip_spaces_from(s: &Vec<char>, i: usize) -> (r: usize)
    requires
        i <= s.len(),
    ensures
        r == skip_spaces(s@, i as int),
        i <= r <= s.len(),
{
    let mut k: usize = i;
    while k < s.len() && is_space_char(s[k])
        invariant
            i <= k <= s.len(),
            skip_spaces(s@, i as int) == skip_spaces(s@, k as int),
        decreases s.len() - k,
    {
        k += 1;
    }
    k
}

fn next_quote_from(s: &Vec<char>, i: usize) -> (r: usize)
    requires
        i <= s.len(),
    ensures
        r == next_quote(s@, i as int),
        i <= r <= s.len(),
{
    let mut k: usize = i;
    while k < s.len() && s[k] != '"'
        invariant
            i <= k <= s.len(),
            next_quote(s@, i as int) == next_quote(s@, k as int),
        decreases s.len() - k,
    {
        k += 1;
    }
    k
}

/// Finds the include line that begins at position `i`.
fn find_include_at(s: &Vec<char>, prefix: &Vec<char>, i: usize) -> (r: Option<(usize, usize)>)
    requires
        i < s.len(),
    ensures
        match r {
            Some((start, close)) => include_at(s@, prefix@, i as int) == Some(
                (start as int, close as int),
            ) && i < start <= close < s.len(),
            None => include_at(s@, prefix@, i as int) is None,
        },
{
    proof {
        lemma_include_bounds(s@, prefix@, i as int);
    }
    if s[i] != '#' {
        return None;
    }
    let word = skip_spaces_from(s, i + 1);
    let keyword: Vec<char> = vec!['i', 'n', 'c', 'l', 'u', 'd', 'e'];
    assert(keyword@ == include_word());
    if !occurs_at_index(s, &keyword, word) {
        return None;
    }
    let quote = skip_spaces_from(s, word + 7);
    if quote >= s.len() || s[quote] != '"' {
        return None;
    }
    if !occurs_at_index(s, prefix, quote + 1) {
        return None;
    }
    let rest = quote + 1 + prefix.len();
    let close = next_quote_from(s, rest);
    if rest < close && close < s.len() {
        Some((quote + 1, close))
    } else {
        None
    }
}

/// The relative path for a path under the build prefix.
fn relative_of(path: &Vec<char>, prefix: &Vec<char>) -> (out: Vec<char>)
    ensures
        out@ == relative_include(path@, prefix@),
{
    let mut i: usize = 0;
    assert(path@.skip(0) == path@);
    while prefix.len() > 0 && occurs_at_index(path, prefix, i)
        invariant
            i <= path.len(),
            strip_prefixes(path@, prefix@) == strip_prefixes(path@.skip(i as int), prefix@),
        decreases path.len() - i,
    {
        proof {
            let rest = path@.skip(i as int);
            assert(rest.subrange(0, prefix.len() as int) == path@.subrange(
                i as int,
                i + prefix.len(),
            ));
            assert(rest.skip(prefix.len() as int) == path@.skip(i + prefix.len()));
        }
        i += prefix.len();
    }
    proof {
        let rest = path@.skip(i as int);
        if prefix.len() > 0 && rest.len() >= prefix.len() {
            assert(rest.subrange(0, prefix.len() as int) == path@.subrange(
                i as int,
                i + prefix.len(),
            ));
        }
        assert(strip_prefixes(path@, prefix@) == rest);
    }
    let ghost start = i;
    while i < path.len() && path[i] == '/'
        invariant
            start <= i <= path.len(),
            strip_slashes(path@.skip(start as int)) == strip_slashes(path@.skip(i as int)),
        decreases path.len() - i,
    {
        assert(path@.skip(i as int).skip(1) == path@.skip(i + 1));
        i += 1;
    }
    assert(path@.subrange(i as int, path.len() as int) == path@.skip(i as int));
    slice_of(path, i, path.len())
}

/// Rewrites the include lines of a header. Returns the new content when the
/// header has an include line under the build prefix, and nothing when it
/// has none and so stays as it is.
pub fn patch_header(content: &str, build_prefix: &str) -> (r: Option<String>)
    ensures
        match r {
            Some(patched) => has_build_includes(content@, build_prefix@) && patched@ == rewritten(
                content@,
                build_prefix@,
            ),
            None => !has_build_includes(content@, build_prefix@),
        },
{
    let s = chars_of(content);
    let prefix = chars_of(build_prefix);
    let mut out: Vec<char> = Vec::new();
    let mut found = false;
    let mut i: usize = 0;
    while i < s.len()
        invariant
            i <= s.len(),
            s@ == content@,
            prefix@ == build_prefix@,
            rewritten(s@, prefix@) == out@ + rewrite_from(s@, prefix@, i as int),
            found ==> has_build_includes(s@, prefix@),
            !found ==> forall|k: int| 0 <= k < i ==> include_at(s@, prefix@, k) is None,
        decreases s.len() - i,
    {
        match find_include_at(&s, &prefix, i) {
            Some((start, close)) => {
                let path = slice_of(&s, start, close);
                let relative = relative_of(&path, &prefix);
                let ghost before = out@;
                let head: Vec<char> = vec!['#', 'i', 'n', 'c', 'l', 'u', 'd', 'e', ' ', '"'];
                extend_chars(&mut out, &head);
                extend_chars(&mut out, &relative);
                out.push('"');
                assert(out@ == before + include_line(relative@));
                assert(include_at(s@, prefix@, i as int) is Some);
                found = true;
                i = close + 1;
            },
            None => {
                out.push(s[i]);
                i += 1;
            },
        }
    }
    if found {
        Some(string_of(&out))
    } else {
        assert forall|k: int| include_at(s@, prefix@, k) is None by {
            if 0 <= k < s.len() {
            }
        }
        None
    }
}

/// What a patcher changed.
#[derive(Clone, Debug)]
pub struct Report {
    pub changed_files: Vec<String>,
}

/// The patcher that fixes include lines.
#[derive(Clone, Copy, Debug)]
pub struct HeaderPatcher;

impl HeaderPatcher {
    /// The name under which the patcher reports.
    pub fn name() -> (n: &'static str)
        ensures
            n@ == "Header include-fixer"@,
    {
        "Header include-fixer"
    }

    /// The directories of the staging tree whose files are headers.
    pub fn header_roots(staging_dir: &str) -> (roots: Vec<String>)
        ensures
            texts(roots@) == seq![
                joined(staging_dir@, "include"@),
                joined(staging_dir@, "Headers"@),
            ],
    {
        let mut roots: Vec<String> = Vec::new();
        push_text(&mut roots, join_path(staging_dir, "include"));
        push_text(&mut roots, join_path(staging_dir, "Headers"));
        roots
    }

    /// Rewrites the include lines of one header.
    pub fn patch(content: &str, build_prefix: &str) -> (r: Option<String>)
        ensures
            match r {
                Some(patched) => has_build_includes(content@, build_prefix@) && patched@
                    == rewritten(content@, build_prefix@),
                None => !has_build_includes(content@, build_prefix@),
            },
    {
        patch_header(content, build_prefix)
    }

    /// The report for the headers that were rewritten.
    pub fn report(changed_files: Vec<String>) -> (r: Report)
        ensures
            r.changed_files == changed_files,
    {
        Report { changed_files }
    }
}

/// A header without an include line under the build prefix is its own
/// rewriting.
pub proof fn law_clean_header_is_unchanged(s: Seq<char>, prefix: Seq<char>)
    requires
        !has_build_includes(s, prefix),
    ensures
        rewritten(s, prefix) == s,
{
    lemma_rewrite_clean(s, prefix, 0);
    assert(s.skip(0) == s);
}

proof fn lemma_rewrite_clean(s: Seq<char>, prefix: Seq<char>, i: int)
    requires
        !has_build_includes(s, prefix),
        0 <= i <= s.len(),
    ensures
        rewrite_from(s, prefix, i) == s.skip(i),
    decreases s.len() - i,
{
    if i < s.len() {
        assert(include_at(s, prefix, i) is None);
        lemma_rewrite_clean(s, prefix, i + 1);
        assert(seq![s[i]] + s.skip(i + 1) == s.skip(i));
    } else {
        assert(s.skip(i) == Seq::<char>::empty());
    }
}

} // verus!
