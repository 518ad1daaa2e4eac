//! The layout of source archives.
//!
//! Source archives usually wrap everything in one directory named after the
//! release. When an archive has that form the directory is stripped on
//! extraction, so that the sources land directly in the working directory;
//! an archive of any other form is extracted as it is.

use crate::text::{copy_texts, same_text, text_ends_with, texts};
use vstd::prelude::*;

verus! {

/// The kinds of archive that are unpacked after a download.
#[derive(Clone, Copy, Debug, PartialEq, Eq, Structural)]
pub enum ArchiveFormat {
    TarGz,
    TarBz2,
    TarXz,
    Zip,
}

/// The kind of archive that a file name announces by its ending.
pub open spec fn format_of(file_name: Seq<char>) -> Option<ArchiveFormat> {
    if crate::text::has_suffix(file_name, ".tar.gz"@) || crate::text::has_suffix(
        file_name,
        ".tgz"@,
    ) {
        Some(ArchiveFormat::TarGz)
    } else if crate::text::has_suffix(file_name, ".tar.bz2"@) {
        Some(ArchiveFormat::TarBz2)
    } else if crate::text::has_suffix(file_name, ".tar.xz"@) {
        Some(ArchiveFormat::TarXz)
    } else if crate::text::has_suffix(file_name, ".zip"@) {
        Some(ArchiveFormat::Zip)
    } else {
        None
    }
}

/// Tells from a file name whether and how the file is unpacked.
pub fn archive_format(file_name: &str) -> (r: Option<ArchiveFormat>)
    ensures
        r == format_of(file_name@),
{
    if text_ends_with(file_name, ".tar.gz") || text_ends_with(file_name, ".tgz") {
        Some(ArchiveFormat::TarGz)
    } else if text_ends_with(file_name, ".tar.bz2") {
        Some(ArchiveFormat::TarBz2)
    } else if text_ends_with(file_name, ".tar.xz") {
        Some(ArchiveFormat::TarXz)
    } else if text_ends_with(file_name, ".zip") {
        Some(ArchiveFormat::Zip)
    } else {
        None
    }
}

/// An entry of an archive: the components of its path and whether it is a
/// directory.
#[derive(Clone, Debug)]
pub struct ArchiveEntry {
    pub components: Vec<String>,
    pub is_dir: bool,
}

/// An archive entry as a plain value.
pub struct EntryView {
    pub components: Seq<Seq<char>>,
    pub is_dir: bool,
}

impl View for ArchiveEntry {
    type V = EntryView;

    open spec fn view(&self) -> EntryView {
        EntryView { components: texts(self.components@), is_dir: self.is_dir }
    }
}

/// The entries of a vector as plain values.
pub open spec fn entry_views(v: Seq<ArchiveEntry>) -> Seq<EntryView> {
    Seq::new(v.len(), |i: int| v[i]@)
}

/// Whether the entry shows a directory at the top of the archive: it is
/// such a directory, or it lies in one. The name of the directory is the
/// first component of the entry.
pub open spec fn shows_top_dir(e: EntryView) -> bool {
    e.components.len() > 1 || (e.components.len() == 1 && e.is_dir)
}

/// Whether the entry is a file at the top of the archive.
pub open spec fn is_top_file(e: EntryView) -> bool {
    e.components.len() == 1 && !e.is_dir
}

/// Whether the archive has a directory called `c` at its top: an entry of
/// its own for the directory, or an entry that lies in it.
pub open spec fn is_top_name(entries: Seq<EntryView>, c: Seq<char>) -> bool {
    exists|i: int|
        0 <= i < entries.len() && shows_top_dir(#[trigger] entries[i]) && entries[i].components[0]
            == c
}

/// Whether the archive wraps its content in a single directory: it has
/// exactly one directory at its top, and no file lies at its top.
pub open spec fn has_single_root(entries: Seq<EntryView>) -> bool {
    &&& forall|i: int| 0 <= i < entries.len() ==> !is_top_file(#[trigger] entries[i])
    &&& exists|c: Seq<char>| #[trigger]
        is_top_name(entries, c) && forall|d: Seq<char>| #[trigger]
            is_top_name(entries, d) ==> d == c
}

/// Where an entry goes, as path components under the working directory.
/// Without stripping it goes where its path says. With stripping it loses
/// its first component, and an entry that has no more than that one is not
/// extracted at all.
pub open spec fn target_of(e: EntryView, strip: bool) -> Option<Seq<Seq<char>>> {
    if !strip {
        Some(e.components)
    } else if e.components.len() > 1 {
        Some(e.components.skip(1))
    } else {
        None
    }
}

/// Where each entry of the archive goes.
pub open spec fn extraction_plan(entries: Seq<EntryView>) -> Seq<Option<Seq<Seq<char>>>> {
    Seq::new(entries.len(), |i: int| target_of(entries[i], has_single_root(entries)))
}

/// Decides whether the first component is stripped on extraction.
pub fn should_strip_components(entries: &Vec<ArchiveEntry>) -> (strip: bool)
    ensures
        strip == has_single_root(entry_views(entries@)),
{
    let ghost all = entry_views(entries@);
    let mut first_dir: Option<usize> = None;
    let mut i: usize = 0;
    while i < entries.len()
        invariant
            i <= entries.len(),
            all == entry_views(entries@),
            forall|k: int| 0 <= k < i ==> !is_top_file(#[trigger] all[k]),
            match first_dir {
                Some(d) => d < i && shows_top_dir(all[d as int]) && forall|k: int|
                    0 <= k < i && shows_top_dir(#[trigger] all[k]) ==> all[k].components[0]
                        == all[d as int].components[0],
                None => forall|k: int| 0 <= k < i ==> !shows_top_dir(#[trigger] all[k]),
            },
        decreases entries.len() - i,
    {
        let entry = &entries[i];
        assert(all[i as int] == entry@);
        if entry.components.len() == 1 && !entry.is_dir {
            assert(is_top_file(all[i as int]));
            return false;
        }
        if entry.components.len() >= 1 {
            match first_dir {
                Some(d) => {
                    if !same_text(
                        entry.components[0].as_str(),
                        entries[d].components[0].as_str(),
                    ) {
                        proof {
                            let here = all[i as int].components[0];
                            let there = all[d as int].components[0];
                            assert(shows_top_dir(all[i as int]) && shows_top_dir(all[d as int]));
                            assert(here != there);
                            assert(is_top_name(all, here));
                            assert(is_top_name(all, there));
                        }
                        return false;
                    }
                },
                None => {
                    first_dir = Some(i);
                },
            }
        }
        i += 1;
    }
    match first_dir {
        Some(d) => {
            proof {
                let c = all[d as int].components[0];
                assert(is_top_name(all, c));
                assert forall|other: Seq<char>| #[trigger] is_top_name(all, other) implies other
                    == c by {
                    let k = choose|k: int|
                        0 <= k < all.len() && shows_top_dir(#[trigger] all[k])
                            && all[k].components[0] == other;
                    assert(all[k].components[0] == c);
                }
            }
            true
        },
        None => {
            assert forall|c: Seq<char>| !#[trigger] is_top_name(all, c) by {
                if is_top_name(all, c) {
                    let k = choose|k: int|
                        0 <= k < all.len() && shows_top_dir(#[trigger] all[k])
                            && all[k].components[0] == c;
                    assert(!shows_top_dir(all[k]));
                }
            }
            false
        },
    }
}

/// Where one entry goes.
pub fn extraction_target(entry: &ArchiveEntry, strip: bool) -> (r: Option<Vec<String>>)
    ensures
        match r {
            Some(path) => target_of(entry@, strip) == Some(texts(path@)),
            None => target_of(entry@, strip) is None,
        },
{
    if !strip {
        Some(copy_texts(&entry.components))
    } else if entry.components.len() > 1 {
        let mut out: Vec<String> = Vec::new();
        let mut i: usize = 1;
        let ghost all = texts(entry.components@);
        assert(all.subrange(1, 1) == texts(out@));
        while i < entry.components.len()
            invariant
                1 <= i <= entry.components.len(),
                all == texts(entry.components@),
                texts(out@) == all.subrange(1, i as int),
            decreases entry.components.len() - i,
        {
            assert(all.subrange(1, i + 1) == all.subrange(1, i as int).push(all[i as int]));
            crate::text::push_text(&mut out, entry.components[i].clone());
            i += 1;
        }
        assert(all.subrange(1, all.len() as int) == all.skip(1));
        Some(out)
    } else {
        None
    }
}

/// Where each entry of the archive goes.
pub fn plan_extraction(entries: &Vec<ArchiveEntry>) -> (plan: Vec<Option<Vec<String>>>)
    ensures
        plan@.len() == entries@.len(),
        forall|i: int|
            0 <= i < plan@.len() ==> match #[trigger] plan@[i] {
                Some(path) => extraction_plan(entry_views(entries@))[i] == Some(texts(path@)),
                None => extraction_plan(entry_views(entries@))[i] is None,
            },
{
    let strip = should_strip_components(entries);
    let mut plan: Vec<Option<Vec<String>>> = Vec::new();
    let mut i: usize = 0;
    while i < entries.len()
        invariant
            i <= entries.len(),
            plan@.len() == i,
            strip == has_single_root(entry_views(entries@)),
            forall|k: int|
                0 <= k < i ==> match #[trigger] plan@[k] {
                    Some(path) => extraction_plan(entry_views(entries@))[k] == Some(texts(path@)),
                    None => extraction_plan(entry_views(entries@))[k] is None,
                },
        decreases entries.len() - i,
    {
        let target = extraction_target(&entries[i], strip);
        plan.push(target);
        i += 1;
    }
    plan
}

/// An archive that does not wrap its content in a single directory is
/// extracted as it is: every entry goes where its own path says.
pub proof fn law_unwrapped_archive_is_unchanged(entries: Seq<EntryView>, i: int)
    requires
        !has_single_root(entries),
        0 <= i < entries.len(),
    ensures
        extraction_plan(entries)[i] == Some(entries[i].components),
{
}

/// In an archive that wraps its content in a single directory every
/// entry begins with the name of that directory, so that stripping never
/// lays the contents of two directories over each other.
pub proof fn law_single_root_is_shared(entries: Seq<EntryView>, i: int, j: int)
    requires
        has_single_root(entries),
        0 <= i < entries.len(),
        0 <= j < entries.len(),
        entries[i].components.len() >= 1,
        entries[j].components.len() >= 1,
    ensures
        entries[i].components[0] == entries[j].components[0],
{
    let c = choose|c: Seq<char>| #[trigger]
        is_top_name(entries, c) && forall|d: Seq<char>| #[trigger]
            is_top_name(entries, d) ==> d == c;
    assert(!is_top_file(entries[i]) && !is_top_file(entries[j]));
    assert(shows_top_dir(entries[i]) && shows_top_dir(entries[j]));
    assert(is_top_name(entries, entries[i].components[0]));
    assert(is_top_name(entries, entries[j].components[0]));
}

/// What has been extracted from a wrapped archive is not wrapped again by
/// the same directory: stripping removes exactly the one common name.
pub proof fn law_stripping_removes_the_root(entries: Seq<EntryView>, i: int)
    requires
        has_single_root(entries),
        0 <= i < entries.len(),
        entries[i].components.len() > 1,
    ensures
        extraction_plan(entries)[i] matches Some(path) && seq![entries[i].components[0]] + path
            == entries[i].components,
{
    let path = entries[i].components.skip(1);
    assert(seq![entries[i].components[0]] + path == entries[i].components);
}

} // verus!
