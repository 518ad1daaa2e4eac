//! Where a staged binary points after the build.
//!
//! A binary names the directories in which it looks for its libraries (its
//! run-path entries), and a shared library names the place where it is to
//! be found (its install name). During the build these point into the
//! build prefix. Before packaging the run-path entries that point into the
//! build are made to point to the library directory of the live prefix;
//! a reference that is missing, or that still points into the build, is
//! refused.

use crate::text::{concat2, has_prefix, text_starts_with, texts};
use vstd::prelude::*;

verus! {

/// The library directory of the live prefix.
pub open spec fn lib_dir(live_prefix: Seq<char>) -> Seq<char> {
    live_prefix + "/lib"@
}

/// A run-path entry after relocation: an entry that points into the build
/// becomes the library directory of the live prefix, any other stays.
pub open spec fn relocated(
    entry: Seq<char>,
    build_prefix: Seq<char>,
    live_prefix: Seq<char>,
) -> Seq<char> {
    if has_prefix(entry, build_prefix) {
        lib_dir(live_prefix)
    } else {
        entry
    }
}

/// The run-path entries after relocation, each in its place.
pub open spec fn relocated_all(
    entries: Seq<Seq<char>>,
    build_prefix: Seq<char>,
    live_prefix: Seq<char>,
) -> Seq<Seq<char>> {
    Seq::new(entries.len(), |i: int| relocated(entries[i], build_prefix, live_prefix))
}

/// Why a reference of a staged binary is refused.
#[derive(Clone, Debug, PartialEq, Eq)]
pub enum ReferenceProblem {
    /// The binary has no such reference.
    Missing,
    /// The reference points into the build.
    IntoBuild { reference: String },
    /// The install name does not lie in the library directory of the live
    /// prefix.
    OutsideLibDir { reference: String },
}

/// A problem as a plain value.
pub enum ProblemView {
    Missing,
    IntoBuild { reference: Seq<char> },
    OutsideLibDir { reference: Seq<char> },
}

impl View for ReferenceProblem {
    type V = ProblemView;

    open spec fn view(&self) -> ProblemView {
        match self {
            ReferenceProblem::Missing => ProblemView::Missing,
            ReferenceProblem::IntoBuild { reference } => ProblemView::IntoBuild {
                reference: reference@,
            },
            ReferenceProblem::OutsideLibDir { reference } => ProblemView::OutsideLibDir {
                reference: reference@,
            },
        }
    }
}

/// A result of a check as a plain value.
pub open spec fn problem_view(r: Option<ReferenceProblem>) -> Option<ProblemView> {
    match r {
        Some(p) => Some(p@),
        None => None,
    }
}

/// What is wrong with a reference, if anything: it is missing, or it
/// points into the build.
pub open spec fn reference_problem(reference: Option<Seq<char>>, build_prefix: Seq<char>) -> Option<
    ProblemView,
> {
    match reference {
        None => Some(ProblemView::Missing),
        Some(r) => if has_prefix(r, build_prefix) {
            Some(ProblemView::IntoBuild { reference: r })
        } else {
            None
        },
    }
}

/// What is wrong with the install name of a shared library, if anything:
/// it is missing, it points into the build, or it does not lie in the
/// library directory of the live prefix.
pub open spec fn install_name_problem(
    name: Option<Seq<char>>,
    build_prefix: Seq<char>,
    live_prefix: Seq<char>,
) -> Option<ProblemView> {
    match reference_problem(name, build_prefix) {
        Some(p) => Some(p),
        None => if has_prefix(name->Some_0, lib_dir(live_prefix) + "/"@) {
            None
        } else {
            Some(ProblemView::OutsideLibDir { reference: name->Some_0 })
        },
    }
}

/// The install name that a shared library called `file_name` carries.
pub open spec fn install_name_of(live_prefix: Seq<char>, file_name: Seq<char>) -> Seq<char> {
    lib_dir(live_prefix) + "/"@ + file_name
}

/// Relocates the run-path entries of a binary.
pub fn rewrite_rpaths(entries: &Vec<String>, build_prefix: &str, live_prefix: &str) -> (out: Vec<
    String,
>)
    ensures
        texts(out@) == relocated_all(texts(entries@), build_prefix@, live_prefix@),
{
    let mut out: Vec<String> = Vec::new();
    let mut i: usize = 0;
    while i < entries.len()
        invariant
            i <= entries.len(),
            out@.len() == i,
            forall|k: int|
                0 <= k < i ==> (#[trigger] out@[k])@ == relocated(
                    entries@[k]@,
                    build_prefix@,
                    live_prefix@,
                ),
        decreases entries.len() - i,
    {
        if text_starts_with(entries[i].as_str(), build_prefix) {
            out.push(concat2(live_prefix, "/lib"));
        } else {
            out.push(entries[i].clone());
        }
        i += 1;
    }
    assert(texts(out@) =~= relocated_all(texts(entries@), build_prefix@, live_prefix@));
    out
}

/// The install name for a shared library called `file_name`.
pub fn install_name(live_prefix: &str, file_name: &str) -> (out: String)
    ensures
        out@ == install_name_of(live_prefix@, file_name@),
{
    let dir = concat2(live_prefix, "/lib/");
    proof {
        reveal_strlit("/lib/");
        reveal_strlit("/lib");
        reveal_strlit("/");
        assert("/lib/"@ == "/lib"@ + "/"@);
        assert(live_prefix@ + ("/lib"@ + "/"@) == live_prefix@ + "/lib"@ + "/"@);
    }
    concat2(dir.as_str(), file_name)
}

/// Checks a reference of a staged binary.
pub fn check_reference(reference: Option<&str>, build_prefix: &str) -> (r: Option<ReferenceProblem>)
    ensures
        problem_view(r) == reference_problem(
            match reference {
                Some(text) => Some(text@),
                None => None,
            },
            build_prefix@,
        ),
{
    match reference {
        None => Some(ReferenceProblem::Missing),
        Some(text) => {
            if text_starts_with(text, build_prefix) {
                Some(ReferenceProblem::IntoBuild { reference: text.to_owned() })
            } else {
                None
            }
        },
    }
}

/// Checks the install name of a staged shared library.
pub fn check_install_name(name: Option<&str>, build_prefix: &str, live_prefix: &str) -> (r: Option<
    ReferenceProblem,
>)
    ensures
        problem_view(r) == install_name_problem(
            match name {
                Some(text) => Some(text@),
                None => None,
            },
            build_prefix@,
            live_prefix@,
        ),
{
    match check_reference(name, build_prefix) {
        Some(problem) => Some(problem),
        None => {
            let text = match name {
                Some(text) => text,
                None => {
                    return Some(ReferenceProblem::Missing);
                },
            };
            let dir = concat2(live_prefix, "/lib/");
            proof {
                reveal_strlit("/lib/");
                reveal_strlit("/lib");
                reveal_strlit("/");
                assert("/lib/"@ == "/lib"@ + "/"@);
                assert(live_prefix@ + ("/lib"@ + "/"@) == live_prefix@ + "/lib"@ + "/"@);
            }
            if text_starts_with(text, dir.as_str()) {
                None
            } else {
                Some(ReferenceProblem::OutsideLibDir { reference: text.to_owned() })
            }
        },
    }
}

/// After relocation no run-path entry points into the build, unless the
/// live prefix itself lies in the build.
pub proof fn law_relocated_entries_leave_the_build(
    entries: Seq<Seq<char>>,
    build_prefix: Seq<char>,
    live_prefix: Seq<char>,
    i: int,
)
    requires
        !has_prefix(lib_dir(live_prefix), build_prefix),
        0 <= i < entries.len(),
    ensures
        reference_problem(Some(relocated_all(entries, build_prefix, live_prefix)[i]), build_prefix)
            is None,
{
}

/// To relocate twice is to relocate once, unless the live prefix itself
/// lies in the build.
pub proof fn law_relocation_is_idempotent(
    entries: Seq<Seq<char>>,
    build_prefix: Seq<char>,
    live_prefix: Seq<char>,
)
    requires
        !has_prefix(lib_dir(live_prefix), build_prefix),
    ensures
        relocated_all(relocated_all(entries, build_prefix, live_prefix), build_prefix, live_prefix)
            == relocated_all(entries, build_prefix, live_prefix),
{
    assert(relocated_all(
        relocated_all(entries, build_prefix, live_prefix),
        build_prefix,
        live_prefix,
    ) =~= relocated_all(entries, build_prefix, live_prefix));
}

/// The install name that `install_name` gives passes the check, unless the
/// live prefix itself lies in the build.
pub proof fn law_given_install_name_is_accepted(
    build_prefix: Seq<char>,
    live_prefix: Seq<char>,
    file_name: Seq<char>,
)
    requires
        !has_prefix(install_name_of(live_prefix, file_name), build_prefix),
    ensures
        install_name_problem(
            Some(install_name_of(live_prefix, file_name)),
            build_prefix,
            live_prefix,
        ) is None,
{
    let dir = lib_dir(live_prefix) + "/"@;
    let name = install_name_of(live_prefix, file_name);
    assert(name.subrange(0, dir.len() as int) =~= dir);
}

} // verus!
