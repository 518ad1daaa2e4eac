//! The judgement of the guard: what counts as a discrepancy, and how each
//! is repaired.
//!
//! Everything is decided path by path. For a path the state expects a file
//! with a content hash, a symlink with a target, or nothing; on disk there
//! is a file, a symlink, or nothing. `judge` names the discrepancy between
//! the two, `remedy` the action that repairs it, and `after` what is on
//! disk once the action is carried out. Hashes are texts in lowercase
//! hexadecimal.

use crate::guard::{GuardConfig, OrphanedFileAction, SymlinkPolicy, VerificationLevel};
use crate::guard_config::{DiscrepancyHandling, UserFilePolicy};
use crate::paths::{join_path, joined};
use crate::text::{
    concat2, has_prefix, lemma_position_is, lemma_position_of, position_of, same_text,
    text_starts_with, texts,
};
use vstd::prelude::*;

verus! {

/// What a state expects at a path.
#[derive(Clone, Debug)]
pub enum ExpectedKind {
    /// A file with this content hash.
    File { hash: String },
    /// A symlink to this target.
    Symlink { target: String },
}

/// A path and what the state expects there.
#[derive(Clone, Debug)]
pub struct ExpectedFile {
    pub path: String,
    pub kind: ExpectedKind,
}

/// What was found at a path.
#[derive(Clone, Debug)]
pub enum ObservedKind {
    /// A file; with its content hash if it was hashed.
    File { hash: Option<String> },
    /// A symlink to this target.
    Symlink { target: String },
}

/// A path and what was found there.
#[derive(Clone, Debug)]
pub struct ObservedFile {
    pub path: String,
    pub kind: ObservedKind,
    /// Whether the path matches a pattern of user files.
    pub user_file: bool,
    /// Whether some package once installed the path.
    pub installed_before: bool,
}

/// What a state expects at a path, as a plain value.
pub enum ExpectedView {
    File(Seq<char>),
    Symlink(Seq<char>),
}

/// What was found at a path, as a plain value.
pub enum FoundView {
    File(Option<Seq<char>>),
    Symlink(Seq<char>),
}

/// What was found at a path, with what is known of the path.
pub struct ObservedView {
    pub kind: FoundView,
    pub user_file: bool,
    pub installed_before: bool,
}

impl View for ExpectedKind {
    type V = ExpectedView;

    open spec fn view(&self) -> ExpectedView {
        match self {
            ExpectedKind::File { hash } => ExpectedView::File(hash@),
            ExpectedKind::Symlink { target } => ExpectedView::Symlink(target@),
        }
    }
}

impl View for ObservedFile {
    type V = ObservedView;

    open spec fn view(&self) -> ObservedView {
        ObservedView {
            kind: match self.kind {
                ObservedKind::File { hash } => FoundView::File(
                    match hash {
                        Some(h) => Some(h@),
                        None => None,
                    },
                ),
                ObservedKind::Symlink { target } => FoundView::Symlink(target@),
            },
            user_file: self.user_file,
            installed_before: self.installed_before,
        }
    }
}

/// The kinds of discrepancy.
#[derive(Clone, Copy, Debug, PartialEq, Eq, Structural)]
pub enum DiscrepancyKind {
    /// What the state expects is not there.
    Missing,
    /// A file is there that no package owns and that is no user file.
    Extra,
    /// A file does not have the expected content.
    Corrupted,
    /// A symlink does not point where it should.
    WrongSymlinkTarget,
    /// A file is there that a package once installed and that no package of
    /// the state owns.
    Orphaned,
}

/// A discrepancy between a state and the disk.
#[derive(Clone, Debug)]
pub struct Discrepancy {
    pub kind: DiscrepancyKind,
    pub path: String,
    /// The hash or the target that was expected.
    pub expected: Option<String>,
    /// The hash or the target that was found.
    pub actual: Option<String>,
}

/// A discrepancy at some path, as a plain value.
pub struct DiscrepancyView {
    pub kind: DiscrepancyKind,
    pub expected: Option<Seq<char>>,
    pub actual: Option<Seq<char>>,
}

/// The view of an optional string.
pub open spec fn opt_text(s: Option<String>) -> Option<Seq<char>> {
    match s {
        Some(t) => Some(t@),
        None => None,
    }
}

impl View for Discrepancy {
    type V = DiscrepancyView;

    open spec fn view(&self) -> DiscrepancyView {
        DiscrepancyView {
            kind: self.kind,
            expected: opt_text(self.expected),
            actual: opt_text(self.actual),
        }
    }
}

/// The discrepancy at a path, given what is expected and what was found
/// there. `lenient` says that symlink problems are tolerated at this path.
///
/// An expected file is missing when nothing is there, and corrupted when a
/// symlink is there, when its hash was taken and is another, or when at the
/// full level its hash was not taken. At the quick level hashes do not
/// count. An expected symlink is missing when nothing is there, and has the
/// wrong target when it points elsewhere or is a file; unless symlink
/// problems are tolerated. What is there without being expected is no
/// discrepancy when it is a user file, orphaned when a package once
/// installed it, and extra otherwise.
pub open spec fn judge(
    level: VerificationLevel,
    lenient: bool,
    expected: Option<ExpectedView>,
    observed: Option<ObservedView>,
) -> Option<DiscrepancyView> {
    match expected {
        Some(ExpectedView::File(hash)) => match observed {
            None => Some(
                DiscrepancyView {
                    kind: DiscrepancyKind::Missing,
                    expected: Some(hash),
                    actual: None,
                },
            ),
            Some(found) => match found.kind {
                FoundView::File(Some(actual)) => if level != VerificationLevel::Quick && actual
                    != hash {
                    Some(
                        DiscrepancyView {
                            kind: DiscrepancyKind::Corrupted,
                            expected: Some(hash),
                            actual: Some(actual),
                        },
                    )
                } else {
                    None
                },
                FoundView::File(None) => if level == VerificationLevel::Full {
                    Some(
                        DiscrepancyView {
                            kind: DiscrepancyKind::Corrupted,
                            expected: Some(hash),
                            actual: None,
                        },
                    )
                } else {
                    None
                },
                FoundView::Symlink(_) => Some(
                    DiscrepancyView {
                        kind: DiscrepancyKind::Corrupted,
                        expected: Some(hash),
                        actual: None,
                    },
                ),
            },
        },
        Some(ExpectedView::Symlink(target)) => if lenient {
            None
        } else {
            match observed {
                None => Some(
                    DiscrepancyView {
                        kind: DiscrepancyKind::Missing,
                        expected: Some(target),
                        actual: None,
                    },
                ),
                Some(found) => match found.kind {
                    FoundView::Symlink(actual) => if actual != target {
                        Some(
                            DiscrepancyView {
                                kind: DiscrepancyKind::WrongSymlinkTarget,
                                expected: Some(target),
                                actual: Some(actual),
                            },
                        )
                    } else {
                        None
                    },
                    FoundView::File(_) => Some(
                        DiscrepancyView {
                            kind: DiscrepancyKind::WrongSymlinkTarget,
                            expected: Some(target),
                            actual: None,
                        },
                    ),
                },
            }
        },
        None => match observed {
            None => None,
            Some(found) => if found.user_file {
                None
            } else if found.installed_before {
                Some(
                    DiscrepancyView {
                        kind: DiscrepancyKind::Orphaned,
                        expected: None,
                        actual: None,
                    },
                )
            } else {
                Some(
                    DiscrepancyView { kind: DiscrepancyKind::Extra, expected: None, actual: None },
                )
            },
        },
    }
}

/// A healing action at some path, as a plain value.
pub enum RemedyView {
    /// Link the store object with this hash to the path.
    Relink(Seq<char>),
    /// Replace what is at the path by the store object with this hash.
    Overwrite(Seq<char>),
    /// Make the path a symlink to this target.
    Retarget(Seq<char>),
    /// Remove what is at the path.
    Remove,
    /// Move what is at the path to the backup directory.
    Backup,
}

/// A healing action.
#[derive(Clone, Debug)]
pub enum HealingAction {
    /// Link the store object `hash` to `path`.
    Relink { path: String, hash: String },
    /// Replace what is at `path` by the store object `hash`.
    Overwrite { path: String, hash: String },
    /// Make `path` a symlink to `target`.
    Retarget { path: String, target: String },
    /// Remove what is at `path`.
    Remove { path: String },
    /// Move what is at `path` to `to`.
    Backup { path: String, to: String },
}

impl HealingAction {
    /// The path that the action works on.
    pub open spec fn path(&self) -> Seq<char> {
        match self {
            HealingAction::Relink { path, .. } => path@,
            HealingAction::Overwrite { path, .. } => path@,
            HealingAction::Retarget { path, .. } => path@,
            HealingAction::Remove { path } => path@,
            HealingAction::Backup { path, .. } => path@,
        }
    }

    /// What the action does at its path.
    pub open spec fn remedy(&self) -> RemedyView {
        match self {
            HealingAction::Relink { hash, .. } => RemedyView::Relink(hash@),
            HealingAction::Overwrite { hash, .. } => RemedyView::Overwrite(hash@),
            HealingAction::Retarget { target, .. } => RemedyView::Retarget(target@),
            HealingAction::Remove { .. } => RemedyView::Remove,
            HealingAction::Backup { .. } => RemedyView::Backup,
        }
    }
}

/// The action that repairs a discrepancy, if one does. A missing or
/// corrupted file comes from the store; a symlink is made or turned; what
/// should not be there stays, goes, or is moved aside, as the policy for it
/// says.
pub open spec fn remedy(
    expected: Option<ExpectedView>,
    discrepancy: DiscrepancyView,
    user_files: UserFilePolicy,
    orphans: OrphanedFileAction,
) -> Option<RemedyView> {
    match discrepancy.kind {
        DiscrepancyKind::Missing => match expected {
            Some(ExpectedView::File(hash)) => Some(RemedyView::Relink(hash)),
            Some(ExpectedView::Symlink(target)) => Some(RemedyView::Retarget(target)),
            None => None,
        },
        DiscrepancyKind::Corrupted => match expected {
            Some(ExpectedView::File(hash)) => Some(RemedyView::Overwrite(hash)),
            _ => None,
        },
        DiscrepancyKind::WrongSymlinkTarget => match expected {
            Some(ExpectedView::Symlink(target)) => Some(RemedyView::Retarget(target)),
            _ => None,
        },
        DiscrepancyKind::Extra => match user_files {
            UserFilePolicy::Preserve => None,
            UserFilePolicy::Remove => Some(RemedyView::Remove),
            UserFilePolicy::Backup => Some(RemedyView::Backup),
        },
        DiscrepancyKind::Orphaned => match orphans {
            OrphanedFileAction::Preserve => None,
            OrphanedFileAction::Remove => Some(RemedyView::Remove),
            OrphanedFileAction::Backup => Some(RemedyView::Backup),
        },
    }
}

/// What is at a path once an action has been carried out there. What comes
/// from the store has the hash it is stored under.
pub open spec fn after(observed: Option<ObservedView>, action: RemedyView) -> Option<ObservedView> {
    match action {
        RemedyView::Relink(hash) => Some(
            ObservedView { kind: FoundView::File(Some(hash)), user_file: false, installed_before: true },
        ),
        RemedyView::Overwrite(hash) => Some(
            ObservedView { kind: FoundView::File(Some(hash)), user_file: false, installed_before: true },
        ),
        RemedyView::Retarget(target) => Some(
            ObservedView { kind: FoundView::Symlink(target), user_file: false, installed_before: true },
        ),
        RemedyView::Remove => None,
        RemedyView::Backup => None,
    }
}

/// Healing is complete and final: once the action that repairs a
/// discrepancy has been carried out, there is no discrepancy at the path.
/// Only what the policies preserve has no repairing action: an extra file
/// under the policy to preserve user files, an orphaned file under the
/// action to preserve orphans.
pub proof fn law_healed_path_is_clean(
    level: VerificationLevel,
    lenient: bool,
    expected: Option<ExpectedView>,
    observed: Option<ObservedView>,
    user_files: UserFilePolicy,
    orphans: OrphanedFileAction,
)
    ensures
        match judge(level, lenient, expected, observed) {
            None => true,
            Some(d) => match remedy(expected, d, user_files, orphans) {
                Some(action) => judge(level, lenient, expected, after(observed, action)) is None,
                None => (d.kind == DiscrepancyKind::Extra && user_files == UserFilePolicy::Preserve)
                    || (d.kind == DiscrepancyKind::Orphaned && orphans
                    == OrphanedFileAction::Preserve),
            },
        },
{
}

/// Whether `path` is `dir` or lies under it.
pub open spec fn is_under(path: Seq<char>, dir: Seq<char>) -> bool {
    path == dir || has_prefix(path, dir + seq!['/'])
}

/// Whether symlink problems are tolerated at `path`: nowhere under the
/// strict policy, under the listed directories under the bootstrap policy,
/// everywhere under the other two.
pub open spec fn tolerated(policy: SymlinkPolicy, dirs: Seq<Seq<char>>, path: Seq<char>) -> bool {
    match policy {
        SymlinkPolicy::Strict => false,
        SymlinkPolicy::LenientBootstrap => exists|i: int|
            0 <= i < dirs.len() && is_under(path, #[trigger] dirs[i]),
        SymlinkPolicy::LenientAll => true,
        SymlinkPolicy::Ignore => true,
    }
}

/// Tells whether symlink problems are tolerated at `path`.
pub fn is_tolerated(policy: SymlinkPolicy, dirs: &Vec<String>, path: &str) -> (r: bool)
    ensures
        r == tolerated(policy, texts(dirs@), path@),
{
    match policy {
        SymlinkPolicy::Strict => false,
        SymlinkPolicy::LenientAll => true,
        SymlinkPolicy::Ignore => true,
        SymlinkPolicy::LenientBootstrap => {
            let mut i: usize = 0;
            while i < dirs.len()
                invariant
                    i <= dirs.len(),
                    policy == SymlinkPolicy::LenientBootstrap,
                    forall|k: int| 0 <= k < i ==> !is_under(path@, #[trigger] texts(dirs@)[k]),
                decreases dirs.len() - i,
            {
                proof {
                    reveal_strlit("/");
                    assert("/"@ == seq!['/']);
                }
                let with_slash = concat2(dirs[i].as_str(), "/");
                if same_text(path, dirs[i].as_str()) || text_starts_with(
                    path,
                    with_slash.as_str(),
                ) {
                    assert(is_under(path@, texts(dirs@)[i as int]));
                    return true;
                }
                i += 1;
            }
            false
        },
    }
}

/// The paths of expected files.
pub open spec fn expected_paths(entries: Seq<ExpectedFile>) -> Seq<Seq<char>> {
    Seq::new(entries.len(), |i: int| entries[i].path@)
}

/// The paths of observed files.
pub open spec fn observed_paths(entries: Seq<ObservedFile>) -> Seq<Seq<char>> {
    Seq::new(entries.len(), |i: int| entries[i].path@)
}

/// What the state expects at `path`: what the first entry for the path
/// says.
pub open spec fn expected_at(entries: Seq<ExpectedFile>, path: Seq<char>) -> Option<ExpectedView> {
    match position_of(expected_paths(entries), path) {
        Some(i) => Some(entries[i].kind@),
        None => None,
    }
}

/// What was found at `path`: what the first entry for the path says.
pub open spec fn observed_at(entries: Seq<ObservedFile>, path: Seq<char>) -> Option<ObservedView> {
    match position_of(observed_paths(entries), path) {
        Some(i) => Some(entries[i]@),
        None => None,
    }
}

/// The discrepancy at `path` between a state and the disk.
pub open spec fn discrepancy_at(
    config: &GuardConfig,
    expected: Seq<ExpectedFile>,
    observed: Seq<ObservedFile>,
    path: Seq<char>,
) -> Option<DiscrepancyView> {
    judge(
        config.verification_level,
        tolerated(config.symlink_policy, texts(config.lenient_symlink_directories@), path),
        expected_at(expected, path),
        observed_at(observed, path),
    )
}

/// Whether the first of the paths that equals `path` stands before
/// position `i`.
pub open spec fn found_before(paths: Seq<Seq<char>>, path: Seq<char>, i: int) -> bool {
    match position_of(paths, path) {
        Some(j) => j < i,
        None => false,
    }
}

fn find_expected(entries: &Vec<ExpectedFile>, path: &str) -> (r: Option<usize>)
    ensures
        match r {
            Some(k) => k < entries.len() && position_of(expected_paths(entries@), path@) == Some(
                k as int,
            ),
            None => position_of(expected_paths(entries@), path@) is None,
        },
{
    let ghost all = expected_paths(entries@);
    let mut i: usize = 0;
    while i < entries.len()
        invariant
            i <= entries.len(),
            all == expected_paths(entries@),
            forall|j: int| 0 <= j < i ==> #[trigger] all[j] != path@,
        decreases entries.len() - i,
    {
        if same_text(entries[i].path.as_str(), path) {
            proof {
                lemma_position_is(all, path@, i as int);
            }
            return Some(i);
        }
        i += 1;
    }
    proof {
        lemma_position_of(all, path@);
    }
    None
}

fn find_observed(entries: &Vec<ObservedFile>, path: &str) -> (r: Option<usize>)
    ensures
        match r {
            Some(k) => k < entries.len() && position_of(observed_paths(entries@), path@) == Some(
                k as int,
            ),
            None => position_of(observed_paths(entries@), path@) is None,
        },
{
    let ghost all = observed_paths(entries@);
    let mut i: usize = 0;
    while i < entries.len()
        invariant
            i <= entries.len(),
            all == observed_paths(entries@),
            forall|j: int| 0 <= j < i ==> #[trigger] all[j] != path@,
        decreases entries.len() - i,
    {
        if same_text(entries[i].path.as_str(), path) {
            proof {
                lemma_position_is(all, path@, i as int);
            }
            return Some(i);
        }
        i += 1;
    }
    proof {
        lemma_position_of(all, path@);
    }
    None
}


/// Judges one path.
fn judge_path(
    level: VerificationLevel,
    lenient: bool,
    path: &str,
    expected: Option<&ExpectedKind>,
    observed: Option<&ObservedFile>,
) -> (r: Option<Discrepancy>)
    ensures
        match r {
            Some(d) => d.path@ == path@ && judge(
                level,
                lenient,
                match expected {
                    Some(e) => Some(e@),
                    None => None,
                },
                match observed {
                    Some(o) => Some(o@),
                    None => None,
                },
            ) == Some(d@),
            None => judge(
                level,
                lenient,
                match expected {
                    Some(e) => Some(e@),
                    None => None,
                },
                match observed {
                    Some(o) => Some(o@),
                    None => None,
                },
            ) is None,
        },
{
    match expected {
        Some(ExpectedKind::File { hash }) => match observed {
            None => Some(
                Discrepancy {
                    kind: DiscrepancyKind::Missing,
                    path: path.to_owned(),
                    expected: Some(hash.clone()),
                    actual: None,
                },
            ),
            Some(found) => match &found.kind {
                ObservedKind::File { hash: Some(actual) } => {
                    let quick = match level {
                        VerificationLevel::Quick => true,
                        _ => false,
                    };
                    if !quick && !same_text(actual.as_str(), hash.as_str()) {
                        Some(
                            Discrepancy {
                                kind: DiscrepancyKind::Corrupted,
                                path: path.to_owned(),
                                expected: Some(hash.clone()),
                                actual: Some(actual.clone()),
                            },
                        )
                    } else {
                        None
                    }
                },
                ObservedKind::File { hash: None } => {
                    let full = match level {
                        VerificationLevel::Full => true,
                        _ => false,
                    };
                    if full {
                        Some(
                            Discrepancy {
                                kind: DiscrepancyKind::Corrupted,
                                path: path.to_owned(),
                                expected: Some(hash.clone()),
                                actual: None,
                            },
                        )
                    } else {
                        None
                    }
                },
                ObservedKind::Symlink { .. } => Some(
                    Discrepancy {
                        kind: DiscrepancyKind::Corrupted,
                        path: path.to_owned(),
                        expected: Some(hash.clone()),
                        actual: None,
                    },
                ),
            },
        },
        Some(ExpectedKind::Symlink { target }) => {
            if lenient {
                return None;
            }
            match observed {
                None => Some(
                    Discrepancy {
                        kind: DiscrepancyKind::Missing,
                        path: path.to_owned(),
                        expected: Some(target.clone()),
                        actual: None,
                    },
                ),
                Some(found) => match &found.kind {
                    ObservedKind::Symlink { target: actual } => {
                        if !same_text(actual.as_str(), target.as_str()) {
                            Some(
                                Discrepancy {
                                    kind: DiscrepancyKind::WrongSymlinkTarget,
                                    path: path.to_owned(),
                                    expected: Some(target.clone()),
                                    actual: Some(actual.clone()),
                                },
                            )
                        } else {
                            None
                        }
                    },
                    ObservedKind::File { .. } => Some(
                        Discrepancy {
                            kind: DiscrepancyKind::WrongSymlinkTarget,
                            path: path.to_owned(),
                            expected: Some(target.clone()),
                            actual: None,
                        },
                    ),
                },
            }
        },
        None => match observed {
            None => None,
            Some(found) => {
                if found.user_file {
                    None
                } else if found.installed_before {
                    Some(
                        Discrepancy {
                            kind: DiscrepancyKind::Orphaned,
                            path: path.to_owned(),
                            expected: None,
                            actual: None,
                        },
                    )
                } else {
                    Some(
                        Discrepancy {
                            kind: DiscrepancyKind::Extra,
                            path: path.to_owned(),
                            expected: None,
                            actual: None,
                        },
                    )
                }
            },
        },
    }
}

/// Whether every discrepancy of the list is the one at its path.
pub open spec fn all_sound(
    config: &GuardConfig,
    expected: Seq<ExpectedFile>,
    observed: Seq<ObservedFile>,
    found: Seq<Discrepancy>,
) -> bool {
    forall|k: int|
        0 <= k < found.len() ==> discrepancy_at(
            config,
            expected,
            observed,
            (#[trigger] found[k]).path@,
        ) == Some(found[k]@)
}

/// Whether the list names `path`.
pub open spec fn names_path(found: Seq<Discrepancy>, path: Seq<char>) -> bool {
    exists|k: int| 0 <= k < found.len() && (#[trigger] found[k]).path@ == path
}

/// Whether no two discrepancies of the list are about the same path.
pub open spec fn distinct_paths(found: Seq<Discrepancy>) -> bool {
    forall|a: int, b: int|
        0 <= a < b < found.len() ==> (#[trigger] found[a]).path@ != (#[trigger] found[b]).path@
}

/// Verifies a state against the disk: compares what the state expects with
/// what was observed and returns the discrepancies, those of expected paths
/// first. Each discrepancy returned is the one at its path, every path at
/// which there is a discrepancy is named, and none is named twice.
pub fn verify(
    config: &GuardConfig,
    expected: &Vec<ExpectedFile>,
    observed: &Vec<ObservedFile>,
) -> (found: Vec<Discrepancy>)
    ensures
        all_sound(config, expected@, observed@, found@),
        forall|path: Seq<char>|
            discrepancy_at(config, expected@, observed@, path) is Some ==> names_path(
                found@,
                path,
            ),
        distinct_paths(found@),
{
    let mut found: Vec<Discrepancy> = Vec::new();
    let ghost ep = expected_paths(expected@);
    let ghost op = observed_paths(observed@);
    let mut i: usize = 0;
    proof {
        assert forall|p: Seq<char>| !#[trigger] found_before(ep, p, 0) by {
            lemma_position_of(ep, p);
        }
    }
    while i < expected.len()
        invariant
            i <= expected.len(),
            ep == expected_paths(expected@),
            op == observed_paths(observed@),
            all_sound(config, expected@, observed@, found@),
            distinct_paths(found@),
            forall|k: int| 0 <= k < found@.len() ==> found_before(ep, (#[trigger] found@[k]).path@, i as int),
            forall|path: Seq<char>|
                found_before(ep, path, i as int) && discrepancy_at(
                    config,
                    expected@,
                    observed@,
                    path,
                ) is Some ==> #[trigger] names_path(found@, path),
        decreases expected.len() - i,
    {
        let path = expected[i].path.as_str();
        let first = find_expected(expected, path);
        proof {
            lemma_position_of(ep, path@);
        }
        let ghost before = found@;
        if first == Some(i) {
            let o = match find_observed(observed, path) {
                Some(k) => Some(&observed[k]),
                None => None,
            };
            let lenient = is_tolerated(
                config.symlink_policy,
                &config.lenient_symlink_directories,
                path,
            );
            match judge_path(config.verification_level, lenient, path, Some(&expected[i].kind), o) {
                Some(d) => {
                    found.push(d);
                    assert(found@[found@.len() - 1].path@ == path@);
                    assert(names_path(found@, path@));
                },
                None => {},
            }
        }
        proof {
            assert forall|k: int| 0 <= k < before.len() implies found@[k] == before[k] by {}
            assert forall|p: Seq<char>|
                found_before(ep, p, i + 1) && discrepancy_at(
                    config,
                    expected@,
                    observed@,
                    p,
                ) is Some implies #[trigger] names_path(found@, p) by {
                let j = position_of(ep, p)->0;
                if j < i {
                    assert(names_path(before, p));
                    let k = choose|k: int| 0 <= k < before.len() && (#[trigger] before[k]).path@ == p;
                    assert(found@[k].path@ == p);
                } else {
                    lemma_position_of(ep, p);
                    assert(ep[i as int] == p);
                    assert(p == path@);
                }
            }
        }
        i += 1;
    }
    let mut m: usize = 0;
    proof {
        assert forall|p: Seq<char>|
            position_of(ep, p) is Some && discrepancy_at(
                config,
                expected@,
                observed@,
                p,
            ) is Some implies #[trigger] names_path(found@, p) by {
            lemma_position_of(ep, p);
        }
        assert forall|p: Seq<char>| !#[trigger] found_before(op, p, 0) by {
            lemma_position_of(op, p);
        }
    }
    while m < observed.len()
        invariant
            m <= observed.len(),
            ep == expected_paths(expected@),
            op == observed_paths(observed@),
            all_sound(config, expected@, observed@, found@),
            distinct_paths(found@),
            forall|k: int|
                0 <= k < found@.len() ==> position_of(ep, (#[trigger] found@[k]).path@) is Some
                    || found_before(op, found@[k].path@, m as int),
            forall|path: Seq<char>|
                position_of(ep, path) is Some && discrepancy_at(
                    config,
                    expected@,
                    observed@,
                    path,
                ) is Some ==> #[trigger] names_path(found@, path),
            forall|path: Seq<char>|
                position_of(ep, path) is None && found_before(op, path, m as int)
                    && discrepancy_at(config, expected@, observed@, path) is Some
                    ==> #[trigger] names_path(found@, path),
        decreases observed.len() - m,
    {
        let path = observed[m].path.as_str();
        let ghost before = found@;
        proof {
            lemma_position_of(op, path@);
        }
        if find_expected(expected, path).is_none() && find_observed(observed, path) == Some(m) {
            let lenient = is_tolerated(
                config.symlink_policy,
                &config.lenient_symlink_directories,
                path,
            );
            match judge_path(config.verification_level, lenient, path, None, Some(&observed[m])) {
                Some(d) => {
                    found.push(d);
                    assert(found@[found@.len() - 1].path@ == path@);
                    assert(names_path(found@, path@));
                },
                None => {},
            }
        }
        proof {
            assert forall|k: int| 0 <= k < before.len() implies found@[k] == before[k] by {}
            assert forall|p: Seq<char>|
                position_of(ep, p) is Some && discrepancy_at(
                    config,
                    expected@,
                    observed@,
                    p,
                ) is Some implies #[trigger] names_path(found@, p) by {
                assert(names_path(before, p));
                let k = choose|k: int| 0 <= k < before.len() && (#[trigger] before[k]).path@ == p;
                assert(found@[k].path@ == p);
            }
            assert forall|p: Seq<char>|
                position_of(ep, p) is None && found_before(op, p, m + 1)
                    && discrepancy_at(config, expected@, observed@, p) is Some implies 
                #[trigger] names_path(found@, p) by {
                let j = position_of(op, p)->0;
                if j < m {
                    assert(names_path(before, p));
                    let k = choose|k: int| 0 <= k < before.len() && (#[trigger] before[k]).path@ == p;
                    assert(found@[k].path@ == p);
                } else {
                    lemma_position_of(op, p);
                    assert(op[m as int] == p);
                    assert(p == path@);
                }
            }
        }
        m += 1;
    }
    proof {
        assert forall|p: Seq<char>|
            discrepancy_at(config, expected@, observed@, p) is Some implies names_path(
            found@,
            p,
        ) by {
            lemma_position_of(ep, p);
            lemma_position_of(op, p);
            if position_of(ep, p) is None {
                assert(position_of(op, p) is Some);
            }
        }
    }
    found
}


/// What is done about one discrepancy.
#[derive(Clone, Debug)]
pub enum HealStep {
    /// This action repairs it.
    Heal(HealingAction),
    /// It cannot be repaired: the store lacks the object with this hash.
    Impossible { path: String, hash: String },
    /// It is left as it is: the policy preserves what is there, or nothing
    /// is expected at the path that could be restored.
    Leave { path: String },
}

/// What is done about one discrepancy, as a plain value.
pub enum HealStepView {
    Heal(RemedyView),
    Impossible(Seq<char>),
    Leave,
}

impl HealStep {
    /// The path that the step is about.
    pub open spec fn path(&self) -> Seq<char> {
        match self {
            HealStep::Heal(action) => action.path(),
            HealStep::Impossible { path, .. } => path@,
            HealStep::Leave { path } => path@,
        }
    }

    /// What the step does.
    pub open spec fn step(&self) -> HealStepView {
        match self {
            HealStep::Heal(action) => HealStepView::Heal(action.remedy()),
            HealStep::Impossible { hash, .. } => HealStepView::Impossible(hash@),
            HealStep::Leave { .. } => HealStepView::Leave,
        }
    }
}

/// What is done about a discrepancy: the action that repairs it, unless
/// the action needs an object that the store does not hold.
pub open spec fn step_for(
    expected: Option<ExpectedView>,
    discrepancy: DiscrepancyView,
    user_files: UserFilePolicy,
    orphans: OrphanedFileAction,
    store: Seq<Seq<char>>,
) -> HealStepView {
    match remedy(expected, discrepancy, user_files, orphans) {
        Some(RemedyView::Relink(hash)) => if store.contains(hash) {
            HealStepView::Heal(RemedyView::Relink(hash))
        } else {
            HealStepView::Impossible(hash)
        },
        Some(RemedyView::Overwrite(hash)) => if store.contains(hash) {
            HealStepView::Heal(RemedyView::Overwrite(hash))
        } else {
            HealStepView::Impossible(hash)
        },
        Some(action) => HealStepView::Heal(action),
        None => HealStepView::Leave,
    }
}

/// Where a file is moved to when it is backed up: under the backup
/// directory, at its own path.
pub open spec fn backup_path(backup_dir: Seq<char>, path: Seq<char>) -> Seq<char> {
    joined(backup_dir, crate::headers::strip_slashes(path))
}

fn store_holds(store: &Vec<String>, hash: &str) -> (r: bool)
    ensures
        r == texts(store@).contains(hash@),
{
    let mut i: usize = 0;
    while i < store.len()
        invariant
            i <= store.len(),
            forall|k: int| 0 <= k < i ==> #[trigger] texts(store@)[k] != hash@,
        decreases store.len() - i,
    {
        if same_text(store[i].as_str(), hash) {
            assert(texts(store@)[i as int] == hash@);
            return true;
        }
        i += 1;
    }
    false
}

fn strip_leading_slashes(path: &str) -> (out: String)
    ensures
        out@ == crate::headers::strip_slashes(path@),
{
    let v = crate::text::chars_of(path);
    let mut i: usize = 0;
    assert(v@.skip(0) == v@);
    while i < v.len() && v[i] == '/'
        invariant
            i <= v.len(),
            crate::headers::strip_slashes(v@) == crate::headers::strip_slashes(v@.skip(i as int)),
        decreases v.len() - i,
    {
        assert(v@.skip(i as int).skip(1) == v@.skip(i + 1));
        i += 1;
    }
    assert(v@.subrange(i as int, v.len() as int) == v@.skip(i as int));
    let tail = crate::text::slice_of(&v, i, v.len());
    crate::text::string_of(&tail)
}

/// Plans the healing: one step for each discrepancy, in order. The store
/// is given by the hashes of the objects it holds.
pub fn plan_healing(
    config: &GuardConfig,
    expected: &Vec<ExpectedFile>,
    discrepancies: &Vec<Discrepancy>,
    store: &Vec<String>,
) -> (steps: Vec<HealStep>)
    ensures
        steps@.len() == discrepancies@.len(),
        forall|k: int|
            0 <= k < steps@.len() ==> (#[trigger] steps@[k]).path() == discrepancies@[k].path@
                && steps@[k].step() == step_for(
                expected_at(expected@, discrepancies@[k].path@),
                discrepancies@[k]@,
                config.user_file_policy,
                config.orphaned_file_action,
                texts(store@),
            ),
        forall|k: int|
            0 <= k < steps@.len() ==> match #[trigger] steps@[k] {
                HealStep::Heal(HealingAction::Backup { path, to }) => to@ == backup_path(
                    config.orphaned_backup_dir@,
                    path@,
                ),
                _ => true,
            },
{
    let mut steps: Vec<HealStep> = Vec::new();
    let mut i: usize = 0;
    while i < discrepancies.len()
        invariant
            i <= discrepancies.len(),
            steps@.len() == i,
            forall|k: int|
                0 <= k < i ==> (#[trigger] steps@[k]).path() == discrepancies@[k].path@
                    && steps@[k].step() == step_for(
                    expected_at(expected@, discrepancies@[k].path@),
                    discrepancies@[k]@,
                    config.user_file_policy,
                    config.orphaned_file_action,
                    texts(store@),
                ),
            forall|k: int|
                0 <= k < i ==> match #[trigger] steps@[k] {
                    HealStep::Heal(HealingAction::Backup { path, to }) => to@ == backup_path(
                        config.orphaned_backup_dir@,
                        path@,
                    ),
                    _ => true,
                },
        decreases discrepancies.len() - i,
    {
        let d = &discrepancies[i];
        let path = d.path.as_str();
        let e = match find_expected(expected, path) {
            Some(k) => Some(&expected[k].kind),
            None => None,
        };
        let removal: Option<bool> = match d.kind {
            DiscrepancyKind::Extra => match config.user_file_policy {
                UserFilePolicy::Preserve => None,
                UserFilePolicy::Remove => Some(false),
                UserFilePolicy::Backup => Some(true),
            },
            DiscrepancyKind::Orphaned => match config.orphaned_file_action {
                OrphanedFileAction::Preserve => None,
                OrphanedFileAction::Remove => Some(false),
                OrphanedFileAction::Backup => Some(true),
            },
            _ => None,
        };
        let step = match d.kind {
            DiscrepancyKind::Missing => match e {
                Some(ExpectedKind::File { hash }) => {
                    if store_holds(store, hash.as_str()) {
                        HealStep::Heal(
                            HealingAction::Relink { path: path.to_owned(), hash: hash.clone() },
                        )
                    } else {
                        HealStep::Impossible { path: path.to_owned(), hash: hash.clone() }
                    }
                },
                Some(ExpectedKind::Symlink { target }) => HealStep::Heal(
                    HealingAction::Retarget { path: path.to_owned(), target: target.clone() },
                ),
                None => HealStep::Leave { path: path.to_owned() },
            },
            DiscrepancyKind::Corrupted => match e {
                Some(ExpectedKind::File { hash }) => {
                    if store_holds(store, hash.as_str()) {
                        HealStep::Heal(
                            HealingAction::Overwrite { path: path.to_owned(), hash: hash.clone() },
                        )
                    } else {
                        HealStep::Impossible { path: path.to_owned(), hash: hash.clone() }
                    }
                },
                _ => HealStep::Leave { path: path.to_owned() },
            },
            DiscrepancyKind::WrongSymlinkTarget => match e {
                Some(ExpectedKind::Symlink { target }) => HealStep::Heal(
                    HealingAction::Retarget { path: path.to_owned(), target: target.clone() },
                ),
                _ => HealStep::Leave { path: path.to_owned() },
            },
            _ => match removal {
                None => HealStep::Leave { path: path.to_owned() },
                Some(false) => HealStep::Heal(HealingAction::Remove { path: path.to_owned() }),
                Some(true) => {
                    let inside = strip_leading_slashes(path);
                    HealStep::Heal(
                        HealingAction::Backup {
                            path: path.to_owned(),
                            to: join_path(config.orphaned_backup_dir.as_str(), inside.as_str()),
                        },
                    )
                },
            },
        };
        steps.push(step);
        i += 1;
    }
    steps
}

/// What the guard concludes from a verification.
#[derive(Clone, Copy, Debug, PartialEq, Eq, Structural)]
pub enum GuardDecision {
    /// There is no discrepancy.
    Clean,
    /// There are discrepancies and the operation fails.
    Fail,
    /// There are discrepancies; they are reported and the operation goes on.
    Report,
    /// There are discrepancies and the planned actions are carried out.
    Heal,
}

impl GuardDecision {
    /// The kind of error that the decision stands for, if it is one.
    pub open spec fn error_kind_spec(self) -> Option<crate::errors::ErrorKind> {
        if self == GuardDecision::Fail {
            Some(crate::errors::ErrorKind::Policy)
        } else {
            None
        }
    }

    /// The kind of error that the decision stands for: a failure is a
    /// matter of policy, the other decisions are no errors.
    pub fn error_kind(self) -> (k: Option<crate::errors::ErrorKind>)
        ensures
            k == self.error_kind_spec(),
    {
        match self {
            GuardDecision::Fail => Some(crate::errors::ErrorKind::Policy),
            _ => None,
        }
    }
}

/// The decision: with no discrepancy all is well; else failing fast fails,
/// reporting reports, healing heals, and healing that must succeed fails
/// when a repair is impossible.
pub open spec fn decision_of(
    handling: DiscrepancyHandling,
    discrepancies: nat,
    impossible: nat,
) -> GuardDecision {
    if discrepancies == 0 {
        GuardDecision::Clean
    } else {
        match handling {
            DiscrepancyHandling::FailFast => GuardDecision::Fail,
            DiscrepancyHandling::ReportOnly => GuardDecision::Report,
            DiscrepancyHandling::AutoHeal => GuardDecision::Heal,
            DiscrepancyHandling::AutoHealOrFail => if impossible > 0 {
                GuardDecision::Fail
            } else {
                GuardDecision::Heal
            },
        }
    }
}

/// The test "this step is impossible".
pub open spec fn is_impossible() -> spec_fn(HealStep) -> bool {
    |s: HealStep| s is Impossible
}

/// Concludes from the steps planned for the discrepancies that were found.
pub fn decide(handling: DiscrepancyHandling, steps: &Vec<HealStep>) -> (v: GuardDecision)
    ensures
        v == decision_of(handling, steps@.len(), steps@.filter(is_impossible()).len()),
{
    if steps.len() == 0 {
        return GuardDecision::Clean;
    }
    match handling {
        DiscrepancyHandling::FailFast => GuardDecision::Fail,
        DiscrepancyHandling::ReportOnly => GuardDecision::Report,
        DiscrepancyHandling::AutoHeal => GuardDecision::Heal,
        DiscrepancyHandling::AutoHealOrFail => {
            let ghost test = is_impossible();
            let mut i: usize = 0;
            proof {
                reveal(Seq::filter);
                assert(steps@.take(0).filter(test).len() == 0);
            }
            while i < steps.len()
                invariant
                    i <= steps.len(),
                    test == is_impossible(),
                    steps@.take(i as int).filter(test).len() == 0,
                    handling == DiscrepancyHandling::AutoHealOrFail,
                    steps@.len() > 0,
                decreases steps.len() - i,
            {
                proof {
                    crate::seq_lemmas::lemma_filter_step(steps@, test, i as int);
                }
                let impossible = match &steps[i] {
                    HealStep::Impossible { .. } => true,
                    _ => false,
                };
                if impossible {
                    proof {
                        crate::seq_lemmas::lemma_filter_grows(steps@, test, i + 1);
                    }
                    return GuardDecision::Fail;
                }
                i += 1;
            }
            assert(steps@.take(steps.len() as int) == steps@);
            GuardDecision::Heal
        },
    }
}

/// Healing is idempotent: when every discrepancy of a state has a repairing
/// action and all actions have been carried out, a second verification
/// finds nothing. `healed` is the disk after the healing: at every path
/// with a discrepancy it holds what the repairing action leaves there, and
/// everywhere else what was there before.
pub proof fn law_verify_after_heal_is_clean(
    config: &GuardConfig,
    expected: Seq<ExpectedFile>,
    observed: Seq<ObservedFile>,
    healed: Seq<ObservedFile>,
)
    requires
        forall|path: Seq<char>|
            match #[trigger] discrepancy_at(config, expected, observed, path) {
                Some(d) => match remedy(
                    expected_at(expected, path),
                    d,
                    config.user_file_policy,
                    config.orphaned_file_action,
                ) {
                    Some(action) => observed_at(healed, path) == after(
                        observed_at(observed, path),
                        action,
                    ),
                    None => false,
                },
                None => observed_at(healed, path) == observed_at(observed, path),
            },
    ensures
        forall|path: Seq<char>| #[trigger] discrepancy_at(config, expected, healed, path) is None,
{
    assert forall|path: Seq<char>| #[trigger]
        discrepancy_at(config, expected, healed, path) is None by {
        let lenient = tolerated(
            config.symlink_policy,
            texts(config.lenient_symlink_directories@),
            path,
        );
        let d = discrepancy_at(config, expected, observed, path);
        law_healed_path_is_clean(
            config.verification_level,
            lenient,
            expected_at(expected, path),
            observed_at(observed, path),
            config.user_file_policy,
            config.orphaned_file_action,
        );
    }
}


/// A full verification that finds nothing at the path of an expected file
/// has seen the file with the expected content: a file is there, it was
/// hashed, and its hash is the one that the state records.
pub proof fn law_clean_full_check_means_matching_content(
    lenient: bool,
    hash: Seq<char>,
    observed: Option<ObservedView>,
)
    requires
        judge(VerificationLevel::Full, lenient, Some(ExpectedView::File(hash)), observed) is None,
    ensures
        observed matches Some(found) && found.kind == FoundView::File(Some(hash)),
{
}

} // verus!
