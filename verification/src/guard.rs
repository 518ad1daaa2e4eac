//! The state verification guard: it compares what a state says should be
//! under the live prefix with what is there, names the discrepancies, and
//! plans their repair.
//!
//! Looking at the disk and changing it are the caller's part. The guard is
//! handed what was observed, judges it path by path, and answers with
//! discrepancies and healing actions.

use crate::errors::OpsError;
use crate::guard_config::{legacy_handling, legacy_user_file_policy, DiscrepancyHandling, SymlinkPolicyConfig, UserFilePolicy, VerificationConfig};
use crate::text::{same_text, texts};
use vstd::prelude::*;

verus! {

/// How thoroughly the guard looks.
#[derive(Clone, Copy, Debug, PartialEq, Eq, Structural)]
pub enum VerificationLevel {
    /// Files must exist.
    Quick,
    /// Files must exist, and those that were hashed must have the right
    /// content.
    Standard,
    /// Every file is hashed and must have the right content.
    Full,
}

/// How the guard treats symlinks.
#[derive(Clone, Copy, Debug, PartialEq, Eq, Structural)]
pub enum SymlinkPolicy {
    Strict,
    LenientBootstrap,
    LenientAll,
    Ignore,
}

/// What the guard does with files that were installed once and belong to
/// no package of the state.
#[derive(Clone, Copy, Debug, PartialEq, Eq, Structural)]
pub enum OrphanedFileAction {
    Remove,
    Preserve,
    Backup,
}

/// The configuration that the guard works with.
#[derive(Clone, Debug)]
pub struct GuardConfig {
    pub verification_level: VerificationLevel,
    pub discrepancy_handling: DiscrepancyHandling,
    pub symlink_policy: SymlinkPolicy,
    pub user_file_policy: UserFilePolicy,
    pub orphaned_file_action: OrphanedFileAction,
    /// The directories under which symlink problems are tolerated by the
    /// bootstrap policy.
    pub lenient_symlink_directories: Vec<String>,
    pub orphaned_backup_dir: String,
}

/// The level that a configuration text names; an unknown text names none.
pub open spec fn level_named(text: Seq<char>) -> Option<VerificationLevel> {
    if text == "quick"@ {
        Some(VerificationLevel::Quick)
    } else if text == "standard"@ {
        Some(VerificationLevel::Standard)
    } else if text == "full"@ {
        Some(VerificationLevel::Full)
    } else {
        None
    }
}

/// The orphan action that a configuration text names.
pub open spec fn orphan_action_named(text: Seq<char>) -> Option<OrphanedFileAction> {
    if text == "remove"@ {
        Some(OrphanedFileAction::Remove)
    } else if text == "preserve"@ {
        Some(OrphanedFileAction::Preserve)
    } else if text == "backup"@ {
        Some(OrphanedFileAction::Backup)
    } else {
        None
    }
}

/// Reads a verification level.
pub fn parse_level(text: &str) -> (r: Option<VerificationLevel>)
    ensures
        r == level_named(text@),
{
    if same_text(text, "quick") {
        Some(VerificationLevel::Quick)
    } else if same_text(text, "standard") {
        Some(VerificationLevel::Standard)
    } else if same_text(text, "full") {
        Some(VerificationLevel::Full)
    } else {
        None
    }
}

/// Reads an orphan action.
pub fn parse_orphan_action(text: &str) -> (r: Option<OrphanedFileAction>)
    ensures
        r == orphan_action_named(text@),
{
    if same_text(text, "remove") {
        Some(OrphanedFileAction::Remove)
    } else if same_text(text, "preserve") {
        Some(OrphanedFileAction::Preserve)
    } else if same_text(text, "backup") {
        Some(OrphanedFileAction::Backup)
    } else {
        None
    }
}

/// Whether a configuration is the usual one: the standard level, failing
/// fast, lenient with symlinks under the `bin` and `sbin` of the live
/// prefix, and preserving user files and orphans.
pub open spec fn is_usual(c: GuardConfig) -> bool {
    &&& c.verification_level == VerificationLevel::Standard
    &&& c.discrepancy_handling == DiscrepancyHandling::FailFast
    &&& c.symlink_policy == SymlinkPolicy::LenientBootstrap
    &&& c.user_file_policy == UserFilePolicy::Preserve
    &&& c.orphaned_file_action == OrphanedFileAction::Preserve
    &&& texts(c.lenient_symlink_directories@) == seq!["/opt/pm/live/bin"@, "/opt/pm/live/sbin"@]
    &&& c.orphaned_backup_dir@ == "/opt/pm/orphaned-backup"@
}

impl Default for GuardConfig {
    fn default() -> (c: GuardConfig)
        ensures
            is_usual(c),
    {
        let mut dirs: Vec<String> = Vec::new();
        crate::text::push_text(&mut dirs, "/opt/pm/live/bin".to_owned());
        crate::text::push_text(&mut dirs, "/opt/pm/live/sbin".to_owned());
        assert(texts(dirs@) =~= seq!["/opt/pm/live/bin"@, "/opt/pm/live/sbin"@]);
        GuardConfig {
            verification_level: VerificationLevel::Standard,
            discrepancy_handling: DiscrepancyHandling::FailFast,
            symlink_policy: SymlinkPolicy::LenientBootstrap,
            user_file_policy: UserFilePolicy::Preserve,
            orphaned_file_action: OrphanedFileAction::Preserve,
            lenient_symlink_directories: dirs,
            orphaned_backup_dir: "/opt/pm/orphaned-backup".to_owned(),
        }
    }
}

impl GuardConfig {
    /// The guard configuration that a verification section stands for. The
    /// legacy booleans of the section are folded into the policies; a level
    /// or an orphan action that does not read gives the usual one.
    pub fn from_verification(section: &VerificationConfig) -> (c: GuardConfig)
        ensures
            c.verification_level == match level_named(section.level@) {
                Some(level) => level,
                None => VerificationLevel::Standard,
            },
            c.discrepancy_handling == legacy_handling(
                section.discrepancy_handling,
                section.fail_on_discrepancy,
                section.auto_heal,
            ),
            c.user_file_policy == legacy_user_file_policy(
                section.user_file_policy,
                section.preserve_user_files,
            ),
            c.symlink_policy == match section.guard.symlink_policy {
                SymlinkPolicyConfig::Strict => SymlinkPolicy::Strict,
                SymlinkPolicyConfig::LenientBootstrap => SymlinkPolicy::LenientBootstrap,
                SymlinkPolicyConfig::LenientAll => SymlinkPolicy::LenientAll,
                SymlinkPolicyConfig::Ignore => SymlinkPolicy::Ignore,
            },
            c.orphaned_file_action == match orphan_action_named(section.orphaned_file_action@) {
                Some(action) => action,
                None => OrphanedFileAction::Preserve,
            },
            texts(c.lenient_symlink_directories@) == texts(
                section.guard.lenient_symlink_directories@,
            ),
            c.orphaned_backup_dir@ == section.orphaned_backup_dir@,
    {
        let handling = match (section.fail_on_discrepancy, section.auto_heal) {
            (Some(true), Some(true)) => DiscrepancyHandling::AutoHealOrFail,
            (Some(false), Some(true)) => DiscrepancyHandling::AutoHeal,
            (Some(true), Some(false)) => DiscrepancyHandling::FailFast,
            (Some(false), Some(false)) => DiscrepancyHandling::ReportOnly,
            _ => section.discrepancy_handling,
        };
        let user_file_policy = match section.preserve_user_files {
            Some(true) => UserFilePolicy::Preserve,
            Some(false) => UserFilePolicy::Remove,
            None => section.user_file_policy,
        };
        GuardConfig {
            verification_level: match parse_level(section.level.as_str()) {
                Some(level) => level,
                None => VerificationLevel::Standard,
            },
            discrepancy_handling: handling,
            symlink_policy: match section.guard.symlink_policy {
                SymlinkPolicyConfig::Strict => SymlinkPolicy::Strict,
                SymlinkPolicyConfig::LenientBootstrap => SymlinkPolicy::LenientBootstrap,
                SymlinkPolicyConfig::LenientAll => SymlinkPolicy::LenientAll,
                SymlinkPolicyConfig::Ignore => SymlinkPolicy::Ignore,
            },
            user_file_policy,
            orphaned_file_action: match parse_orphan_action(section.orphaned_file_action.as_str()) {
                Some(action) => action,
                None => OrphanedFileAction::Preserve,
            },
            lenient_symlink_directories: crate::text::copy_texts(
                &section.guard.lenient_symlink_directories,
            ),
            orphaned_backup_dir: section.orphaned_backup_dir.clone(),
        }
    }
}

/// The guard with the parts it works with: the state manager, the package
/// store and the sender of events, whatever types the caller has for them.
#[derive(Debug)]
pub struct StateVerificationGuard<S, P, T> {
    pub state_manager: S,
    pub store: P,
    pub tx: T,
    pub config: GuardConfig,
}

/// Builds a guard part by part.
#[derive(Debug)]
pub struct StateVerificationGuardBuilder<S, P, T> {
    pub state_manager: Option<S>,
    pub store: Option<P>,
    pub tx: Option<T>,
    pub config: GuardConfig,
}

/// The name of the first part that a builder lacks.
pub open spec fn missing_part<S, P, T>(b: StateVerificationGuardBuilder<S, P, T>) -> Option<
    Seq<char>,
> {
    if b.state_manager is None {
        Some("StateManager"@)
    } else if b.store is None {
        Some("PackageStore"@)
    } else if b.tx is None {
        Some("EventSender"@)
    } else {
        None
    }
}

impl<S, P, T> StateVerificationGuardBuilder<S, P, T> {
    /// A builder with no part yet and the usual configuration.
    pub fn new() -> (b: Self)
        ensures
            b.state_manager is None,
            b.store is None,
            b.tx is None,
            is_usual(b.config),
    {
        StateVerificationGuardBuilder {
            state_manager: None,
            store: None,
            tx: None,
            config: GuardConfig::default(),
        }
    }

    /// Supplies the state manager.
    pub fn with_state_manager(self, state_manager: S) -> (b: Self)
        ensures
            b == (StateVerificationGuardBuilder { state_manager: Some(state_manager), ..self }),
    {
        StateVerificationGuardBuilder { state_manager: Some(state_manager), ..self }
    }

    /// Supplies the package store.
    pub fn with_store(self, store: P) -> (b: Self)
        ensures
            b == (StateVerificationGuardBuilder { store: Some(store), ..self }),
    {
        StateVerificationGuardBuilder { store: Some(store), ..self }
    }

    /// Supplies the sender of events.
    pub fn with_event_sender(self, tx: T) -> (b: Self)
        ensures
            b == (StateVerificationGuardBuilder { tx: Some(tx), ..self }),
    {
        StateVerificationGuardBuilder { tx: Some(tx), ..self }
    }

    /// Sets the verification level.
    pub fn with_level(self, level: VerificationLevel) -> (b: Self)
        ensures
            b == (StateVerificationGuardBuilder {
                config: GuardConfig { verification_level: level, ..self.config },
                ..self
            }),
    {
        let mut b = self;
        b.config.verification_level = level;
        b
    }

    /// Replaces the configuration.
    pub fn with_config(self, config: GuardConfig) -> (b: Self)
        ensures
            b == (StateVerificationGuardBuilder { config, ..self }),
    {
        StateVerificationGuardBuilder { config, ..self }
    }

    /// Builds the guard. Every part must have been supplied; the error
    /// names the first that was not.
    pub fn build(self) -> (r: Result<StateVerificationGuard<S, P, T>, OpsError>)
        ensures
            match r {
                Ok(guard) => missing_part(self) is None && Some(guard.state_manager)
                    == self.state_manager && Some(guard.store) == self.store && Some(guard.tx)
                    == self.tx && guard.config == self.config,
                Err(OpsError::MissingComponent { component }) => missing_part(self) == Some(
                    component@,
                ),
            },
    {
        let StateVerificationGuardBuilder { state_manager, store, tx, config } = self;
        let state_manager = match state_manager {
            Some(s) => s,
            None => {
                return Err(OpsError::MissingComponent { component: "StateManager".to_owned() });
            },
        };
        let store = match store {
            Some(s) => s,
            None => {
                return Err(OpsError::MissingComponent { component: "PackageStore".to_owned() });
            },
        };
        let tx = match tx {
            Some(t) => t,
            None => {
                return Err(OpsError::MissingComponent { component: "EventSender".to_owned() });
            },
        };
        Ok(StateVerificationGuard { state_manager, store, tx, config })
    }
}

} // verus!
