//! Configuration of the state verification guard.
//!
//! Three policies are set independently: what to do with a discrepancy,
//! how strictly to treat symlinks, and what to do with files that no
//! package owns. Older configurations carry three booleans instead;
//! `apply_legacy_fields` folds them into the policies.

use vstd::prelude::*;

verus! {

/// How the guard treats symlinks.
#[derive(Clone, Copy, Debug, PartialEq, Eq, Structural)]
pub enum SymlinkPolicyConfig {
    /// Any symlink problem is a failure.
    Strict,
    /// Problems are tolerated under the listed bootstrap directories only.
    LenientBootstrap,
    /// Problems are reported and tolerated everywhere.
    LenientAll,
    /// Symlinks are not verified.
    Ignore,
}

impl Default for SymlinkPolicyConfig {
    fn default() -> (p: SymlinkPolicyConfig)
        ensures
            p == SymlinkPolicyConfig::LenientBootstrap,
    {
        SymlinkPolicyConfig::LenientBootstrap
    }
}

/// What the guard does when it finds a discrepancy.
#[derive(Clone, Copy, Debug, PartialEq, Eq, Structural)]
pub enum DiscrepancyHandling {
    /// The operation fails.
    FailFast,
    /// The discrepancy is reported and the operation goes on.
    ReportOnly,
    /// The discrepancy is repaired where that is possible.
    AutoHeal,
    /// The discrepancy is repaired; where that is impossible the operation
    /// fails.
    AutoHealOrFail,
}

impl Default for DiscrepancyHandling {
    fn default() -> (h: DiscrepancyHandling)
        ensures
            h == DiscrepancyHandling::FailFast,
    {
        DiscrepancyHandling::FailFast
    }
}

/// What the guard does with files that no package owns.
#[derive(Clone, Copy, Debug, PartialEq, Eq, Structural)]
pub enum UserFilePolicy {
    /// They stay.
    Preserve,
    /// They are removed.
    Remove,
    /// They are copied aside, then removed.
    Backup,
}

impl Default for UserFilePolicy {
    fn default() -> (p: UserFilePolicy)
        ensures
            p == UserFilePolicy::Preserve,
    {
        UserFilePolicy::Preserve
    }
}

/// The symlink policy of the top-level guard section.
#[derive(Clone, Copy, Debug, PartialEq, Eq, Structural)]
pub enum GuardSymlinkPolicy {
    /// Any symlink problem is a failure.
    Strict,
    /// Problems are reported and tolerated.
    Lenient,
    /// Symlinks are not verified.
    Ignore,
}

impl Default for GuardSymlinkPolicy {
    fn default() -> (p: GuardSymlinkPolicy)
        ensures
            p == GuardSymlinkPolicy::Lenient,
    {
        GuardSymlinkPolicy::Lenient
    }
}

/// Verification proceeds from cheap to expensive checks unless told not to.
pub fn default_progressive_verification() -> (r: bool)
    ensures
        r,
{
    true
}

/// Eight verification tasks run at once unless configured.
pub fn default_max_concurrent_tasks() -> (r: usize)
    ensures
        r == 8,
{
    8
}

/// A verification task may take five minutes unless configured.
pub fn default_verification_timeout_seconds() -> (r: u64)
    ensures
        r == 300,
{
    300
}

/// The top-level guard is on unless configured.
pub fn default_guard_enabled() -> (r: bool)
    ensures
        r,
{
    true
}

/// Verification is on when a configuration file leaves it out.
pub fn default_enabled() -> (r: bool)
    ensures
        r,
{
    true
}

/// The verification level used unless configured.
pub fn default_verification_level() -> (r: String)
    ensures
        r@ == "standard"@,
{
    "standard".to_owned()
}

/// What happens to orphaned files unless configured.
pub fn default_orphaned_file_action() -> (r: String)
    ensures
        r@ == "preserve"@,
{
    "preserve".to_owned()
}

/// Where orphaned files are copied to unless configured.
pub fn default_orphaned_backup_dir() -> (r: String)
    ensures
        r@ == "/opt/pm/orphaned-backup"@,
{
    "/opt/pm/orphaned-backup".to_owned()
}

/// The directories under which symlink problems are tolerated unless
/// configured: the `bin` and `sbin` of the live prefix.
pub fn default_lenient_symlink_directories() -> (r: Vec<String>)
    ensures
        r@.len() == 2,
        r@[0]@ == "/opt/pm/live/bin"@,
        r@[1]@ == "/opt/pm/live/sbin"@,
{
    let mut r: Vec<String> = Vec::new();
    r.push("/opt/pm/live/bin".to_owned());
    r.push("/opt/pm/live/sbin".to_owned());
    r
}

/// A directory under which symlink problems are tolerated.
#[derive(Clone, Debug)]
pub struct GuardDirectoryConfig {
    pub path: String,
}

/// The same two directories, for the top-level guard section.
pub fn default_guard_lenient_symlink_directories() -> (r: Vec<GuardDirectoryConfig>)
    ensures
        r@.len() == 2,
        r@[0].path@ == "/opt/pm/live/bin"@,
        r@[1].path@ == "/opt/pm/live/sbin"@,
{
    let mut r: Vec<GuardDirectoryConfig> = Vec::new();
    r.push(GuardDirectoryConfig { path: "/opt/pm/live/bin".to_owned() });
    r.push(GuardDirectoryConfig { path: "/opt/pm/live/sbin".to_owned() });
    r
}

/// Performance settings of the guard inside the verification section.
#[derive(Clone, Copy, Debug, PartialEq, Eq, Structural)]
pub struct PerformanceConfigToml {
    pub progressive_verification: bool,
    pub max_concurrent_tasks: usize,
    pub verification_timeout_seconds: u64,
}

impl Default for PerformanceConfigToml {
    fn default() -> (c: PerformanceConfigToml)
        ensures
            c == (PerformanceConfigToml {
                progressive_verification: true,
                max_concurrent_tasks: 8,
                verification_timeout_seconds: 300,
            }),
    {
        PerformanceConfigToml {
            progressive_verification: default_progressive_verification(),
            max_concurrent_tasks: default_max_concurrent_tasks(),
            verification_timeout_seconds: default_verification_timeout_seconds(),
        }
    }
}

/// Performance settings of the top-level guard section.
#[derive(Clone, Copy, Debug, PartialEq, Eq, Structural)]
pub struct GuardPerformanceConfig {
    pub progressive_verification: bool,
    pub max_concurrent_tasks: usize,
    pub verification_timeout_seconds: u64,
}

impl Default for GuardPerformanceConfig {
    fn default() -> (c: GuardPerformanceConfig)
        ensures
            c == (GuardPerformanceConfig {
                progressive_verification: true,
                max_concurrent_tasks: 8,
                verification_timeout_seconds: 300,
            }),
    {
        GuardPerformanceConfig {
            progressive_verification: default_progressive_verification(),
            max_concurrent_tasks: default_max_concurrent_tasks(),
            verification_timeout_seconds: default_verification_timeout_seconds(),
        }
    }
}

/// The guard settings inside the verification section.
#[derive(Clone, Debug)]
pub struct GuardConfigToml {
    pub symlink_policy: SymlinkPolicyConfig,
    pub lenient_symlink_directories: Vec<String>,
}

impl Default for GuardConfigToml {
    fn default() -> (c: GuardConfigToml)
        ensures
            c.symlink_policy == SymlinkPolicyConfig::LenientBootstrap,
            c.lenient_symlink_directories@.len() == 2,
            c.lenient_symlink_directories@[0]@ == "/opt/pm/live/bin"@,
            c.lenient_symlink_directories@[1]@ == "/opt/pm/live/sbin"@,
    {
        GuardConfigToml {
            symlink_policy: SymlinkPolicyConfig::default(),
            lenient_symlink_directories: default_lenient_symlink_directories(),
        }
    }
}

/// The handling that the two legacy booleans stand for. Where one of them
/// is missing, the handling stays as it is.
pub open spec fn legacy_handling(
    current: DiscrepancyHandling,
    fail_on_discrepancy: Option<bool>,
    auto_heal: Option<bool>,
) -> DiscrepancyHandling {
    match (fail_on_discrepancy, auto_heal) {
        (Some(true), Some(true)) => DiscrepancyHandling::AutoHealOrFail,
        (Some(false), Some(true)) => DiscrepancyHandling::AutoHeal,
        (Some(true), Some(false)) => DiscrepancyHandling::FailFast,
        (Some(false), Some(false)) => DiscrepancyHandling::ReportOnly,
        _ => current,
    }
}

/// The user file policy that the legacy boolean stands for. Where it is
/// missing, the policy stays as it is.
pub open spec fn legacy_user_file_policy(
    current: UserFilePolicy,
    preserve_user_files: Option<bool>,
) -> UserFilePolicy {
    match preserve_user_files {
        Some(true) => UserFilePolicy::Preserve,
        Some(false) => UserFilePolicy::Remove,
        None => current,
    }
}

/// Whether the handling makes an operation fail on a discrepancy.
pub open spec fn fails_on_discrepancy(h: DiscrepancyHandling) -> bool {
    h == DiscrepancyHandling::FailFast || h == DiscrepancyHandling::AutoHealOrFail
}

/// Whether the handling repairs discrepancies.
pub open spec fn heals(h: DiscrepancyHandling) -> bool {
    h == DiscrepancyHandling::AutoHeal || h == DiscrepancyHandling::AutoHealOrFail
}

fn fold_handling(
    current: DiscrepancyHandling,
    fail_on_discrepancy: Option<bool>,
    auto_heal: Option<bool>,
) -> (h: DiscrepancyHandling)
    ensures
        h == legacy_handling(current, fail_on_discrepancy, auto_heal),
{
    match (fail_on_discrepancy, auto_heal) {
        (Some(true), Some(true)) => DiscrepancyHandling::AutoHealOrFail,
        (Some(false), Some(true)) => DiscrepancyHandling::AutoHeal,
        (Some(true), Some(false)) => DiscrepancyHandling::FailFast,
        (Some(false), Some(false)) => DiscrepancyHandling::ReportOnly,
        _ => current,
    }
}

fn fold_user_file_policy(current: UserFilePolicy, preserve_user_files: Option<bool>) -> (p:
    UserFilePolicy)
    ensures
        p == legacy_user_file_policy(current, preserve_user_files),
{
    match preserve_user_files {
        Some(true) => UserFilePolicy::Preserve,
        Some(false) => UserFilePolicy::Remove,
        None => current,
    }
}

/// The verification section of the configuration.
#[derive(Clone, Debug)]
pub struct VerificationConfig {
    pub enabled: bool,
    /// `quick`, `standard` or `full`.
    pub level: String,
    pub discrepancy_handling: DiscrepancyHandling,
    /// `remove`, `preserve` or `backup`.
    pub orphaned_file_action: String,
    pub orphaned_backup_dir: String,
    pub user_file_policy: UserFilePolicy,
    pub guard: GuardConfigToml,
    pub performance: PerformanceConfigToml,
    /// Legacy: fail when a discrepancy is found.
    pub fail_on_discrepancy: Option<bool>,
    /// Legacy: repair discrepancies.
    pub auto_heal: Option<bool>,
    /// Legacy: keep files that no package owns.
    pub preserve_user_files: Option<bool>,
}

impl Default for VerificationConfig {
    fn default() -> (c: VerificationConfig)
        ensures
            !c.enabled,
            c.level@ == "standard"@,
            c.discrepancy_handling == DiscrepancyHandling::FailFast,
            c.orphaned_file_action@ == "preserve"@,
            c.orphaned_backup_dir@ == "/opt/pm/orphaned-backup"@,
            c.user_file_policy == UserFilePolicy::Preserve,
            c.guard.symlink_policy == SymlinkPolicyConfig::LenientBootstrap,
            c.guard.lenient_symlink_directories@.len() == 2,
            c.performance == (PerformanceConfigToml {
                progressive_verification: true,
                max_concurrent_tasks: 8,
                verification_timeout_seconds: 300,
            }),
            c.fail_on_discrepancy is None,
            c.auto_heal is None,
            c.preserve_user_files is None,
    {
        VerificationConfig {
            enabled: false,
            level: default_verification_level(),
            discrepancy_handling: DiscrepancyHandling::default(),
            orphaned_file_action: default_orphaned_file_action(),
            orphaned_backup_dir: default_orphaned_backup_dir(),
            user_file_policy: UserFilePolicy::default(),
            guard: GuardConfigToml::default(),
            performance: PerformanceConfigToml::default(),
            fail_on_discrepancy: None,
            auto_heal: None,
            preserve_user_files: None,
        }
    }
}

impl VerificationConfig {
    /// Folds the legacy booleans into the policies and clears them. Nothing
    /// else changes.
    pub fn apply_legacy_fields(&mut self)
        ensures
            *final(self) == (VerificationConfig {
                discrepancy_handling: legacy_handling(
                    old(self).discrepancy_handling,
                    old(self).fail_on_discrepancy,
                    old(self).auto_heal,
                ),
                user_file_policy: legacy_user_file_policy(
                    old(self).user_file_policy,
                    old(self).preserve_user_files,
                ),
                fail_on_discrepancy: None,
                auto_heal: None,
                preserve_user_files: None,
                ..*old(self)
            }),
    {
        self.discrepancy_handling = fold_handling(
            self.discrepancy_handling,
            self.fail_on_discrepancy,
            self.auto_heal,
        );
        self.user_file_policy = fold_user_file_policy(
            self.user_file_policy,
            self.preserve_user_files,
        );
        self.fail_on_discrepancy = None;
        self.auto_heal = None;
        self.preserve_user_files = None;
    }

    /// Whether a discrepancy makes the operation fail.
    pub fn should_fail_on_discrepancy(&self) -> (r: bool)
        ensures
            r == fails_on_discrepancy(self.discrepancy_handling),
    {
        match self.discrepancy_handling {
            DiscrepancyHandling::FailFast | DiscrepancyHandling::AutoHealOrFail => true,
            _ => false,
        }
    }

    /// Whether discrepancies are repaired.
    pub fn should_auto_heal(&self) -> (r: bool)
        ensures
            r == heals(self.discrepancy_handling),
    {
        match self.discrepancy_handling {
            DiscrepancyHandling::AutoHeal | DiscrepancyHandling::AutoHealOrFail => true,
            _ => false,
        }
    }
}

/// The top-level guard section of the configuration.
#[derive(Clone, Debug)]
pub struct GuardConfiguration {
    pub enabled: bool,
    /// `quick`, `standard` or `full`.
    pub verification_level: String,
    pub discrepancy_handling: DiscrepancyHandling,
    pub symlink_policy: GuardSymlinkPolicy,
    /// `remove`, `preserve` or `backup`.
    pub orphaned_file_action: String,
    pub orphaned_backup_dir: String,
    pub user_file_policy: UserFilePolicy,
    pub performance: GuardPerformanceConfig,
    pub lenient_symlink_directories: Vec<GuardDirectoryConfig>,
    /// Legacy: repair discrepancies.
    pub auto_heal: Option<bool>,
    /// Legacy: fail when a discrepancy is found.
    pub fail_on_discrepancy: Option<bool>,
    /// Legacy: keep files that no package owns.
    pub preserve_user_files: Option<bool>,
}

impl Default for GuardConfiguration {
    fn default() -> (c: GuardConfiguration)
        ensures
            c.enabled,
            c.verification_level@ == "standard"@,
            c.discrepancy_handling == DiscrepancyHandling::FailFast,
            c.symlink_policy == GuardSymlinkPolicy::Lenient,
            c.orphaned_file_action@ == "preserve"@,
            c.orphaned_backup_dir@ == "/opt/pm/orphaned-backup"@,
            c.user_file_policy == UserFilePolicy::Preserve,
            c.performance == (GuardPerformanceConfig {
                progressive_verification: true,
                max_concurrent_tasks: 8,
                verification_timeout_seconds: 300,
            }),
            c.lenient_symlink_directories@.len() == 2,
            c.lenient_symlink_directories@[0].path@ == "/opt/pm/live/bin"@,
            c.lenient_symlink_directories@[1].path@ == "/opt/pm/live/sbin"@,
            c.auto_heal is None,
            c.fail_on_discrepancy is None,
            c.preserve_user_files is None,
    {
        GuardConfiguration {
            enabled: default_guard_enabled(),
            verification_level: default_verification_level(),
            discrepancy_handling: DiscrepancyHandling::default(),
            symlink_policy: GuardSymlinkPolicy::default(),
            orphaned_file_action: default_orphaned_file_action(),
            orphaned_backup_dir: default_orphaned_backup_dir(),
            user_file_policy: UserFilePolicy::default(),
            performance: GuardPerformanceConfig::default(),
            lenient_symlink_directories: default_guard_lenient_symlink_directories(),
            auto_heal: None,
            fail_on_discrepancy: None,
            preserve_user_files: None,
        }
    }
}

impl GuardConfiguration {
    /// Folds the legacy booleans into the policies and clears them. Nothing
    /// else changes.
    pub fn apply_legacy_fields(&mut self)
        ensures
            *final(self) == (GuardConfiguration {
                discrepancy_handling: legacy_handling(
                    old(self).discrepancy_handling,
                    old(self).fail_on_discrepancy,
                    old(self).auto_heal,
                ),
                user_file_policy: legacy_user_file_policy(
                    old(self).user_file_policy,
                    old(self).preserve_user_files,
                ),
                fail_on_discrepancy: None,
                auto_heal: None,
                preserve_user_files: None,
                ..*old(self)
            }),
    {
        self.discrepancy_handling = fold_handling(
            self.discrepancy_handling,
            self.fail_on_discrepancy,
            self.auto_heal,
        );
        self.user_file_policy = fold_user_file_policy(
            self.user_file_policy,
            self.preserve_user_files,
        );
        self.fail_on_discrepancy = None;
        self.auto_heal = None;
        self.preserve_user_files = None;
    }

    /// Whether a discrepancy makes the operation fail.
    pub fn should_fail_on_discrepancy(&self) -> (r: bool)
        ensures
            r == fails_on_discrepancy(self.discrepancy_handling),
    {
        match self.discrepancy_handling {
            DiscrepancyHandling::FailFast | DiscrepancyHandling::AutoHealOrFail => true,
            _ => false,
        }
    }

    /// Whether discrepancies are repaired.
    pub fn should_auto_heal(&self) -> (r: bool)
        ensures
            r == heals(self.discrepancy_handling),
    {
        match self.discrepancy_handling {
            DiscrepancyHandling::AutoHeal | DiscrepancyHandling::AutoHealOrFail => true,
            _ => false,
        }
    }
}

/// Applying the legacy fields a second time changes nothing.
pub proof fn law_legacy_fold_is_idempotent(
    current: DiscrepancyHandling,
    policy: UserFilePolicy,
    fail_on_discrepancy: Option<bool>,
    auto_heal: Option<bool>,
    preserve_user_files: Option<bool>,
)
    ensures
        legacy_handling(
            legacy_handling(current, fail_on_discrepancy, auto_heal),
            None,
            None,
        ) == legacy_handling(current, fail_on_discrepancy, auto_heal),
        legacy_user_file_policy(legacy_user_file_policy(policy, preserve_user_files), None)
            == legacy_user_file_policy(policy, preserve_user_files),
{
}

/// The two legacy booleans, when both are given, are exactly what the
/// folded handling answers to the two questions.
pub proof fn law_legacy_booleans_survive(fail_on_discrepancy: bool, auto_heal: bool)
    ensures
        fails_on_discrepancy(
            legacy_handling(
                DiscrepancyHandling::FailFast,
                Some(fail_on_discrepancy),
                Some(auto_heal),
            ),
        ) == (fail_on_discrepancy),
        heals(
            legacy_handling(
                DiscrepancyHandling::FailFast,
                Some(fail_on_discrepancy),
                Some(auto_heal),
            ),
        ) == auto_heal,
{
}

} // verus!
