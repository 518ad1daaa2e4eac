use sps2::guard_config::{
    default_enabled, default_guard_enabled, default_guard_lenient_symlink_directories,
    default_lenient_symlink_directories, default_max_concurrent_tasks,
    default_orphaned_backup_dir, default_orphaned_file_action,
    default_progressive_verification, default_verification_level,
    default_verification_timeout_seconds, DiscrepancyHandling, GuardConfigToml,
    GuardConfiguration, GuardPerformanceConfig, GuardSymlinkPolicy, PerformanceConfigToml,
    SymlinkPolicyConfig, UserFilePolicy, VerificationConfig,
};

#[test]
fn default_values() {
    assert!(default_progressive_verification());
    assert_eq!(default_max_concurrent_tasks(), 8);
    assert_eq!(default_verification_timeout_seconds(), 300);
    assert!(default_guard_enabled());
    assert!(default_enabled());
    assert_eq!(default_verification_level(), "standard");
    assert_eq!(default_orphaned_file_action(), "preserve");
    assert_eq!(default_orphaned_backup_dir(), "/opt/pm/orphaned-backup");
    assert_eq!(default_lenient_symlink_directories(), vec!["/opt/pm/live/bin", "/opt/pm/live/sbin"]);
    let dirs: Vec<String> =
        default_guard_lenient_symlink_directories().into_iter().map(|d| d.path).collect();
    assert_eq!(dirs, vec!["/opt/pm/live/bin", "/opt/pm/live/sbin"]);
    assert_eq!(SymlinkPolicyConfig::default(), SymlinkPolicyConfig::LenientBootstrap);
    assert_eq!(DiscrepancyHandling::default(), DiscrepancyHandling::FailFast);
    assert_eq!(UserFilePolicy::default(), UserFilePolicy::Preserve);
    assert_eq!(GuardSymlinkPolicy::default(), GuardSymlinkPolicy::Lenient);
    assert_eq!(PerformanceConfigToml::default().max_concurrent_tasks, 8);
    assert_eq!(GuardPerformanceConfig::default().verification_timeout_seconds, 300);
    assert_eq!(GuardConfigToml::default().lenient_symlink_directories.len(), 2);
}

#[test]
fn verification_config_default() {
    let c = VerificationConfig::default();
    assert!(!c.enabled);
    assert_eq!(c.level, "standard");
    assert_eq!(c.discrepancy_handling, DiscrepancyHandling::FailFast);
    assert_eq!(c.orphaned_file_action, "preserve");
    assert_eq!(c.orphaned_backup_dir, "/opt/pm/orphaned-backup");
    assert_eq!(c.user_file_policy, UserFilePolicy::Preserve);
    assert_eq!(c.guard.symlink_policy, SymlinkPolicyConfig::LenientBootstrap);
    assert!(c.performance.progressive_verification);
    assert_eq!(c.fail_on_discrepancy, None);
    assert_eq!(c.auto_heal, None);
    assert_eq!(c.preserve_user_files, None);
    assert!(c.should_fail_on_discrepancy());
    assert!(!c.should_auto_heal());
}

#[test]
fn guard_configuration_default() {
    let c = GuardConfiguration::default();
    assert!(c.enabled);
    assert_eq!(c.verification_level, "standard");
    assert_eq!(c.symlink_policy, GuardSymlinkPolicy::Lenient);
    assert_eq!(c.lenient_symlink_directories.len(), 2);
    assert_eq!(c.lenient_symlink_directories[1].path, "/opt/pm/live/sbin");
    assert_eq!(c.performance.max_concurrent_tasks, 8);
}

#[test]
fn legacy_booleans_fold_into_handling() {
    let table = [
        (Some(true), Some(true), DiscrepancyHandling::AutoHealOrFail),
        (Some(false), Some(true), DiscrepancyHandling::AutoHeal),
        (Some(true), Some(false), DiscrepancyHandling::FailFast),
        (Some(false), Some(false), DiscrepancyHandling::ReportOnly),
        (None, Some(true), DiscrepancyHandling::ReportOnly),
        (Some(true), None, DiscrepancyHandling::ReportOnly),
        (None, None, DiscrepancyHandling::ReportOnly),
    ];
    for (fail, heal, expected) in table {
        let mut c = VerificationConfig::default();
        c.discrepancy_handling = DiscrepancyHandling::ReportOnly;
        c.fail_on_discrepancy = fail;
        c.auto_heal = heal;
        c.apply_legacy_fields();
        assert_eq!(c.discrepancy_handling, expected);
        assert_eq!(c.fail_on_discrepancy, None);
        assert_eq!(c.auto_heal, None);
        assert_eq!(c.level, "standard");

        let mut g = GuardConfiguration::default();
        g.discrepancy_handling = DiscrepancyHandling::ReportOnly;
        g.fail_on_discrepancy = fail;
        g.auto_heal = heal;
        g.apply_legacy_fields();
        assert_eq!(g.discrepancy_handling, expected);
        assert_eq!(g.fail_on_discrepancy, None);
        assert_eq!(g.auto_heal, None);
        let before = g.discrepancy_handling;
        g.apply_legacy_fields();
        assert_eq!(g.discrepancy_handling, before);
    }
}

#[test]
fn legacy_preserve_folds_into_user_file_policy() {
    for (legacy, start, expected) in [
        (Some(true), UserFilePolicy::Backup, UserFilePolicy::Preserve),
        (Some(false), UserFilePolicy::Preserve, UserFilePolicy::Remove),
        (None, UserFilePolicy::Backup, UserFilePolicy::Backup),
    ] {
        let mut c = VerificationConfig::default();
        c.user_file_policy = start;
        c.preserve_user_files = legacy;
        c.apply_legacy_fields();
        assert_eq!(c.user_file_policy, expected);
        assert_eq!(c.preserve_user_files, None);

        let mut g = GuardConfiguration::default();
        g.user_file_policy = start;
        g.preserve_user_files = legacy;
        g.apply_legacy_fields();
        assert_eq!(g.user_file_policy, expected);
        assert_eq!(g.preserve_user_files, None);
    }
}

#[test]
fn handling_answers() {
    let table = [
        (DiscrepancyHandling::FailFast, true, false),
        (DiscrepancyHandling::ReportOnly, false, false),
        (DiscrepancyHandling::AutoHeal, false, true),
        (DiscrepancyHandling::AutoHealOrFail, true, true),
    ];
    for (handling, fail, heal) in table {
        let mut c = VerificationConfig::default();
        c.discrepancy_handling = handling;
        assert_eq!(c.should_fail_on_discrepancy(), fail);
        assert_eq!(c.should_auto_heal(), heal);
        let mut g = GuardConfiguration::default();
        g.discrepancy_handling = handling;
        assert_eq!(g.should_fail_on_discrepancy(), fail);
        assert_eq!(g.should_auto_heal(), heal);
    }
}
