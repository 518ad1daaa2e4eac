use sps2::errors::OpsError;
use sps2::guard::{
    parse_level, parse_orphan_action, GuardConfig, OrphanedFileAction,
    StateVerificationGuardBuilder, SymlinkPolicy, VerificationLevel,
};
use sps2::guard_config::{
    DiscrepancyHandling, SymlinkPolicyConfig, UserFilePolicy, VerificationConfig,
};
use sps2::guard_verify::{
    decide, is_tolerated, plan_healing, verify, Discrepancy, DiscrepancyKind, ExpectedFile,
    ExpectedKind, GuardDecision, HealStep, HealingAction, ObservedFile, ObservedKind,
};

fn expect_file(path: &str, hash: &str) -> ExpectedFile {
    ExpectedFile { path: path.to_string(), kind: ExpectedKind::File { hash: hash.to_string() } }
}

fn expect_link(path: &str, target: &str) -> ExpectedFile {
    ExpectedFile { path: path.to_string(), kind: ExpectedKind::Symlink { target: target.to_string() } }
}

fn file(path: &str, hash: Option<&str>) -> ObservedFile {
    ObservedFile {
        path: path.to_string(),
        kind: ObservedKind::File { hash: hash.map(String::from) },
        user_file: false,
        installed_before: false,
    }
}

fn link(path: &str, target: &str) -> ObservedFile {
    ObservedFile {
        path: path.to_string(),
        kind: ObservedKind::Symlink { target: target.to_string() },
        user_file: false,
        installed_before: false,
    }
}

fn config(level: VerificationLevel, symlinks: SymlinkPolicy) -> GuardConfig {
    GuardConfig { verification_level: level, symlink_policy: symlinks, ..GuardConfig::default() }
}

fn summary(found: &[Discrepancy]) -> Vec<(DiscrepancyKind, String, Option<String>, Option<String>)> {
    found.iter().map(|d| (d.kind, d.path.clone(), d.expected.clone(), d.actual.clone())).collect()
}

/// Carries out a healing action on the observed disk.
fn carry_out(disk: &mut Vec<ObservedFile>, action: &HealingAction) {
    let (path, new) = match action {
        HealingAction::Relink { path, hash } | HealingAction::Overwrite { path, hash } => {
            (path, Some(ObservedKind::File { hash: Some(hash.clone()) }))
        }
        HealingAction::Retarget { path, target } => {
            (path, Some(ObservedKind::Symlink { target: target.clone() }))
        }
        HealingAction::Remove { path } | HealingAction::Backup { path, .. } => (path, None),
    };
    disk.retain(|f| &f.path != path);
    if let Some(kind) = new {
        disk.push(ObservedFile { path: path.clone(), kind, user_file: false, installed_before: true });
    }
}

#[test]
fn levels_and_actions_by_name() {
    assert_eq!(parse_level("quick"), Some(VerificationLevel::Quick));
    assert_eq!(parse_level("standard"), Some(VerificationLevel::Standard));
    assert_eq!(parse_level("full"), Some(VerificationLevel::Full));
    assert_eq!(parse_level("Full"), None);
    assert_eq!(parse_orphan_action("remove"), Some(OrphanedFileAction::Remove));
    assert_eq!(parse_orphan_action("preserve"), Some(OrphanedFileAction::Preserve));
    assert_eq!(parse_orphan_action("backup"), Some(OrphanedFileAction::Backup));
    assert_eq!(parse_orphan_action(""), None);
}

#[test]
fn config_from_verification_section() {
    let mut section = VerificationConfig::default();
    section.level = "full".to_string();
    section.orphaned_file_action = "backup".to_string();
    section.guard.symlink_policy = SymlinkPolicyConfig::Strict;
    section.fail_on_discrepancy = Some(true);
    section.auto_heal = Some(true);
    section.preserve_user_files = Some(false);
    let c = GuardConfig::from_verification(&section);
    assert_eq!(c.verification_level, VerificationLevel::Full);
    assert_eq!(c.discrepancy_handling, DiscrepancyHandling::AutoHealOrFail);
    assert_eq!(c.user_file_policy, UserFilePolicy::Remove);
    assert_eq!(c.symlink_policy, SymlinkPolicy::Strict);
    assert_eq!(c.orphaned_file_action, OrphanedFileAction::Backup);
    assert_eq!(c.lenient_symlink_directories, vec!["/opt/pm/live/bin", "/opt/pm/live/sbin"]);
    assert_eq!(c.orphaned_backup_dir, "/opt/pm/orphaned-backup");
    section.level = "thorough".to_string();
    section.orphaned_file_action = "shred".to_string();
    let c = GuardConfig::from_verification(&section);
    assert_eq!(c.verification_level, VerificationLevel::Standard);
    assert_eq!(c.orphaned_file_action, OrphanedFileAction::Preserve);
    let d = GuardConfig::default();
    assert_eq!(d.verification_level, VerificationLevel::Standard);
    assert_eq!(d.symlink_policy, SymlinkPolicy::LenientBootstrap);
}

#[test]
fn builder_names_the_first_missing_part() {
    let component = |r: Result<_, OpsError>| match r {
        Err(OpsError::MissingComponent { component }) => component,
        Ok(_) => panic!("built"),
    };
    type B = StateVerificationGuardBuilder<&'static str, u32, bool>;
    assert_eq!(component(B::new().build().map(|_| ())), "StateManager");
    assert_eq!(component(B::new().with_store(1).with_event_sender(true).build().map(|_| ())), "StateManager");
    assert_eq!(component(B::new().with_state_manager("s").build().map(|_| ())), "PackageStore");
    assert_eq!(
        component(B::new().with_state_manager("s").with_store(1).build().map(|_| ())),
        "EventSender"
    );
    let guard = B::new()
        .with_event_sender(false)
        .with_store(7)
        .with_state_manager("sm")
        .with_level(VerificationLevel::Full)
        .build()
        .unwrap();
    assert_eq!((guard.state_manager, guard.store, guard.tx), ("sm", 7, false));
    assert_eq!(guard.config.verification_level, VerificationLevel::Full);
    let guard = B::new()
        .with_level(VerificationLevel::Quick)
        .with_config(config(VerificationLevel::Standard, SymlinkPolicy::Ignore))
        .with_state_manager("sm")
        .with_store(0)
        .with_event_sender(true)
        .build()
        .unwrap();
    assert_eq!(guard.config.verification_level, VerificationLevel::Standard);
    assert_eq!(guard.config.symlink_policy, SymlinkPolicy::Ignore);
}

#[test]
fn every_kind_of_discrepancy() {
    let expected = vec![
        expect_file("/live/bin/a", "aa"),
        expect_file("/live/bin/b", "bb"),
        expect_file("/live/bin/c", "cc"),
        expect_link("/live/lib/l", "real"),
        expect_link("/live/lib/m", "real"),
        expect_file("/live/bin/d", "dd"),
    ];
    let mut orphan = file("/live/old", None);
    orphan.installed_before = true;
    let mut user = file("/live/notes.txt", None);
    user.user_file = true;
    let observed = vec![
        file("/live/bin/a", Some("aa")),
        file("/live/bin/c", Some("xx")),
        link("/live/lib/l", "elsewhere"),
        link("/live/lib/m", "real"),
        link("/live/bin/d", "dd"),
        file("/live/extra", None),
        orphan,
        user,
    ];
    let found = verify(&config(VerificationLevel::Standard, SymlinkPolicy::Strict), &expected, &observed);
    let s = |v: &str| Some(v.to_string());
    assert_eq!(
        summary(&found),
        vec![
            (DiscrepancyKind::Missing, "/live/bin/b".to_string(), s("bb"), None),
            (DiscrepancyKind::Corrupted, "/live/bin/c".to_string(), s("cc"), s("xx")),
            (DiscrepancyKind::WrongSymlinkTarget, "/live/lib/l".to_string(), s("real"), s("elsewhere")),
            (DiscrepancyKind::Corrupted, "/live/bin/d".to_string(), s("dd"), None),
            (DiscrepancyKind::Extra, "/live/extra".to_string(), None, None),
            (DiscrepancyKind::Orphaned, "/live/old".to_string(), None, None),
        ]
    );
}

#[test]
fn levels_decide_about_hashes() {
    let expected = vec![expect_file("/a", "aa"), expect_file("/b", "bb")];
    let observed = vec![file("/a", Some("zz")), file("/b", None)];
    let kinds = |level| -> Vec<String> {
        verify(&config(level, SymlinkPolicy::Strict), &expected, &observed)
            .into_iter()
            .map(|d| d.path)
            .collect()
    };
    assert!(kinds(VerificationLevel::Quick).is_empty());
    assert_eq!(kinds(VerificationLevel::Standard), vec!["/a"]);
    assert_eq!(kinds(VerificationLevel::Full), vec!["/a", "/b"]);
}

#[test]
fn symlink_policies() {
    let dirs = vec!["/opt/pm/live/bin".to_string(), "/opt/pm/live/sbin".to_string()];
    for (policy, inside, outside) in [
        (SymlinkPolicy::Strict, false, false),
        (SymlinkPolicy::LenientBootstrap, true, false),
        (SymlinkPolicy::LenientAll, true, true),
        (SymlinkPolicy::Ignore, true, true),
    ] {
        assert_eq!(is_tolerated(policy, &dirs, "/opt/pm/live/bin/tool"), inside);
        assert_eq!(is_tolerated(policy, &dirs, "/opt/pm/live/sbin"), inside);
        assert_eq!(is_tolerated(policy, &dirs, "/opt/pm/live/binary"), outside);
        assert_eq!(is_tolerated(policy, &dirs, "/opt/pm/live/lib/x"), outside);
    }
    let expected =
        vec![expect_link("/opt/pm/live/bin/tool", "t"), expect_link("/opt/pm/live/lib/so", "t")];
    let observed = vec![link("/opt/pm/live/bin/tool", "other")];
    let paths = |policy| -> Vec<String> {
        let mut c = config(VerificationLevel::Full, policy);
        c.lenient_symlink_directories = dirs.clone();
        verify(&c, &expected, &observed).into_iter().map(|d| d.path).collect()
    };
    assert_eq!(paths(SymlinkPolicy::Strict), vec!["/opt/pm/live/bin/tool", "/opt/pm/live/lib/so"]);
    assert_eq!(paths(SymlinkPolicy::LenientBootstrap), vec!["/opt/pm/live/lib/so"]);
    assert!(paths(SymlinkPolicy::LenientAll).is_empty());
    assert!(paths(SymlinkPolicy::Ignore).is_empty());
}

#[test]
fn guard_heals_missing_file() {
    let mut cfg = config(VerificationLevel::Full, SymlinkPolicy::Strict);
    cfg.discrepancy_handling = DiscrepancyHandling::AutoHeal;
    let expected = vec![expect_file("/live/bin/a", "aa"), expect_file("/live/bin/b", "bb")];
    let store = vec!["aa".to_string(), "bb".to_string()];
    let mut disk = vec![file("/live/bin/a", Some("aa")), file("/live/bin/b", Some("bb"))];
    assert!(verify(&cfg, &expected, &disk).is_empty());

    disk.remove(1);
    let found = verify(&cfg, &expected, &disk);
    assert_eq!(summary(&found), vec![(
        DiscrepancyKind::Missing,
        "/live/bin/b".to_string(),
        Some("bb".to_string()),
        None
    )]);
    let steps = plan_healing(&cfg, &expected, &found, &store);
    assert_eq!(decide(cfg.discrepancy_handling, &steps), GuardDecision::Heal);
    for step in &steps {
        match step {
            HealStep::Heal(action) => carry_out(&mut disk, action),
            other => panic!("unexpected: {other:?}"),
        }
    }
    let back = disk.iter().find(|f| f.path == "/live/bin/b").unwrap();
    assert!(matches!(&back.kind, ObservedKind::File { hash: Some(h) } if h == "bb"));
    assert!(verify(&cfg, &expected, &disk).is_empty());
}

#[test]
fn healing_everything_leaves_nothing_to_report() {
    let mut cfg = config(VerificationLevel::Full, SymlinkPolicy::Strict);
    cfg.user_file_policy = UserFilePolicy::Remove;
    cfg.orphaned_file_action = OrphanedFileAction::Backup;
    cfg.orphaned_backup_dir = "/backup".to_string();
    let expected = vec![
        expect_file("/l/a", "aa"),
        expect_file("/l/b", "bb"),
        expect_link("/l/s", "a"),
        expect_link("/l/t", "b"),
        expect_file("/l/c", "cc"),
    ];
    let mut orphan = file("/l/old/x", None);
    orphan.installed_before = true;
    let mut disk = vec![
        file("/l/a", None),
        link("/l/b", "a"),
        file("/l/t", Some("bb")),
        file("/l/stray", Some("zz")),
        orphan,
    ];
    let store = vec!["aa".to_string(), "bb".to_string(), "cc".to_string()];
    let found = verify(&cfg, &expected, &disk);
    assert_eq!(found.len(), 7);
    let steps = plan_healing(&cfg, &expected, &found, &store);
    assert_eq!(steps.len(), found.len());
    let mut backed_up = vec![];
    for step in &steps {
        match step {
            HealStep::Heal(action) => {
                if let HealingAction::Backup { to, .. } = action {
                    backed_up.push(to.clone());
                }
                carry_out(&mut disk, action)
            }
            other => panic!("unexpected: {other:?}"),
        }
    }
    assert_eq!(backed_up, vec!["/backup/l/old/x"]);
    assert!(verify(&cfg, &expected, &disk).is_empty());
    assert!(plan_healing(&cfg, &expected, &vec![], &store).is_empty());
}

#[test]
fn what_cannot_or_shall_not_be_healed() {
    let mut cfg = config(VerificationLevel::Standard, SymlinkPolicy::Strict);
    let expected = vec![expect_file("/l/a", "aa")];
    let disk = vec![file("/l/stray", None)];
    let found = verify(&cfg, &expected, &disk);
    let steps = plan_healing(&cfg, &expected, &found, &vec![]);
    assert!(matches!(&steps[0], HealStep::Impossible { path, hash } if path == "/l/a" && hash == "aa"));
    assert!(matches!(&steps[1], HealStep::Leave { path } if path == "/l/stray"));
    cfg.user_file_policy = UserFilePolicy::Backup;
    let steps = plan_healing(&cfg, &expected, &found, &vec!["aa".to_string()]);
    assert!(matches!(&steps[0], HealStep::Heal(HealingAction::Relink { path, hash })
        if path == "/l/a" && hash == "aa"));
    assert!(matches!(&steps[1], HealStep::Heal(HealingAction::Backup { path, to })
        if path == "/l/stray" && to == "/opt/pm/orphaned-backup/l/stray"));
}

#[test]
fn decisions() {
    let impossible = vec![
        HealStep::Leave { path: "/x".to_string() },
        HealStep::Impossible { path: "/a".to_string(), hash: "aa".to_string() },
    ];
    let possible = vec![HealStep::Heal(HealingAction::Remove { path: "/x".to_string() })];
    for handling in [
        DiscrepancyHandling::FailFast,
        DiscrepancyHandling::ReportOnly,
        DiscrepancyHandling::AutoHeal,
        DiscrepancyHandling::AutoHealOrFail,
    ] {
        assert_eq!(decide(handling, &vec![]), GuardDecision::Clean);
    }
    assert_eq!(decide(DiscrepancyHandling::FailFast, &possible), GuardDecision::Fail);
    assert_eq!(decide(DiscrepancyHandling::ReportOnly, &impossible), GuardDecision::Report);
    assert_eq!(decide(DiscrepancyHandling::AutoHeal, &impossible), GuardDecision::Heal);
    assert_eq!(decide(DiscrepancyHandling::AutoHealOrFail, &impossible), GuardDecision::Fail);
    assert_eq!(decide(DiscrepancyHandling::AutoHealOrFail, &possible), GuardDecision::Heal);
}

#[test]
fn repeated_paths_count_once() {
    let cfg = config(VerificationLevel::Full, SymlinkPolicy::Strict);
    let expected = vec![expect_file("/a", "aa"), expect_file("/a", "other")];
    let disk = vec![file("/x", None), file("/x", Some("!"))];
    let found = verify(&cfg, &expected, &disk);
    assert_eq!(
        summary(&found),
        vec![
            (DiscrepancyKind::Missing, "/a".to_string(), Some("aa".to_string()), None),
            (DiscrepancyKind::Extra, "/x".to_string(), None, None),
        ]
    );
}

#[test]
fn a_failing_decision_is_a_policy_error() {
    assert_eq!(
        sps2::guard_verify::GuardDecision::Fail.error_kind(),
        Some(sps2::errors::ErrorKind::Policy)
    );
    assert_eq!(sps2::guard_verify::GuardDecision::Clean.error_kind(), None);
    assert_eq!(sps2::guard_verify::GuardDecision::Report.error_kind(), None);
    assert_eq!(sps2::guard_verify::GuardDecision::Heal.error_kind(), None);
}
