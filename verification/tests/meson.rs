use sps2::build_systems::BuildSystemContext;
use sps2::environment::{BuildCommandResult, BuildEnvironment, EnvVar};
use sps2::errors::BuildError;
use sps2::meson::{parse_meson_test_line, MesonBuildSystem};

fn env() -> BuildEnvironment {
    BuildEnvironment {
        package_name: "demo".to_string(),
        build_prefix: "/b".to_string(),
        staging_dir: "/b/stage".to_string(),
        live_prefix: "/opt/pm/live".to_string(),
        placeholder_prefix: "@BUILD@".to_string(),
        env_vars: vec![],
        with_defaults_called: false,
    }
}

fn ctx() -> BuildSystemContext {
    let mut c = BuildSystemContext::new(env(), "/b/src".to_string(), true);
    c.build_dir = "/b/src/build".to_string();
    c
}

fn strings(items: &[&str]) -> Vec<String> {
    items.iter().map(|s| s.to_string()).collect()
}

fn result(success: bool, stderr: &str) -> BuildCommandResult {
    BuildCommandResult { success, exit_code: None, stdout: String::new(), stderr: stderr.to_string() }
}

#[test]
fn meson_new_has_the_defaults() {
    let s = MesonBuildSystem::new();
    assert_eq!(
        s.config.default_configure_args,
        strings(&["--buildtype=release", "--optimization=2", "--strip"])
    );
    assert_eq!(s.config.env_prefix.as_deref(), Some("MESON_"));
    assert_eq!(
        s.config.watch_patterns,
        strings(&["meson.build", "meson_options.txt", "*/meson.build"])
    );
    assert!(s.config.supports_out_of_source);
    assert_eq!(s.name(), "meson");
    assert_eq!(s.build_directory_name(), "builddir");
    assert!(s.prefers_out_of_source_build());
    let vars = s.get_env_vars(&ctx());
    assert_eq!(vars.len(), 1);
    assert_eq!((vars[0].name.as_str(), vars[0].value.as_str()), ("MESON_FORCE_COLOR", "1"));
}

#[test]
fn wrap_follows_the_network() {
    let mut c = ctx();
    assert!(MesonBuildSystem::should_disable_wrap(&c));
    c.network_allowed = true;
    assert!(!MesonBuildSystem::should_disable_wrap(&c));
}

#[test]
fn setup_args_plain() {
    let s = MesonBuildSystem::new();
    assert_eq!(
        s.get_setup_args(&ctx(), &vec![], "/somewhere"),
        strings(&[
            "setup",
            "/b/src/build",
            "/b/src",
            "--prefix=/opt/pm/live",
            "--buildtype=release",
            "--optimization=2",
            "--strip",
            "--wrap-mode=nodownload",
        ])
    );
}

#[test]
fn setup_args_with_overrides() {
    let s = MesonBuildSystem::new();
    let mut c = ctx();
    c.network_allowed = true;
    c.env.env_vars.push(EnvVar {
        name: "PKG_CONFIG_PATH".to_string(),
        value: "/opt/pm/live/lib/pkgconfig".to_string(),
    });
    let user = strings(&["--prefix=/usr", "--buildtype=debug", "--strip-all", "-Dfoo=bar"]);
    assert_eq!(
        s.get_setup_args(&c, &user, "/b/src"),
        strings(&[
            "setup",
            "/b/src/build",
            "--optimization=2",
            "--pkg-config-path=/opt/pm/live/lib/pkgconfig",
            "--prefix=/usr",
            "--buildtype=debug",
            "--strip-all",
            "-Dfoo=bar",
        ])
    );
    c.network_allowed = false;
    let args = s.get_setup_args(&c, &strings(&["--wrap-mode=default"]), "/b/src");
    assert!(!args.contains(&"--wrap-mode=nodownload".to_string()));
}

#[test]
fn other_step_args() {
    let mut c = ctx();
    assert_eq!(
        MesonBuildSystem::compile_args(&c, &strings(&["-v"])),
        strings(&["compile", "-C", "/b/src/build", "-v"])
    );
    c.jobs = 3;
    assert_eq!(
        MesonBuildSystem::compile_args(&c, &vec![]),
        strings(&["compile", "-j", "3", "-C", "/b/src/build"])
    );
    assert_eq!(
        MesonBuildSystem::test_args(&c),
        strings(&["test", "-C", "/b/src/build", "--print-errorlogs", "--num-processes", "3"])
    );
    assert_eq!(MesonBuildSystem::install_args(&c), strings(&["install", "-C", "/b/src/build"]));
}

#[test]
fn meson_step_results() {
    assert!(MesonBuildSystem::configure_result(&result(true, "")).is_ok());
    assert!(MesonBuildSystem::build_result(&result(true, "")).is_ok());
    assert!(MesonBuildSystem::install_result(&result(true, "")).is_ok());
    match MesonBuildSystem::configure_result(&result(false, "a")) {
        Err(BuildError::ConfigureFailed { message }) => assert_eq!(message, "meson setup failed: a"),
        other => panic!("unexpected: {other:?}"),
    }
    match MesonBuildSystem::build_result(&result(false, "b")) {
        Err(BuildError::CompilationFailed { message }) => {
            assert_eq!(message, "meson compile failed: b")
        }
        other => panic!("unexpected: {other:?}"),
    }
    match MesonBuildSystem::install_result(&result(false, "c")) {
        Err(BuildError::InstallFailed { message }) => {
            assert_eq!(message, "meson install failed: c")
        }
        other => panic!("unexpected: {other:?}"),
    }
}

#[test]
fn meson_test_lines() {
    assert_eq!(
        parse_meson_test_line("1/4 test_name        OK              0.12s"),
        Some((1, "test_name".to_string(), "OK".to_string()))
    );
    assert_eq!(
        parse_meson_test_line(" 12/40 suite:case FAIL 1s"),
        Some((12, "suite:case".to_string(), "FAIL".to_string()))
    );
    assert_eq!(parse_meson_test_line("1/4 name"), None);
    assert_eq!(parse_meson_test_line("14 name OK"), None);
    assert_eq!(parse_meson_test_line("x/4 name OK"), None);
    assert_eq!(parse_meson_test_line("/4 name OK"), None);
    assert_eq!(parse_meson_test_line(""), None);
    assert_eq!(
        parse_meson_test_line("3/x/y a b"),
        Some((3, "a".to_string(), "b".to_string()))
    );
}

#[test]
fn meson_test_log() {
    let log = "1/5 a OK 0.1s\n\
        2/5 b FAIL 0.2s\n\
        3/5 c SKIP 0.0s\n\
        4/5 d EXPECTEDFAIL 0.1s\n\
        5/5 e TIMEOUT 30s\n\
        \n\
        Ok: 2\n";
    let (total, passed, failed, failures) = MesonBuildSystem::parse_test_output(log);
    assert_eq!((total, passed, failed), (5, 2, 2));
    assert_eq!(failures.len(), 2);
    assert_eq!(failures[0].name, "b");
    assert_eq!(failures[0].message, "Test b failed with status: FAIL");
    assert_eq!(failures[1].message, "Test e failed with status: TIMEOUT");
    let r = MesonBuildSystem::test_results(log, "err", 77);
    assert_eq!((r.total, r.passed, r.failed, r.skipped), (5, 2, 2, 1));
    assert_eq!(r.duration_ms, 77);
    assert_eq!(r.output, format!("{log}\nerr"));
    let r = MesonBuildSystem::test_results("1/1 a OK\n1/1 b OK\n1/1 c FAIL", "", 0);
    assert_eq!((r.total, r.passed, r.failed, r.skipped), (1, 2, 1, 0));
    assert_eq!(MesonBuildSystem::parse_test_output("").0, 0);
}
