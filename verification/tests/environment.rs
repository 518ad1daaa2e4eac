use sps2::environment::{
    command_not_run, command_outcome, describe_command, find_var, get_var, set_var,
    show_exit_code, BuildEnvironment, BuildResult, EnvVar,
};
use sps2::errors::BuildError;

fn var(name: &str, value: &str) -> EnvVar {
    EnvVar { name: name.to_string(), value: value.to_string() }
}

fn env() -> BuildEnvironment {
    BuildEnvironment {
        package_name: "demo".to_string(),
        build_prefix: "/tmp/build-123".to_string(),
        staging_dir: "/tmp/build-123/stage".to_string(),
        live_prefix: "/opt/pm/live".to_string(),
        placeholder_prefix: "@BUILD@".to_string(),
        env_vars: vec![
            var("CFLAGS", "-I@BUILD@/include -O2"),
            var("PATH", "/usr/bin"),
            var("LDFLAGS", "-L@BUILD@/lib -Wl,-rpath,@BUILD@/lib"),
        ],
        with_defaults_called: false,
    }
}

fn strings(items: &[&str]) -> Vec<String> {
    items.iter().map(|s| s.to_string()).collect()
}

#[test]
fn placeholder_is_replaced_in_args() {
    let e = env();
    let args = strings(&["--prefix=@BUILD@", "plain", "@BUILD@@BUILD@", "", "@BUILD"]);
    assert_eq!(
        e.replace_placeholder_paths_in_args(&args),
        strings(&["--prefix=/tmp/build-123", "plain", "/tmp/build-123/tmp/build-123", "", "@BUILD"])
    );
}

#[test]
fn placeholder_is_replaced_in_env_values_only() {
    let mut e = env();
    e.env_vars.push(var("@BUILD@", "kept name"));
    let replaced = e.replace_placeholder_paths_in_env();
    let pairs: Vec<(String, String)> =
        replaced.into_iter().map(|v| (v.name, v.value)).collect();
    assert_eq!(
        pairs,
        vec![
            ("CFLAGS".to_string(), "-I/tmp/build-123/include -O2".to_string()),
            ("PATH".to_string(), "/usr/bin".to_string()),
            (
                "LDFLAGS".to_string(),
                "-L/tmp/build-123/lib -Wl,-rpath,/tmp/build-123/lib".to_string()
            ),
            ("@BUILD@".to_string(), "kept name".to_string()),
        ]
    );
}

#[test]
fn prepared_command() {
    let e = env();
    let cmd = e.prepare_command("make", &strings(&["DESTDIR=@BUILD@/stage", "install"]), None);
    assert_eq!(cmd.program, "make");
    assert_eq!(cmd.args, strings(&["DESTDIR=/tmp/build-123/stage", "install"]));
    assert_eq!(cmd.working_dir, "/tmp/build-123");
    assert_eq!(cmd.description, "make DESTDIR=/tmp/build-123/stage install");
    assert_eq!(cmd.env.len(), 3);
    assert_eq!(cmd.env[0].value, "-I/tmp/build-123/include -O2");
    let cmd = e.prepare_command("ls", &vec![], Some("/src"));
    assert_eq!(cmd.working_dir, "/src");
    assert_eq!(cmd.description, "ls ");
    assert_eq!(e.get_live_prefix(), "/opt/pm/live");
    assert_eq!(e.staging_dir(), "/tmp/build-123/stage");
    assert_eq!(e.build_prefix(), "/tmp/build-123");
}

#[test]
fn variables_behave_like_a_map() {
    let mut vars = vec![var("A", "1"), var("B", "2"), var("A", "shadowed")];
    assert_eq!(find_var(&vars, "A"), Some(0));
    assert_eq!(find_var(&vars, "C"), None);
    assert_eq!(get_var(&vars, "A"), Some("1".to_string()));
    set_var(&mut vars, "A", "one".to_string());
    assert_eq!(get_var(&vars, "A"), Some("one".to_string()));
    assert_eq!(get_var(&vars, "B"), Some("2".to_string()));
    assert_eq!(vars.len(), 3);
    set_var(&mut vars, "C", "3".to_string());
    assert_eq!(vars.len(), 4);
    assert_eq!(get_var(&vars, "C"), Some("3".to_string()));
    assert_eq!(get_var(&vars, "D"), None);
}

#[test]
fn successful_command() {
    let r = command_outcome(
        "cmake",
        &strings(&["--build", "."]),
        true,
        Some(0),
        &strings(&["line 1", "line 2"]),
        &vec![],
    )
    .unwrap();
    assert!(r.success);
    assert_eq!(r.exit_code, Some(0));
    assert_eq!(r.stdout, "line 1\nline 2");
    assert_eq!(r.stderr, "");
}

#[test]
fn failed_command() {
    let r = command_outcome(
        "make",
        &strings(&["-j", "4"]),
        false,
        Some(2),
        &strings(&["out"]),
        &strings(&["error: boom", "stop"]),
    );
    match r {
        Err(BuildError::CompileFailed { message }) => {
            assert_eq!(message, "make -j 4 failed with exit code Some(2): error: boom\nstop")
        }
        other => panic!("unexpected: {other:?}"),
    }
    match command_outcome("x", &vec![], false, None, &vec![], &vec![]) {
        Err(BuildError::CompileFailed { message }) => {
            assert_eq!(message, "x  failed with exit code None: ")
        }
        other => panic!("unexpected: {other:?}"),
    }
    match command_not_run("gcc", "No such file or directory") {
        BuildError::CompileFailed { message } => {
            assert_eq!(message, "gcc: No such file or directory")
        }
        other => panic!("unexpected: {other:?}"),
    }
}

#[test]
fn exit_codes_as_text() {
    assert_eq!(show_exit_code(None), "None");
    assert_eq!(show_exit_code(Some(0)), "Some(0)");
    assert_eq!(show_exit_code(Some(127)), "Some(127)");
    assert_eq!(show_exit_code(Some(-1)), "Some(-1)");
    assert_eq!(show_exit_code(Some(i32::MIN)), format!("{:?}", Some(i32::MIN)));
    assert_eq!(show_exit_code(Some(i32::MAX)), format!("{:?}", Some(i32::MAX)));
    assert_eq!(describe_command("git", &strings(&["clone", "url"])), "git clone url");
}

#[test]
fn build_result_builders() {
    let mut r = BuildResult::new("/out/demo-1.0.0.sp".to_string());
    assert_eq!(r.package_path, "/out/demo-1.0.0.sp");
    assert!(r.sbom_files.is_empty());
    assert_eq!(r.build_log, "");
    assert!(!r.install_requested);
    r.add_sbom_file("/out/sbom.spdx.json".to_string());
    r.add_sbom_file("/out/sbom.cdx.json".to_string());
    assert_eq!(r.sbom_files, vec!["/out/sbom.spdx.json", "/out/sbom.cdx.json"]);
    r.set_build_log("done".to_string());
    assert_eq!(r.build_log, "done");
    let r = r.with_install_requested(true);
    assert!(r.install_requested);
    assert_eq!(r.build_log, "done");
    assert_eq!(r.sbom_files.len(), 2);
}

#[test]
fn lines_of_a_command_become_events() {
    assert_eq!(
        sps2::environment::output_event("curl", "checking for gcc... yes", false),
        sps2::environment::BuildEvent::BuildStepOutput {
            package: "curl".to_string(),
            line: "checking for gcc... yes".to_string()
        }
    );
    assert_eq!(
        sps2::environment::output_event("curl", "warning: unused", true),
        sps2::environment::BuildEvent::Error {
            message: "warning: unused".to_string(),
            details: Some("Build stderr".to_string())
        }
    );
}

#[test]
fn a_command_is_announced_before_it_runs() {
    let command = sps2::environment::PreparedCommand {
        program: "make".to_string(),
        args: vec!["-j4".to_string(), "install".to_string()],
        env: vec![],
        working_dir: "/build/curl".to_string(),
        description: "make -j4 install".to_string(),
    };
    let (started, executing) = sps2::environment::start_events("curl", &command);
    assert_eq!(
        started,
        sps2::environment::BuildEvent::BuildStepStarted {
            step: "make -j4 install".to_string(),
            package: "curl".to_string()
        }
    );
    assert_eq!(
        executing,
        sps2::environment::BuildEvent::DebugLog {
            message: "Executing: make -j4 install".to_string(),
            working_dir: "/build/curl".to_string()
        }
    );
}
