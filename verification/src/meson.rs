//! The Meson driver: the arguments of its commands, the judgement of their
//! outcomes, and the reading of a test log.

use crate::build_systems::{
    context_var, failed_step_message, failure_views, push_standing_defaults, push_unless_given,
    standing_defaults, step_message, unless_given, BuildSystemConfig, BuildSystemContext,
    TestFailure, TestFailureView, TestResults,
};
use crate::cmake::test_output;
use crate::environment::{var_views, BuildCommandResult, EnvVar, EnvVarView};
use crate::errors::BuildError;
use crate::text::{
    before_first, chars_of, concat2, concat3, decimal, decimal_text, extend_texts, lines_of,
    parse_count, push_text, same_text, text_before_first, text_lines, text_parse_count,
    text_words, texts, words,
};
use vstd::prelude::*;

verus! {

/// The Meson build system.
#[derive(Clone, Debug)]
pub struct MesonBuildSystem {
    pub config: BuildSystemConfig,
}

/// The arguments of `meson` for the setup step: `setup` and the build
/// directory; the source directory unless it is the current one; the
/// prefix, which is the live prefix; the defaults that the recipe leaves
/// standing; without network no wrap downloads; the `PKG_CONFIG_PATH` of
/// the build; and last the recipe's own arguments.
pub open spec fn meson_setup_args(
    ctx: &BuildSystemContext,
    defaults: Seq<Seq<char>>,
    user: Seq<Seq<char>>,
    current_dir: Seq<char>,
) -> Seq<Seq<char>> {
    seq!["setup"@, ctx.build_dir@] + (if ctx.source_dir@ != current_dir {
        seq![ctx.source_dir@]
    } else {
        Seq::<Seq<char>>::empty()
    }) + unless_given(user, "--prefix="@, "--prefix="@ + ctx.env.live_prefix@) + standing_defaults(
        defaults,
        user,
    ) + (if !ctx.network_allowed {
        unless_given(user, "--wrap-mode="@, "--wrap-mode=nodownload"@)
    } else {
        Seq::<Seq<char>>::empty()
    }) + (match context_var(ctx, "PKG_CONFIG_PATH"@) {
        Some(path) => seq!["--pkg-config-path="@ + path],
        None => Seq::<Seq<char>>::empty(),
    }) + user
}

/// The arguments of `meson` for the compile step.
pub open spec fn meson_compile_args(
    jobs: usize,
    build_dir: Seq<char>,
    user: Seq<Seq<char>>,
) -> Seq<Seq<char>> {
    seq!["compile"@] + (if jobs > 1 {
        seq!["-j"@, decimal(jobs as nat)]
    } else {
        Seq::<Seq<char>>::empty()
    }) + seq!["-C"@, build_dir] + user
}

/// A line of a Meson test log such as `1/4 name OK 0.12s`: the number of
/// the test, its name and its status. A line reads when it has at least
/// three words and the first has a count before a slash.
pub open spec fn meson_test_line(line: Seq<char>) -> Option<(usize, Seq<char>, Seq<char>)> {
    let parts = words(line);
    if parts.len() < 3 || !parts[0].contains('/') {
        None
    } else {
        match parse_count(before_first(parts[0], '/')) {
            Some(number) => Some((number, parts[1], parts[2])),
            None => None,
        }
    }
}

/// Whether a status counts as passed.
pub open spec fn status_passed(status: Seq<char>) -> bool {
    status == "OK"@ || status == "EXPECTEDFAIL"@
}

/// Whether a status counts as failed.
pub open spec fn status_failed(status: Seq<char>) -> bool {
    status == "FAIL"@ || status == "TIMEOUT"@
}

/// The message recorded for a failed test.
pub open spec fn meson_failure_message(name: Seq<char>, status: Seq<char>) -> Seq<char> {
    "Test "@ + name + " failed with status: "@ + status
}

/// The figures of a test log.
pub struct MesonScan {
    /// The highest test number seen.
    pub total: nat,
    pub passed: nat,
    pub failed: nat,
    pub failures: Seq<TestFailureView>,
}

/// What the lines of a Meson test log say.
pub open spec fn meson_scan(lines: Seq<Seq<char>>) -> MesonScan
    decreases lines.len(),
{
    if lines.len() == 0 {
        MesonScan { total: 0, passed: 0, failed: 0, failures: Seq::<TestFailureView>::empty() }
    } else {
        let before = meson_scan(lines.drop_last());
        match meson_test_line(lines.last()) {
            None => before,
            Some((number, name, status)) => {
                let total = if number > before.total {
                    number as nat
                } else {
                    before.total
                };
                if status_passed(status) {
                    MesonScan { total, passed: before.passed + 1, ..before }
                } else if status_failed(status) {
                    MesonScan {
                        total,
                        failed: before.failed + 1,
                        failures: before.failures.push(
                            TestFailureView {
                                name,
                                message: meson_failure_message(name, status),
                                details: None,
                            },
                        ),
                        ..before
                    }
                } else {
                    MesonScan { total, ..before }
                }
            },
        }
    }
}

/// Reads a line of a Meson test log.
pub fn parse_meson_test_line(line: &str) -> (r: Option<(usize, String, String)>)
    ensures
        match r {
            Some((number, name, status)) => meson_test_line(line@) == Some(
                (number, name@, status@),
            ),
            None => meson_test_line(line@) is None,
        },
{
    let parts = text_words(line);
    if parts.len() < 3 {
        return None;
    }
    assert(texts(parts@)[0] == parts@[0]@);
    let first = chars_of(parts[0].as_str());
    let mut has_slash = false;
    let mut k: usize = 0;
    while k < first.len()
        invariant
            k <= first.len(),
            has_slash == exists|j: int| 0 <= j < k && first@[j] == '/',
        decreases first.len() - k,
    {
        if first[k] == '/' {
            has_slash = true;
        }
        k += 1;
    }
    if !has_slash {
        return None;
    }
    let head = text_before_first(parts[0].as_str(), '/');
    match text_parse_count(head.as_str()) {
        Some(number) => Some((number, parts[1].clone(), parts[2].clone())),
        None => None,
    }
}

impl MesonBuildSystem {
    /// The driver with its defaults: an optimised, stripped release build.
    pub fn new() -> (s: MesonBuildSystem)
        ensures
            s.config.supports_out_of_source,
            s.config.supports_parallel_builds,
            s.config.supports_incremental_builds,
            texts(s.config.default_configure_args@) == seq![
                "--buildtype=release"@,
                "--optimization=2"@,
                "--strip"@,
            ],
            s.config.default_build_args@.len() == 0,
            s.config.env_prefix matches Some(p) && p@ == "MESON_"@,
            texts(s.config.watch_patterns@) == seq![
                "meson.build"@,
                "meson_options.txt"@,
                "*/meson.build"@,
            ],
    {
        let mut default_configure_args: Vec<String> = Vec::new();
        push_text(&mut default_configure_args, "--buildtype=release".to_owned());
        push_text(&mut default_configure_args, "--optimization=2".to_owned());
        push_text(&mut default_configure_args, "--strip".to_owned());
        let mut watch_patterns: Vec<String> = Vec::new();
        push_text(&mut watch_patterns, "meson.build".to_owned());
        push_text(&mut watch_patterns, "meson_options.txt".to_owned());
        push_text(&mut watch_patterns, "*/meson.build".to_owned());
        MesonBuildSystem {
            config: BuildSystemConfig {
                supports_out_of_source: true,
                supports_parallel_builds: true,
                supports_incremental_builds: true,
                default_configure_args,
                default_build_args: Vec::new(),
                env_prefix: Some("MESON_".to_owned()),
                watch_patterns,
            },
        }
    }

    /// The name of the driver.
    pub fn name(&self) -> (n: &'static str)
        ensures
            n@ == "meson"@,
    {
        "meson"
    }

    /// Meson builds outside the source tree.
    pub fn prefers_out_of_source_build(&self) -> (r: bool)
        ensures
            r,
    {
        true
    }

    /// The name of the build directory.
    pub fn build_directory_name(&self) -> (n: &'static str)
        ensures
            n@ == "builddir"@,
    {
        "builddir"
    }

    /// Whether wrap downloads are switched off: always when the build may
    /// not use the network.
    pub fn should_disable_wrap(ctx: &BuildSystemContext) -> (r: bool)
        ensures
            r == !ctx.network_allowed,
    {
        !ctx.network_allowed
    }

    /// The arguments of the setup step, for a driver that runs in
    /// `current_dir`.
    pub fn get_setup_args(
        &self,
        ctx: &BuildSystemContext,
        user_args: &Vec<String>,
        current_dir: &str,
    ) -> (args: Vec<String>)
        ensures
            texts(args@) == meson_setup_args(
                ctx,
                texts(self.config.default_configure_args@),
                texts(user_args@),
                current_dir@,
            ),
    {
        let mut args: Vec<String> = Vec::new();
        push_text(&mut args, "setup".to_owned());
        push_text(&mut args, ctx.build_dir.clone());
        if !same_text(ctx.source_dir.as_str(), current_dir) {
            push_text(&mut args, ctx.source_dir.clone());
        }
        push_unless_given(
            &mut args,
            user_args,
            "--prefix=",
            concat2("--prefix=", ctx.env.get_live_prefix()),
        );
        push_standing_defaults(&mut args, &self.config.default_configure_args, user_args);
        if MesonBuildSystem::should_disable_wrap(ctx) {
            push_unless_given(
                &mut args,
                user_args,
                "--wrap-mode=",
                "--wrap-mode=nodownload".to_owned(),
            );
        }
        match ctx.env_var("PKG_CONFIG_PATH") {
            Some(path) => {
                push_text(&mut args, concat2("--pkg-config-path=", path.as_str()));
            },
            None => {},
        }
        extend_texts(&mut args, user_args);
        assert(texts(args@) =~= meson_setup_args(
            ctx,
            texts(self.config.default_configure_args@),
            texts(user_args@),
            current_dir@,
        ));
        args
    }

    /// The arguments of the compile step.
    pub fn compile_args(ctx: &BuildSystemContext, user_args: &Vec<String>) -> (args: Vec<String>)
        ensures
            texts(args@) == meson_compile_args(ctx.jobs, ctx.build_dir@, texts(user_args@)),
    {
        let mut args: Vec<String> = Vec::new();
        push_text(&mut args, "compile".to_owned());
        if ctx.jobs > 1 {
            push_text(&mut args, "-j".to_owned());
            push_text(&mut args, decimal_text(ctx.jobs as u64));
        }
        push_text(&mut args, "-C".to_owned());
        push_text(&mut args, ctx.build_dir.clone());
        extend_texts(&mut args, user_args);
        assert(texts(args@) =~= meson_compile_args(ctx.jobs, ctx.build_dir@, texts(user_args@)));
        args
    }

    /// The arguments of the test step.
    pub fn test_args(ctx: &BuildSystemContext) -> (args: Vec<String>)
        ensures
            texts(args@) == seq![
                "test"@,
                "-C"@,
                ctx.build_dir@,
                "--print-errorlogs"@,
                "--num-processes"@,
                decimal(ctx.jobs as nat),
            ],
    {
        let mut args: Vec<String> = Vec::new();
        push_text(&mut args, "test".to_owned());
        push_text(&mut args, "-C".to_owned());
        push_text(&mut args, ctx.build_dir.clone());
        push_text(&mut args, "--print-errorlogs".to_owned());
        push_text(&mut args, "--num-processes".to_owned());
        push_text(&mut args, decimal_text(ctx.jobs as u64));
        args
    }

    /// The arguments of the install step.
    pub fn install_args(ctx: &BuildSystemContext) -> (args: Vec<String>)
        ensures
            texts(args@) == seq!["install"@, "-C"@, ctx.build_dir@],
    {
        let mut args: Vec<String> = Vec::new();
        push_text(&mut args, "install".to_owned());
        push_text(&mut args, "-C".to_owned());
        push_text(&mut args, ctx.build_dir.clone());
        args
    }

    /// The variables that the driver adds to the environment.
    pub fn get_env_vars(&self, ctx: &BuildSystemContext) -> (vars: Vec<EnvVar>)
        ensures
            var_views(vars@) == seq![EnvVarView { name: "MESON_FORCE_COLOR"@, value: "1"@ }],
    {
        let mut vars: Vec<EnvVar> = Vec::new();
        vars.push(EnvVar { name: "MESON_FORCE_COLOR".to_owned(), value: "1".to_owned() });
        assert(var_views(vars@) =~= seq![
            EnvVarView { name: "MESON_FORCE_COLOR"@, value: "1"@ },
        ]);
        vars
    }

    /// Judges the setup command.
    pub fn configure_result(result: &BuildCommandResult) -> (r: Result<(), BuildError>)
        ensures
            match r {
                Ok(_) => result.success,
                Err(BuildError::ConfigureFailed { message }) => !result.success && message@
                    == step_message("meson setup failed"@, result.stderr@),
                Err(_) => false,
            },
    {
        if result.success {
            Ok(())
        } else {
            Err(
                BuildError::ConfigureFailed {
                    message: failed_step_message("meson setup failed", result.stderr.as_str()),
                },
            )
        }
    }

    /// Judges the compile command.
    pub fn build_result(result: &BuildCommandResult) -> (r: Result<(), BuildError>)
        ensures
            match r {
                Ok(_) => result.success,
                Err(BuildError::CompilationFailed { message }) => !result.success && message@
                    == step_message("meson compile failed"@, result.stderr@),
                Err(_) => false,
            },
    {
        if result.success {
            Ok(())
        } else {
            Err(
                BuildError::CompilationFailed {
                    message: failed_step_message("meson compile failed", result.stderr.as_str()),
                },
            )
        }
    }

    /// Judges the install command.
    pub fn install_result(result: &BuildCommandResult) -> (r: Result<(), BuildError>)
        ensures
            match r {
                Ok(_) => result.success,
                Err(BuildError::InstallFailed { message }) => !result.success && message@
                    == step_message("meson install failed"@, result.stderr@),
                Err(_) => false,
            },
    {
        if result.success {
            Ok(())
        } else {
            Err(
                BuildError::InstallFailed {
                    message: failed_step_message("meson install failed", result.stderr.as_str()),
                },
            )
        }
    }

    /// Reads a Meson test log: the highest test number, the tests that
    /// passed, those that failed, and a failure for each of these.
    pub fn parse_test_output(output: &str) -> (r: (usize, usize, usize, Vec<TestFailure>))
        ensures
            r.0 == meson_scan(lines_of(output@)).total,
            r.1 == meson_scan(lines_of(output@)).passed,
            r.2 == meson_scan(lines_of(output@)).failed,
            failure_views(r.3@) == meson_scan(lines_of(output@)).failures,
    {
        let lines = text_lines(output);
        let ghost all = texts(lines@);
        let mut total: usize = 0;
        let mut passed: usize = 0;
        let mut failed: usize = 0;
        let mut failures: Vec<TestFailure> = Vec::new();
        let mut i: usize = 0;
        assert(failure_views(failures@) == meson_scan(all.take(0)).failures);
        while i < lines.len()
            invariant
                i <= lines.len(),
                all == texts(lines@),
                total == meson_scan(all.take(i as int)).total,
                passed == meson_scan(all.take(i as int)).passed,
                failed == meson_scan(all.take(i as int)).failed,
                failure_views(failures@) == meson_scan(all.take(i as int)).failures,
                passed <= i,
                failed <= i,
            decreases lines.len() - i,
        {
            assert(all.take(i + 1).drop_last() == all.take(i as int));
            assert(all.take(i + 1).last() == lines@[i as int]@);
            match parse_meson_test_line(lines[i].as_str()) {
                Some((number, name, status)) => {
                    if number > total {
                        total = number;
                    }
                    if same_text(status.as_str(), "OK") || same_text(
                        status.as_str(),
                        "EXPECTEDFAIL",
                    ) {
                        passed += 1;
                    } else if same_text(status.as_str(), "FAIL") || same_text(
                        status.as_str(),
                        "TIMEOUT",
                    ) {
                        failed += 1;
                        let mut message = concat2("Test ", name.as_str());
                        message.append(" failed with status: ");
                        message.append(status.as_str());
                        let failure = TestFailure { name, message, details: None };
                        let ghost before = failures@;
                        failures.push(failure);
                        assert(failure_views(failures@) == failure_views(before).push(failure@));
                    }
                },
                None => {},
            }
            i += 1;
        }
        assert(all.take(lines.len() as int) == all);
        (total, passed, failed, failures)
    }

    /// The results of a Meson test run. The tests that neither passed nor
    /// failed count as skipped.
    pub fn test_results(stdout: &str, stderr: &str, duration_ms: u64) -> (r: TestResults)
        ensures
            r.output@ == test_output(stdout@, stderr@),
            r.duration_ms == duration_ms,
            r.total == meson_scan(lines_of(r.output@)).total,
            r.passed == meson_scan(lines_of(r.output@)).passed,
            r.failed == meson_scan(lines_of(r.output@)).failed,
            failure_views(r.failures@) == meson_scan(lines_of(r.output@)).failures,
            r.skipped == if r.total >= r.passed + r.failed {
                r.total - r.passed - r.failed
            } else {
                0
            },
    {
        proof {
            reveal_strlit("\n");
            assert("\n"@ == seq!['\n']);
        }
        let output = concat3(stdout, "\n", stderr);
        let (total, passed, failed, failures) = MesonBuildSystem::parse_test_output(
            output.as_str(),
        );
        let counted: usize = match passed.checked_add(failed) {
            Some(n) => n,
            None => usize::MAX,
        };
        let skipped = if total >= counted {
            total - counted
        } else {
            0
        };
        TestResults { total, passed, failed, skipped, duration_ms, output, failures }
    }
}

} // verus!
