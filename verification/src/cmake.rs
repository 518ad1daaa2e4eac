//! The CMake driver: the arguments of its commands, the judgement of their
//! outcomes, and the reading of a CTest report.

use crate::build_systems::{failed_step_message, failure_views, push_standing_defaults, push_unless_given, standing_defaults, step_message, unless_given, BuildSystemConfig, BuildSystemContext, CompilerCacheType, TestFailure, TestFailureView, TestResults, context_var};
use crate::environment::{var_views, BuildCommandResult, EnvVar, EnvVarView};
use crate::errors::BuildError;
use crate::text::{concat2, concat3, contains_text, decimal, decimal_text, extend_texts, find_text, join, join_texts, lines_of, parse_count, position_of, push_text, same_text, split_on, text_contains, text_lines, text_parse_count, text_split, text_words, texts, words};
use vstd::prelude::*;

verus! {

/// The CMake build system.
#[derive(Clone, Debug)]
pub struct CMakeBuildSystem {
    pub config: BuildSystemConfig,
}

/// The arguments that set the run-time search path on macOS, each unless
/// the recipe sets it: libraries are looked for under the `lib` of the live
/// prefix; and, where the recipe asked for the default compiler settings,
/// install names point there too.
pub open spec fn rpath_args(live: Seq<char>, with_defaults: bool, user: Seq<Seq<char>>) -> Seq<
    Seq<char>,
> {
    unless_given(user, "-DCMAKE_INSTALL_RPATH="@, "-DCMAKE_INSTALL_RPATH="@ + live + "/lib"@)
        + unless_given(user, "-DCMAKE_MACOSX_RPATH="@, "-DCMAKE_MACOSX_RPATH=ON"@) + unless_given(
        user,
        "-DCMAKE_BUILD_WITH_INSTALL_RPATH="@,
        "-DCMAKE_BUILD_WITH_INSTALL_RPATH=OFF"@,
    ) + unless_given(
        user,
        "-DCMAKE_INSTALL_RPATH_USE_LINK_PATH="@,
        "-DCMAKE_INSTALL_RPATH_USE_LINK_PATH=ON"@,
    ) + (if with_defaults {
        unless_given(
            user,
            "-DCMAKE_INSTALL_NAME_DIR="@,
            "-DCMAKE_INSTALL_NAME_DIR="@ + live + "/lib"@,
        )
    } else {
        Seq::<Seq<char>>::empty()
    })
}

/// The argument that tells CMake where the dependencies live: present when
/// the build has a `PKG_CONFIG_PATH` that yields at least one prefix.
pub open spec fn prefix_path_arg(known: bool, prefixes: Seq<Seq<char>>) -> Seq<Seq<char>> {
    if known && prefixes.len() > 0 {
        seq!["-DCMAKE_PREFIX_PATH="@ + join(prefixes, seq![';'])]
    } else {
        Seq::<Seq<char>>::empty()
    }
}

/// The arguments of `cmake` for the configure step: the source directory;
/// the install prefix, which is the live prefix; the defaults that the
/// recipe leaves standing; on macOS the search-path arguments; the prefixes
/// of the dependencies; the preference for package configuration files; and
/// last the recipe's own arguments.
pub open spec fn cmake_args(
    ctx: &BuildSystemContext,
    defaults: Seq<Seq<char>>,
    user: Seq<Seq<char>>,
    prefixes: Seq<Seq<char>>,
) -> Seq<Seq<char>> {
    seq![ctx.source_dir@] + unless_given(
        user,
        "-DCMAKE_INSTALL_PREFIX="@,
        "-DCMAKE_INSTALL_PREFIX="@ + ctx.env.live_prefix@,
    ) + standing_defaults(defaults, user) + (if ctx.target_macos {
        rpath_args(ctx.env.live_prefix@, ctx.env.with_defaults_called, user)
    } else {
        Seq::<Seq<char>>::empty()
    }) + prefix_path_arg(context_var(ctx, "PKG_CONFIG_PATH"@) is Some, prefixes) + unless_given(
        user,
        "-DCMAKE_FIND_PACKAGE_PREFER_CONFIG="@,
        "-DCMAKE_FIND_PACKAGE_PREFER_CONFIG=ON"@,
    ) + user
}

/// The arguments of `cmake` for the build step: with more than one job the
/// number of jobs, and the recipe's arguments behind `--`.
pub open spec fn cmake_build_args(jobs: usize, user: Seq<Seq<char>>) -> Seq<Seq<char>> {
    seq!["--build"@, "."@] + (if jobs > 1 {
        seq!["--parallel"@, decimal(jobs as nat)]
    } else {
        Seq::<Seq<char>>::empty()
    }) + (if user.len() > 0 {
        seq!["--"@] + user
    } else {
        Seq::<Seq<char>>::empty()
    })
}

/// The variables that the driver adds: `DESTDIR`, and the launcher of the
/// compilers when a compiler cache with a launcher is in use.
pub open spec fn cmake_env(ctx: &BuildSystemContext) -> Seq<EnvVarView> {
    let destdir = seq![EnvVarView { name: "DESTDIR"@, value: ctx.env.staging_dir@ }];
    match ctx.cache_config {
        Some(cache) => if cache.use_compiler_cache && cache.compiler_cache_type
            != CompilerCacheType::DistCC {
            let launcher = if cache.compiler_cache_type == CompilerCacheType::CCache {
                "ccache"@
            } else {
                "sccache"@
            };
            destdir + seq![
                EnvVarView { name: "CMAKE_CXX_COMPILER_LAUNCHER"@, value: launcher },
                EnvVarView { name: "CMAKE_C_COMPILER_LAUNCHER"@, value: launcher },
            ]
        } else {
            destdir
        },
        None => destdir,
    }
}

/// What `std::path::Path::parent` returns for the path `path`: the path
/// without its last component, or nothing where it has none to lose. What
/// counts as a component is for the platform to say on which the library
/// is built.
pub uninterp spec fn path_parent(path: Seq<char>) -> Option<Seq<char>>;

/// `std::path::Path::parent`, with the parent handed back as a text. The
/// parent of a path that is a text is a text again.
#[verifier::external_body]
fn parent_of(path: &str) -> (r: Option<String>)
    ensures
        match r {
            Some(parent) => path_parent(path@) == Some(parent@),
            None => path_parent(path@) is None,
        },
{
    match std::path::Path::new(path).parent() {
        Some(p) => Some(p.display().to_string()),
        None => None,
    }
}

/// The prefix that an entry of a `PKG_CONFIG_PATH` points into: the
/// directory two levels up, where there is one.
pub open spec fn prefix_above(entry: Seq<char>) -> Option<Seq<char>> {
    match path_parent(entry) {
        Some(parent) => path_parent(parent),
        None => None,
    }
}

/// The prefixes that the first `n` entries point into, in order. An entry
/// without a directory two levels up gives none.
pub open spec fn prefixes_upto(entries: Seq<Seq<char>>, n: int) -> Seq<Seq<char>>
    decreases n,
{
    if n <= 0 {
        Seq::<Seq<char>>::empty()
    } else {
        match prefix_above(entries[n - 1]) {
            Some(prefix) => prefixes_upto(entries, n - 1).push(prefix),
            None => prefixes_upto(entries, n - 1),
        }
    }
}

/// The prefixes that a `PKG_CONFIG_PATH` points into: those of its
/// entries, which colons separate.
pub open spec fn prefixes_in(pkg_config_path: Seq<char>) -> Seq<Seq<char>> {
    prefixes_upto(split_on(pkg_config_path, ':'), split_on(pkg_config_path, ':').len() as int)
}

/// The prefixes of the dependencies of a build: those that its
/// `PKG_CONFIG_PATH` points into, where it has one.
pub open spec fn dependency_prefixes(ctx: &BuildSystemContext) -> Seq<Seq<char>> {
    match context_var(ctx, "PKG_CONFIG_PATH"@) {
        Some(path) => prefixes_in(path),
        None => Seq::<Seq<char>>::empty(),
    }
}

/// The prefixes that a `PKG_CONFIG_PATH` points into: for each of its
/// entries the directory two levels up, where there is one.
fn prefixes_of(pkg_config_path: &str) -> (out: Vec<String>)
    ensures
        texts(out@) == prefixes_in(pkg_config_path@),
{
    let entries = text_split(pkg_config_path, ':');
    let ghost all = texts(entries@);
    let mut out: Vec<String> = Vec::new();
    let mut i: usize = 0;
    assert(texts(out@) == prefixes_upto(all, 0));
    while i < entries.len()
        invariant
            i <= entries.len(),
            all == texts(entries@),
            texts(out@) == prefixes_upto(all, i as int),
        decreases entries.len() - i,
    {
        assert(all[i as int] == entries@[i as int]@);
        match parent_of(entries[i].as_str()) {
            Some(parent) => match parent_of(parent.as_str()) {
                Some(prefix) => {
                    push_text(&mut out, prefix);
                },
                None => {},
            },
            None => {},
        }
        i += 1;
    }
    assert(all.len() == entries.len());
    out
}

impl CMakeBuildSystem {
    /// The driver with its defaults: a release build with coloured output.
    pub fn new() -> (s: CMakeBuildSystem)
        ensures
            s.config.supports_out_of_source,
            s.config.supports_parallel_builds,
            s.config.supports_incremental_builds,
            texts(s.config.default_configure_args@) == seq![
                "-DCMAKE_BUILD_TYPE=Release"@,
                "-DCMAKE_COLOR_MAKEFILE=ON"@,
            ],
            s.config.default_build_args@.len() == 0,
            s.config.env_prefix matches Some(p) && p@ == "CMAKE_"@,
            texts(s.config.watch_patterns@) == seq![
                "CMakeLists.txt"@,
                "*.cmake"@,
                "cmake/*.cmake"@,
            ],
    {
        let mut default_configure_args: Vec<String> = Vec::new();
        push_text(&mut default_configure_args, "-DCMAKE_BUILD_TYPE=Release".to_owned());
        push_text(&mut default_configure_args, "-DCMAKE_COLOR_MAKEFILE=ON".to_owned());
        let mut watch_patterns: Vec<String> = Vec::new();
        push_text(&mut watch_patterns, "CMakeLists.txt".to_owned());
        push_text(&mut watch_patterns, "*.cmake".to_owned());
        push_text(&mut watch_patterns, "cmake/*.cmake".to_owned());
        CMakeBuildSystem {
            config: BuildSystemConfig {
                supports_out_of_source: true,
                supports_parallel_builds: true,
                supports_incremental_builds: true,
                default_configure_args,
                default_build_args: Vec::new(),
                env_prefix: Some("CMAKE_".to_owned()),
                watch_patterns,
            },
        }
    }

    /// The name of the driver.
    pub fn name(&self) -> (n: &'static str)
        ensures
            n@ == "cmake"@,
    {
        "cmake"
    }

    /// CMake builds outside the source tree.
    pub fn prefers_out_of_source_build(&self) -> (r: bool)
        ensures
            r,
    {
        true
    }

    /// Appends the search-path arguments for macOS.
    pub fn add_macos_rpath_args(
        args: &mut Vec<String>,
        ctx: &BuildSystemContext,
        user_args: &Vec<String>,
    )
        ensures
            texts(final(args)@) == texts(old(args)@) + rpath_args(
                ctx.env.live_prefix@,
                ctx.env.with_defaults_called,
                texts(user_args@),
            ),
    {
        let live = ctx.env.get_live_prefix();
        let ghost user = texts(user_args@);
        push_unless_given(
            args,
            user_args,
            "-DCMAKE_INSTALL_RPATH=",
            concat3("-DCMAKE_INSTALL_RPATH=", live, "/lib"),
        );
        push_unless_given(
            args,
            user_args,
            "-DCMAKE_MACOSX_RPATH=",
            "-DCMAKE_MACOSX_RPATH=ON".to_owned(),
        );
        push_unless_given(
            args,
            user_args,
            "-DCMAKE_BUILD_WITH_INSTALL_RPATH=",
            "-DCMAKE_BUILD_WITH_INSTALL_RPATH=OFF".to_owned(),
        );
        push_unless_given(
            args,
            user_args,
            "-DCMAKE_INSTALL_RPATH_USE_LINK_PATH=",
            "-DCMAKE_INSTALL_RPATH_USE_LINK_PATH=ON".to_owned(),
        );
        if ctx.env.with_defaults_called {
            push_unless_given(
                args,
                user_args,
                "-DCMAKE_INSTALL_NAME_DIR=",
                concat3("-DCMAKE_INSTALL_NAME_DIR=", live, "/lib"),
            );
        }
        assert(texts(args@) =~= texts(old(args)@) + rpath_args(
            ctx.env.live_prefix@,
            ctx.env.with_defaults_called,
            user,
        ));
    }

    /// The arguments of the configure step, given the prefixes of the
    /// dependencies.
    pub fn cmake_args_with_prefixes(
        &self,
        ctx: &BuildSystemContext,
        user_args: &Vec<String>,
        prefixes: &Vec<String>,
    ) -> (args: Vec<String>)
        ensures
            texts(args@) == cmake_args(
                ctx,
                texts(self.config.default_configure_args@),
                texts(user_args@),
                texts(prefixes@),
            ),
    {
        let ghost user = texts(user_args@);
        let mut args: Vec<String> = Vec::new();
        push_text(&mut args, ctx.source_dir.clone());
        push_unless_given(
            &mut args,
            user_args,
            "-DCMAKE_INSTALL_PREFIX=",
            concat2("-DCMAKE_INSTALL_PREFIX=", ctx.env.get_live_prefix()),
        );
        push_standing_defaults(&mut args, &self.config.default_configure_args, user_args);
        if ctx.target_macos {
            CMakeBuildSystem::add_macos_rpath_args(&mut args, ctx, user_args);
        }
        let ghost before_prefix = texts(args@);
        let known = ctx.env_var("PKG_CONFIG_PATH").is_some();
        if known && prefixes.len() > 0 {
            proof {
                reveal_strlit(";");
                assert(";"@ == seq![';']);
            }
            let joined = join_texts(prefixes, ";");
            push_text(&mut args, concat2("-DCMAKE_PREFIX_PATH=", joined.as_str()));
        }
        assert(texts(args@) =~= before_prefix + prefix_path_arg(
            context_var(ctx, "PKG_CONFIG_PATH"@) is Some,
            texts(prefixes@),
        ));
        push_unless_given(
            &mut args,
            user_args,
            "-DCMAKE_FIND_PACKAGE_PREFER_CONFIG=",
            "-DCMAKE_FIND_PACKAGE_PREFER_CONFIG=ON".to_owned(),
        );
        extend_texts(&mut args, user_args);
        assert(texts(args@) =~= cmake_args(
            ctx,
            texts(self.config.default_configure_args@),
            user,
            texts(prefixes@),
        ));
        args
    }

    /// The arguments of the configure step. The prefixes of the
    /// dependencies are taken from the `PKG_CONFIG_PATH` of the build: for
    /// each entry the directory two levels up, as the platform reads paths.
    pub fn get_cmake_args(&self, ctx: &BuildSystemContext, user_args: &Vec<String>) -> (args: Vec<
        String,
    >)
        ensures
            texts(args@) == cmake_args(
                ctx,
                texts(self.config.default_configure_args@),
                texts(user_args@),
                dependency_prefixes(ctx),
            ),
    {
        let prefixes = match ctx.env_var("PKG_CONFIG_PATH") {
            Some(path) => prefixes_of(path.as_str()),
            None => {
                let none: Vec<String> = Vec::new();
                assert(texts(none@) == Seq::<Seq<char>>::empty());
                none
            },
        };
        self.cmake_args_with_prefixes(ctx, user_args, &prefixes)
    }

    /// The arguments of the build step.
    pub fn build_args(ctx: &BuildSystemContext, user_args: &Vec<String>) -> (args: Vec<String>)
        ensures
            texts(args@) == cmake_build_args(ctx.jobs, texts(user_args@)),
    {
        let mut args: Vec<String> = Vec::new();
        push_text(&mut args, "--build".to_owned());
        push_text(&mut args, ".".to_owned());
        if ctx.jobs > 1 {
            push_text(&mut args, "--parallel".to_owned());
            push_text(&mut args, decimal_text(ctx.jobs as u64));
        }
        if user_args.len() > 0 {
            push_text(&mut args, "--".to_owned());
            extend_texts(&mut args, user_args);
        }
        assert(texts(user_args@).len() == user_args@.len());
        assert(texts(args@) =~= cmake_build_args(ctx.jobs, texts(user_args@)));
        args
    }

    /// The arguments of `ctest`.
    pub fn test_args(ctx: &BuildSystemContext) -> (args: Vec<String>)
        ensures
            texts(args@) == seq![
                "--output-on-failure"@,
                "--parallel"@,
                decimal(ctx.jobs as nat),
            ],
    {
        let mut args: Vec<String> = Vec::new();
        push_text(&mut args, "--output-on-failure".to_owned());
        push_text(&mut args, "--parallel".to_owned());
        push_text(&mut args, decimal_text(ctx.jobs as u64));
        args
    }

    /// The variables that the driver adds to the environment.
    pub fn get_env_vars(&self, ctx: &BuildSystemContext) -> (vars: Vec<EnvVar>)
        ensures
            var_views(vars@) == cmake_env(ctx),
    {
        let mut vars: Vec<EnvVar> = Vec::new();
        vars.push(EnvVar { name: "DESTDIR".to_owned(), value: ctx.env.staging_dir.clone() });
        match &ctx.cache_config {
            Some(cache) => {
                if cache.use_compiler_cache {
                    match cache.compiler_cache_type {
                        CompilerCacheType::CCache => {
                            vars.push(
                                EnvVar {
                                    name: "CMAKE_CXX_COMPILER_LAUNCHER".to_owned(),
                                    value: "ccache".to_owned(),
                                },
                            );
                            vars.push(
                                EnvVar {
                                    name: "CMAKE_C_COMPILER_LAUNCHER".to_owned(),
                                    value: "ccache".to_owned(),
                                },
                            );
                        },
                        CompilerCacheType::SCCache => {
                            vars.push(
                                EnvVar {
                                    name: "CMAKE_CXX_COMPILER_LAUNCHER".to_owned(),
                                    value: "sccache".to_owned(),
                                },
                            );
                            vars.push(
                                EnvVar {
                                    name: "CMAKE_C_COMPILER_LAUNCHER".to_owned(),
                                    value: "sccache".to_owned(),
                                },
                            );
                        },
                        CompilerCacheType::DistCC => {},
                    }
                }
            },
            None => {},
        }
        assert(var_views(vars@) =~= cmake_env(ctx));
        vars
    }

    /// Judges the configure command.
    pub fn configure_result(result: &BuildCommandResult) -> (r: Result<(), BuildError>)
        ensures
            match r {
                Ok(_) => result.success,
                Err(BuildError::ConfigureFailed { message }) => !result.success && message@
                    == step_message("cmake configuration failed"@, result.stderr@),
                Err(_) => false,
            },
    {
        if result.success {
            Ok(())
        } else {
            Err(
                BuildError::ConfigureFailed {
                    message: failed_step_message(
                        "cmake configuration failed",
                        result.stderr.as_str(),
                    ),
                },
            )
        }
    }

    /// Judges the build command.
    pub fn build_result(result: &BuildCommandResult) -> (r: Result<(), BuildError>)
        ensures
            match r {
                Ok(_) => result.success,
                Err(BuildError::CompilationFailed { message }) => !result.success && message@
                    == step_message("cmake build failed"@, result.stderr@),
                Err(_) => false,
            },
    {
        if result.success {
            Ok(())
        } else {
            Err(
                BuildError::CompilationFailed {
                    message: failed_step_message("cmake build failed", result.stderr.as_str()),
                },
            )
        }
    }

    /// Whether `cmake --install` did the install. When it did not, because
    /// it could not run or did not succeed, `make install` is tried next.
    pub fn installed_by_cmake(outcome: &Result<BuildCommandResult, BuildError>) -> (done: bool)
        ensures
            done == (outcome matches Ok(result) && result.success),
    {
        match outcome {
            Ok(result) => result.success,
            Err(_) => false,
        }
    }

    /// Judges `make install`, the fallback of the install step: its own
    /// error if it could not run, an install failure if it did not succeed.
    pub fn fallback_install_result(outcome: Result<BuildCommandResult, BuildError>) -> (r: Result<
        (),
        BuildError,
    >)
        ensures
            match outcome {
                Err(e) => r == Err::<(), BuildError>(e),
                Ok(result) => match r {
                    Ok(_) => result.success,
                    Err(BuildError::InstallFailed { message }) => !result.success && message@
                        == step_message("cmake install failed"@, result.stderr@),
                    Err(_) => false,
                },
            },
    {
        match outcome {
            Err(e) => Err(e),
            Ok(result) => {
                if result.success {
                    Ok(())
                } else {
                    Err(
                        BuildError::InstallFailed {
                            message: failed_step_message(
                                "cmake install failed",
                                result.stderr.as_str(),
                            ),
                        },
                    )
                }
            },
        }
    }
}

/// The word that gives the number of failed tests: the word two before
/// `failed` when the word before it is `tests`, else the word before it.
pub open spec fn failed_count_word(parts: Seq<Seq<char>>, failed_at: int) -> Option<Seq<char>> {
    if failed_at >= 2 && parts[failed_at - 1] == "tests"@ {
        Some(parts[failed_at - 2])
    } else if failed_at >= 1 {
        Some(parts[failed_at - 1])
    } else {
        None
    }
}

/// The figures of a CTest summary line such as
/// `75% tests passed, 1 tests failed out of 4`: the total, the passed and
/// the failed tests. There are none when the line lacks the words `failed`
/// or `of`, when a number does not read, or when more tests failed than
/// there are.
pub open spec fn ctest_summary(line: Seq<char>) -> Option<(usize, usize, usize)> {
    let parts = words(line);
    match (position_of(parts, "failed"@), position_of(parts, "of"@)) {
        (Some(f), Some(o)) => match failed_count_word(parts, f) {
            Some(word) => match (
                parse_count(word),
                if o + 1 < parts.len() {
                    parse_count(parts[o + 1])
                } else {
                    None
                },
            ) {
                (Some(failed), Some(total)) => if failed <= total {
                    Some((total, (total - failed) as usize, failed))
                } else {
                    None
                },
                _ => None,
            },
            None => None,
        },
        _ => None,
    }
}

/// Reads a CTest summary line.
pub fn parse_ctest_summary(line: &str) -> (r: Option<(usize, usize, usize)>)
    ensures
        r == ctest_summary(line@),
{
    let parts = text_words(line);
    let failed_pos = match find_text(&parts, "failed") {
        Some(k) => k,
        None => {
            return None;
        },
    };
    let out_of_pos = match find_text(&parts, "of") {
        Some(k) => k,
        None => {
            return None;
        },
    };
    let failed_word: &String = if failed_pos >= 2 && same_text(
        parts[failed_pos - 1].as_str(),
        "tests",
    ) {
        &parts[failed_pos - 2]
    } else if failed_pos >= 1 {
        &parts[failed_pos - 1]
    } else {
        return None;
    };
    assert(Some(failed_word@) == failed_count_word(texts(parts@), failed_pos as int));
    let failed = match text_parse_count(failed_word.as_str()) {
        Some(n) => n,
        None => {
            return None;
        },
    };
    if out_of_pos + 1 >= parts.len() {
        return None;
    }
    let total = match text_parse_count(parts[out_of_pos + 1].as_str()) {
        Some(n) => n,
        None => {
            return None;
        },
    };
    if failed > total {
        return None;
    }
    Some((total, total - failed, failed))
}

/// What the lines of a CTest report say: the figures of the last summary
/// line that reads, and a failure for every line that marks a failed or
/// timed-out test and names it in its second word.
pub open spec fn ctest_scan(lines: Seq<Seq<char>>) -> (
    Option<(usize, usize, usize)>,
    Seq<TestFailureView>,
)
    decreases lines.len(),
{
    if lines.len() == 0 {
        (None, Seq::<TestFailureView>::empty())
    } else {
        let (summary, failures) = ctest_scan(lines.drop_last());
        let line = lines.last();
        if contains_text(line, "% tests passed"@) {
            match ctest_summary(line) {
                Some(s) => (Some(s), failures),
                None => (summary, failures),
            }
        } else if contains_text(line, "***Failed"@) || contains_text(line, "***Timeout"@) {
            if words(line).len() >= 2 {
                (
                    summary,
                    failures.push(
                        TestFailureView { name: words(line)[1], message: line, details: None },
                    ),
                )
            } else {
                (summary, failures)
            }
        } else {
            (summary, failures)
        }
    }
}

/// The report of a test run: standard output, a line feed, standard error.
pub open spec fn test_output(stdout: Seq<char>, stderr: Seq<char>) -> Seq<char> {
    stdout + seq!['\n'] + stderr
}

impl CMakeBuildSystem {
    /// The results of a CTest run. The figures come from the summary line;
    /// a run that failed without one counts as one failed test. No test
    /// counts as skipped.
    pub fn test_results(stdout: &str, stderr: &str, success: bool, duration_ms: u64) -> (r:
        TestResults)
        ensures
            r.output@ == test_output(stdout@, stderr@),
            r.duration_ms == duration_ms,
            r.skipped == 0,
            failure_views(r.failures@) == ctest_scan(lines_of(r.output@)).1,
            ({
                let figures = match ctest_scan(lines_of(r.output@)).0 {
                    Some(s) => s,
                    None => (0usize, 0usize, 0usize),
                };
                &&& r.passed == figures.1
                &&& r.total == if figures.0 == 0 && !success {
                    1usize
                } else {
                    figures.0
                }
                &&& r.failed == if figures.0 == 0 && !success {
                    1usize
                } else {
                    figures.2
                }
            }),
    {
        proof {
            reveal_strlit("\n");
            assert("\n"@ == seq!['\n']);
        }
        let output = concat3(stdout, "\n", stderr);
        let lines = text_lines(output.as_str());
        let ghost all = texts(lines@);
        let mut summary: Option<(usize, usize, usize)> = None;
        let mut failures: Vec<TestFailure> = Vec::new();
        let mut i: usize = 0;
        assert(ctest_scan(all.take(0)) == (None::<(usize, usize, usize)>, failure_views(failures@)));
        while i < lines.len()
            invariant
                i <= lines.len(),
                all == texts(lines@),
                ctest_scan(all.take(i as int)) == (summary, failure_views(failures@)),
            decreases lines.len() - i,
        {
            assert(all.take(i + 1).drop_last() == all.take(i as int));
            assert(all.take(i + 1).last() == lines@[i as int]@);
            let line = lines[i].as_str();
            if text_contains(line, "% tests passed") {
                match parse_ctest_summary(line) {
                    Some(s) => {
                        summary = Some(s);
                    },
                    None => {},
                }
            } else if text_contains(line, "***Failed") || text_contains(line, "***Timeout") {
                let parts = text_words(line);
                if parts.len() >= 2 {
                    let failure = TestFailure {
                        name: parts[1].clone(),
                        message: lines[i].clone(),
                        details: None,
                    };
                    let ghost before = failures@;
                    failures.push(failure);
                    assert(failure_views(failures@) == failure_views(before).push(failure@));
                }
            }
            i += 1;
        }
        assert(all.take(lines.len() as int) == all);
        let (mut total, passed, mut failed) = match summary {
            Some(s) => s,
            None => (0, 0, 0),
        };
        if total == 0 && !success {
            total = 1;
            failed = 1;
        }
        TestResults { total, passed, failed, skipped: 0, duration_ms, output, failures }
    }
}

} // verus!
