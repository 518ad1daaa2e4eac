use sps2::build_systems::{
    BuildSystemContext, CacheConfig, CompilerCacheType,
};
use sps2::cmake::{parse_ctest_summary, CMakeBuildSystem};
use sps2::environment::{BuildCommandResult, BuildEnvironment, EnvVar};
use sps2::errors::BuildError;

fn env() -> BuildEnvironment {
    BuildEnvironment {
        package_name: "demo".to_string(),
        build_prefix: "/b".to_string(),
        staging_dir: "/b/stage".to_string(),
        live_prefix: "/opt/pm/live".to_string(),
        placeholder_prefix: "@BUILD@".to_string(),
        env_vars: vec![],
        with_defaults_called: false,
    }
}

fn ctx(macos: bool) -> BuildSystemContext {
    let mut c = BuildSystemContext::new(env(), "/b/src".to_string(), macos);
    c.build_dir = "/b/src/build".to_string();
    c
}

fn strings(items: &[&str]) -> Vec<String> {
    items.iter().map(|s| s.to_string()).collect()
}

fn result(success: bool, stderr: &str) -> BuildCommandResult {
    BuildCommandResult {
        success,
        exit_code: Some(if success { 0 } else { 1 }),
        stdout: String::new(),
        stderr: stderr.to_string(),
    }
}

#[test]
fn new_has_the_defaults() {
    let s = CMakeBuildSystem::new();
    assert!(s.config.supports_out_of_source);
    assert!(s.config.supports_parallel_builds);
    assert!(s.config.supports_incremental_builds);
    assert_eq!(
        s.config.default_configure_args,
        strings(&["-DCMAKE_BUILD_TYPE=Release", "-DCMAKE_COLOR_MAKEFILE=ON"])
    );
    assert!(s.config.default_build_args.is_empty());
    assert_eq!(s.config.env_prefix.as_deref(), Some("CMAKE_"));
    assert_eq!(s.config.watch_patterns, strings(&["CMakeLists.txt", "*.cmake", "cmake/*.cmake"]));
    assert_eq!(s.name(), "cmake");
    assert!(s.prefers_out_of_source_build());
}

#[test]
fn configure_args_plain() {
    let s = CMakeBuildSystem::new();
    assert_eq!(
        s.get_cmake_args(&ctx(false), &vec![]),
        strings(&[
            "/b/src",
            "-DCMAKE_INSTALL_PREFIX=/opt/pm/live",
            "-DCMAKE_BUILD_TYPE=Release",
            "-DCMAKE_COLOR_MAKEFILE=ON",
            "-DCMAKE_FIND_PACKAGE_PREFER_CONFIG=ON",
        ])
    );
}

#[test]
fn recipe_arguments_override_defaults() {
    let s = CMakeBuildSystem::new();
    let user = strings(&[
        "-DCMAKE_BUILD_TYPE=Debug",
        "-DCMAKE_INSTALL_PREFIX=/elsewhere",
        "-DCMAKE_FIND_PACKAGE_PREFER_CONFIG=OFF",
        "-DFOO=1",
    ]);
    assert_eq!(
        s.get_cmake_args(&ctx(false), &user),
        strings(&[
            "/b/src",
            "-DCMAKE_COLOR_MAKEFILE=ON",
            "-DCMAKE_BUILD_TYPE=Debug",
            "-DCMAKE_INSTALL_PREFIX=/elsewhere",
            "-DCMAKE_FIND_PACKAGE_PREFER_CONFIG=OFF",
            "-DFOO=1",
        ])
    );
}

#[test]
fn macos_adds_rpath_arguments() {
    let s = CMakeBuildSystem::new();
    let mut c = ctx(true);
    assert_eq!(
        s.get_cmake_args(&c, &strings(&["-DCMAKE_MACOSX_RPATH=OFF"])),
        strings(&[
            "/b/src",
            "-DCMAKE_INSTALL_PREFIX=/opt/pm/live",
            "-DCMAKE_BUILD_TYPE=Release",
            "-DCMAKE_COLOR_MAKEFILE=ON",
            "-DCMAKE_INSTALL_RPATH=/opt/pm/live/lib",
            "-DCMAKE_BUILD_WITH_INSTALL_RPATH=OFF",
            "-DCMAKE_INSTALL_RPATH_USE_LINK_PATH=ON",
            "-DCMAKE_FIND_PACKAGE_PREFER_CONFIG=ON",
            "-DCMAKE_MACOSX_RPATH=OFF",
        ])
    );
    c.env.with_defaults_called = true;
    let mut args = vec!["first".to_string()];
    CMakeBuildSystem::add_macos_rpath_args(&mut args, &c, &vec![]);
    assert_eq!(
        args,
        strings(&[
            "first",
            "-DCMAKE_INSTALL_RPATH=/opt/pm/live/lib",
            "-DCMAKE_MACOSX_RPATH=ON",
            "-DCMAKE_BUILD_WITH_INSTALL_RPATH=OFF",
            "-DCMAKE_INSTALL_RPATH_USE_LINK_PATH=ON",
            "-DCMAKE_INSTALL_NAME_DIR=/opt/pm/live/lib",
        ])
    );
}

#[test]
fn pkg_config_path_becomes_prefix_path() {
    let s = CMakeBuildSystem::new();
    let mut c = ctx(false);
    c.env.env_vars.push(EnvVar {
        name: "PKG_CONFIG_PATH".to_string(),
        value: "/opt/pm/live/lib/pkgconfig:/deps/zlib/lib/pkgconfig:/".to_string(),
    });
    let args = s.get_cmake_args(&c, &vec![]);
    assert!(args.contains(&"-DCMAKE_PREFIX_PATH=/opt/pm/live;/deps/zlib".to_string()));
    let with_given = s.cmake_args_with_prefixes(&c, &vec![], &strings(&["/x", "/y"]));
    assert_eq!(with_given[4], "-DCMAKE_PREFIX_PATH=/x;/y");
    assert_eq!(with_given.len(), 6);
    let without = s.cmake_args_with_prefixes(&c, &vec![], &vec![]);
    assert_eq!(without.len(), 5);
    let unset = s.cmake_args_with_prefixes(&ctx(false), &vec![], &strings(&["/x"]));
    assert_eq!(unset.len(), 5);
    c.extra_env.push(EnvVar { name: "PKG_CONFIG_PATH".to_string(), value: "/a/b/c".to_string() });
    assert!(s.get_cmake_args(&c, &vec![]).contains(&"-DCMAKE_PREFIX_PATH=/a".to_string()));
}

#[test]
fn build_and_test_arguments() {
    let mut c = ctx(false);
    assert_eq!(CMakeBuildSystem::build_args(&c, &vec![]), strings(&["--build", "."]));
    c.jobs = 8;
    assert_eq!(
        CMakeBuildSystem::build_args(&c, &strings(&["VERBOSE=1"])),
        strings(&["--build", ".", "--parallel", "8", "--", "VERBOSE=1"])
    );
    assert_eq!(
        CMakeBuildSystem::test_args(&c),
        strings(&["--output-on-failure", "--parallel", "8"])
    );
    c.jobs = 0;
    assert_eq!(CMakeBuildSystem::build_args(&c, &vec![]), strings(&["--build", "."]));
    assert_eq!(
        CMakeBuildSystem::test_args(&c),
        strings(&["--output-on-failure", "--parallel", "0"])
    );
}

#[test]
fn env_vars_follow_the_cache() {
    let s = CMakeBuildSystem::new();
    let mut c = ctx(false);
    let pairs = |c: &BuildSystemContext| -> Vec<(String, String)> {
        s.get_env_vars(c).into_iter().map(|v| (v.name, v.value)).collect()
    };
    assert_eq!(pairs(&c), vec![("DESTDIR".to_string(), "/b/stage".to_string())]);
    c.cache_config =
        Some(CacheConfig { use_compiler_cache: true, compiler_cache_type: CompilerCacheType::CCache });
    assert_eq!(
        pairs(&c),
        vec![
            ("DESTDIR".to_string(), "/b/stage".to_string()),
            ("CMAKE_CXX_COMPILER_LAUNCHER".to_string(), "ccache".to_string()),
            ("CMAKE_C_COMPILER_LAUNCHER".to_string(), "ccache".to_string()),
        ]
    );
    c.cache_config =
        Some(CacheConfig { use_compiler_cache: true, compiler_cache_type: CompilerCacheType::SCCache });
    assert_eq!(pairs(&c)[1].1, "sccache");
    c.cache_config =
        Some(CacheConfig { use_compiler_cache: true, compiler_cache_type: CompilerCacheType::DistCC });
    assert_eq!(pairs(&c).len(), 1);
    c.cache_config =
        Some(CacheConfig { use_compiler_cache: false, compiler_cache_type: CompilerCacheType::CCache });
    assert_eq!(pairs(&c).len(), 1);
}

#[test]
fn step_results() {
    assert!(CMakeBuildSystem::configure_result(&result(true, "")).is_ok());
    match CMakeBuildSystem::configure_result(&result(false, "no compiler")) {
        Err(BuildError::ConfigureFailed { message }) => {
            assert_eq!(message, "cmake configuration failed: no compiler")
        }
        other => panic!("unexpected: {other:?}"),
    }
    match CMakeBuildSystem::build_result(&result(false, "ld: error")) {
        Err(BuildError::CompilationFailed { message }) => {
            assert_eq!(message, "cmake build failed: ld: error")
        }
        other => panic!("unexpected: {other:?}"),
    }
    assert!(CMakeBuildSystem::build_result(&result(true, "warnings")).is_ok());
}

#[test]
fn install_falls_back_to_make() {
    assert!(CMakeBuildSystem::installed_by_cmake(&Ok(result(true, ""))));
    assert!(!CMakeBuildSystem::installed_by_cmake(&Ok(result(false, "old cmake"))));
    assert!(!CMakeBuildSystem::installed_by_cmake(&Err(BuildError::CompileFailed {
        message: "x".to_string()
    })));
    assert!(CMakeBuildSystem::fallback_install_result(Ok(result(true, ""))).is_ok());
    match CMakeBuildSystem::fallback_install_result(Ok(result(false, "denied"))) {
        Err(BuildError::InstallFailed { message }) => {
            assert_eq!(message, "cmake install failed: denied")
        }
        other => panic!("unexpected: {other:?}"),
    }
    match CMakeBuildSystem::fallback_install_result(Err(BuildError::CompileFailed {
        message: "make: not found".to_string(),
    })) {
        Err(BuildError::CompileFailed { message }) => assert_eq!(message, "make: not found"),
        other => panic!("unexpected: {other:?}"),
    }
}

#[test]
fn ctest_summary_lines() {
    assert_eq!(
        parse_ctest_summary("75% tests passed, 1 tests failed out of 4"),
        Some((4, 3, 1))
    );
    assert_eq!(
        parse_ctest_summary("100% tests passed, 0 tests failed out of 12"),
        Some((12, 12, 0))
    );
    assert_eq!(parse_ctest_summary("3 failed out of 5"), Some((5, 2, 3)));
    assert_eq!(parse_ctest_summary("  0%   tests passed,  2  tests  failed out of +2 "), Some((2, 0, 2)));
    assert_eq!(parse_ctest_summary("failed out of 4"), None);
    assert_eq!(parse_ctest_summary("1 tests failed out of"), None);
    assert_eq!(parse_ctest_summary("x tests failed out of 4"), None);
    assert_eq!(parse_ctest_summary("1 tests failed out of many"), None);
    assert_eq!(parse_ctest_summary("5 tests failed out of 4"), None);
    assert_eq!(parse_ctest_summary("1 tests failed"), None);
    assert_eq!(parse_ctest_summary("out of 4"), None);
    assert_eq!(parse_ctest_summary(""), None);
    assert_eq!(parse_ctest_summary("tests failed out of 3"), None);
}

#[test]
fn ctest_report() {
    let stdout = "Test project /b\n\
        1/3 Test #1: alpha ............   Passed    0.01 sec\n\
        2/3 Test #2: beta .............***Failed    0.02 sec\n\
        3/3 Test #3: gamma ............***Timeout   9.99 sec\n\
        \n\
        33% tests passed, 2 tests failed out of 3\n";
    let r = CMakeBuildSystem::test_results(stdout, "some stderr", false, 1234);
    assert_eq!((r.total, r.passed, r.failed, r.skipped), (3, 1, 2, 0));
    assert_eq!(r.duration_ms, 1234);
    assert_eq!(r.output, format!("{stdout}\nsome stderr"));
    assert_eq!(r.failures.len(), 2);
    assert_eq!(r.failures[0].name, "Test");
    assert_eq!(r.failures[0].message, "2/3 Test #2: beta .............***Failed    0.02 sec");
    assert_eq!(r.failures[0].details, None);
    assert_eq!(r.failures[1].message, "3/3 Test #3: gamma ............***Timeout   9.99 sec");
}

#[test]
fn ctest_without_summary() {
    let r = CMakeBuildSystem::test_results("", "ctest: command failed", false, 0);
    assert_eq!((r.total, r.passed, r.failed), (1, 0, 1));
    let r = CMakeBuildSystem::test_results("nothing to see", "", true, 0);
    assert_eq!((r.total, r.passed, r.failed), (0, 0, 0));
    let r = CMakeBuildSystem::test_results("***Failed", "", true, 0);
    assert!(r.failures.is_empty());
    let r = CMakeBuildSystem::test_results(
        "50% tests passed, 1 tests failed out of 2\n100% tests passed, 0 tests failed out of 7",
        "",
        true,
        0,
    );
    assert_eq!((r.total, r.passed, r.failed), (7, 7, 0));
}

#[test]
fn entries_without_a_prefix_give_none() {
    let s = CMakeBuildSystem::new();
    let mut c = ctx(false);
    c.env.env_vars.push(EnvVar {
        name: "PKG_CONFIG_PATH".to_string(),
        value: "pkgconfig:/x/lib/pkgconfig::lib/pkgconfig".to_string(),
    });
    let args = s.get_cmake_args(&c, &vec![]);
    assert_eq!(args[4], "-DCMAKE_PREFIX_PATH=/x;");
    assert_eq!(args, s.cmake_args_with_prefixes(&c, &vec![], &strings(&["/x", ""])));
    let mut d = ctx(false);
    d.env.env_vars.push(EnvVar { name: "PKG_CONFIG_PATH".to_string(), value: "/".to_string() });
    assert_eq!(s.get_cmake_args(&d, &vec![]), s.cmake_args_with_prefixes(&d, &vec![], &vec![]));
}
