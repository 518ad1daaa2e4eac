use sps2::archive::ArchiveFormat;
use sps2::builder_api::{BuilderApi, FetchPlan, GitPlan};
use sps2::environment::{BuildEnvironment, EnvVar};
use sps2::errors::BuildError;

fn strings(items: &[&str]) -> Vec<String> {
    items.iter().map(|s| s.to_string()).collect()
}

fn env() -> BuildEnvironment {
    BuildEnvironment {
        package_name: "demo".to_string(),
        build_prefix: "/b".to_string(),
        staging_dir: "/b/stage".to_string(),
        live_prefix: "/opt/pm/live".to_string(),
        placeholder_prefix: "@BUILD@".to_string(),
        env_vars: vec![],
        with_defaults_called: false,
    }
}

const ABC: &str = "6437b3ac38465133ffb63b75273a8db548c558465d79db03fd359c6cd5bd9d85";

#[test]
fn new_state() {
    let api = BuilderApi::new("/work".to_string());
    assert_eq!(api.working_dir, "/work");
    assert!(api.downloads.is_empty());
    assert!(!api.allow_network);
    let (auto, excludes) = api.sbom_config();
    assert!(auto);
    assert_eq!(excludes, &strings(&["./*.dSYM", "./*.pdb", "./*.a", "./*.la"]));
    assert!(!api.is_install_requested());
    assert!(api.build_metadata().is_empty());
}

#[test]
fn setters() {
    let mut api = BuilderApi::new("/work".to_string());
    let _ = api.allow_network(true);
    assert!(api.allow_network);
    let _ = api.auto_sbom(false).sbom_excludes(strings(&["*.o"]));
    assert_eq!(api.sbom_config(), (false, &strings(&["*.o"])));
    api.set_working_dir("/work/repo".to_string());
    assert_eq!(api.working_dir, "/work/repo");
    let r = api.install();
    assert!(r.success);
    assert_eq!(r.exit_code, Some(0));
    assert_eq!(r.stdout, "Installation request recorded");
    assert_eq!(r.stderr, "");
    assert!(api.is_install_requested());
}

#[test]
fn fetch_stores_under_the_last_segment() {
    let mut api = BuilderApi::new("/work".to_string());
    let url = "https://example.org/dl/zlib-1.3.tar.gz";
    let (file_name, path) = match api.fetch_plan(url) {
        FetchPlan::Download { file_name, path } => (file_name, path),
        other => panic!("unexpected: {other:?}"),
    };
    assert_eq!(file_name, "zlib-1.3.tar.gz");
    assert_eq!(path, "/work/zlib-1.3.tar.gz");
    let format = api.finish_fetch(url, &file_name, &path, ABC, b"abc").unwrap();
    assert_eq!(format, Some(ArchiveFormat::TarGz));
    assert_eq!(api.cached(url), Some("/work/zlib-1.3.tar.gz".to_string()));
    match api.fetch_plan(url) {
        FetchPlan::Cached { path } => assert_eq!(path, "/work/zlib-1.3.tar.gz"),
        other => panic!("unexpected: {other:?}"),
    }
    assert_eq!(
        api.extract_downloads(),
        vec![("/work/zlib-1.3.tar.gz".to_string(), ArchiveFormat::TarGz)]
    );
}

#[test]
fn fetch_rejects_wrong_hash() {
    let mut api = BuilderApi::new("/work".to_string());
    let url = "https://example.org/file.patch";
    let wrong = ABC.to_uppercase();
    for expected in ["0000", wrong.as_str(), ""] {
        match api.finish_fetch(url, "file.patch", "/work/file.patch", expected, b"abc") {
            Err(BuildError::HashMismatch { file, expected: e, actual }) => {
                assert_eq!(file, "file.patch");
                assert_eq!(e, expected);
                assert_eq!(actual, ABC);
            }
            other => panic!("unexpected: {other:?}"),
        }
        assert!(api.downloads.is_empty());
    }
    assert_eq!(api.finish_fetch(url, "file.patch", "/work/file.patch", ABC, b"abc").unwrap(), None);
    assert!(api.extract_downloads().is_empty());
}

#[test]
fn git_clone_plans() {
    let api = BuilderApi::new("/work".to_string());
    match api.git_plan("https://github.com/org/tool.git", "HEAD") {
        GitPlan::Clone { path, args } => {
            assert_eq!(path, "/work/tool");
            assert_eq!(
                args,
                strings(&["clone", "--depth", "1", "https://github.com/org/tool.git", "/work/tool"])
            );
        }
        other => panic!("unexpected: {other:?}"),
    }
    match api.git_plan("https://github.com/org/tool", "v1.2.3") {
        GitPlan::Clone { path, args } => {
            assert_eq!(path, "/work/tool");
            assert_eq!(
                args,
                strings(&[
                    "clone",
                    "--depth",
                    "1",
                    "--branch",
                    "v1.2.3",
                    "https://github.com/org/tool",
                    "/work/tool"
                ])
            );
        }
        other => panic!("unexpected: {other:?}"),
    }
}

#[test]
fn git_clone_outcomes() {
    let mut api = BuilderApi::new("/work".to_string());
    let url = "https://github.com/org/tool.git";
    match api.finish_git(url, "/work/tool", false, "fatal: not found") {
        Err(BuildError::GitCloneFailed { message }) => assert_eq!(
            message,
            "Failed to clone https://github.com/org/tool.git: fatal: not found"
        ),
        other => panic!("unexpected: {other:?}"),
    }
    assert_eq!(api.working_dir, "/work");
    assert!(api.downloads.is_empty());
    assert_eq!(api.finish_git(url, "/work/tool", true, "").unwrap(), "/work/tool");
    assert_eq!(api.working_dir, "/work/tool");
    match api.git_plan(url, "HEAD") {
        GitPlan::Cached { path } => assert_eq!(path, "/work/tool"),
        other => panic!("unexpected: {other:?}"),
    }
}

#[test]
fn configure_and_make_arguments() {
    assert_eq!(
        BuilderApi::configure_args("/opt/pm/live", &strings(&["--disable-nls"])),
        strings(&["--prefix=/opt/pm/live", "--disable-nls"])
    );
    assert_eq!(
        BuilderApi::configure_args("/opt/pm/live", &strings(&["--enable-x", "--prefix=/usr"])),
        strings(&["--enable-x", "--prefix=/usr"])
    );
    assert_eq!(
        BuilderApi::configure_command("/opt/pm/live", &strings(&["--disable-nls", "CC=clang"])),
        "./configure --prefix=/opt/pm/live --disable-nls CC=clang"
    );
    assert_eq!(BuilderApi::configure_command("/p", &vec![]), "./configure --prefix=/p");
    assert_eq!(
        BuilderApi::make_args("/b/stage", &strings(&["-j4", "DESTDIR=stage", "install", "XDESTDIR=1"])),
        strings(&["-j4", "DESTDIR=/b/stage", "install", "XDESTDIR=1"])
    );
    assert_eq!(BuilderApi::patch_args("fix.patch"), strings(&["-p1", "-i", "fix.patch"]));
}

#[test]
fn build_contexts() {
    let mut api = BuilderApi::new("/work".to_string());
    let _ = api.allow_network(true);
    let ctx = api.build_context(env(), true, false);
    assert_eq!(ctx.source_dir, "/work");
    assert_eq!(ctx.build_dir, "/work/build");
    assert!(ctx.network_allowed);
    assert!(!ctx.target_macos);
    let ctx = api.build_context(env(), false, true);
    assert_eq!(ctx.build_dir, "/work");
    assert!(ctx.target_macos);
    let done = BuilderApi::build_completed("CMake");
    assert!(done.success);
    assert_eq!(done.exit_code, Some(0));
    assert_eq!(done.stdout, "CMake build completed successfully");
    assert_eq!(done.stderr, "");
}

#[test]
fn python_metadata_is_taken_over() {
    let mut api = BuilderApi::new("/work".to_string());
    let var = |n: &str, v: &str| EnvVar { name: n.to_string(), value: v.to_string() };
    api.collect_python_metadata(&vec![
        var("PYTHON_WHEEL", "a.whl"),
        var("DESTDIR", "/b/stage"),
        var("PYTHON_BACKEND", "hatchling"),
        var("PYTHON_WHEEL", "b.whl"),
        var("XPYTHON_", "no"),
    ]);
    let pairs: Vec<(String, String)> =
        api.build_metadata().iter().map(|v| (v.name.clone(), v.value.clone())).collect();
    assert_eq!(
        pairs,
        vec![
            ("PYTHON_WHEEL".to_string(), "b.whl".to_string()),
            ("PYTHON_BACKEND".to_string(), "hatchling".to_string()),
        ]
    );
    let taken = api.take_build_metadata();
    assert_eq!(taken.len(), 2);
    assert!(api.build_metadata().is_empty());
}

#[test]
fn copy_sources() {
    assert_eq!(BuilderApi::copy_source(Some("/src"), Some("/recipes")).unwrap(), "/src");
    assert_eq!(BuilderApi::copy_source(None, Some("/recipes")).unwrap(), "/recipes");
    match BuilderApi::copy_source(None, None) {
        Err(BuildError::RecipeError { message }) => assert_eq!(message, "Invalid recipe path"),
        other => panic!("unexpected: {other:?}"),
    }
    match BuilderApi::missing_source("/nowhere") {
        BuildError::Failed { message } => {
            assert_eq!(message, "Source directory does not exist: /nowhere")
        }
        other => panic!("unexpected: {other:?}"),
    }
}
