use sps2::builder_api::BuilderApi;
use sps2::errors::BuildError;
use sps2::recipe::BuildPhase::{
    Built, Configured, Extracted, Failed, Fetched, Loaded, Packaged, Patched, SBomed, Staged,
    Tested,
};
use sps2::recipe::{
    apply_state_step, check_metadata, check_result, execute_recipe, extract_recipe_metadata,
    recipe_not_read, BuildStep, Recipe, RecipeEvaluator, RecipeMetadata, RecipeResult,
};

fn metadata(name: &str, version: &str) -> RecipeMetadata {
    RecipeMetadata {
        name: name.to_string(),
        version: version.to_string(),
        description: None,
        license: Some("MIT".to_string()),
        runtime_deps: vec!["zlib>=1.2".to_string()],
        build_deps: vec![],
    }
}

struct Fixed(Result<RecipeResult, String>);

impl RecipeEvaluator for Fixed {
    fn execute(&self, _recipe: &Recipe) -> Result<RecipeResult, BuildError> {
        self.0.clone().map_err(|message| BuildError::RecipeError { message })
    }

    fn extract_metadata(&self, recipe: &Recipe) -> Result<RecipeMetadata, BuildError> {
        self.execute(recipe).map(|r| r.metadata)
    }
}

fn recipe() -> Recipe {
    Recipe { content: "def metadata(): ...".to_string() }
}

fn error_message<T: std::fmt::Debug>(r: Result<T, BuildError>) -> String {
    match r {
        Err(BuildError::RecipeError { message }) => message,
        other => panic!("unexpected: {other:?}"),
    }
}

#[test]
fn sound_results_pass() {
    let result = RecipeResult {
        metadata: metadata("curl", "8.5.0"),
        steps: vec![BuildStep::Install, BuildStep::Make { args: vec![] }],
    };
    let engine = Fixed(Ok(result));
    let r = execute_recipe(&engine, &recipe()).unwrap();
    assert_eq!(r.metadata.name, "curl");
    assert_eq!(r.steps.len(), 2);
    assert_eq!(extract_recipe_metadata(&engine, &recipe()).unwrap().version, "8.5.0");
    assert!(check_metadata(metadata("a", "1")).is_ok());
}

#[test]
fn unsound_results_are_refused() {
    let bad_name = RecipeResult { metadata: metadata("", "1.0.0"), steps: vec![] };
    assert_eq!(error_message(check_result(bad_name.clone())), "invalid package name: ");
    assert_eq!(
        error_message(execute_recipe(&Fixed(Ok(bad_name)), &recipe())),
        "invalid package name: "
    );
    let bad_version = RecipeResult { metadata: metadata("curl", "latest"), steps: vec![] };
    assert_eq!(
        error_message(extract_recipe_metadata(&Fixed(Ok(bad_version)), &recipe())),
        "invalid package version: latest"
    );
    assert_eq!(
        error_message(check_metadata(metadata("bad name", "also bad"))),
        "invalid package name: bad name"
    );
}

#[test]
fn evaluator_errors_pass_through() {
    let engine = Fixed(Err("syntax error".to_string()));
    assert_eq!(error_message(execute_recipe(&engine, &recipe())), "syntax error");
    assert_eq!(error_message(extract_recipe_metadata(&engine, &recipe())), "syntax error");
    match recipe_not_read("No such file") {
        BuildError::RecipeError { message } => {
            assert_eq!(message, "failed to read recipe: No such file")
        }
        other => panic!("unexpected: {other:?}"),
    }
}

#[test]
fn state_steps_are_interpreted() {
    let mut api = BuilderApi::new("/work".to_string());
    assert!(apply_state_step(&mut api, BuildStep::AllowNetwork { enabled: true }));
    assert!(api.allow_network);
    assert!(apply_state_step(&mut api, BuildStep::AutoSbom { enabled: false }));
    assert!(!api.auto_sbom);
    assert!(apply_state_step(&mut api, BuildStep::SbomExcludes { patterns: vec!["*.o".to_string()] }));
    assert_eq!(api.sbom_excludes, vec!["*.o"]);
    assert!(apply_state_step(&mut api, BuildStep::Install));
    assert!(api.install_requested);
    for step in [
        BuildStep::Fetch { url: "u".to_string(), hash: "h".to_string() },
        BuildStep::Git { url: "u".to_string(), reference: "HEAD".to_string() },
        BuildStep::CMake { args: vec![] },
        BuildStep::Copy { src_path: None },
    ] {
        assert!(!apply_state_step(&mut api, step));
    }
    assert_eq!(api.working_dir, "/work");
}

#[test]
fn build_phases() {
    let order = [Loaded, Fetched, Extracted, Configured, Built, Tested, Staged, Patched, SBomed, Packaged];
    let mut phase = Loaded;
    for next in &order[1..] {
        phase = phase.advance(*next, true);
        assert_eq!(phase, *next);
    }
    assert!(phase.is_terminal());
    assert_eq!(Built.advance(Staged, true), Staged);
    assert_eq!(Built.advance(Patched, true), Failed);
    assert_eq!(Loaded.advance(Extracted, true), Failed);
    assert_eq!(Fetched.advance(Loaded, true), Failed);
    assert_eq!(Fetched.advance(Fetched, true), Failed);
    assert_eq!(Fetched.advance(Extracted, false), Failed);
    assert_eq!(Packaged.advance(Loaded, true), Failed);
    assert_eq!(Failed.advance(Fetched, true), Failed);
    assert_eq!(SBomed.advance(Failed, true), Failed);
    assert!(Failed.is_terminal());
    assert!(!Staged.is_terminal());
}
