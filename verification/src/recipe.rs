//! Recipes and what their evaluation yields.
//!
//! The evaluator of the recipe language is not part of this library. It is
//! handed a recipe and answers with the metadata of the package and the
//! steps of the build. The library checks what came back and interprets the
//! steps.

use crate::builder_api::BuilderApi;
use crate::errors::BuildError;
use crate::package_format::{is_package_name, valid_package_name};
use crate::text::concat2;
use crate::version::{read_version, Version};
use vstd::prelude::*;

verus! {

/// A recipe: the text of a build script.
#[derive(Clone, Debug)]
pub struct Recipe {
    pub content: String,
}

/// What a recipe says of the package it builds.
#[derive(Clone, Debug)]
pub struct RecipeMetadata {
    pub name: String,
    pub version: String,
    pub description: Option<String>,
    pub license: Option<String>,
    /// The packages needed to run the package.
    pub runtime_deps: Vec<String>,
    /// The packages needed to build the package.
    pub build_deps: Vec<String>,
}

/// A step of a build, as the recipe asks for it.
#[derive(Clone, Debug)]
pub enum BuildStep {
    Fetch { url: String, hash: String },
    Git { url: String, reference: String },
    ApplyPatch { path: String },
    Autotools { args: Vec<String> },
    CMake { args: Vec<String> },
    Meson { args: Vec<String> },
    Cargo { args: Vec<String> },
    Go { args: Vec<String> },
    Python { args: Vec<String> },
    NodeJs { args: Vec<String> },
    Configure { args: Vec<String> },
    Make { args: Vec<String> },
    Install,
    Copy { src_path: Option<String> },
    AllowNetwork { enabled: bool },
    AutoSbom { enabled: bool },
    SbomExcludes { patterns: Vec<String> },
}

/// What the evaluation of a recipe yields.
#[derive(Clone, Debug)]
pub struct RecipeResult {
    pub metadata: RecipeMetadata,
    pub steps: Vec<BuildStep>,
}

/// The evaluator of the recipe language.
pub trait RecipeEvaluator {
    /// Evaluates the recipe.
    fn execute(&self, recipe: &Recipe) -> Result<RecipeResult, BuildError>;

    /// Evaluates the metadata of the recipe without its build steps.
    fn extract_metadata(&self, recipe: &Recipe) -> Result<RecipeMetadata, BuildError>;
}

/// Whether the metadata names a package and gives it a version that reads.
pub open spec fn metadata_is_sound(metadata: &RecipeMetadata) -> bool {
    is_package_name(metadata.name@) && read_version(metadata.version@) is Ok
}

/// Checks metadata that an evaluator returned. Sound metadata is handed
/// on; for any other the error says which field is at fault.
pub fn check_metadata(metadata: RecipeMetadata) -> (r: Result<RecipeMetadata, BuildError>)
    ensures
        match r {
            Ok(m) => metadata_is_sound(&metadata) && m == metadata,
            Err(BuildError::RecipeError { message }) => !metadata_is_sound(&metadata) && message@
                == if !is_package_name(metadata.name@) {
                "invalid package name: "@ + metadata.name@
            } else {
                "invalid package version: "@ + metadata.version@
            },
            Err(_) => false,
        },
{
    if !valid_package_name(metadata.name.as_str()) {
        return Err(
            BuildError::RecipeError {
                message: concat2("invalid package name: ", metadata.name.as_str()),
            },
        );
    }
    match Version::parse(metadata.version.as_str()) {
        Ok(_) => Ok(metadata),
        Err(_) => Err(
            BuildError::RecipeError {
                message: concat2("invalid package version: ", metadata.version.as_str()),
            },
        ),
    }
}

/// Checks what an evaluator returned for a recipe.
pub fn check_result(result: RecipeResult) -> (r: Result<RecipeResult, BuildError>)
    ensures
        match r {
            Ok(checked) => metadata_is_sound(&result.metadata) && checked == result,
            Err(BuildError::RecipeError { message }) => !metadata_is_sound(&result.metadata)
                && message@ == if !is_package_name(result.metadata.name@) {
                "invalid package name: "@ + result.metadata.name@
            } else {
                "invalid package version: "@ + result.metadata.version@
            },
            Err(_) => false,
        },
{
    let RecipeResult { metadata, steps } = result;
    match check_metadata(metadata) {
        Ok(metadata) => Ok(RecipeResult { metadata, steps }),
        Err(e) => Err(e),
    }
}

/// Evaluates a recipe and checks what came back: a result is returned only
/// with sound metadata.
pub fn execute_recipe<E: RecipeEvaluator>(engine: &E, recipe: &Recipe) -> (r: Result<
    RecipeResult,
    BuildError,
>)
    ensures
        r matches Ok(result) ==> metadata_is_sound(&result.metadata),
{
    match engine.execute(recipe) {
        Ok(result) => check_result(result),
        Err(e) => Err(e),
    }
}

/// Evaluates the metadata of a recipe and checks what came back.
pub fn extract_recipe_metadata<E: RecipeEvaluator>(engine: &E, recipe: &Recipe) -> (r: Result<
    RecipeMetadata,
    BuildError,
>)
    ensures
        r matches Ok(metadata) ==> metadata_is_sound(&metadata),
{
    match engine.extract_metadata(recipe) {
        Ok(metadata) => check_metadata(metadata),
        Err(e) => Err(e),
    }
}

/// The error for a recipe file that cannot be read.
pub fn recipe_not_read(reason: &str) -> (e: BuildError)
    ensures
        e matches BuildError::RecipeError { message } && message@ == "failed to read recipe: "@
            + reason@,
{
    BuildError::RecipeError { message: concat2("failed to read recipe: ", reason) }
}

/// Whether a step only changes the state of the recipe run, so that
/// nothing has to be fetched, run or copied for it.
pub open spec fn is_state_step(step: BuildStep) -> bool {
    step is Install || step is AllowNetwork || step is AutoSbom || step is SbomExcludes
}

/// Interprets a step that only changes the state of the recipe run, and
/// says whether the step was one. Any other step leaves the state as it is
/// and is for the caller to carry out.
pub fn apply_state_step(api: &mut BuilderApi, step: BuildStep) -> (applied: bool)
    ensures
        applied == is_state_step(step),
        match step {
            BuildStep::Install => *final(api) == (BuilderApi { install_requested: true, ..*old(api) }),
            BuildStep::AllowNetwork { enabled } => *final(api) == (BuilderApi {
                allow_network: enabled,
                ..*old(api)
            }),
            BuildStep::AutoSbom { enabled } => *final(api) == (BuilderApi {
                auto_sbom: enabled,
                ..*old(api)
            }),
            BuildStep::SbomExcludes { patterns } => *final(api) == (BuilderApi {
                sbom_excludes: patterns,
                ..*old(api)
            }),
            _ => *final(api) == *old(api),
        },
{
    match step {
        BuildStep::Install => {
            let _ = api.install();
            true
        },
        BuildStep::AllowNetwork { enabled } => {
            api.allow_network(enabled);
            true
        },
        BuildStep::AutoSbom { enabled } => {
            api.auto_sbom(enabled);
            true
        },
        BuildStep::SbomExcludes { patterns } => {
            api.sbom_excludes(patterns);
            true
        },
        _ => false,
    }
}

/// The phases of a build.
#[derive(Clone, Copy, Debug, PartialEq, Eq, Structural)]
pub enum BuildPhase {
    Loaded,
    Fetched,
    Extracted,
    Configured,
    Built,
    Tested,
    Staged,
    Patched,
    SBomed,
    Packaged,
    /// A phase failed. Nothing follows.
    Failed,
}

/// The place of a phase in the order of a build.
pub open spec fn phase_rank(phase: BuildPhase) -> nat {
    match phase {
        BuildPhase::Loaded => 0,
        BuildPhase::Fetched => 1,
        BuildPhase::Extracted => 2,
        BuildPhase::Configured => 3,
        BuildPhase::Built => 4,
        BuildPhase::Tested => 5,
        BuildPhase::Staged => 6,
        BuildPhase::Patched => 7,
        BuildPhase::SBomed => 8,
        BuildPhase::Packaged => 9,
        BuildPhase::Failed => 10,
    }
}

/// Whether a build in phase `from` may go on to phase `to`: to the next
/// phase, or from the built tree straight to the staged one, for testing
/// may be left out.
pub open spec fn may_follow(from: BuildPhase, to: BuildPhase) -> bool {
    from != BuildPhase::Failed && to != BuildPhase::Failed && (phase_rank(to) == phase_rank(from)
        + 1 || (from == BuildPhase::Built && to == BuildPhase::Staged))
}

/// The phase after an attempt to reach `to` from `from`: `to` when the
/// step is allowed and succeeded, else the failed phase.
pub open spec fn phase_after(from: BuildPhase, to: BuildPhase, succeeded: bool) -> BuildPhase {
    if succeeded && may_follow(from, to) {
        to
    } else {
        BuildPhase::Failed
    }
}

fn rank_of(phase: BuildPhase) -> (r: u8)
    ensures
        r == phase_rank(phase),
{
    match phase {
        BuildPhase::Loaded => 0,
        BuildPhase::Fetched => 1,
        BuildPhase::Extracted => 2,
        BuildPhase::Configured => 3,
        BuildPhase::Built => 4,
        BuildPhase::Tested => 5,
        BuildPhase::Staged => 6,
        BuildPhase::Patched => 7,
        BuildPhase::SBomed => 8,
        BuildPhase::Packaged => 9,
        BuildPhase::Failed => 10,
    }
}

impl BuildPhase {
    /// Moves a build on.
    pub fn advance(self, to: BuildPhase, succeeded: bool) -> (next: BuildPhase)
        ensures
            next == phase_after(self, to, succeeded),
    {
        let from_rank = rank_of(self);
        let to_rank = rank_of(to);
        let allowed = from_rank != 10 && to_rank != 10 && (to_rank == from_rank + 1 || (from_rank
            == 4 && to_rank == 6));
        if succeeded && allowed {
            to
        } else {
            BuildPhase::Failed
        }
    }

    /// Whether nothing follows this phase.
    pub fn is_terminal(self) -> (r: bool)
        ensures
            r == (self == BuildPhase::Packaged || self == BuildPhase::Failed),
    {
        let rank = rank_of(self);
        rank == 9 || rank == 10
    }
}

/// A build only moves forward, and a failed build stays failed: there is
/// no resuming.
pub proof fn law_builds_only_move_forward(from: BuildPhase, to: BuildPhase, succeeded: bool)
    ensures
        phase_after(from, to, succeeded) == BuildPhase::Failed || phase_rank(
            phase_after(from, to, succeeded),
        ) > phase_rank(from),
        from == BuildPhase::Failed ==> phase_after(from, to, succeeded) == BuildPhase::Failed,
        from == BuildPhase::Packaged ==> phase_after(from, to, succeeded) == BuildPhase::Failed,
        !succeeded ==> phase_after(from, to, succeeded) == BuildPhase::Failed,
{
}

} // verus!
