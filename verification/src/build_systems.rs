//! What the build-system drivers share: the context of a build, the
//! results of a test run, and the rule by which defaults give way to the
//! arguments of the recipe.

use crate::environment::{get_var, lookup, var_views, BuildEnvironment, EnvVar};
use crate::text::{any_prefixed, any_starts_with, before_first, push_text, text_before_first, texts};
use vstd::prelude::*;

verus! {

/// What a build system can do and what it is given by default.
#[derive(Clone, Debug)]
pub struct BuildSystemConfig {
    pub supports_out_of_source: bool,
    pub supports_parallel_builds: bool,
    pub supports_incremental_builds: bool,
    pub default_configure_args: Vec<String>,
    pub default_build_args: Vec<String>,
    pub env_prefix: Option<String>,
    pub watch_patterns: Vec<String>,
}

/// The compiler caches that a build may use.
#[derive(Clone, Copy, Debug, PartialEq, Eq, Structural)]
pub enum CompilerCacheType {
    CCache,
    SCCache,
    DistCC,
}

/// How a build uses a compiler cache.
#[derive(Clone, Copy, Debug, PartialEq, Eq, Structural)]
pub struct CacheConfig {
    pub use_compiler_cache: bool,
    pub compiler_cache_type: CompilerCacheType,
}

/// What a driver knows of the build it runs.
#[derive(Clone, Debug)]
pub struct BuildSystemContext {
    pub env: BuildEnvironment,
    pub source_dir: String,
    pub build_dir: String,
    /// The number of parallel jobs; 1 or less means one after the other.
    pub jobs: usize,
    /// Whether the build phases may use the network.
    pub network_allowed: bool,
    /// Variables that the drivers add for their commands.
    pub extra_env: Vec<EnvVar>,
    pub cache_config: Option<CacheConfig>,
    /// Whether the build is for macOS.
    pub target_macos: bool,
}

/// The value that a command of the build sees for `name`: what a driver
/// added wins over the environment of the build.
pub open spec fn context_var(ctx: &BuildSystemContext, name: Seq<char>) -> Option<Seq<char>> {
    match lookup(var_views(ctx.extra_env@), name) {
        Some(value) => Some(value),
        None => lookup(var_views(ctx.env.env_vars@), name),
    }
}

impl BuildSystemContext {
    /// The context of a build in `source_dir`: it builds in place, one job
    /// at a time, without network, cache or added variables.
    pub fn new(env: BuildEnvironment, source_dir: String, target_macos: bool) -> (ctx:
        BuildSystemContext)
        ensures
            ctx.env == env,
            ctx.source_dir == source_dir,
            ctx.build_dir@ == source_dir@,
            ctx.jobs == 1,
            !ctx.network_allowed,
            ctx.extra_env@.len() == 0,
            ctx.cache_config is None,
            ctx.target_macos == target_macos,
    {
        let build_dir = source_dir.clone();
        BuildSystemContext {
            env,
            source_dir,
            build_dir,
            jobs: 1,
            network_allowed: false,
            extra_env: Vec::new(),
            cache_config: None,
            target_macos,
        }
    }

    /// The value that a command of the build sees for `name`.
    pub fn env_var(&self, name: &str) -> (r: Option<String>)
        ensures
            match r {
                Some(value) => context_var(self, name@) == Some(value@),
                None => context_var(self, name@) is None,
            },
    {
        match get_var(&self.extra_env, name) {
            Some(value) => Some(value),
            None => get_var(&self.env.env_vars, name),
        }
    }
}

/// A test that failed.
#[derive(Clone, Debug)]
pub struct TestFailure {
    pub name: String,
    pub message: String,
    pub details: Option<String>,
}

/// A failed test as a plain value.
pub struct TestFailureView {
    pub name: Seq<char>,
    pub message: Seq<char>,
    pub details: Option<Seq<char>>,
}

impl View for TestFailure {
    type V = TestFailureView;

    open spec fn view(&self) -> TestFailureView {
        TestFailureView {
            name: self.name@,
            message: self.message@,
            details: match self.details {
                Some(d) => Some(d@),
                None => None,
            },
        }
    }
}

/// The failures of a vector as plain values.
pub open spec fn failure_views(v: Seq<TestFailure>) -> Seq<TestFailureView> {
    Seq::new(v.len(), |i: int| v[i]@)
}

/// The outcome of a test run.
#[derive(Clone, Debug)]
pub struct TestResults {
    pub total: usize,
    pub passed: usize,
    pub failed: usize,
    pub skipped: usize,
    /// How long the run took, in milliseconds.
    pub duration_ms: u64,
    /// Everything the run wrote: standard output, a line feed, standard
    /// error.
    pub output: String,
    pub failures: Vec<TestFailure>,
}

/// The single argument `arg`, unless one of the recipe's arguments begins
/// with `key`.
pub open spec fn unless_given(user: Seq<Seq<char>>, key: Seq<char>, arg: Seq<char>) -> Seq<
    Seq<char>,
> {
    if any_prefixed(user, key) {
        Seq::<Seq<char>>::empty()
    } else {
        seq![arg]
    }
}

/// The test "none of the recipe's arguments begins with what this default
/// has before its `=`".
pub open spec fn not_overridden(user: Seq<Seq<char>>) -> spec_fn(Seq<char>) -> bool {
    |d: Seq<char>| !any_prefixed(user, before_first(d, '='))
}

/// The defaults that the recipe's arguments leave standing.
pub open spec fn standing_defaults(defaults: Seq<Seq<char>>, user: Seq<Seq<char>>) -> Seq<
    Seq<char>,
> {
    defaults.filter(not_overridden(user))
}

/// Appends `arg` unless one of the recipe's arguments begins with `key`.
pub fn push_unless_given(args: &mut Vec<String>, user: &Vec<String>, key: &str, arg: String)
    ensures
        texts(final(args)@) == texts(old(args)@) + unless_given(texts(user@), key@, arg@),
{
    if !any_starts_with(user, key) {
        push_text(args, arg);
        assert(texts(old(args)@).push(arg@) == texts(old(args)@) + seq![arg@]);
    } else {
        assert(texts(old(args)@) + Seq::<Seq<char>>::empty() == texts(old(args)@));
    }
}

/// Appends the defaults that the recipe's arguments leave standing.
pub fn push_standing_defaults(args: &mut Vec<String>, defaults: &Vec<String>, user: &Vec<String>)
    ensures
        texts(final(args)@) == texts(old(args)@) + standing_defaults(
            texts(defaults@),
            texts(user@),
        ),
{
    let ghost all = texts(defaults@);
    let ghost keep = not_overridden(texts(user@));
    let mut i: usize = 0;
    proof {
        reveal(Seq::filter);
        assert(all.take(0).filter(keep) == Seq::<Seq<char>>::empty());
        assert(texts(args@) + Seq::<Seq<char>>::empty() == texts(args@));
    }
    while i < defaults.len()
        invariant
            i <= defaults.len(),
            all == texts(defaults@),
            keep == not_overridden(texts(user@)),
            texts(args@) == texts(old(args)@) + all.take(i as int).filter(keep),
        decreases defaults.len() - i,
    {
        proof {
            crate::seq_lemmas::lemma_filter_step(all, keep, i as int);
        }
        let key = text_before_first(defaults[i].as_str(), '=');
        if !any_starts_with(user, key.as_str()) {
            let ghost kept = all.take(i as int).filter(keep);
            push_text(args, defaults[i].clone());
            assert((texts(old(args)@) + kept).push(all[i as int]) == texts(old(args)@) + kept.push(
                all[i as int],
            ));
        }
        i += 1;
    }
    assert(all.take(defaults.len() as int) == all);
}

/// The result of a step that ran a command: an error with the driver's
/// message when the command did not succeed.
pub open spec fn step_message(what: Seq<char>, stderr: Seq<char>) -> Seq<char> {
    what + ": "@ + stderr
}

/// The message of a failed step: what failed, a colon, and what the command
/// wrote to standard error.
pub fn failed_step_message(what: &str, stderr: &str) -> (out: String)
    ensures
        out@ == step_message(what@, stderr@),
{
    let mut out = what.to_owned();
    out.append(": ");
    out.append(stderr);
    out
}

} // verus!
