//! The build environment: its variables, the placeholder for the build
//! prefix, and the rules by which a command's outcome becomes a result.
//!
//! Running a command is the caller's part. The library prepares what is to
//! be run, with the placeholder replaced by the real build prefix, and
//! judges what came back.

use crate::errors::BuildError;
use crate::text::{decimal, join, join_texts, push_decimal, push_text, replace_all, replace_text, same_text, string_of, texts};
use vstd::prelude::*;

verus! {

/// An environment variable.
#[derive(Clone, Debug)]
pub struct EnvVar {
    pub name: String,
    pub value: String,
}

/// An environment variable as a plain value.
pub struct EnvVarView {
    pub name: Seq<char>,
    pub value: Seq<char>,
}

impl View for EnvVar {
    type V = EnvVarView;

    open spec fn view(&self) -> EnvVarView {
        EnvVarView { name: self.name@, value: self.value@ }
    }
}

/// The variables of a vector as plain values.
pub open spec fn var_views(v: Seq<EnvVar>) -> Seq<EnvVarView> {
    Seq::new(v.len(), |i: int| v[i]@)
}

/// The position of the first variable called `name`.
pub open spec fn var_index(vars: Seq<EnvVarView>, name: Seq<char>) -> Option<int>
    decreases vars.len(),
{
    if vars.len() == 0 {
        None
    } else if vars[0].name == name {
        Some(0)
    } else {
        match var_index(vars.skip(1), name) {
            Some(k) => Some(k + 1),
            None => None,
        }
    }
}

/// The value of the variable `name`: that of the first variable so called.
pub open spec fn lookup(vars: Seq<EnvVarView>, name: Seq<char>) -> Option<Seq<char>> {
    match var_index(vars, name) {
        Some(k) => Some(vars[k].value),
        None => None,
    }
}

/// The variables after `name` is set to `value`: the first variable so
/// called gets the value, or a new variable is added at the end.
pub open spec fn with_var(vars: Seq<EnvVarView>, name: Seq<char>, value: Seq<char>) -> Seq<
    EnvVarView,
> {
    match var_index(vars, name) {
        Some(k) => vars.update(k, EnvVarView { name, value }),
        None => vars.push(EnvVarView { name, value }),
    }
}

/// Finds the first variable called `name`.
pub fn find_var(vars: &Vec<EnvVar>, name: &str) -> (r: Option<usize>)
    ensures
        match r {
            Some(k) => k < vars.len() && var_index(var_views(vars@), name@) == Some(k as int)
                && vars@[k as int].name@ == name@,
            None => var_index(var_views(vars@), name@) is None,
        },
{
    let ghost all = var_views(vars@);
    let mut i: usize = 0;
    assert(all.skip(0) == all);
    while i < vars.len()
        invariant
            i <= vars.len(),
            all == var_views(vars@),
            var_index(all, name@) == match var_index(all.skip(i as int), name@) {
                Some(k) => Some(k + i),
                None => None,
            },
        decreases vars.len() - i,
    {
        assert(all.skip(i as int).skip(1) == all.skip(i + 1));
        assert(all.skip(i as int)[0] == vars@[i as int]@);
        if same_text(vars[i].name.as_str(), name) {
            return Some(i);
        }
        i += 1;
    }
    None
}

/// The value of the variable `name`.
pub fn get_var(vars: &Vec<EnvVar>, name: &str) -> (r: Option<String>)
    ensures
        match r {
            Some(value) => lookup(var_views(vars@), name@) == Some(value@),
            None => lookup(var_views(vars@), name@) is None,
        },
{
    match find_var(vars, name) {
        Some(k) => Some(vars[k].value.clone()),
        None => None,
    }
}

/// Sets the variable `name` to `value`.
pub fn set_var(vars: &mut Vec<EnvVar>, name: &str, value: String)
    ensures
        var_views(final(vars)@) == with_var(var_views(old(vars)@), name@, value@),
{
    match find_var(vars, name) {
        Some(k) => {
            vars[k].value = value;
            assert(var_views(vars@) == var_views(old(vars)@).update(
                k as int,
                EnvVarView { name: name@, value: value@ },
            ));
        },
        None => {
            let var = EnvVar { name: name.to_owned(), value };
            vars.push(var);
            assert(var_views(vars@) == var_views(old(vars)@).push(var@));
        },
    }
}

/// The position that `var_index` gives is that of a variable called `name`.
pub proof fn lemma_var_index_found(vars: Seq<EnvVarView>, name: Seq<char>)
    ensures
        match var_index(vars, name) {
            Some(k) => 0 <= k < vars.len() && vars[k].name == name,
            None => true,
        },
    decreases vars.len(),
{
    if vars.len() > 0 && vars[0].name != name {
        lemma_var_index_found(vars.skip(1), name);
    }
}

/// Where a name is found depends on the names alone.
proof fn lemma_var_index_by_names(a: Seq<EnvVarView>, b: Seq<EnvVarView>, name: Seq<char>)
    requires
        a.len() == b.len(),
        forall|i: int| 0 <= i < a.len() ==> a[i].name == b[i].name,
    ensures
        var_index(a, name) == var_index(b, name),
    decreases a.len(),
{
    if a.len() > 0 {
        assert(a[0].name == b[0].name);
        assert forall|i: int| 0 <= i < a.skip(1).len() implies a.skip(1)[i].name == b.skip(
            1,
        )[i].name by {
            assert(a.skip(1)[i] == a[i + 1]);
            assert(b.skip(1)[i] == b[i + 1]);
        }
        lemma_var_index_by_names(a.skip(1), b.skip(1), name);
    }
}

/// Where a name is found once one more variable stands at the end.
proof fn lemma_var_index_push(vars: Seq<EnvVarView>, last: EnvVarView, name: Seq<char>)
    ensures
        var_index(vars.push(last), name) == match var_index(vars, name) {
            Some(k) => Some(k),
            None => if last.name == name {
                Some(vars.len() as int)
            } else {
                None
            },
        },
    decreases vars.len(),
{
    let all = vars.push(last);
    if vars.len() == 0 {
        assert(all.skip(1) == vars);
    } else {
        assert(all.skip(1) == vars.skip(1).push(last));
        assert(all[0] == vars[0]);
        lemma_var_index_push(vars.skip(1), last, name);
    }
}

/// After a variable is set, it has the value, and every other variable has
/// the value it had.
pub proof fn law_set_then_lookup(
    vars: Seq<EnvVarView>,
    name: Seq<char>,
    value: Seq<char>,
    other: Seq<char>,
)
    ensures
        lookup(with_var(vars, name, value), name) == Some(value),
        other != name ==> lookup(with_var(vars, name, value), other) == lookup(vars, other),
{
    let entry = EnvVarView { name, value };
    lemma_var_index_found(vars, name);
    lemma_var_index_found(vars, other);
    match var_index(vars, name) {
        Some(k) => {
            let after = vars.update(k, entry);
            lemma_var_index_by_names(vars, after, name);
            lemma_var_index_by_names(vars, after, other);
        },
        None => {
            lemma_var_index_push(vars, entry, name);
            lemma_var_index_push(vars, entry, other);
        },
    }
}

/// The environment of one build.
#[derive(Clone, Debug)]
pub struct BuildEnvironment {
    /// The name of the package that is built.
    pub package_name: String,
    /// The directory under which this build works.
    pub build_prefix: String,
    /// The directory into which the build installs.
    pub staging_dir: String,
    /// The prefix under which the package will live once installed.
    pub live_prefix: String,
    /// The text that stands for the build prefix until a command runs.
    pub placeholder_prefix: String,
    /// The variables that every command of the build gets.
    pub env_vars: Vec<EnvVar>,
    /// Whether the recipe asked for the default compiler settings.
    pub with_defaults_called: bool,
}

/// Each text with the placeholder replaced by the prefix.
pub open spec fn replaced_texts(
    items: Seq<Seq<char>>,
    placeholder: Seq<char>,
    prefix: Seq<char>,
) -> Seq<Seq<char>> {
    Seq::new(items.len(), |i: int| replace_all(items[i], placeholder, prefix))
}

/// Each variable with the placeholder replaced by the prefix in its value.
pub open spec fn replaced_vars(
    vars: Seq<EnvVarView>,
    placeholder: Seq<char>,
    prefix: Seq<char>,
) -> Seq<EnvVarView> {
    Seq::new(
        vars.len(),
        |i: int|
            EnvVarView { name: vars[i].name, value: replace_all(vars[i].value, placeholder, prefix) },
    )
}

/// What is to be run for a command.
#[derive(Clone, Debug)]
pub struct PreparedCommand {
    pub program: String,
    pub args: Vec<String>,
    pub env: Vec<EnvVar>,
    pub working_dir: String,
    /// The program and its arguments on one line, for reports.
    pub description: String,
}

impl BuildEnvironment {
    /// The prefix under which the package will live once installed.
    pub fn get_live_prefix(&self) -> (p: &str)
        ensures
            p@ == self.live_prefix@,
    {
        self.live_prefix.as_str()
    }

    /// The directory into which the build installs.
    pub fn staging_dir(&self) -> (p: &str)
        ensures
            p@ == self.staging_dir@,
    {
        self.staging_dir.as_str()
    }

    /// The directory under which this build works.
    pub fn build_prefix(&self) -> (p: &str)
        ensures
            p@ == self.build_prefix@,
    {
        self.build_prefix.as_str()
    }

    /// The arguments with every occurrence of the placeholder replaced by
    /// the build prefix.
    pub fn replace_placeholder_paths_in_args(&self, args: &Vec<String>) -> (out: Vec<String>)
        ensures
            texts(out@) == replaced_texts(
                texts(args@),
                self.placeholder_prefix@,
                self.build_prefix@,
            ),
    {
        let mut out: Vec<String> = Vec::new();
        let mut i: usize = 0;
        let ghost goal = replaced_texts(
            texts(args@),
            self.placeholder_prefix@,
            self.build_prefix@,
        );
        while i < args.len()
            invariant
                i <= args.len(),
                goal == replaced_texts(
                    texts(args@),
                    self.placeholder_prefix@,
                    self.build_prefix@,
                ),
                texts(out@) == goal.take(i as int),
            decreases args.len() - i,
        {
            let item = replace_text(
                args[i].as_str(),
                self.placeholder_prefix.as_str(),
                self.build_prefix.as_str(),
            );
            assert(goal.take(i + 1) == goal.take(i as int).push(item@));
            push_text(&mut out, item);
            i += 1;
        }
        assert(goal.take(args.len() as int) == goal);
        out
    }

    /// The variables of the environment with every occurrence of the
    /// placeholder in a value replaced by the build prefix.
    pub fn replace_placeholder_paths_in_env(&self) -> (out: Vec<EnvVar>)
        ensures
            var_views(out@) == replaced_vars(
                var_views(self.env_vars@),
                self.placeholder_prefix@,
                self.build_prefix@,
            ),
    {
        let mut out: Vec<EnvVar> = Vec::new();
        let mut i: usize = 0;
        let ghost goal = replaced_vars(
            var_views(self.env_vars@),
            self.placeholder_prefix@,
            self.build_prefix@,
        );
        while i < self.env_vars.len()
            invariant
                i <= self.env_vars.len(),
                goal == replaced_vars(
                    var_views(self.env_vars@),
                    self.placeholder_prefix@,
                    self.build_prefix@,
                ),
                var_views(out@) == goal.take(i as int),
            decreases self.env_vars.len() - i,
        {
            let value = replace_text(
                self.env_vars[i].value.as_str(),
                self.placeholder_prefix.as_str(),
                self.build_prefix.as_str(),
            );
            let var = EnvVar { name: self.env_vars[i].name.clone(), value };
            let ghost before = out@;
            out.push(var);
            assert(var_views(out@) == var_views(before).push(var@));
            assert(goal.take(i + 1) == goal.take(i as int).push(var@));
            i += 1;
        }
        assert(goal.take(self.env_vars.len() as int) == goal);
        out
    }

    /// What is to be run for `program` with `args`: the placeholder is
    /// replaced in the arguments and in the environment, and the command
    /// runs in `working_dir` or, without one, in the build prefix.
    pub fn prepare_command(
        &self,
        program: &str,
        args: &Vec<String>,
        working_dir: Option<&str>,
    ) -> (cmd: PreparedCommand)
        ensures
            cmd.program@ == program@,
            texts(cmd.args@) == replaced_texts(
                texts(args@),
                self.placeholder_prefix@,
                self.build_prefix@,
            ),
            var_views(cmd.env@) == replaced_vars(
                var_views(self.env_vars@),
                self.placeholder_prefix@,
                self.build_prefix@,
            ),
            cmd.working_dir@ == match working_dir {
                Some(dir) => dir@,
                None => self.build_prefix@,
            },
            cmd.description@ == command_line(program@, texts(cmd.args@)),
    {
        let replaced = self.replace_placeholder_paths_in_args(args);
        let description = describe_command(program, &replaced);
        PreparedCommand {
            program: program.to_owned(),
            args: replaced,
            env: self.replace_placeholder_paths_in_env(),
            working_dir: match working_dir {
                Some(dir) => dir.to_owned(),
                None => self.build_prefix.clone(),
            },
            description,
        }
    }
}

/// An argument in which the placeholder does not occur is left as it is.
pub proof fn law_replacement_leaves_clean_args(
    arg: Seq<char>,
    placeholder: Seq<char>,
    prefix: Seq<char>,
)
    requires
        !crate::text::contains_text(arg, placeholder),
    ensures
        replace_all(arg, placeholder, prefix) == arg,
{
    crate::text::lemma_replace_absent(arg, placeholder, prefix);
}

/// A program and its arguments on one line, separated by single spaces.
pub open spec fn command_line(program: Seq<char>, args: Seq<Seq<char>>) -> Seq<char> {
    program + seq![' '] + join(args, seq![' '])
}

/// Writes a program and its arguments on one line.
pub fn describe_command(program: &str, args: &Vec<String>) -> (out: String)
    ensures
        out@ == command_line(program@, texts(args@)),
{
    let joined = join_texts(args, " ");
    let mut out = program.to_owned();
    proof {
        reveal_strlit(" ");
        assert(" "@ == seq![' ']);
    }
    out.append(" ");
    out.append(joined.as_str());
    out
}

/// What a command left behind.
#[derive(Clone, Debug)]
pub struct BuildCommandResult {
    /// Whether the command exited with success.
    pub success: bool,
    /// The exit code, if the command exited by itself.
    pub exit_code: Option<i32>,
    /// Everything written to standard output.
    pub stdout: String,
    /// Everything written to standard error.
    pub stderr: String,
}

/// The decimal text of a signed number.
pub open spec fn signed_decimal(n: int) -> Seq<char> {
    if n < 0 {
        seq!['-'] + decimal((-n) as nat)
    } else {
        decimal(n as nat)
    }
}

/// How an exit code is shown: `Some(3)`, `Some(-1)` or `None`.
pub open spec fn exit_code_text(code: Option<i32>) -> Seq<char> {
    match code {
        Some(n) => seq!['S', 'o', 'm', 'e', '('] + signed_decimal(n as int) + seq![')'],
        None => seq!['N', 'o', 'n', 'e'],
    }
}

/// Writes an exit code.
pub fn show_exit_code(code: Option<i32>) -> (out: String)
    ensures
        out@ == exit_code_text(code),
{
    let mut v: Vec<char> = Vec::new();
    match code {
        Some(n) => {
            v.push('S');
            v.push('o');
            v.push('m');
            v.push('e');
            v.push('(');
            if n < 0 {
                v.push('-');
                let m: u64 = (-(n as i64)) as u64;
                push_decimal(&mut v, m);
            } else {
                push_decimal(&mut v, n as u64);
            }
            v.push(')');
        },
        None => {
            v.push('N');
            v.push('o');
            v.push('n');
            v.push('e');
        },
    }
    string_of(&v)
}

/// The message of a command that exited with a failure.
pub open spec fn failure_message(
    program: Seq<char>,
    args: Seq<Seq<char>>,
    exit_code: Option<i32>,
    stderr: Seq<char>,
) -> Seq<char> {
    command_line(program, args) + " failed with exit code "@ + exit_code_text(exit_code) + ": "@
        + stderr
}

/// Judges a command that ran: the lines of each stream are joined with
/// line feeds; success gives the result, failure an error whose message
/// names the program, the arguments as they were given, the exit code and
/// what was written to standard error.
pub fn command_outcome(
    program: &str,
    args: &Vec<String>,
    success: bool,
    exit_code: Option<i32>,
    stdout_lines: &Vec<String>,
    stderr_lines: &Vec<String>,
) -> (r: Result<BuildCommandResult, BuildError>)
    ensures
        match r {
            Ok(result) => success && result.success && result.exit_code == exit_code
                && result.stdout@ == join(texts(stdout_lines@), seq!['\n']) && result.stderr@
                == join(texts(stderr_lines@), seq!['\n']),
            Err(BuildError::CompileFailed { message }) => !success && message@ == failure_message(
                program@,
                texts(args@),
                exit_code,
                join(texts(stderr_lines@), seq!['\n']),
            ),
            Err(_) => false,
        },
{
    proof {
        reveal_strlit("\n");
        assert("\n"@ == seq!['\n']);
    }
    let stdout = join_texts(stdout_lines, "\n");
    let stderr = join_texts(stderr_lines, "\n");
    if success {
        Ok(BuildCommandResult { success: true, exit_code, stdout, stderr })
    } else {
        let mut message = describe_command(program, args);
        message.append(" failed with exit code ");
        let code = show_exit_code(exit_code);
        message.append(code.as_str());
        message.append(": ");
        message.append(stderr.as_str());
        Err(BuildError::CompileFailed { message })
    }
}

/// What is told of a command of the build and of the lines that it
/// writes.
#[derive(Clone, Debug, PartialEq, Eq)]
pub enum BuildEvent {
    /// A command is about to run.
    BuildStepStarted { step: String, package: String },
    /// What exactly is run, and where.
    DebugLog { message: String, working_dir: String },
    /// A line of the error output.
    Error { message: String, details: Option<String> },
    /// A line of the output of a build step.
    BuildStepOutput { package: String, line: String },
}

/// The two events that announce a command: that a step of the package
/// starts, and what is executed in which directory.
pub fn start_events(package: &str, command: &PreparedCommand) -> (events: (BuildEvent, BuildEvent))
    ensures
        events.0 matches BuildEvent::BuildStepStarted { step, package: p } && step@
            == command.description@ && p@ == package@,
        events.1 matches BuildEvent::DebugLog { message, working_dir } && message@ == "Executing: "@
            + command.description@ && working_dir@ == command.working_dir@,
{
    (
        BuildEvent::BuildStepStarted {
            step: command.description.clone(),
            package: package.to_owned(),
        },
        BuildEvent::DebugLog {
            message: crate::text::concat2("Executing: ", command.description.as_str()),
            working_dir: command.working_dir.clone(),
        },
    )
}

/// The event for a line that a command has written: a line of the error
/// output is told as an error of the build, any other as output of the
/// package that is built.
pub fn output_event(package: &str, line: &str, is_error: bool) -> (event: BuildEvent)
    ensures
        match event {
            BuildEvent::Error { message, details } => is_error && message@ == line@ && (
            details matches Some(d) && d@ == "Build stderr"@),
            BuildEvent::BuildStepOutput { package: p, line: l } => !is_error && p@ == package@
                && l@ == line@,
            _ => false,
        },
{
    if is_error {
        BuildEvent::Error { message: line.to_owned(), details: Some("Build stderr".to_owned()) }
    } else {
        BuildEvent::BuildStepOutput { package: package.to_owned(), line: line.to_owned() }
    }
}

/// The error for a command that could not be started or waited for: the
/// message is the program, a colon and the reason.
pub fn command_not_run(program: &str, reason: &str) -> (e: BuildError)
    ensures
        e matches BuildError::CompileFailed { message } && message@ == program@ + ": "@ + reason@,
{
    let mut message = program.to_owned();
    message.append(": ");
    message.append(reason);
    BuildError::CompileFailed { message }
}

/// The outcome of a whole build.
#[derive(Clone, Debug)]
pub struct BuildResult {
    /// Where the package file was written.
    pub package_path: String,
    /// The bill-of-materials files that were made.
    pub sbom_files: Vec<String>,
    /// The log of the build.
    pub build_log: String,
    /// Whether the recipe asked for the package to be installed.
    pub install_requested: bool,
}

impl BuildResult {
    /// A result for the package at `package_path`, with nothing else yet.
    pub fn new(package_path: String) -> (r: BuildResult)
        ensures
            r.package_path == package_path,
            r.sbom_files@.len() == 0,
            r.build_log@.len() == 0,
            !r.install_requested,
    {
        BuildResult {
            package_path,
            sbom_files: Vec::new(),
            build_log: String::new(),
            install_requested: false,
        }
    }

    /// Records one more bill-of-materials file.
    pub fn add_sbom_file(&mut self, path: String)
        ensures
            *final(self) == (BuildResult {
                sbom_files: final(self).sbom_files,
                ..*old(self)
            }),
            final(self).sbom_files@ == old(self).sbom_files@.push(path),
    {
        self.sbom_files.push(path);
    }

    /// Replaces the build log.
    pub fn set_build_log(&mut self, log: String)
        ensures
            *final(self) == (BuildResult { build_log: log, ..*old(self) }),
    {
        self.build_log = log;
    }

    /// The same result with the install request set as given.
    pub fn with_install_requested(self, install_requested: bool) -> (r: BuildResult)
        ensures
            r == (BuildResult { install_requested, ..self }),
    {
        let mut r = self;
        r.install_requested = install_requested;
        r
    }
}

} // verus!
