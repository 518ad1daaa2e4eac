//! The state that a recipe builds up while it runs, and the decisions of
//! its steps: which file a download is stored as, how a repository is
//! cloned, which arguments `configure` and `make` get.
//!
//! Downloading, cloning and running commands are the caller's part; the
//! functions here say what is to be done and record what was done.

use crate::archive::{archive_format, format_of, ArchiveFormat};
use crate::build_systems::BuildSystemContext;
use crate::environment::{set_var, var_views, with_var, BuildCommandResult, BuildEnvironment, EnvVar, EnvVarView};
use crate::errors::BuildError;
use crate::hash::{blake3_digest, hex_of};
use crate::paths::{after_last, join_path, joined, strip_suffix, text_after_last, without_suffix};
use crate::text::{any_prefixed, any_starts_with, concat2, extend_texts, has_prefix, join, join_texts, push_text, same_text, text_starts_with, texts};
use vstd::prelude::*;

verus! {

/// A source that has been fetched: where it came from and where it is.
#[derive(Clone, Debug)]
pub struct Download {
    pub url: String,
    pub path: String,
}

/// A fetched source as a plain value.
pub struct DownloadView {
    pub url: Seq<char>,
    pub path: Seq<char>,
}

impl View for Download {
    type V = DownloadView;

    open spec fn view(&self) -> DownloadView {
        DownloadView { url: self.url@, path: self.path@ }
    }
}

/// The downloads of a vector as plain values.
pub open spec fn download_views(v: Seq<Download>) -> Seq<DownloadView> {
    Seq::new(v.len(), |i: int| v[i]@)
}

/// Where the source of `url` is, if it has been fetched: the path of the
/// first download from that URL.
pub open spec fn fetched_path(downloads: Seq<DownloadView>, url: Seq<char>) -> Option<Seq<char>>
    decreases downloads.len(),
{
    if downloads.len() == 0 {
        None
    } else if downloads[0].url == url {
        Some(downloads[0].path)
    } else {
        fetched_path(downloads.skip(1), url)
    }
}

/// The state of a recipe run.
#[derive(Clone, Debug)]
pub struct BuilderApi {
    /// The directory in which sources are unpacked and built.
    pub working_dir: String,
    /// The sources fetched so far.
    pub downloads: Vec<Download>,
    /// Whether the build phases may use the network.
    pub allow_network: bool,
    /// Whether a bill of materials is made.
    pub auto_sbom: bool,
    /// The patterns of files left out of the bill of materials.
    pub sbom_excludes: Vec<String>,
    /// Whether the recipe asked for the package to be installed.
    pub install_requested: bool,
    /// What the build systems reported, such as the path of a wheel.
    pub build_metadata: Vec<EnvVar>,
}

/// What `fetch` has to do for a URL.
#[derive(Clone, Debug)]
pub enum FetchPlan {
    /// The source is there already, at this path.
    Cached { path: String },
    /// The source is to be downloaded and stored under this name, at this
    /// path.
    Download { file_name: String, path: String },
}

/// What `git` has to do for a URL.
#[derive(Clone, Debug)]
pub enum GitPlan {
    /// The repository is there already, at this path.
    Cached { path: String },
    /// The repository is to be cloned to this path, by `git` with these
    /// arguments.
    Clone { path: String, args: Vec<String> },
}

/// The name of the repository that a URL points to: what follows its last
/// slash, without the ending `.git`.
pub open spec fn repo_name(url: Seq<char>) -> Seq<char> {
    without_suffix(after_last(url, '/'), ".git"@)
}

/// The arguments of `git` for a shallow clone of `url` at `reference` into
/// `path`. The reference `HEAD` asks for no branch.
pub open spec fn clone_args(url: Seq<char>, reference: Seq<char>, path: Seq<char>) -> Seq<
    Seq<char>,
> {
    if reference == "HEAD"@ {
        seq!["clone"@, "--depth"@, "1"@, url, path]
    } else {
        seq!["clone"@, "--depth"@, "1"@, "--branch"@, reference, url, path]
    }
}

/// The arguments of `configure`: the recipe's, with the live prefix as the
/// prefix put in front unless the recipe names one.
pub open spec fn configure_args(live_prefix: Seq<char>, user: Seq<Seq<char>>) -> Seq<Seq<char>> {
    if any_prefixed(user, "--prefix="@) {
        user
    } else {
        seq!["--prefix="@ + live_prefix] + user
    }
}

/// The arguments of `make`: the recipe's, with every `DESTDIR=` argument
/// pointing to the staging directory.
pub open spec fn make_args(staging_dir: Seq<char>, user: Seq<Seq<char>>) -> Seq<Seq<char>> {
    Seq::new(
        user.len(),
        |i: int|
            if has_prefix(user[i], "DESTDIR="@) {
                "DESTDIR="@ + staging_dir
            } else {
                user[i]
            },
    )
}

/// The metadata after the variables of a Python build are taken over: each
/// variable whose name begins with `PYTHON_` is set, in order.
pub open spec fn with_python_metadata(
    metadata: Seq<EnvVarView>,
    extra_env: Seq<EnvVarView>,
) -> Seq<EnvVarView>
    decreases extra_env.len(),
{
    if extra_env.len() == 0 {
        metadata
    } else {
        let before = with_python_metadata(metadata, extra_env.drop_last());
        let var = extra_env.last();
        if has_prefix(var.name, "PYTHON_"@) {
            with_var(before, var.name, var.value)
        } else {
            before
        }
    }
}

/// The archives among the downloads: the path of each download whose name
/// announces an archive, with the kind of archive, in order.
pub open spec fn archives_among(downloads: Seq<DownloadView>) -> Seq<(Seq<char>, ArchiveFormat)>
    decreases downloads.len(),
{
    if downloads.len() == 0 {
        Seq::<(Seq<char>, ArchiveFormat)>::empty()
    } else {
        let before = archives_among(downloads.drop_last());
        match format_of(downloads.last().path) {
            Some(format) => before.push((downloads.last().path, format)),
            None => before,
        }
    }
}

/// Paths with their kinds of archive as plain values.
pub open spec fn archive_views(v: Seq<(String, ArchiveFormat)>) -> Seq<(Seq<char>, ArchiveFormat)> {
    Seq::new(v.len(), |i: int| (v[i].0@, v[i].1))
}

impl BuilderApi {
    /// The state at the start of a recipe: nothing fetched, no network for
    /// the build phases, a bill of materials that leaves out debug symbols
    /// and static libraries, and no install requested.
    pub fn new(working_dir: String) -> (api: BuilderApi)
        ensures
            api.working_dir == working_dir,
            api.downloads@.len() == 0,
            !api.allow_network,
            api.auto_sbom,
            texts(api.sbom_excludes@) == seq!["./*.dSYM"@, "./*.pdb"@, "./*.a"@, "./*.la"@],
            !api.install_requested,
            api.build_metadata@.len() == 0,
    {
        let mut sbom_excludes: Vec<String> = Vec::new();
        push_text(&mut sbom_excludes, "./*.dSYM".to_owned());
        push_text(&mut sbom_excludes, "./*.pdb".to_owned());
        push_text(&mut sbom_excludes, "./*.a".to_owned());
        push_text(&mut sbom_excludes, "./*.la".to_owned());
        BuilderApi {
            working_dir,
            downloads: Vec::new(),
            allow_network: false,
            auto_sbom: true,
            sbom_excludes,
            install_requested: false,
            build_metadata: Vec::new(),
        }
    }

    /// Allows or forbids the network for the build phases. Fetching sources
    /// is not a build phase and is always allowed.
    pub fn allow_network(&mut self, allow: bool) -> (r: &mut Self)
        ensures
            *r == (BuilderApi { allow_network: allow, ..*old(self) }),
            *final(self) == *final(r),
    {
        self.allow_network = allow;
        self
    }

    /// Moves the working directory, as after a clone.
    pub fn set_working_dir(&mut self, new_working_dir: String)
        ensures
            *final(self) == (BuilderApi { working_dir: new_working_dir, ..*old(self) }),
    {
        self.working_dir = new_working_dir;
    }

    /// Where the source of `url` is, if it has been fetched.
    pub fn cached(&self, url: &str) -> (r: Option<String>)
        ensures
            match r {
                Some(path) => fetched_path(download_views(self.downloads@), url@) == Some(path@),
                None => fetched_path(download_views(self.downloads@), url@) is None,
            },
    {
        let ghost all = download_views(self.downloads@);
        let mut i: usize = 0;
        assert(all.skip(0) == all);
        while i < self.downloads.len()
            invariant
                i <= self.downloads.len(),
                all == download_views(self.downloads@),
                fetched_path(all, url@) == fetched_path(all.skip(i as int), url@),
            decreases self.downloads.len() - i,
        {
            assert(all.skip(i as int).skip(1) == all.skip(i + 1));
            assert(all.skip(i as int)[0] == self.downloads@[i as int]@);
            if same_text(self.downloads[i].url.as_str(), url) {
                return Some(self.downloads[i].path.clone());
            }
            i += 1;
        }
        None
    }

    /// Records that the source of `url` is at `path`.
    pub fn record_download(&mut self, url: &str, path: &str)
        ensures
            download_views(final(self).downloads@) == download_views(old(self).downloads@).push(
                DownloadView { url: url@, path: path@ },
            ),
            *final(self) == (BuilderApi { downloads: final(self).downloads, ..*old(self) }),
    {
        let d = Download { url: url.to_owned(), path: path.to_owned() };
        self.downloads.push(d);
        assert(download_views(self.downloads@) == download_views(old(self).downloads@).push(d@));
    }

    /// What is to be done to fetch `url`: nothing if it has been fetched;
    /// else it is stored in the working directory under the name that
    /// follows the last slash of the URL.
    pub fn fetch_plan(&self, url: &str) -> (plan: FetchPlan)
        ensures
            match fetched_path(download_views(self.downloads@), url@) {
                Some(known) => plan matches FetchPlan::Cached { path } && path@ == known,
                None => plan matches FetchPlan::Download { file_name, path } && file_name@
                    == after_last(url@, '/') && path@ == joined(
                    self.working_dir@,
                    after_last(url@, '/'),
                ),
            },
    {
        match self.cached(url) {
            Some(path) => FetchPlan::Cached { path },
            None => {
                let file_name = text_after_last(url, '/');
                let path = join_path(self.working_dir.as_str(), file_name.as_str());
                FetchPlan::Download { file_name, path }
            },
        }
    }

    /// Judges a download. When the content has the expected hash, written
    /// in lowercase hexadecimal, the download is recorded and the kind of
    /// archive to unpack, if any, is returned. When it has not, nothing is
    /// recorded and the error names the file and both hashes; the caller
    /// deletes the file.
    pub fn finish_fetch(
        &mut self,
        url: &str,
        file_name: &str,
        path: &str,
        expected_hash: &str,
        content: &[u8],
    ) -> (r: Result<Option<ArchiveFormat>, BuildError>)
        ensures
            match r {
                Ok(format) => expected_hash@ == hex_of(blake3_digest(content@)) && format
                    == format_of(path@) && download_views(final(self).downloads@)
                    == download_views(old(self).downloads@).push(
                    DownloadView { url: url@, path: path@ },
                ) && *final(self) == (BuilderApi {
                    downloads: final(self).downloads,
                    ..*old(self)
                }),
                Err(BuildError::HashMismatch { file, expected, actual }) => expected_hash@
                    != hex_of(blake3_digest(content@)) && file@ == file_name@ && expected@
                    == expected_hash@ && actual@ == hex_of(blake3_digest(content@)) && *final(self)
                    == *old(self),
                Err(_) => false,
            },
    {
        let actual = crate::hash::Hash::from_data(content).to_hex();
        if !same_text(actual.as_str(), expected_hash) {
            return Err(
                BuildError::HashMismatch {
                    file: file_name.to_owned(),
                    expected: expected_hash.to_owned(),
                    actual,
                },
            );
        }
        self.record_download(url, path);
        Ok(archive_format(path))
    }

    /// What is to be done to clone `url` at `reference`: nothing if it has
    /// been cloned; else a shallow clone into the working directory, under
    /// the name of the repository.
    pub fn git_plan(&self, url: &str, reference: &str) -> (plan: GitPlan)
        ensures
            match fetched_path(download_views(self.downloads@), url@) {
                Some(known) => plan matches GitPlan::Cached { path } && path@ == known,
                None => plan matches GitPlan::Clone { path, args } && path@ == joined(
                    self.working_dir@,
                    repo_name(url@),
                ) && texts(args@) == clone_args(url@, reference@, path@),
            },
    {
        match self.cached(url) {
            Some(path) => GitPlan::Cached { path },
            None => {
                let last = text_after_last(url, '/');
                let name = strip_suffix(last.as_str(), ".git");
                let path = join_path(self.working_dir.as_str(), name.as_str());
                let mut args: Vec<String> = Vec::new();
                push_text(&mut args, "clone".to_owned());
                push_text(&mut args, "--depth".to_owned());
                push_text(&mut args, "1".to_owned());
                if !same_text(reference, "HEAD") {
                    push_text(&mut args, "--branch".to_owned());
                    push_text(&mut args, reference.to_owned());
                }
                push_text(&mut args, url.to_owned());
                push_text(&mut args, path.clone());
                assert(texts(args@) =~= clone_args(url@, reference@, path@));
                GitPlan::Clone { path, args }
            },
        }
    }

    /// Judges a clone. After a successful one the repository is recorded
    /// and becomes the working directory. After a failed one nothing
    /// changes and the error says what `git` wrote to standard error.
    pub fn finish_git(&mut self, url: &str, path: &str, success: bool, stderr: &str) -> (r: Result<
        String,
        BuildError,
    >)
        ensures
            match r {
                Ok(cloned) => success && cloned@ == path@ && final(self).working_dir@ == path@
                    && download_views(final(self).downloads@) == download_views(
                    old(self).downloads@,
                ).push(DownloadView { url: url@, path: path@ }) && *final(self) == (BuilderApi {
                    downloads: final(self).downloads,
                    working_dir: final(self).working_dir,
                    ..*old(self)
                }),
                Err(BuildError::GitCloneFailed { message }) => !success && message@
                    == "Failed to clone "@ + url@ + ": "@ + stderr@ && *final(self) == *old(self),
                Err(_) => false,
            },
    {
        if !success {
            let mut message = concat2("Failed to clone ", url);
            message.append(": ");
            message.append(stderr);
            return Err(BuildError::GitCloneFailed { message });
        }
        self.record_download(url, path);
        self.set_working_dir(path.to_owned());
        Ok(path.to_owned())
    }

    /// The arguments of `patch` that apply the patch file at `patch_path`.
    pub fn patch_args(patch_path: &str) -> (args: Vec<String>)
        ensures
            texts(args@) == seq!["-p1"@, "-i"@, patch_path@],
    {
        let mut args: Vec<String> = Vec::new();
        push_text(&mut args, "-p1".to_owned());
        push_text(&mut args, "-i".to_owned());
        push_text(&mut args, patch_path.to_owned());
        args
    }

    /// The context in which a build system runs for this recipe. CMake and
    /// Meson build in the directory `build` under the working directory,
    /// the others in the working directory itself.
    pub fn build_context(&self, env: BuildEnvironment, out_of_source: bool, target_macos: bool) -> (ctx:
        BuildSystemContext)
        ensures
            ctx.env == env,
            ctx.source_dir@ == self.working_dir@,
            ctx.build_dir@ == if out_of_source {
                joined(self.working_dir@, "build"@)
            } else {
                self.working_dir@
            },
            ctx.network_allowed == self.allow_network,
            ctx.jobs == 1,
            ctx.extra_env@.len() == 0,
            ctx.cache_config is None,
            ctx.target_macos == target_macos,
    {
        let mut ctx = BuildSystemContext::new(env, self.working_dir.clone(), target_macos);
        if out_of_source {
            ctx.build_dir = join_path(self.working_dir.as_str(), "build");
        }
        ctx.network_allowed = self.allow_network;
        ctx
    }

    /// The result reported when a build system has configured, built and
    /// installed without failure.
    pub fn build_completed(system: &str) -> (r: BuildCommandResult)
        ensures
            r.success,
            r.exit_code == Some(0i32),
            r.stdout@ == system@ + " build completed successfully"@,
            r.stderr@.len() == 0,
    {
        BuildCommandResult {
            success: true,
            exit_code: Some(0),
            stdout: concat2(system, " build completed successfully"),
            stderr: String::new(),
        }
    }

    /// Takes over what a Python build reported in its variables.
    pub fn collect_python_metadata(&mut self, extra_env: &Vec<EnvVar>)
        ensures
            var_views(final(self).build_metadata@) == with_python_metadata(
                var_views(old(self).build_metadata@),
                var_views(extra_env@),
            ),
            *final(self) == (BuilderApi {
                build_metadata: final(self).build_metadata,
                ..*old(self)
            }),
    {
        let ghost all = var_views(extra_env@);
        let ghost start = var_views(self.build_metadata@);
        let mut i: usize = 0;
        assert(all.take(0) == Seq::<EnvVarView>::empty());
        while i < extra_env.len()
            invariant
                i <= extra_env.len(),
                all == var_views(extra_env@),
                var_views(self.build_metadata@) == with_python_metadata(start, all.take(i as int)),
                *self == (BuilderApi { build_metadata: self.build_metadata, ..*old(self) }),
            decreases extra_env.len() - i,
        {
            assert(all.take(i + 1).drop_last() == all.take(i as int));
            assert(all.take(i + 1).last() == extra_env@[i as int]@);
            if text_starts_with(extra_env[i].name.as_str(), "PYTHON_") {
                set_var(
                    &mut self.build_metadata,
                    extra_env[i].name.as_str(),
                    extra_env[i].value.clone(),
                );
            }
            i += 1;
        }
        assert(all.take(extra_env.len() as int) == all);
    }

    /// The arguments of the `configure` script.
    pub fn configure_args(live_prefix: &str, args: &Vec<String>) -> (out: Vec<String>)
        ensures
            texts(out@) == configure_args(live_prefix@, texts(args@)),
    {
        let mut out: Vec<String> = Vec::new();
        if !any_starts_with(args, "--prefix=") {
            push_text(&mut out, concat2("--prefix=", live_prefix));
        }
        extend_texts(&mut out, args);
        assert(texts(out@) =~= configure_args(live_prefix@, texts(args@)));
        out
    }

    /// The shell command that runs the `configure` script.
    pub fn configure_command(live_prefix: &str, args: &Vec<String>) -> (out: String)
        ensures
            out@ == "./configure "@ + join(configure_args(live_prefix@, texts(args@)), seq![' ']),
    {
        let all = BuilderApi::configure_args(live_prefix, args);
        proof {
            reveal_strlit(" ");
            assert(" "@ == seq![' ']);
        }
        let joined_args = join_texts(&all, " ");
        concat2("./configure ", joined_args.as_str())
    }

    /// The arguments of `make`.
    pub fn make_args(staging_dir: &str, args: &Vec<String>) -> (out: Vec<String>)
        ensures
            texts(out@) == make_args(staging_dir@, texts(args@)),
    {
        let ghost goal = make_args(staging_dir@, texts(args@));
        let mut out: Vec<String> = Vec::new();
        let mut i: usize = 0;
        while i < args.len()
            invariant
                i <= args.len(),
                goal == make_args(staging_dir@, texts(args@)),
                texts(out@) == goal.take(i as int),
            decreases args.len() - i,
        {
            let item = if text_starts_with(args[i].as_str(), "DESTDIR=") {
                concat2("DESTDIR=", staging_dir)
            } else {
                args[i].clone()
            };
            assert(goal.take(i + 1) == goal.take(i as int).push(item@));
            push_text(&mut out, item);
            i += 1;
        }
        assert(goal.take(args.len() as int) == goal);
        out
    }

    /// Records that the recipe asks for the package to be installed once it
    /// is built. Nothing is installed now.
    pub fn install(&mut self) -> (r: BuildCommandResult)
        ensures
            *final(self) == (BuilderApi { install_requested: true, ..*old(self) }),
            r.success,
            r.exit_code == Some(0i32),
            r.stdout@ == "Installation request recorded"@,
            r.stderr@.len() == 0,
    {
        self.install_requested = true;
        BuildCommandResult {
            success: true,
            exit_code: Some(0),
            stdout: "Installation request recorded".to_owned(),
            stderr: String::new(),
        }
    }

    /// Switches the bill of materials on or off.
    pub fn auto_sbom(&mut self, enable: bool) -> (r: &mut Self)
        ensures
            *r == (BuilderApi { auto_sbom: enable, ..*old(self) }),
            *final(self) == *final(r),
    {
        self.auto_sbom = enable;
        self
    }

    /// Replaces the patterns of files left out of the bill of materials.
    pub fn sbom_excludes(&mut self, patterns: Vec<String>) -> (r: &mut Self)
        ensures
            *r == (BuilderApi { sbom_excludes: patterns, ..*old(self) }),
            *final(self) == *final(r),
    {
        self.sbom_excludes = patterns;
        self
    }

    /// Whether a bill of materials is made, and what it leaves out.
    pub fn sbom_config(&self) -> (r: (bool, &Vec<String>))
        ensures
            r.0 == self.auto_sbom,
            *r.1 == self.sbom_excludes,
    {
        (self.auto_sbom, &self.sbom_excludes)
    }

    /// Whether the recipe asked for the package to be installed.
    pub fn is_install_requested(&self) -> (r: bool)
        ensures
            r == self.install_requested,
    {
        self.install_requested
    }

    /// What the build systems reported.
    pub fn build_metadata(&self) -> (r: &Vec<EnvVar>)
        ensures
            *r == self.build_metadata,
    {
        &self.build_metadata
    }

    /// Hands out what the build systems reported and forgets it.
    pub fn take_build_metadata(&mut self) -> (r: Vec<EnvVar>)
        ensures
            r == old(self).build_metadata,
            final(self).build_metadata@.len() == 0,
            *final(self) == (BuilderApi {
                build_metadata: final(self).build_metadata,
                ..*old(self)
            }),
    {
        let mut taken: Vec<EnvVar> = Vec::new();
        std::mem::swap(&mut taken, &mut self.build_metadata);
        taken
    }

    /// The archives among the downloads, with the way each is unpacked, in
    /// the order in which they were fetched.
    pub fn extract_downloads(&self) -> (out: Vec<(String, ArchiveFormat)>)
        ensures
            archive_views(out@) == archives_among(download_views(self.downloads@)),
    {
        let ghost all = download_views(self.downloads@);
        let mut out: Vec<(String, ArchiveFormat)> = Vec::new();
        let mut i: usize = 0;
        assert(archive_views(out@) == archives_among(all.take(0)));
        while i < self.downloads.len()
            invariant
                i <= self.downloads.len(),
                all == download_views(self.downloads@),
                archive_views(out@) == archives_among(all.take(i as int)),
            decreases self.downloads.len() - i,
        {
            assert(all.take(i + 1).drop_last() == all.take(i as int));
            assert(all.take(i + 1).last() == self.downloads@[i as int]@);
            match archive_format(self.downloads[i].path.as_str()) {
                Some(format) => {
                    let ghost before = out@;
                    let item = (self.downloads[i].path.clone(), format);
                    out.push(item);
                    assert(archive_views(out@) == archive_views(before).push((item.0@, item.1)));
                },
                None => {},
            }
            i += 1;
        }
        assert(all.take(self.downloads.len() as int) == all);
        out
    }

    /// The directory that `copy` takes the sources from: the one that the
    /// recipe names, else the directory of the recipe itself, which the
    /// caller passes when the recipe's path has one.
    pub fn copy_source(src_path: Option<&str>, recipe_dir: Option<&str>) -> (r: Result<
        String,
        BuildError,
    >)
        ensures
            match r {
                Ok(dir) => match src_path {
                    Some(path) => dir@ == path@,
                    None => recipe_dir matches Some(d) && dir@ == d@,
                },
                Err(BuildError::RecipeError { message }) => src_path is None && recipe_dir is None
                    && message@ == "Invalid recipe path"@,
                Err(_) => false,
            },
    {
        match src_path {
            Some(path) => Ok(path.to_owned()),
            None => match recipe_dir {
                Some(dir) => Ok(dir.to_owned()),
                None => Err(BuildError::RecipeError { message: "Invalid recipe path".to_owned() }),
            },
        }
    }

    /// The error for a source directory that does not exist.
    pub fn missing_source(source_dir: &str) -> (e: BuildError)
        ensures
            e matches BuildError::Failed { message } && message@
                == "Source directory does not exist: "@ + source_dir@,
    {
        BuildError::Failed { message: concat2("Source directory does not exist: ", source_dir) }
    }
}

} // verus!
