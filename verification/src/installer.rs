//! The installer's configuration, the checks on what it is asked to do, and
//! the description of states for listing.

use crate::errors::InstallError;
use crate::graph::{ids, PackageId, PackageIdView};
use crate::hash::hex_of;
use crate::text::{concat2, decimal, decimal_text, has_suffix, join, join_texts, push_text, text_ends_with, texts};
use crate::state::{cleaned, forgotten, with_packages, without_names, StateView};
use crate::version::{render, Version, VersionView};
use vstd::prelude::*;

verus! {

/// The configuration of the installer.
#[derive(Clone, Copy, Debug, PartialEq, Eq, Structural)]
pub struct InstallConfig {
    /// How many downloads run at once.
    pub max_concurrency: usize,
    /// The time a download may take, in seconds.
    pub download_timeout: u64,
    /// Whether the file system's cloning is used.
    pub enable_apfs: bool,
    /// How many states are kept.
    pub state_retention: usize,
}

impl Default for InstallConfig {
    fn default() -> (c: InstallConfig)
        ensures
            c == (InstallConfig {
                max_concurrency: 4,
                download_timeout: 300,
                enable_apfs: true,
                state_retention: 10,
            }),
    {
        InstallConfig::for_target(true)
    }
}

impl InstallConfig {
    /// The configuration used unless told otherwise: four downloads at
    /// once, five minutes for each, ten states kept, and cloning where the
    /// target is macOS.
    pub fn for_target(target_macos: bool) -> (c: InstallConfig)
        ensures
            c == (InstallConfig {
                max_concurrency: 4,
                download_timeout: 300,
                enable_apfs: target_macos,
                state_retention: 10,
            }),
    {
        InstallConfig {
            max_concurrency: 4,
            download_timeout: 300,
            enable_apfs: target_macos,
            state_retention: 10,
        }
    }

    /// The same configuration with another number of downloads at once.
    pub fn with_concurrency(self, max_concurrency: usize) -> (c: InstallConfig)
        ensures
            c == (InstallConfig { max_concurrency, ..self }),
    {
        InstallConfig { max_concurrency, ..self }
    }

    /// The same configuration with another download timeout.
    pub fn with_timeout(self, timeout_seconds: u64) -> (c: InstallConfig)
        ensures
            c == (InstallConfig { download_timeout: timeout_seconds, ..self }),
    {
        InstallConfig { download_timeout: timeout_seconds, ..self }
    }

    /// The same configuration with cloning switched on or off.
    pub fn with_apfs(self, enable: bool) -> (c: InstallConfig)
        ensures
            c == (InstallConfig { enable_apfs: enable, ..self }),
    {
        InstallConfig { enable_apfs: enable, ..self }
    }

    /// The same configuration with another number of states kept.
    pub fn with_retention(self, count: usize) -> (c: InstallConfig)
        ensures
            c == (InstallConfig { state_retention: count, ..self }),
    {
        InstallConfig { state_retention: count, ..self }
    }
}

/// A local package file that is to be installed, with what the caller found
/// out about it.
#[derive(Clone, Debug)]
pub struct LocalFile {
    pub path: String,
    /// Whether the file exists.
    pub exists: bool,
}

/// What is to be installed.
#[derive(Clone, Debug)]
pub struct InstallContext {
    /// The requirements, as written.
    pub packages: Vec<String>,
    /// The local package files.
    pub local_files: Vec<LocalFile>,
}

/// What is to be uninstalled.
#[derive(Clone, Debug)]
pub struct UninstallContext {
    pub packages: Vec<String>,
}

/// What is to be updated; no package means every package.
#[derive(Clone, Debug)]
pub struct UpdateContext {
    pub packages: Vec<String>,
}

/// An install error as a plain value.
pub enum InstallErrorView {
    NoPackagesSpecified,
    LocalPackageNotFound { path: Seq<char> },
    InvalidPackageFile { path: Seq<char>, message: Seq<char> },
    StateNotFound { state_id: Seq<char> },
}

impl View for InstallError {
    type V = InstallErrorView;

    open spec fn view(&self) -> InstallErrorView {
        match self {
            InstallError::NoPackagesSpecified => InstallErrorView::NoPackagesSpecified,
            InstallError::LocalPackageNotFound { path } => InstallErrorView::LocalPackageNotFound {
                path: path@,
            },
            InstallError::InvalidPackageFile { path, message } => {
                InstallErrorView::InvalidPackageFile { path: path@, message: message@ }
            },
            InstallError::StateNotFound { state_id } => InstallErrorView::StateNotFound {
                state_id: state_id@,
            },
        }
    }
}

/// What is wrong with a local file, if anything: it must exist and its name
/// must end in `.sp`.
pub open spec fn local_file_error(file: LocalFile) -> Option<InstallErrorView> {
    if !file.exists {
        Some(InstallErrorView::LocalPackageNotFound { path: file.path@ })
    } else if !has_suffix(file.path@, ".sp"@) {
        Some(
            InstallErrorView::InvalidPackageFile {
                path: file.path@,
                message: "file must have .sp extension"@,
            },
        )
    } else {
        None
    }
}

/// The error of the first local file that has one.
pub open spec fn first_file_error(files: Seq<LocalFile>) -> Option<InstallErrorView>
    decreases files.len(),
{
    if files.len() == 0 {
        None
    } else {
        match local_file_error(files[0]) {
            Some(e) => Some(e),
            None => first_file_error(files.skip(1)),
        }
    }
}

/// What is wrong with an install request, if anything: it must name a
/// package or a local file, and every local file must be acceptable.
pub open spec fn install_context_error(context: &InstallContext) -> Option<InstallErrorView> {
    if context.packages@.len() == 0 && context.local_files@.len() == 0 {
        Some(InstallErrorView::NoPackagesSpecified)
    } else {
        first_file_error(context.local_files@)
    }
}

/// Checks an install request.
pub fn validate_install_context(context: &InstallContext) -> (r: Result<(), InstallError>)
    ensures
        match r {
            Ok(_) => install_context_error(context) is None,
            Err(e) => install_context_error(context) == Some(e@),
        },
{
    if context.packages.len() == 0 && context.local_files.len() == 0 {
        return Err(InstallError::NoPackagesSpecified);
    }
    let files = &context.local_files;
    let mut i: usize = 0;
    assert(files@.skip(0) == files@);
    while i < files.len()
        invariant
            i <= files.len(),
            files@ == context.local_files@,
            !(context.packages@.len() == 0 && context.local_files@.len() == 0),
            first_file_error(files@) == first_file_error(files@.skip(i as int)),
        decreases files.len() - i,
    {
        assert(files@.skip(i as int).skip(1) == files@.skip(i + 1));
        assert(files@.skip(i as int)[0] == files@[i as int]);
        let file = &files[i];
        if !file.exists {
            return Err(InstallError::LocalPackageNotFound { path: file.path.clone() });
        }
        if !text_ends_with(file.path.as_str(), ".sp") {
            return Err(
                InstallError::InvalidPackageFile {
                    path: file.path.clone(),
                    message: "file must have .sp extension".to_owned(),
                },
            );
        }
        i += 1;
    }
    Ok(())
}

/// Checks an uninstall request: it must name a package.
pub fn validate_uninstall_context(context: &UninstallContext) -> (r: Result<(), InstallError>)
    ensures
        match r {
            Ok(_) => context.packages@.len() > 0,
            Err(e) => context.packages@.len() == 0 && e@ == InstallErrorView::NoPackagesSpecified,
        },
{
    if context.packages.len() == 0 {
        Err(InstallError::NoPackagesSpecified)
    } else {
        Ok(())
    }
}

/// Checks an update request: every update request is acceptable.
pub fn validate_update_context(context: &UpdateContext) -> (r: Result<(), InstallError>)
    ensures
        r is Ok,
{
    Ok(())
}

/// What `uuid::Uuid::parse_str` reads from `text`: the identifier as a
/// number, or nothing when the text is no identifier.
pub uninterp spec fn uuid_parse(text: Seq<char>) -> Option<u128>;

/// The byte at position `i` of a 128-bit number, the most significant byte
/// first.
pub open spec fn byte_of(id: u128, i: int) -> u8 {
    ((id as int / vstd::arithmetic::power2::pow2((8 * (15 - i)) as nat) as int) % 256) as u8
}

/// The 16 bytes of a 128-bit number, the most significant byte first.
pub open spec fn bytes_of(id: u128) -> Seq<u8> {
    Seq::new(16, |i: int| byte_of(id, i))
}

/// The usual text of an identifier: its 32 lowercase hexadecimal digits in
/// groups of 8, 4, 4, 4 and 12, with hyphens between the groups.
pub open spec fn hyphenated(id: u128) -> Seq<char> {
    let h = hex_of(bytes_of(id));
    h.subrange(0, 8) + seq!['-'] + h.subrange(8, 12) + seq!['-'] + h.subrange(12, 16) + seq!['-']
        + h.subrange(16, 20) + seq!['-'] + h.subrange(20, 32)
}

/// `uuid::Uuid::parse_str`, with the identifier handed back as a number.
#[verifier::external_body]
fn parse_uuid(text: &str) -> (r: Option<u128>)
    ensures
        r == uuid_parse(text@),
{
    match uuid::Uuid::parse_str(text) {
        Ok(id) => Some(id.as_u128()),
        Err(_) => None,
    }
}

/// The `Display` of `uuid::Uuid`, for the identifier that
/// `uuid::Uuid::from_u128` makes of the number: the hyphenated lowercase
/// text, which `parse_str` reads back as the same identifier.
#[verifier::external_body]
fn display_uuid(id: u128) -> (out: String)
    ensures
        out@ == hyphenated(id),
        uuid_parse(out@) == Some(id),
{
    uuid::Uuid::from_u128(id).to_string()
}

/// Reads a state identifier.
pub fn parse_state_id(text: &str) -> (r: Option<u128>)
    ensures
        r == uuid_parse(text@),
{
    parse_uuid(text)
}

/// Writes a state identifier. Reading the text gives the identifier back.
pub fn state_id_text(id: u128) -> (out: String)
    ensures
        out@ == hyphenated(id),
        uuid_parse(out@) == Some(id),
{
    display_uuid(id)
}

/// The error for a state that does not exist.
pub fn state_not_found(id: u128) -> (e: InstallError)
    ensures
        e@ == (InstallErrorView::StateNotFound { state_id: hyphenated(id) }),
{
    InstallError::StateNotFound { state_id: state_id_text(id) }
}

/// A state as it is listed.
#[derive(Clone, Debug)]
pub struct StateInfo {
    /// The identifier of the state.
    pub id: u128,
    /// When the state was made, in seconds since the epoch.
    pub timestamp: i64,
    /// The state that this one was made from.
    pub parent_id: Option<u128>,
    /// How many packages the state holds.
    pub package_count: usize,
    /// The first few of its packages.
    pub packages: Vec<PackageId>,
}

/// How a package is shown in a summary: its name, a hyphen, its version.
pub open spec fn package_label(p: PackageIdView) -> Seq<char> {
    p.name + seq!['-'] + render(p.version)
}

/// The labels of the packages.
pub open spec fn package_labels(packages: Seq<PackageIdView>) -> Seq<Seq<char>> {
    Seq::new(packages.len(), |i: int| package_label(packages[i]))
}

/// The summary of a state's packages: up to three are named; of more, the
/// first three are named and the rest counted.
pub open spec fn summary_of(packages: Seq<PackageIdView>, package_count: usize) -> Seq<char> {
    if packages.len() == 0 {
        "No packages"@
    } else if packages.len() <= 3 {
        join(package_labels(packages), ", "@)
    } else {
        join(package_labels(packages.take(3)), ", "@) + " and "@ + decimal(
            (package_count - 3) as nat,
        ) + " more"@
    }
}

impl StateInfo {
    /// The sample holds at most five packages and no more than the state
    /// has.
    pub open spec fn wf(&self) -> bool {
        self.packages@.len() <= 5 && self.packages@.len() <= self.package_count
    }

    /// The description of a state with the given packages. The sample is
    /// the first five package names; the versions of packages are not
    /// recorded with a state and are listed as `1.0.0`. A parent that does
    /// not read as an identifier counts as none.
    pub fn describe(
        id: u128,
        timestamp: i64,
        parent_id: Option<&str>,
        package_names: &Vec<String>,
    ) -> (info: StateInfo)
        ensures
            info.wf(),
            info.id == id,
            info.timestamp == timestamp,
            info.parent_id == match parent_id {
                Some(text) => uuid_parse(text@),
                None => None,
            },
            info.package_count == package_names@.len(),
            info.packages@.len() == if package_names@.len() <= 5 {
                package_names@.len()
            } else {
                5
            },
            forall|i: int|
                0 <= i < info.packages@.len() ==> (#[trigger] info.packages@[i])@ == (PackageIdView {
                    name: package_names@[i]@,
                    version: VersionView {
                        major: 1,
                        minor: 0,
                        patch: 0,
                        pre: Seq::<char>::empty(),
                        build: Seq::<char>::empty(),
                    },
                }),
    {
        let parent = match parent_id {
            Some(text) => parse_state_id(text),
            None => None,
        };
        let mut packages: Vec<PackageId> = Vec::new();
        let mut i: usize = 0;
        while i < package_names.len() && i < 5
            invariant
                i <= package_names.len(),
                i <= 5,
                packages@.len() == i,
                forall|k: int|
                    0 <= k < i ==> (#[trigger] packages@[k])@ == (PackageIdView {
                        name: package_names@[k]@,
                        version: VersionView {
                            major: 1,
                            minor: 0,
                            patch: 0,
                            pre: Seq::<char>::empty(),
                            build: Seq::<char>::empty(),
                        },
                    }),
            decreases package_names.len() - i,
        {
            packages.push(PackageId::new(package_names[i].clone(), Version::new(1, 0, 0)));
            i += 1;
        }
        StateInfo {
            id,
            timestamp,
            parent_id: parent,
            package_count: package_names.len(),
            packages,
        }
    }

    /// Whether the state was made from no other.
    pub fn is_root(&self) -> (r: bool)
        ensures
            r == (self.parent_id is None),
    {
        self.parent_id.is_none()
    }

    /// The age of the state at the time `now`, in seconds.
    pub fn age(&self, now: i64) -> (seconds: i128)
        ensures
            seconds == now - self.timestamp,
    {
        now as i128 - self.timestamp as i128
    }

    /// The summary of the packages for display. Where more than three
    /// packages are sampled, the state must have at least three, for the
    /// rest to be counted.
    pub fn package_summary(&self) -> (out: String)
        requires
            self.packages@.len() > 3 ==> self.package_count >= 3,
        ensures
            out@ == summary_of(ids(self.packages@), self.package_count),
    {
        if self.packages.len() == 0 {
            return "No packages".to_owned();
        }
        let shown: usize = if self.packages.len() <= 3 {
            self.packages.len()
        } else {
            3
        };
        let ghost all = ids(self.packages@);
        let mut labels: Vec<String> = Vec::new();
        let mut i: usize = 0;
        proof {
            reveal_strlit("-");
            assert("-"@ == seq!['-']);
        }
        while i < shown
            invariant
                i <= shown <= self.packages.len(),
                all == ids(self.packages@),
                "-"@ == seq!['-'],
                texts(labels@) == package_labels(all.take(i as int)),
            decreases shown - i,
        {
            let package = &self.packages[i];
            let mut label = concat2(package.name.as_str(), "-");
            label.append(package.version.to_string().as_str());
            assert(package_labels(all.take(i + 1)) == package_labels(all.take(i as int)).push(
                package_label(all[i as int]),
            ));
            push_text(&mut labels, label);
            i += 1;
        }
        let mut out = join_texts(&labels, ", ");
        if self.packages.len() <= 3 {
            assert(all.take(shown as int) == all);
            out
        } else {
            out.append(" and ");
            out.append(decimal_text((self.package_count - 3) as u64).as_str());
            out.append(" more");
            out
        }
    }
}

/// The first of the states that has the identifier `id`.
pub open spec fn state_with_id(states: Seq<StateInfo>, id: u128) -> Option<StateInfo>
    decreases states.len(),
{
    if states.len() == 0 {
        None
    } else if states[0].id == id {
        Some(states[0])
    } else {
        state_with_id(states.skip(1), id)
    }
}

/// The state with the given identifier, or the error that says it is not
/// there.
pub fn find_state(states: Vec<StateInfo>, id: u128) -> (r: Result<StateInfo, InstallError>)
    ensures
        match r {
            Ok(info) => state_with_id(states@, id) == Some(info),
            Err(e) => state_with_id(states@, id) is None && e@ == (InstallErrorView::StateNotFound {
                state_id: hyphenated(id),
            }),
        },
{
    let ghost all = states@;
    let mut rest = states;
    let mut i: usize = 0;
    assert(all.skip(0) == all);
    while i < rest.len()
        invariant
            i <= rest.len(),
            rest@ == all,
            all == states@,
            state_with_id(all, id) == state_with_id(all.skip(i as int), id),
        decreases rest.len() - i,
    {
        assert(all.skip(i as int).skip(1) == all.skip(i + 1));
        assert(all.skip(i as int)[0] == all[i as int]);
        if rest[i].id == id {
            let found = rest.swap_remove(i);
            return Ok(found);
        }
        i += 1;
    }
    Err(state_not_found(id))
}


/// What an operation of the installer left behind.
#[derive(Clone, Debug)]
pub struct InstallResult {
    /// The state that the operation made, which is now current.
    pub state_id: u128,
    /// The states that the retention policy removed afterwards.
    pub removed_states: Vec<u128>,
}

/// Why an operation of the installer failed.
#[derive(Clone, Debug)]
pub enum InstallFailure {
    /// The request was not acceptable.
    Request(InstallError),
    /// The state engine refused.
    State(crate::state::StateError),
}

/// What became of an operation once the guard had looked at its result.
#[derive(Clone, Copy, Debug, PartialEq, Eq, Structural)]
pub enum Settlement {
    /// The new state stays current.
    Kept,
    /// The new state stays current and the planned repairs are carried out.
    Healing,
    /// The state that was current before the operation is current again.
    RolledBack,
}

/// The installer: the configuration and the state engine that it drives.
#[derive(Debug)]
pub struct Installer {
    pub config: InstallConfig,
    pub states: crate::state::StateDb,
}

impl Installer {
    /// An installer over the given state engine.
    pub fn new(config: InstallConfig, states: crate::state::StateDb) -> (installer: Installer)
        ensures
            installer.config == config,
            installer.states == states,
    {
        Installer { config, states }
    }

    /// Installs the packages that the resolver chose for the request: makes
    /// a state with them whose parent is the state that was current, makes
    /// it current, and then removes the states that the retention policy no
    /// longer keeps. A request that is not acceptable changes nothing.
    pub fn install(
        &mut self,
        context: &InstallContext,
        state_id: u128,
        timestamp: i64,
        resolved: &Vec<PackageId>,
    ) -> (r: Result<InstallResult, InstallFailure>)
        requires
            old(self).states.wf(),
        ensures
            final(self).states.wf(),
            final(self).config == old(self).config,
            match r {
                Ok(result) => install_context_error(context) is None && old(self).states.refused(state_id) is None && result.state_id == state_id
                    && final(self).states.current_view() == state_id && exists|before: StateView|
                    old(self).states.states_view().contains(before) && before.id == old(self).states.current_view() && final(self).states.states_view() == cleaned(
                        old(self).states.states_view().push(
                            StateView {
                                id: state_id,
                                parent_id: Some(old(self).states.current_view()),
                                timestamp,
                                packages: with_packages(before.packages, ids(resolved@)),
                            },
                        ),
                        old(self).config.state_retention as nat,
                        state_id,
                    ) && result.removed_states@ == forgotten(
                        old(self).states.states_view().push(
                            StateView {
                                id: state_id,
                                parent_id: Some(old(self).states.current_view()),
                                timestamp,
                                packages: with_packages(before.packages, ids(resolved@)),
                            },
                        ),
                        old(self).config.state_retention as nat,
                        state_id,
                    ),
                Err(InstallFailure::Request(e)) => install_context_error(context) == Some(e@)
                    && final(self).states == old(self).states,
                Err(InstallFailure::State(e)) => install_context_error(context) is None && old(self).states.refused(state_id) == Some(e) && final(self).states.states_view() == old(self).states.states_view() && final(self).states.current_view() == old(self).states.current_view(),
            },
    {
        match validate_install_context(context) {
            Ok(_) => {},
            Err(e) => {
                return Err(InstallFailure::Request(e));
            },
        }
        match self.states.install(state_id, timestamp, resolved) {
            Ok(_) => {},
            Err(e) => {
                return Err(InstallFailure::State(e));
            },
        }
        let removed_states = self.cleanup_old_states();
        Ok(InstallResult { state_id, removed_states })
    }

    /// Uninstalls the packages that the request names and, with them, the
    /// installed packages that were only there for their sake. `manifests`
    /// are the manifests of the installed packages.
    pub fn uninstall(
        &mut self,
        context: &UninstallContext,
        manifests: &Vec<crate::store::PackageManifest>,
        state_id: u128,
        timestamp: i64,
    ) -> (r: Result<InstallResult, InstallFailure>)
        requires
            old(self).states.wf(),
        ensures
            final(self).states.wf(),
            final(self).config == old(self).config,
            match r {
                Ok(result) => context.packages@.len() > 0 && old(self).states.refused(state_id) is None && result.state_id == state_id && final(self).states.current_view() == state_id && exists|before: StateView|
                    old(self).states.states_view().contains(before) && before.id == old(self).states.current_view() && final(self).states.states_view() == cleaned(
                        old(self).states.states_view().push(
                            StateView {
                                id: state_id,
                                parent_id: Some(old(self).states.current_view()),
                                timestamp,
                                packages: without_names(
                                    before.packages,
                                    crate::removal::leaving(manifests@, texts(context.packages@)),
                                ),
                            },
                        ),
                        old(self).config.state_retention as nat,
                        state_id,
                    ) && result.removed_states@ == forgotten(
                        old(self).states.states_view().push(
                            StateView {
                                id: state_id,
                                parent_id: Some(old(self).states.current_view()),
                                timestamp,
                                packages: without_names(
                                    before.packages,
                                    crate::removal::leaving(manifests@, texts(context.packages@)),
                                ),
                            },
                        ),
                        old(self).config.state_retention as nat,
                        state_id,
                    ),
                Err(InstallFailure::Request(e)) => context.packages@.len() == 0 && e@
                    == InstallErrorView::NoPackagesSpecified && final(self).states == old(self).states,
                Err(InstallFailure::State(e)) => context.packages@.len() > 0 && old(self).states.refused(state_id) == Some(e) && final(self).states.states_view() == old(self).states.states_view() && final(self).states.current_view() == old(self).states.current_view(),
            },
    {
        match validate_uninstall_context(context) {
            Ok(_) => {},
            Err(e) => {
                return Err(InstallFailure::Request(e));
            },
        }
        let names = crate::removal::names_to_remove(manifests, &context.packages);
        match self.states.uninstall(state_id, timestamp, &names) {
            Ok(_) => {},
            Err(e) => {
                return Err(InstallFailure::State(e));
            },
        }
        let removed_states = self.cleanup_old_states();
        Ok(InstallResult { state_id, removed_states })
    }

    /// Updates to the packages that the resolver chose for the request.
    pub fn update(
        &mut self,
        context: &UpdateContext,
        state_id: u128,
        timestamp: i64,
        resolved: &Vec<PackageId>,
    ) -> (r: Result<InstallResult, InstallFailure>)
        requires
            old(self).states.wf(),
        ensures
            final(self).states.wf(),
            final(self).config == old(self).config,
            match r {
                Ok(result) => old(self).states.refused(state_id) is None && result.state_id == state_id && final(self).states.current_view()
                    == state_id && exists|before: StateView|
                    old(self).states.states_view().contains(before) && before.id == old(self).states.current_view() && final(self).states.states_view() == cleaned(
                        old(self).states.states_view().push(
                            StateView {
                                id: state_id,
                                parent_id: Some(old(self).states.current_view()),
                                timestamp,
                                packages: with_packages(before.packages, ids(resolved@)),
                            },
                        ),
                        old(self).config.state_retention as nat,
                        state_id,
                    ) && result.removed_states@ == forgotten(
                        old(self).states.states_view().push(
                            StateView {
                                id: state_id,
                                parent_id: Some(old(self).states.current_view()),
                                timestamp,
                                packages: with_packages(before.packages, ids(resolved@)),
                            },
                        ),
                        old(self).config.state_retention as nat,
                        state_id,
                    ),
                Err(InstallFailure::Request(_)) => false,
                Err(InstallFailure::State(e)) => old(self).states.refused(state_id) == Some(e) && final(self).states.states_view() == old(self).states.states_view() && final(self).states.current_view() == old(self).states.current_view(),
            },
    {
        match self.states.update(state_id, timestamp, resolved) {
            Ok(_) => {},
            Err(e) => {
                return Err(InstallFailure::State(e));
            },
        }
        let removed_states = self.cleanup_old_states();
        Ok(InstallResult { state_id, removed_states })
    }

    /// Settles an operation after the guard has looked at its result. When
    /// the guard fails the operation, the state `previous`, which was
    /// current before, becomes current again; when it heals, the repairs
    /// are for the caller to carry out; else the new state simply stays.
    /// The recorded states stay as they are.
    pub fn settle(
        &mut self,
        decision: crate::guard_verify::GuardDecision,
        previous: u128,
    ) -> (r: Result<Settlement, InstallFailure>)
        requires
            old(self).states.wf(),
        ensures
            final(self).states.wf(),
            final(self).config == old(self).config,
            final(self).states.states_view() == old(self).states.states_view(),
            match decision {
                crate::guard_verify::GuardDecision::Fail => match r {
                    Ok(s) => s == Settlement::RolledBack && crate::state::has_state(
                        old(self).states.states_view(),
                        previous,
                    ) && old(self).states.pending_view() is None
                        && final(self).states.current_view() == previous,
                    Err(InstallFailure::Request(e)) => !crate::state::has_state(
                        old(self).states.states_view(),
                        previous,
                    ) && e@ == (InstallErrorView::StateNotFound { state_id: hyphenated(previous) })
                        && final(self).states.current_view() == old(self).states.current_view(),
                    Err(InstallFailure::State(e)) => crate::state::has_state(
                        old(self).states.states_view(),
                        previous,
                    ) && old(self).states.pending_view() is Some && e
                        == crate::state::StateError::TransactionPending
                        && final(self).states.current_view() == old(self).states.current_view(),
                },
                crate::guard_verify::GuardDecision::Heal => r == Ok::<Settlement, InstallFailure>(
                    Settlement::Healing,
                ) && final(self).states.current_view() == old(self).states.current_view(),
                _ => r == Ok::<Settlement, InstallFailure>(Settlement::Kept)
                    && final(self).states.current_view() == old(self).states.current_view(),
            },
    {
        match decision {
            crate::guard_verify::GuardDecision::Fail => match self.rollback(previous) {
                Ok(_) => Ok(Settlement::RolledBack),
                Err(e) => Err(e),
            },
            crate::guard_verify::GuardDecision::Heal => Ok(Settlement::Healing),
            _ => Ok(Settlement::Kept),
        }
    }

    /// Removes from the store every object that none of the manifests
    /// refers to, and returns how many were removed. The manifests are
    /// those of the packages of all retained states. While a transaction is
    /// under way nothing is removed.
    pub fn collect_garbage(
        &self,
        store: &mut crate::store::ContentStore,
        manifests: &Vec<crate::store::PackageManifest>,
    ) -> (r: Result<usize, crate::state::StateError>)
        ensures
            match r {
                Ok(removed) => self.states.pending_view() is None && final(store).objects()
                    == crate::store::swept(old(store).objects(), manifests@) && removed == old(
                    store,
                ).objects().len() - final(store).objects().len(),
                Err(e) => self.states.pending_view() is Some && e
                    == crate::state::StateError::TransactionPending && final(store).objects()
                    == old(store).objects(),
            },
    {
        if self.states.in_transaction() {
            return Err(crate::state::StateError::TransactionPending);
        }
        Ok(store.sweep(manifests))
    }

    /// Makes an earlier state current again. The states stay as they are.
    pub fn rollback(&mut self, target_state_id: u128) -> (r: Result<(), InstallFailure>)
        requires
            old(self).states.wf(),
        ensures
            final(self).states.wf(),
            final(self).config == old(self).config,
            final(self).states.states_view() == old(self).states.states_view(),
            match r {
                Ok(_) => crate::state::has_state(old(self).states.states_view(), target_state_id)
                    && old(self).states.pending_view() is None
                    && final(self).states.current_view() == target_state_id,
                Err(InstallFailure::Request(e)) => !crate::state::has_state(
                    old(self).states.states_view(),
                    target_state_id,
                ) && e@ == (InstallErrorView::StateNotFound {
                    state_id: hyphenated(target_state_id),
                }) && final(self).states.current_view() == old(self).states.current_view(),
                Err(InstallFailure::State(e)) => crate::state::has_state(old(self).states.states_view(), target_state_id) && old(self).states.pending_view() is Some && e == crate::state::StateError::TransactionPending && final(self).states.current_view() == old(self).states.current_view(),
            },
    {
        if !self.states.state_exists(target_state_id) {
            return Err(InstallFailure::Request(state_not_found(target_state_id)));
        }
        match self.states.rollback(target_state_id) {
            Ok(_) => Ok(()),
            Err(e) => Err(InstallFailure::State(e)),
        }
    }

    /// The states for listing, oldest first: each with the number of its
    /// packages and the first five of them.
    pub fn list_states(&self) -> (infos: Vec<StateInfo>)
        ensures
            infos@.len() == self.states.states_view().len(),
            forall|i: int|
                0 <= i < infos@.len() ==> describes(
                    #[trigger] infos@[i],
                    self.states.states_view()[i],
                ),
    {
        let states = self.states.list_states();
        let mut infos: Vec<StateInfo> = Vec::new();
        let mut i: usize = 0;
        while i < states.len()
            invariant
                i <= states.len(),
                crate::state::state_views(states@) == self.states.states_view(),
                infos@.len() == i,
                forall|k: int|
                    0 <= k < i ==> describes(#[trigger] infos@[k], self.states.states_view()[k]),
            decreases states.len() - i,
        {
            let state = &states[i];
            assert(self.states.states_view()[i as int] == state@);
            let mut sample: Vec<PackageId> = Vec::new();
            let mut k: usize = 0;
            assert(ids(state.packages@).take(0) == ids(sample@));
            while k < state.packages.len() && k < 5
                invariant
                    k <= state.packages.len(),
                    k <= 5,
                    ids(sample@) == ids(state.packages@).take(k as int),
                decreases state.packages.len() - k,
            {
                let ghost before = sample@;
                sample.push(state.packages[k].clone());
                assert(ids(sample@) == ids(before).push(state.packages@[k as int]@));
                assert(ids(state.packages@).take(k + 1) == ids(state.packages@).take(
                    k as int,
                ).push(state.packages@[k as int]@));
                k += 1;
            }
            assert(ids(sample@).len() == sample@.len());
            infos.push(
                StateInfo {
                    id: state.id,
                    timestamp: state.timestamp,
                    parent_id: state.parent_id,
                    package_count: state.packages.len(),
                    packages: sample,
                },
            );
            i += 1;
        }
        infos
    }

    /// The current state for listing.
    pub fn current_state(&self) -> (r: Result<StateInfo, InstallError>)
        requires
            self.states.wf(),
        ensures
            match r {
                Ok(info) => info.id == self.states.current_view() && exists|i: int|
                    0 <= i < self.states.states_view().len() && describes(
                        info,
                        #[trigger] self.states.states_view()[i],
                    ),
                Err(e) => false,
            },
    {
        let infos = self.list_states();
        let id = self.states.current_id();
        proof {
            self.states.lemma_wf();
            let states = self.states.states_view();
            let c = choose|c: int| 0 <= c < states.len() && (#[trigger] states[c]).id == id;
            assert(describes(infos@[c], states[c]));
            let at = lemma_state_found(infos@, id, c);
            assert(describes(infos@[at], states[at]));
        }
        find_state(infos, id)
    }

    /// Removes the states that the retention policy no longer keeps and
    /// returns their identifiers. The current state always stays.
    pub fn cleanup_old_states(&mut self) -> (removed: Vec<u128>)
        requires
            old(self).states.wf(),
        ensures
            final(self).states.wf(),
            final(self).config == old(self).config,
            final(self).states.current_view() == old(self).states.current_view(),
            final(self).states.pending_view() == old(self).states.pending_view(),
            match old(self).states.pending_view() {
                Some(_) => final(self).states.states_view() == old(self).states.states_view()
                    && removed@.len() == 0,
                None => final(self).states.states_view() == crate::state::cleaned(
                    old(self).states.states_view(),
                    old(self).config.state_retention as nat,
                    old(self).states.current_view(),
                ) && removed@ == forgotten(
                    old(self).states.states_view(),
                    old(self).config.state_retention as nat,
                    old(self).states.current_view(),
                ),
            },
    {
        match self.states.cleanup_old_states(self.config.state_retention) {
            Ok(removed) => removed,
            Err(_) => Vec::new(),
        }
    }
}

/// Whether the listing describes the state: it has its identifier, time
/// and parent, counts its packages, and samples the first five of them.
pub open spec fn describes(info: StateInfo, state: StateView) -> bool {
    &&& info.wf()
    &&& info.id == state.id
    &&& info.timestamp == state.timestamp
    &&& info.parent_id == state.parent_id
    &&& info.package_count == state.packages.len()
    &&& ids(info.packages@) == state.packages.take(
        if state.packages.len() <= 5 {
            state.packages.len() as int
        } else {
            5
        },
    )
}

/// A state with the identifier is found when one is in the list, and what
/// is found is one of the list.
proof fn lemma_state_found(states: Seq<StateInfo>, id: u128, at: int) -> (first: int)
    requires
        0 <= at < states.len(),
        states[at].id == id,
    ensures
        0 <= first < states.len(),
        state_with_id(states, id) == Some(states[first]),
        states[first].id == id,
    decreases states.len(),
{
    if states[0].id != id {
        let rest = states.skip(1);
        let k = lemma_state_found(rest, id, at - 1);
        assert(rest[k] == states[k + 1]);
        k + 1
    } else {
        0
    }
}

} // verus!
