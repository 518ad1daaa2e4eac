//! The typed errors that the library returns.

use vstd::prelude::*;

verus! {

/// A failure of a build.
#[derive(Clone, Debug)]
pub enum BuildError {
    /// The configure step of a build system failed.
    ConfigureFailed { message: String },
    /// The build step of a build system failed.
    CompilationFailed { message: String },
    /// The install step of a build system failed.
    InstallFailed { message: String },
    /// A command could not be run or exited with a failure.
    CompileFailed { message: String },
    /// The download failed.
    FetchFailed { url: String },
    /// The downloaded file does not have the expected hash.
    HashMismatch { file: String, expected: String, actual: String },
    /// The repository could not be cloned.
    GitCloneFailed { message: String },
    /// An archive could not be unpacked.
    ExtractionFailed { message: String },
    /// The recipe is unusable.
    RecipeError { message: String },
    /// Any other failure.
    Failed { message: String },
    /// The bill of materials could not be made.
    SbomError { message: String },
}

/// A failure of an install, uninstall or rollback.
#[derive(Clone, Debug)]
pub enum InstallError {
    /// Nothing was named to install or uninstall.
    NoPackagesSpecified,
    /// A local package file does not exist.
    LocalPackageNotFound { path: String },
    /// A package file is not acceptable.
    InvalidPackageFile { path: String, message: String },
    /// No state has this identifier.
    StateNotFound { state_id: String },
}

/// A failure of the storage under the index cache.
#[derive(Clone, Debug)]
pub enum StorageError {
    /// Nothing can be read at the path.
    PathNotFound { path: String },
    /// A file operation failed.
    IoError { message: String },
}

/// A failure to assemble a component.
#[derive(Clone, Debug)]
pub enum OpsError {
    /// A required part was not supplied.
    MissingComponent { component: String },
}


/// The kinds of error, by what can be done about them.
#[derive(Clone, Copy, Debug, PartialEq, Eq, Structural)]
pub enum ErrorKind {
    /// The request or the input is not acceptable.
    InvalidInput,
    /// Something that was asked for is not there.
    NotFound,
    /// The request does not fit the state or the versions that are there.
    Conflict,
    /// The network failed or a time limit ran out; trying again may help.
    Transient,
    /// Content is not what it should be.
    Integrity,
    /// The guard found a discrepancy that the policy does not tolerate.
    Policy,
    /// An outside program failed.
    External,
    /// A part of the system is missing or broken.
    Internal,
}

/// Whether errors of a kind are tried again by themselves: only transient
/// ones are.
pub open spec fn is_retried(kind: ErrorKind) -> bool {
    kind == ErrorKind::Transient
}

impl ErrorKind {
    /// Whether errors of this kind are tried again by themselves.
    pub fn retries(self) -> (r: bool)
        ensures
            r == is_retried(self),
    {
        match self {
            ErrorKind::Transient => true,
            _ => false,
        }
    }
}

impl BuildError {
    /// The kind of this error.
    pub open spec fn kind_spec(&self) -> ErrorKind {
        match self {
            BuildError::ConfigureFailed { .. } => ErrorKind::External,
            BuildError::CompilationFailed { .. } => ErrorKind::External,
            BuildError::InstallFailed { .. } => ErrorKind::External,
            BuildError::CompileFailed { .. } => ErrorKind::External,
            BuildError::FetchFailed { .. } => ErrorKind::Transient,
            BuildError::HashMismatch { .. } => ErrorKind::Integrity,
            BuildError::GitCloneFailed { .. } => ErrorKind::External,
            BuildError::ExtractionFailed { .. } => ErrorKind::Integrity,
            BuildError::RecipeError { .. } => ErrorKind::InvalidInput,
            BuildError::Failed { .. } => ErrorKind::Internal,
            BuildError::SbomError { .. } => ErrorKind::External,
        }
    }

    /// The kind of this error.
    pub fn kind(&self) -> (k: ErrorKind)
        ensures
            k == self.kind_spec(),
    {
        match self {
            BuildError::ConfigureFailed { .. } => ErrorKind::External,
            BuildError::CompilationFailed { .. } => ErrorKind::External,
            BuildError::InstallFailed { .. } => ErrorKind::External,
            BuildError::CompileFailed { .. } => ErrorKind::External,
            BuildError::FetchFailed { .. } => ErrorKind::Transient,
            BuildError::HashMismatch { .. } => ErrorKind::Integrity,
            BuildError::GitCloneFailed { .. } => ErrorKind::External,
            BuildError::ExtractionFailed { .. } => ErrorKind::Integrity,
            BuildError::RecipeError { .. } => ErrorKind::InvalidInput,
            BuildError::Failed { .. } => ErrorKind::Internal,
            BuildError::SbomError { .. } => ErrorKind::External,
        }
    }
}

impl InstallError {
    /// The kind of this error.
    pub open spec fn kind_spec(&self) -> ErrorKind {
        match self {
            InstallError::NoPackagesSpecified => ErrorKind::InvalidInput,
            InstallError::LocalPackageNotFound { .. } => ErrorKind::NotFound,
            InstallError::InvalidPackageFile { .. } => ErrorKind::InvalidInput,
            InstallError::StateNotFound { .. } => ErrorKind::NotFound,
        }
    }

    /// The kind of this error.
    pub fn kind(&self) -> (k: ErrorKind)
        ensures
            k == self.kind_spec(),
    {
        match self {
            InstallError::NoPackagesSpecified => ErrorKind::InvalidInput,
            InstallError::LocalPackageNotFound { .. } => ErrorKind::NotFound,
            InstallError::InvalidPackageFile { .. } => ErrorKind::InvalidInput,
            InstallError::StateNotFound { .. } => ErrorKind::NotFound,
        }
    }
}

impl StorageError {
    /// The kind of this error.
    pub fn kind(&self) -> (k: ErrorKind)
        ensures
            k == match self {
                StorageError::PathNotFound { .. } => ErrorKind::NotFound,
                StorageError::IoError { .. } => ErrorKind::Internal,
            },
    {
        match self {
            StorageError::PathNotFound { .. } => ErrorKind::NotFound,
            StorageError::IoError { .. } => ErrorKind::Internal,
        }
    }
}

impl OpsError {
    /// The kind of this error.
    pub fn kind(&self) -> (k: ErrorKind)
        ensures
            k == ErrorKind::Internal,
    {
        ErrorKind::Internal
    }
}

/// Integrity errors are never tried again.
pub proof fn law_integrity_errors_are_final(e: BuildError)
    requires
        e.kind_spec() == ErrorKind::Integrity,
    ensures
        !is_retried(e.kind_spec()),
{
}

} // verus!
