//! The checks that a package file passes before it enters the store: its
//! name, its size, the format that its first bytes announce, the fields of
//! its manifest and the paths of its files.

use crate::errors::InstallError;
use crate::installer::InstallErrorView;
use crate::text::{chars_of, has_suffix, is_digit, split_chars, split_on, text_ends_with, views};
use crate::version::{read_version, Version};
use vstd::prelude::*;

verus! {

/// The formats of a package file.
#[derive(Clone, Copy, Debug, PartialEq, Eq, Structural)]
pub enum PackageFormat {
    /// A tar archive.
    PlainTar,
    /// A tar archive compressed with zstd.
    Zstd,
}

/// Whether the bytes begin with the magic number of zstd.
pub open spec fn is_zstd(header: Seq<u8>) -> bool {
    header.len() >= 4 && header[0] == 0x28 && header[1] == 0xB5 && header[2] == 0x2F && header[3]
        == 0xFD
}

/// Whether the bytes are the start of a tar archive: the word `ustar` at
/// position 257.
pub open spec fn is_tar(header: Seq<u8>) -> bool {
    header.len() >= 262 && header[257] == 0x75 && header[258] == 0x73 && header[259] == 0x74
        && header[260] == 0x61 && header[261] == 0x72
}

/// The format that the first bytes of a file announce.
pub open spec fn format_of_header(header: Seq<u8>) -> Option<PackageFormat> {
    if is_zstd(header) {
        Some(PackageFormat::Zstd)
    } else if is_tar(header) {
        Some(PackageFormat::PlainTar)
    } else {
        None
    }
}

/// Tells the format of a package file from its first bytes.
pub fn detect_package_format(header: &[u8]) -> (r: Option<PackageFormat>)
    ensures
        r == format_of_header(header@),
{
    if header.len() >= 4 && header[0] == 0x28 && header[1] == 0xB5 && header[2] == 0x2F
        && header[3] == 0xFD {
        Some(PackageFormat::Zstd)
    } else if header.len() >= 262 && header[257] == 0x75 && header[258] == 0x73 && header[259]
        == 0x74 && header[260] == 0x61 && header[261] == 0x72 {
        Some(PackageFormat::PlainTar)
    } else {
        None
    }
}

/// What the format checks say of a file with the given name, size and
/// first bytes: the name must end in `.sp`, the file must not be empty nor
/// larger than `max_size`, and its bytes must announce a known format. The
/// checks are made in this order and the first that fails decides.
pub open spec fn format_check(
    path: Seq<char>,
    size: u64,
    header: Seq<u8>,
    max_size: u64,
) -> Result<PackageFormat, InstallErrorView> {
    if !has_suffix(path, ".sp"@) {
        Err(InstallErrorView::InvalidPackageFile { path, message: "file must have .sp extension"@ })
    } else if size == 0 {
        Err(InstallErrorView::InvalidPackageFile { path, message: "file is empty"@ })
    } else if size > max_size {
        Err(InstallErrorView::InvalidPackageFile { path, message: "file exceeds the size limit"@ })
    } else {
        match format_of_header(header) {
            Some(format) => Ok(format),
            None => Err(
                InstallErrorView::InvalidPackageFile {
                    path,
                    message: "file is neither a tar archive nor a zstd-compressed one"@,
                },
            ),
        }
    }
}

fn invalid(path: &str, message: &str) -> (e: InstallError)
    ensures
        e@ == (InstallErrorView::InvalidPackageFile { path: path@, message: message@ }),
{
    InstallError::InvalidPackageFile { path: path.to_owned(), message: message.to_owned() }
}

/// Checks the name, the size and the format of a package file.
pub fn validate_file_format(path: &str, size: u64, header: &[u8], max_size: u64) -> (r: Result<
    PackageFormat,
    InstallError,
>)
    ensures
        match r {
            Ok(format) => format_check(path@, size, header@, max_size) == Ok::<
                PackageFormat,
                InstallErrorView,
            >(format),
            Err(e) => format_check(path@, size, header@, max_size) == Err::<
                PackageFormat,
                InstallErrorView,
            >(e@),
        },
{
    if !text_ends_with(path, ".sp") {
        return Err(invalid(path, "file must have .sp extension"));
    }
    if size == 0 {
        return Err(invalid(path, "file is empty"));
    }
    if size > max_size {
        return Err(invalid(path, "file exceeds the size limit"));
    }
    match detect_package_format(header) {
        Some(format) => Ok(format),
        None => Err(invalid(path, "file is neither a tar archive nor a zstd-compressed one")),
    }
}

/// What is wrong with the path of a file in a package.
#[derive(Clone, Copy, Debug, PartialEq, Eq, Structural)]
pub enum PathProblem {
    /// The path is absolute.
    Absolute,
    /// The path has a `..` component.
    ParentComponent,
    /// The path is longer than allowed.
    TooLong,
}

/// The word `..`.
pub open spec fn dot_dot() -> Seq<char> {
    seq!['.', '.']
}

/// What is wrong with a path, if anything. An absolute path is reported
/// before a `..` component, and that before the length.
pub open spec fn path_problem(path: Seq<char>, max_length: usize) -> Option<PathProblem> {
    if path.len() > 0 && path[0] == '/' {
        Some(PathProblem::Absolute)
    } else if split_on(path, '/').contains(dot_dot()) {
        Some(PathProblem::ParentComponent)
    } else if path.len() > max_length {
        Some(PathProblem::TooLong)
    } else {
        None
    }
}

/// Checks the path of a file in a package.
pub fn validate_entry_path(path: &str, max_length: usize) -> (r: Option<PathProblem>)
    ensures
        r == path_problem(path@, max_length),
{
    let v = chars_of(path);
    if v.len() > 0 && v[0] == '/' {
        return Some(PathProblem::Absolute);
    }
    let parts = split_chars(&v, '/');
    let mut i: usize = 0;
    while i < parts.len()
        invariant
            i <= parts.len(),
            v@ == path@,
            !(v@.len() > 0 && v@[0] == '/'),
            views(parts@) == split_on(v@, '/'),
            forall|k: int| 0 <= k < i ==> #[trigger] views(parts@)[k] != dot_dot(),
        decreases parts.len() - i,
    {
        let part = &parts[i];
        if part.len() == 2 && part[0] == '.' && part[1] == '.' {
            assert(part@ == dot_dot());
            assert(views(parts@)[i as int] == dot_dot());
            return Some(PathProblem::ParentComponent);
        }
        assert(part@ != dot_dot()) by {
            if part@ == dot_dot() {
                assert(part@.len() == 2 && part@[0] == '.' && part@[1] == '.');
            }
        }
        i += 1;
    }
    if v.len() > max_length {
        Some(PathProblem::TooLong)
    } else {
        None
    }
}

/// Whether a character may stand in a package name: an ASCII letter or
/// digit, or one of `-`, `_`, `.` and `+`.
pub open spec fn is_name_char(c: char) -> bool {
    is_digit(c) || ('A' <= c <= 'Z') || ('a' <= c <= 'z') || c == '-' || c == '_' || c == '.' || c
        == '+'
}

/// Whether a text is a package name: not empty, made of name characters,
/// and beginning with a letter or a digit.
pub open spec fn is_package_name(name: Seq<char>) -> bool {
    &&& name.len() > 0
    &&& is_digit(name[0]) || ('A' <= name[0] <= 'Z') || ('a' <= name[0] <= 'z')
    &&& forall|i: int| 0 <= i < name.len() ==> is_name_char(#[trigger] name[i])
}

/// Tells whether a text is a package name.
pub fn valid_package_name(name: &str) -> (r: bool)
    ensures
        r == is_package_name(name@),
{
    let v = chars_of(name);
    if v.len() == 0 {
        return false;
    }
    let first = v[0];
    if !(('0' <= first && first <= '9') || ('A' <= first && first <= 'Z') || ('a' <= first && first
        <= 'z')) {
        return false;
    }
    let mut i: usize = 0;
    while i < v.len()
        invariant
            i <= v.len(),
            v@ == name@,
            forall|k: int| 0 <= k < i ==> is_name_char(#[trigger] v@[k]),
        decreases v.len() - i,
    {
        let c = v[i];
        if !(('0' <= c && c <= '9') || ('A' <= c && c <= 'Z') || ('a' <= c && c <= 'z') || c == '-'
            || c == '_' || c == '.' || c == '+') {
            assert(!is_name_char(v@[i as int]));
            return false;
        }
        i += 1;
    }
    true
}

/// What is wrong with the required fields of a manifest.
#[derive(Clone, Debug)]
pub enum ManifestProblem {
    /// The name is no package name.
    BadName,
    /// The version does not read; the message says why.
    BadVersion { message: String },
}

/// Checks the required fields of a manifest: the name must be a package
/// name and the version must read as a version.
pub fn validate_manifest_fields(name: &str, version: &str) -> (r: Result<Version, ManifestProblem>)
    ensures
        match r {
            Ok(v) => is_package_name(name@) && read_version(version@) == crate::version::read_ok(
                v@,
            ),
            Err(ManifestProblem::BadName) => !is_package_name(name@),
            Err(ManifestProblem::BadVersion { message }) => is_package_name(name@) && read_version(
                version@,
            ) == crate::version::read_err(message@),
        },
{
    if !valid_package_name(name) {
        return Err(ManifestProblem::BadName);
    }
    match Version::parse(version) {
        Ok(v) => Ok(v),
        Err(message) => Err(ManifestProblem::BadVersion { message }),
    }
}

} // verus!
