//! The bill of materials of a package: which documents are made, how the
//! scanner is called for each, and how its output is recorded and checked.
//!
//! The scanner is an outside program that the caller runs. Its environment
//! pins the creation time, so that the same staging tree gives the same
//! document.

use crate::environment::{var_views, EnvVar, EnvVarView};
use crate::errors::BuildError;
use crate::hash::{blake3_digest, hex_of};
use crate::paths::{join_path, joined};
use crate::text::{concat2, concat3, decimal, push_text, same_text, texts};
use vstd::prelude::*;

verus! {

/// The policy for bills of materials.
#[derive(Clone, Debug)]
pub struct SbomSettings {
    /// `spdx-json`, `cyclone-dx` or `all`.
    pub format: String,
    /// The patterns of files that the scanner leaves out.
    pub exclusions: Vec<String>,
}

/// The documents that were made.
#[derive(Clone, Debug)]
pub struct SbomFiles {
    /// Where the SPDX document is.
    pub spdx_path: Option<String>,
    /// The hash of the SPDX document, in hexadecimal.
    pub spdx_hash: Option<String>,
    /// Where the CycloneDX document is.
    pub cyclonedx_path: Option<String>,
    /// The hash of the CycloneDX document, in hexadecimal.
    pub cyclonedx_hash: Option<String>,
}

impl SbomFiles {
    /// No document yet.
    pub fn new() -> (f: SbomFiles)
        ensures
            f.spdx_path is None,
            f.spdx_hash is None,
            f.cyclonedx_path is None,
            f.cyclonedx_hash is None,
    {
        SbomFiles { spdx_path: None, spdx_hash: None, cyclonedx_path: None, cyclonedx_hash: None }
    }

    /// Whether any document was made.
    pub fn has_files(&self) -> (r: bool)
        ensures
            r == (self.spdx_path is Some || self.cyclonedx_path is Some),
    {
        self.spdx_path.is_some() || self.cyclonedx_path.is_some()
    }

    /// Records the SPDX document at `path` with the given content.
    pub fn record_spdx(&mut self, path: String, content: &[u8])
        ensures
            final(self).spdx_path == Some(path),
            final(self).spdx_hash matches Some(h) && h@ == hex_of(blake3_digest(content@)),
            final(self).cyclonedx_path == old(self).cyclonedx_path,
            final(self).cyclonedx_hash == old(self).cyclonedx_hash,
    {
        self.spdx_path = Some(path);
        self.spdx_hash = Some(crate::hash::Hash::from_data(content).to_hex());
    }

    /// Records the CycloneDX document at `path` with the given content.
    pub fn record_cyclonedx(&mut self, path: String, content: &[u8])
        ensures
            final(self).cyclonedx_path == Some(path),
            final(self).cyclonedx_hash matches Some(h) && h@ == hex_of(blake3_digest(content@)),
            final(self).spdx_path == old(self).spdx_path,
            final(self).spdx_hash == old(self).spdx_hash,
    {
        self.cyclonedx_path = Some(path);
        self.cyclonedx_hash = Some(crate::hash::Hash::from_data(content).to_hex());
    }
}

impl Default for SbomFiles {
    fn default() -> (f: SbomFiles)
        ensures
            f.spdx_path is None,
            f.spdx_hash is None,
            f.cyclonedx_path is None,
            f.cyclonedx_hash is None,
    {
        SbomFiles::new()
    }
}

/// The two kinds of document.
#[derive(Clone, Copy, Debug, PartialEq, Eq, Structural)]
pub enum SbomFormat {
    Spdx,
    CycloneDx,
}

/// Makes the bills of materials of one package.
#[derive(Clone, Debug)]
pub struct SbomGenerator {
    /// The scanner program.
    pub syft_path: String,
    pub settings: SbomSettings,
    pub package_name: String,
    pub package_version: String,
}

/// The name by which the scanner knows a format.
pub open spec fn format_name(format: SbomFormat) -> Seq<char> {
    match format {
        SbomFormat::Spdx => "spdx-json"@,
        SbomFormat::CycloneDx => "cyclonedx-json"@,
    }
}

/// The file that a format is written to.
pub open spec fn format_file(format: SbomFormat) -> Seq<char> {
    match format {
        SbomFormat::Spdx => "sbom.spdx.json"@,
        SbomFormat::CycloneDx => "sbom.cdx.json"@,
    }
}

/// The exclusions as arguments: `--exclude` before each pattern.
pub open spec fn exclude_args(patterns: Seq<Seq<char>>) -> Seq<Seq<char>>
    decreases patterns.len(),
{
    if patterns.len() == 0 {
        Seq::<Seq<char>>::empty()
    } else {
        exclude_args(patterns.drop_last()).push("--exclude"@).push(patterns.last())
    }
}

/// The arguments of the scanner for one document: the output, the tree to
/// scan, the name and the version of the package, and the exclusions.
pub open spec fn scan_args(
    format: SbomFormat,
    source_dir: Seq<char>,
    output_path: Seq<char>,
    package_name: Seq<char>,
    package_version: Seq<char>,
    exclusions: Seq<Seq<char>>,
) -> Seq<Seq<char>> {
    seq![
        "scan"@,
        "-o"@,
        format_name(format) + seq!['='] + output_path,
        source_dir,
        "--source-name"@,
        package_name,
        "--source-version"@,
        package_version,
    ] + exclude_args(exclusions)
}

/// The variables that pin the creation time of a document.
pub open spec fn scan_env() -> Seq<EnvVarView> {
    seq![
        EnvVarView { name: "SYFT_SPDX_CREATION_INFO_CREATED"@, value: "2024-01-01T00:00:00Z"@ },
        EnvVarView { name: "SOURCE_DATE_EPOCH"@, value: "1704067200"@ },
        EnvVarView { name: "SYFT_DISABLE_METADATA_TIMESTAMP"@, value: "true"@ },
    ]
}

impl SbomGenerator {
    /// A generator that calls the scanner `syft`.
    pub fn new(settings: SbomSettings, package_name: String, package_version: String) -> (g:
        SbomGenerator)
        ensures
            g.syft_path@ == "syft"@,
            g.settings == settings,
            g.package_name == package_name,
            g.package_version == package_version,
    {
        SbomGenerator { syft_path: "syft".to_owned(), settings, package_name, package_version }
    }

    /// The same generator with another scanner program.
    pub fn with_syft_path(self, syft_path: String) -> (g: SbomGenerator)
        ensures
            g == (SbomGenerator { syft_path, ..self }),
    {
        let mut g = self;
        g.syft_path = syft_path;
        g
    }

    /// Whether the scanner is there: it ran with `--version` and succeeded.
    /// `ran` is `None` when it could not be run at all.
    pub fn syft_available(ran: Option<bool>) -> (r: bool)
        ensures
            r == (ran == Some(true)),
    {
        match ran {
            Some(success) => success,
            None => false,
        }
    }

    /// The error for a scanner that is not there.
    pub fn syft_missing() -> (e: BuildError)
        ensures
            e matches BuildError::SbomError { message } && message@
                == "Syft not found - SBOM generation requires syft >= 1.4"@,
    {
        BuildError::SbomError {
            message: "Syft not found - SBOM generation requires syft >= 1.4".to_owned(),
        }
    }

    /// Whether the policy asks for a document of the given kind.
    pub fn wants(&self, format: SbomFormat) -> (r: bool)
        ensures
            r == (self.settings.format@ == "all"@ || self.settings.format@ == match format {
                SbomFormat::Spdx => "spdx-json"@,
                SbomFormat::CycloneDx => "cyclone-dx"@,
            }),
    {
        let name = match format {
            SbomFormat::Spdx => "spdx-json",
            SbomFormat::CycloneDx => "cyclone-dx",
        };
        same_text(self.settings.format.as_str(), "all") || same_text(
            self.settings.format.as_str(),
            name,
        )
    }

    /// Where the document of the given kind is written.
    pub fn output_path(output_dir: &str, format: SbomFormat) -> (path: String)
        ensures
            path@ == joined(output_dir@, format_file(format)),
    {
        match format {
            SbomFormat::Spdx => join_path(output_dir, "sbom.spdx.json"),
            SbomFormat::CycloneDx => join_path(output_dir, "sbom.cdx.json"),
        }
    }

    /// The arguments of the scanner for one document.
    pub fn scan_arguments(&self, format: SbomFormat, source_dir: &str, output_path: &str) -> (args:
        Vec<String>)
        ensures
            texts(args@) == scan_args(
                format,
                source_dir@,
                output_path@,
                self.package_name@,
                self.package_version@,
                texts(self.settings.exclusions@),
            ),
    {
        let mut args: Vec<String> = Vec::new();
        push_text(&mut args, "scan".to_owned());
        push_text(&mut args, "-o".to_owned());
        proof {
            reveal_strlit("=");
            assert("="@ == seq!['=']);
        }
        let out = match format {
            SbomFormat::Spdx => concat3("spdx-json", "=", output_path),
            SbomFormat::CycloneDx => concat3("cyclonedx-json", "=", output_path),
        };
        push_text(&mut args, out);
        push_text(&mut args, source_dir.to_owned());
        push_text(&mut args, "--source-name".to_owned());
        push_text(&mut args, self.package_name.clone());
        push_text(&mut args, "--source-version".to_owned());
        push_text(&mut args, self.package_version.clone());
        let ghost head = texts(args@);
        let ghost patterns = texts(self.settings.exclusions@);
        let mut i: usize = 0;
        assert(exclude_args(patterns.take(0)) == Seq::<Seq<char>>::empty());
        assert(head + exclude_args(patterns.take(0)) == head);
        while i < self.settings.exclusions.len()
            invariant
                i <= self.settings.exclusions.len(),
                patterns == texts(self.settings.exclusions@),
                texts(args@) == head + exclude_args(patterns.take(i as int)),
            decreases self.settings.exclusions.len() - i,
        {
            assert(patterns.take(i + 1).drop_last() == patterns.take(i as int));
            let ghost before = exclude_args(patterns.take(i as int));
            push_text(&mut args, "--exclude".to_owned());
            push_text(&mut args, self.settings.exclusions[i].clone());
            assert((head + before).push("--exclude"@).push(patterns[i as int]) == head
                + before.push("--exclude"@).push(patterns[i as int]));
            i += 1;
        }
        assert(patterns.take(self.settings.exclusions.len() as int) == patterns);
        args
    }

    /// The variables that the scanner runs with. They fix the creation time
    /// that the documents carry, whatever the time of the scan.
    pub fn scan_environment() -> (vars: Vec<EnvVar>)
        ensures
            var_views(vars@) == scan_env(),
    {
        let mut vars: Vec<EnvVar> = Vec::new();
        vars.push(
            EnvVar {
                name: "SYFT_SPDX_CREATION_INFO_CREATED".to_owned(),
                value: "2024-01-01T00:00:00Z".to_owned(),
            },
        );
        vars.push(
            EnvVar { name: "SOURCE_DATE_EPOCH".to_owned(), value: "1704067200".to_owned() },
        );
        vars.push(
            EnvVar { name: "SYFT_DISABLE_METADATA_TIMESTAMP".to_owned(), value: "true".to_owned() },
        );
        assert(var_views(vars@) =~= scan_env());
        vars
    }

    /// Judges a run of the scanner.
    pub fn scan_result(success: bool, stderr: &str) -> (r: Result<(), BuildError>)
        ensures
            match r {
                Ok(_) => success,
                Err(BuildError::SbomError { message }) => !success && message@ == "syft failed: "@
                    + stderr@,
                Err(_) => false,
            },
    {
        if success {
            Ok(())
        } else {
            Err(BuildError::SbomError { message: concat2("syft failed: ", stderr) })
        }
    }

    /// The error for a scanner that could not be run.
    pub fn scan_not_run(reason: &str) -> (e: BuildError)
        ensures
            e matches BuildError::SbomError { message } && message@ == "failed to run syft: "@
                + reason@,
    {
        BuildError::SbomError { message: concat2("failed to run syft: ", reason) }
    }

    /// Checks that a second run of the scanner gave the same document as
    /// the first: the content of the second run must have the hash that was
    /// recorded for the first. The error for the SPDX document tells both
    /// hashes and both lengths.
    pub fn verify_deterministic(
        format: SbomFormat,
        expected_hash: &str,
        regenerated: &[u8],
        original_len: usize,
    ) -> (r: Result<(), BuildError>)
        ensures
            match r {
                Ok(_) => expected_hash@ == hex_of(blake3_digest(regenerated@)),
                Err(BuildError::SbomError { message }) => expected_hash@ != hex_of(
                    blake3_digest(regenerated@),
                ) && message@ == not_deterministic_message(
                    format,
                    expected_hash@,
                    hex_of(blake3_digest(regenerated@)),
                    original_len as nat,
                    regenerated@.len(),
                ),
                Err(_) => false,
            },
    {
        let actual = crate::hash::Hash::from_data(regenerated).to_hex();
        if same_text(actual.as_str(), expected_hash) {
            return Ok(());
        }
        match format {
            SbomFormat::CycloneDx => Err(
                BuildError::SbomError {
                    message: "CycloneDX SBOM generation is not deterministic".to_owned(),
                },
            ),
            SbomFormat::Spdx => {
                let mut message =
                    "SPDX SBOM generation is not deterministic: expected hash ".to_owned();
                message.append(expected_hash);
                message.append(", got hash ");
                message.append(actual.as_str());
                message.append(". Original length: ");
                message.append(crate::text::decimal_text(original_len as u64).as_str());
                message.append(", verify length: ");
                message.append(crate::text::decimal_text(regenerated.len() as u64).as_str());
                Err(BuildError::SbomError { message })
            },
        }
    }
}

/// The message for a document that came out differently the second time.
pub open spec fn not_deterministic_message(
    format: SbomFormat,
    expected: Seq<char>,
    actual: Seq<char>,
    original_len: nat,
    verify_len: nat,
) -> Seq<char> {
    match format {
        SbomFormat::CycloneDx => "CycloneDX SBOM generation is not deterministic"@,
        SbomFormat::Spdx => "SPDX SBOM generation is not deterministic: expected hash "@ + expected
            + ", got hash "@ + actual + ". Original length: "@ + decimal(original_len)
            + ", verify length: "@ + decimal(verify_len),
    }
}

} // verus!
