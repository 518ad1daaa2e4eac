//! Resumable downloads: where to resume, what to hash, when to retry.
//!
//! A download that finds a long enough partial file goes on where that file
//! ends. What the file already holds is hashed first, so that at the end
//! one digest covers the whole content and is compared with the expected
//! hash. A mismatch is final: the partial file is deleted and nothing is
//! retried.

use crate::errors::{is_retried, ErrorKind};
use crate::hash::{blake3_digest, hex_of, IncrementalHash};
use vstd::prelude::*;

verus! {

/// The settings of package downloads.
#[derive(Clone, Copy, Debug, PartialEq, Eq, Structural)]
pub struct PackageDownloadConfig {
    /// The size from which a partial file is worth resuming.
    pub min_chunk_size: u64,
    /// The size of the read buffer.
    pub buffer_size: usize,
    /// How often a failed transfer is tried again.
    pub max_retries: u32,
    /// The wait before the first retry, in milliseconds.
    pub retry_delay_ms: u64,
}

/// How a download starts.
#[derive(Clone, Copy, Debug, PartialEq, Eq, Structural)]
pub struct ResumeDecision {
    /// The position in the content at which the transfer starts.
    pub offset: u64,
    /// Whether a partial file is deleted first.
    pub remove_partial: bool,
}

/// Where a download resumes, given the size of the partial file if there is
/// one: at its end when it is at least `min_chunk_size` long; else from the
/// start, with the partial file removed.
pub open spec fn resume_decision(existing_size: Option<u64>, min_chunk_size: u64) -> ResumeDecision {
    match existing_size {
        Some(size) => if size >= min_chunk_size {
            ResumeDecision { offset: size, remove_partial: false }
        } else {
            ResumeDecision { offset: 0, remove_partial: true }
        },
        None => ResumeDecision { offset: 0, remove_partial: false },
    }
}

/// Decides where a download resumes.
pub fn get_resume_offset(config: &PackageDownloadConfig, existing_size: Option<u64>) -> (d:
    ResumeDecision)
    ensures
        d == resume_decision(existing_size, config.min_chunk_size),
{
    match existing_size {
        Some(size) => {
            if size >= config.min_chunk_size {
                ResumeDecision { offset: size, remove_partial: false }
            } else {
                ResumeDecision { offset: 0, remove_partial: true }
            }
        },
        None => ResumeDecision { offset: 0, remove_partial: false },
    }
}

/// Hashes what a partial file already holds, up to `bytes` bytes, reading
/// it a buffer at a time.
pub fn calculate_existing_file_hash(
    config: &PackageDownloadConfig,
    existing: &[u8],
    bytes: u64,
) -> (h: IncrementalHash)
    ensures
        config.buffer_size > 0 ==> h.fed() == existing@.take(
            if (bytes as int) <= existing@.len() {
                bytes as int
            } else {
                existing@.len() as int
            },
        ),
        config.buffer_size == 0 ==> h.fed() == Seq::<u8>::empty(),
{
    crate::hash::hash_existing_prefix(existing, bytes, config.buffer_size)
}

/// Why a download failed.
#[derive(Clone, Debug)]
pub enum DownloadError {
    /// The content does not have the expected hash.
    HashMismatch { expected: String, actual: String },
    /// The transfer failed or timed out.
    Transport { message: String },
}

impl DownloadError {
    /// The kind of this error.
    pub open spec fn kind_spec(&self) -> ErrorKind {
        match self {
            DownloadError::HashMismatch { .. } => ErrorKind::Integrity,
            DownloadError::Transport { .. } => ErrorKind::Transient,
        }
    }

    /// The kind of this error: a mismatch is a matter of integrity, a
    /// failed or timed-out transfer is transient.
    pub fn kind(&self) -> (k: ErrorKind)
        ensures
            k == self.kind_spec(),
    {
        match self {
            DownloadError::HashMismatch { .. } => ErrorKind::Integrity,
            DownloadError::Transport { .. } => ErrorKind::Transient,
        }
    }
}

/// Judges a finished transfer: the digest of everything that was hashed,
/// the resumed part and the new part, must be the expected one. After a
/// mismatch the caller deletes the file.
pub fn finish_download(hasher: &IncrementalHash, expected: &crate::hash::Hash) -> (r: Result<
    (),
    DownloadError,
>)
    ensures
        match r {
            Ok(_) => expected@ == blake3_digest(hasher.fed()),
            Err(DownloadError::HashMismatch { expected: e, actual }) => expected@ != blake3_digest(
                hasher.fed(),
            ) && e@ == hex_of(expected@) && actual@ == hex_of(blake3_digest(hasher.fed())),
            Err(_) => false,
        },
{
    let actual = hasher.finalize();
    if actual.same(expected) {
        Ok(())
    } else {
        Err(DownloadError::HashMismatch { expected: expected.to_hex(), actual: actual.to_hex() })
    }
}

/// Whether a failed download is tried again: only after a transport error,
/// and only while fewer than `max_retries` retries have been made.
pub open spec fn retries(error: DownloadError, retries_made: u32, max_retries: u32) -> bool {
    error is Transport && retries_made < max_retries
}

/// A download is tried again only after an error of a kind that is tried
/// again, and never after the bound is reached.
pub proof fn law_only_transient_errors_are_retried(
    error: DownloadError,
    retries_made: u32,
    max_retries: u32,
)
    ensures
        retries(error, retries_made, max_retries) == (is_retried(error.kind_spec()) && retries_made
            < max_retries),
{
}

/// Decides whether a failed download is tried again.
pub fn should_retry(error: &DownloadError, retries_made: u32, max_retries: u32) -> (r: bool)
    ensures
        r == retries(*error, retries_made, max_retries),
{
    match error {
        DownloadError::Transport { .. } => retries_made < max_retries,
        DownloadError::HashMismatch { .. } => false,
    }
}

/// The wait before a retry, in milliseconds: the first wait doubled for
/// every retry already made, as far as the number reaches.
pub open spec fn backoff(first_ms: u64, retries_made: u32) -> u64
    decreases retries_made,
{
    if retries_made == 0 {
        first_ms
    } else {
        let before = backoff(first_ms, (retries_made - 1) as u32);
        if before as int * 2 > u64::MAX {
            u64::MAX
        } else {
            (before * 2) as u64
        }
    }
}

/// Computes the wait before a retry.
pub fn backoff_delay(first_ms: u64, retries_made: u32) -> (ms: u64)
    ensures
        ms == backoff(first_ms, retries_made),
{
    let mut ms: u64 = first_ms;
    let mut i: u32 = 0;
    while i < retries_made
        invariant
            i <= retries_made,
            ms == backoff(first_ms, i),
        decreases retries_made - i,
    {
        ms = if ms > u64::MAX / 2 {
            u64::MAX
        } else {
            ms * 2
        };
        i += 1;
    }
    ms
}

/// A hash mismatch is never retried, however many retries are left.
pub proof fn law_mismatch_is_final(expected: String, actual: String, made: u32, max: u32)
    ensures
        !retries(DownloadError::HashMismatch { expected, actual }, made, max),
{
}

/// The waits never get shorter.
pub proof fn law_backoff_grows(first_ms: u64, retries_made: u32)
    requires
        retries_made < u32::MAX,
    ensures
        backoff(first_ms, retries_made) <= backoff(first_ms, (retries_made + 1) as u32),
{
}

} // verus!
