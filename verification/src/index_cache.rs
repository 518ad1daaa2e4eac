//! The local copy of the package index: where its files are, how old it
//! is, and which entity tag it was fetched with.
//!
//! The cache holds the index in `index.json` and, in the first line of
//! `index.meta`, the entity tag of the index. The index is written to
//! `index.tmp` and renamed over `index.json`, so that a reader never sees
//! half an index.

use crate::errors::StorageError;
use crate::paths::{join_path, joined};
use crate::text::{lines_of, text_lines, texts};
use vstd::prelude::*;

verus! {

/// The index cache in one directory.
#[derive(Clone, Debug)]
pub struct IndexCache {
    pub cache_dir: String,
}

/// A step of saving the index.
#[derive(Clone, Debug)]
pub enum SaveStep {
    /// Make sure the directory exists.
    CreateDir { path: String },
    /// Write the index to this file.
    Write { path: String },
    /// Rename the first file over the second.
    Rename { from: String, to: String },
}

/// The entity tag that the metadata file holds: its first line.
pub open spec fn etag_of(content: Seq<char>) -> Option<Seq<char>> {
    if lines_of(content).len() > 0 {
        Some(lines_of(content)[0])
    } else {
        None
    }
}

/// The age of a file modified at `modified`, seen at `now`, both in seconds:
/// what lies between them, and nothing when the clock has gone backward.
pub open spec fn age_between(now: u64, modified: u64) -> u64 {
    if now >= modified {
        (now - modified) as u64
    } else {
        0
    }
}

impl IndexCache {
    /// The cache in `cache_dir`.
    pub fn new(cache_dir: &str) -> (c: IndexCache)
        ensures
            c.cache_dir@ == cache_dir@,
    {
        IndexCache { cache_dir: cache_dir.to_owned() }
    }

    /// The file that holds the index.
    pub fn index_path(&self) -> (p: String)
        ensures
            p@ == joined(self.cache_dir@, "index.json"@),
    {
        join_path(self.cache_dir.as_str(), "index.json")
    }

    /// The file that holds the entity tag.
    pub fn metadata_path(&self) -> (p: String)
        ensures
            p@ == joined(self.cache_dir@, "index.meta"@),
    {
        join_path(self.cache_dir.as_str(), "index.meta")
    }

    /// The file that the index is written to before it is renamed.
    pub fn temp_path(&self) -> (p: String)
        ensures
            p@ == joined(self.cache_dir@, "index.tmp"@),
    {
        join_path(self.cache_dir.as_str(), "index.tmp")
    }

    /// The steps that save the index, in order: the directory, the
    /// temporary file, the rename.
    pub fn save_steps(&self) -> (steps: Vec<SaveStep>)
        ensures
            steps@.len() == 3,
            steps@[0] matches SaveStep::CreateDir { path } && path@ == self.cache_dir@,
            steps@[1] matches SaveStep::Write { path } && path@ == joined(
                self.cache_dir@,
                "index.tmp"@,
            ),
            steps@[2] matches SaveStep::Rename { from, to } && from@ == joined(
                self.cache_dir@,
                "index.tmp"@,
            ) && to@ == joined(self.cache_dir@, "index.json"@),
    {
        let mut steps: Vec<SaveStep> = Vec::new();
        steps.push(SaveStep::CreateDir { path: self.cache_dir.clone() });
        steps.push(SaveStep::Write { path: self.temp_path() });
        steps.push(SaveStep::Rename { from: self.temp_path(), to: self.index_path() });
        steps
    }

    /// The files that clearing the cache removes; one that is not there is
    /// no failure.
    pub fn clear_paths(&self) -> (paths: Vec<String>)
        ensures
            texts(paths@) == seq![
                joined(self.cache_dir@, "index.json"@),
                joined(self.cache_dir@, "index.meta"@),
            ],
    {
        let mut paths: Vec<String> = Vec::new();
        crate::text::push_text(&mut paths, self.index_path());
        crate::text::push_text(&mut paths, self.metadata_path());
        paths
    }

    /// The age of the cache in seconds, given the present time and the time
    /// the index was last modified, or nothing if there is no index.
    pub fn age(now: u64, modified: Option<u64>) -> (r: Option<u64>)
        ensures
            r == match modified {
                Some(m) => Some(age_between(now, m)),
                None => None,
            },
    {
        match modified {
            Some(m) => Some(
                if now >= m {
                    now - m
                } else {
                    0
                },
            ),
            None => None,
        }
    }

    /// The entity tag in the content of the metadata file, or nothing if
    /// the file could not be read or is empty.
    pub fn etag(content: Option<&str>) -> (r: Option<String>)
        ensures
            match r {
                Some(tag) => content matches Some(c) && etag_of(c@) == Some(tag@),
                None => match content {
                    Some(c) => etag_of(c@) is None,
                    None => true,
                },
            },
    {
        match content {
            Some(c) => {
                let lines = text_lines(c);
                if lines.len() > 0 {
                    assert(texts(lines@)[0] == lines@[0]@);
                    Some(lines[0].clone())
                } else {
                    None
                }
            },
            None => None,
        }
    }

    /// The error for an index that cannot be read.
    pub fn not_found(&self) -> (e: StorageError)
        ensures
            e matches StorageError::PathNotFound { path } && path@ == joined(
                self.cache_dir@,
                "index.json"@,
            ),
    {
        StorageError::PathNotFound { path: self.index_path() }
    }

    /// The error for a file operation that failed: what failed, a colon,
    /// and the reason.
    pub fn io_error(what: &str, reason: &str) -> (e: StorageError)
        ensures
            e matches StorageError::IoError { message } && message@ == what@ + ": "@ + reason@,
    {
        let mut message = what.to_owned();
        message.append(": ");
        message.append(reason);
        StorageError::IoError { message }
    }
}

} // verus!
