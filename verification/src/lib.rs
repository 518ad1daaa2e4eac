//! The core of a source-building package manager, with its rules stated as
//! contracts and proved.
//!
//! The library decides and computes; it reads no file, starts no program
//! and asks no clock. What it needs from the outside it is handed as plain
//! values, and what is to be done outside it hands back as plans:
//!
//! - `version`, `resolver`, `graph`, `execution`: version specifications,
//!   the choice of packages, and the batches in which they are installed;
//! - `state`, `store`, `installer`, `removal`, `prefix`, `layout`: the
//!   states of the installed packages, the content-addressed store, the
//!   operations that make new states, what an uninstall takes away, the
//!   states with the trees of files that materialise them, and where it
//!   all lies on disk;
//! - `guard_config`, `guard`, `guard_verify`: the guard that compares a
//!   state with the disk and plans the repair;
//! - `recipe`, `builder_api`, `environment`, `build_systems`, `cmake`,
//!   `meson`, `archive`, `headers`, `relocation`, `sbom`, `packaging`: the
//!   steps of a build;
//! - `package_format`, `recovery`, `download`, `index_cache`, `resources`:
//!   the checks on package files, recovery from validation errors,
//!   resumable downloads, the index cache and the permits of concurrent
//!   work;
//! - `hash`, `paths`, `text`, `seq_lemmas`, `errors`: what the others share.

pub mod seq_lemmas;
pub mod text;
pub mod version;
pub mod graph;
pub mod execution;
pub mod guard_config;
pub mod errors;
pub mod hash;
pub mod paths;
pub mod archive;
pub mod packaging;
pub mod environment;
pub mod build_systems;
pub mod cmake;
pub mod meson;
pub mod builder_api;
pub mod sbom;
pub mod headers;
pub mod index_cache;
pub mod download;
pub mod resources;
pub mod installer;
pub mod layout;
pub mod recovery;
pub mod package_format;
pub mod recipe;
pub mod guard;
pub mod guard_verify;
pub mod relocation;
pub mod removal;
pub mod state;
pub mod store;
pub mod resolver;
pub mod prefix;
