//! A document sourcing and conversion pipeline. Content items are declared by
//! per-folder YAML manifests; the library parses and validates them into
//! documents, merges their metadata into converter configurations without
//! ever overwriting an explicit setting, decides each conversion's path
//! (in-process rendering, one external-converter run, or the two-hop
//! fallback through HTML), resolves bundled assets and bibliographic
//! citations, and keeps the sourced documents in an index that readers share
//! while a rebuild swaps generations wholesale.
//!
//! All file-system walks and subprocess runs stay with the caller: the
//! library consumes gathered inputs and process outcomes, and hands back
//! requests that say exactly what to run.

pub mod citation;
pub mod config;
pub mod convert;
pub mod date;
pub mod document;
pub mod source;
pub mod store;
pub mod text;
pub mod yaml;
