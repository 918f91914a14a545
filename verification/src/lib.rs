//! Resolution and transformation core for a game-server data pipeline:
//! resolving a version reference against a remote manifest or a local
//! directory of `{major}.{minor}.{patch}.jar` artifacts, planning idempotent
//! artifact downloads, and reshaping generated JSON trees into a namespaced
//! registry document and a flat block-to-protocol-id table.

use vstd::prelude::*;

pub mod acquire;
pub mod blocks;
pub mod generate;
pub mod jsonio;
pub mod manifest;
pub mod numerals;
pub mod paths;
pub mod registry;
pub mod version_scan;

verus! {

/// The failures the pipeline distinguishes, each carrying enough context
/// (a file name, a registry name, a block id) to diagnose the run.
#[derive(Debug, Clone, PartialEq, Eq)]
pub enum PipelineError {
    /// No manifest entry satisfied the version request.
    NotFound,
    /// A filename or a JSON document did not have the required shape.
    ParseError(String),
    /// A directory that must exist could not be read.
    IoError(String),
    /// A network request failed.
    NetworkError(String),
    /// A block definition had a `states` array but no usable default state.
    MalformedBlockState(String),
    /// The scanned directory held no entries at all.
    EmptyDirectory,
}

} // verus!
