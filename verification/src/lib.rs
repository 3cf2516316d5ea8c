//! Core library of a CLI uploader: it locates a project's configuration,
//! resolves inclusion/exclusion rules, packages the selected tree into a
//! compressed archive, and describes the upload request that ships it.
//! Filesystem probing, directory walking and the network call live outside
//! this crate; everything here works on plain values and is verified.
use vstd::prelude::*;

pub mod auth;
pub mod config;
pub mod ignore;
pub mod locate;
pub mod package;
pub mod paths;
pub mod upload;

verus! {

/// Every failure of the pipeline, one variant per distinguishable cause.
#[derive(Debug)]
pub enum DeployError {
    /// No configuration file in the starting directory or any ancestor.
    ConfigNotFound,
    /// The configuration file is malformed or lacks the required `id` field.
    ConfigParseError,
    /// The ignore file is unreadable or holds an invalid glob pattern.
    IgnoreFileError,
    /// A filesystem or archive failure while packaging.
    PackagingIOError,
    /// The upload request never completed.
    NetworkError,
    /// The remote endpoint answered with a non-success status.
    UpstreamError { status: u16, body: String },
}

} // verus!
