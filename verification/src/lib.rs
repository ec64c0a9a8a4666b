//! Verified core of a one-shot installer that links "procedure files" from a
//! resolved source directory into the per-version user directories of a host
//! application. The fallible, environment-touching steps (cloning, directory
//! listing, symbolic links) stay outside; this crate holds the decisions:
//! source classification, clone planning, version selection, destination
//! path composition, and link-set planning with fail-fast semantics.

pub mod dest;
pub mod install;
pub mod link;
pub mod source;
pub mod text;
pub mod version;

pub use source::is_git_url;
