//! Resolves a repository release's asset for a target platform, downloads it
//! through a size-adaptive memory/disk strategy, and locates the contained
//! executable in a zip, gzip-compressed tar, or raw payload.

pub mod download;
mod errors;
pub mod extract;
pub mod platform;
pub mod release;
pub mod selector;
pub mod text;

pub use errors::Error;
