//! Incremental-build cache layer of a module bundler.
//!
//! An expensive, deterministic step of a build (resolving an import
//! specifier to a file) is remembered across compiler runs. A remembered
//! result stays valid as long as the files it depended on still carry the
//! fingerprints recorded with it.
//!
//! The crate also holds the flat, host-facing description of a chunk.

pub mod cache;
pub mod chunk;
pub mod resolve;
pub mod text;
