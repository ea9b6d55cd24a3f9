//! The cache: fingerprints of files, snapshots of the files an answer
//! depended on, the store that keeps answers, and the occasions that tie
//! them to one kind of work.

pub mod fingerprint;
pub mod occasion;
pub mod snapshot;
pub mod storage;
