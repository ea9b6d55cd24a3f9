//! One occasion for each kind of work that is cached.

pub mod resolve_module;
