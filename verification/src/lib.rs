//! Project-level orchestration for an Erlang compiler front end: the project
//! description, the manifest of source files, and the registry of parsed modules.

pub mod error;
pub mod project;
