//! The file manager's own rules: profiles, annotations, encryption, operations, search.

pub mod annotations;
pub mod crypto;
pub mod file_ops;
pub mod profile;
pub mod search;
