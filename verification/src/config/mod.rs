//! Loading and validation for grove.toml: the raw document model, the deep
//! merge of override files, inclusion checks, resolution of repository
//! definitions, and the decisions behind adding a repository.

pub mod addition;
pub mod document;
pub mod file;
pub mod tree;
pub mod resolved;
pub mod validation;
pub mod value;
pub mod load;
pub mod session;
