//! The tree of configuration files: the root file and the files it includes.

use vstd::prelude::*;
use crate::config::file::RawConfigFile;

verus! {

/// One loaded configuration file.
#[derive(Debug, Clone)]
pub struct LoadedConfigFile {
    pub path: String,
    pub directory: String,
    pub raw: RawConfigFile,
}

/// The root file and its includes, in declaration order (root first).
#[derive(Debug, Clone)]
pub struct LoadedConfigTree {
    pub root_path: String,
    pub root_directory: String,
    pub files: Vec<LoadedConfigFile>,
}

} // verus!
