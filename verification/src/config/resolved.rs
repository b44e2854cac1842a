//! The fully validated configuration.

use vstd::prelude::*;
use crate::repositories::RepositoryDefinition;

verus! {

/// A directory that configuration names as a group of repositories, with the
/// text used for it in the root file.
#[derive(Debug, Clone)]
pub struct GroupDirectory {
    pub path: String,
    pub display_path: String,
}

impl GroupDirectory {
    pub fn new(path: String, display_path: String) -> (g: GroupDirectory)
        ensures
            g.path == path,
            g.display_path == display_path,
    {
        GroupDirectory { path, display_path }
    }

    pub fn path(&self) -> (p: &str)
        ensures
            p@ == self.path@,
    {
        self.path.as_str()
    }

    pub fn display_path(&self) -> (p: &str)
        ensures
            p@ == self.display_path@,
    {
        self.display_path.as_str()
    }
}

/// Fully validated configuration resolved from a root grove.toml.
#[derive(Debug, Clone)]
pub struct ResolvedConfig {
    pub root_path: String,
    pub groups: Vec<GroupDirectory>,
    pub repositories: Vec<RepositoryDefinition>,
}

impl ResolvedConfig {
    pub fn new(
        root_path: String,
        groups: Vec<GroupDirectory>,
        repositories: Vec<RepositoryDefinition>,
    ) -> (c: ResolvedConfig)
        ensures
            c.root_path == root_path,
            c.groups == groups,
            c.repositories == repositories,
    {
        ResolvedConfig { root_path, groups, repositories }
    }

    pub fn root_path(&self) -> (p: &str)
        ensures
            p@ == self.root_path@,
    {
        self.root_path.as_str()
    }

    pub fn repositories(&self) -> (r: &[RepositoryDefinition])
        ensures
            r@ == self.repositories@,
    {
        self.repositories.as_slice()
    }

    pub fn groups(&self) -> (g: &[GroupDirectory])
        ensures
            g@ == self.groups@,
    {
        self.groups.as_slice()
    }
}

} // verus!
