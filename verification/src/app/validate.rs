//! `gv validate`: load the configuration and say how many repositories it
//! declares.

use vstd::prelude::*;
use crate::config::load::{ConfigFiles, load};
use crate::config::resolved::ResolvedConfig;
use crate::error::AppError;

verus! {

/// The result of validating the configuration.
#[derive(Debug, Clone, PartialEq, Eq)]
pub struct Report {
    pub config_path: String,
    pub repository_count: usize,
}

impl Report {
    pub fn new(config_path: String, repository_count: usize) -> (r: Report)
        ensures
            r.config_path == config_path,
            r.repository_count == repository_count,
    {
        Report { config_path, repository_count }
    }

    pub fn config_path(&self) -> (p: &str)
        ensures
            p@ == self.config_path@,
    {
        self.config_path.as_str()
    }

    pub fn repository_count(&self) -> (n: usize)
        ensures
            n == self.repository_count,
    {
        self.repository_count
    }
}

/// What a load gives: its error unchanged, or a report naming the root file
/// and counting the repositories.
pub open spec fn reports_load(loaded: Result<ResolvedConfig, AppError>, res: Result<Report, AppError>) -> bool {
    match loaded {
        Err(e) => res == Err::<Report, AppError>(e),
        Ok(c) => res matches Ok(r) && r.config_path == c.root_path && r.repository_count
            == c.repositories@.len(),
    }
}

/// The report for what a load gave.
pub fn report_for(loaded: Result<ResolvedConfig, AppError>) -> (res: Result<Report, AppError>)
    ensures
        reports_load(loaded, res),
{
    match loaded {
        Ok(config) => {
            let count = config.repositories.len();
            Ok(Report::new(config.root_path, count))
        },
        Err(e) => Err(e),
    }
}

/// Loads the configuration; a configuration that loads is valid, and the
/// report names its root file and counts its repositories; a load that fails
/// fails the validation with its own error.
pub fn execute<F: ConfigFiles>(files: &F, config_path: Option<&str>) -> (res: Result<Report, AppError>)
    ensures
        exists|loaded: Result<ResolvedConfig, AppError>| #[trigger] reports_load(loaded, res) && (
        loaded matches Ok(c) ==> exists|
            tree: crate::config::tree::LoadedConfigTree,
            resolutions: Seq<crate::config::validation::PathResolution>,
        |
            crate::config::validation::tree_valid(tree, resolutions) && c.root_path
                == tree.root_path && c.repositories@.len() == crate::config::validation::flat_entries(
                tree.files@,
            ).len()),
{
    let loaded = load(files, config_path);
    let ghost observed = loaded;
    let res = report_for(loaded);
    assert(reports_load(observed, res));
    res
}

} // verus!
