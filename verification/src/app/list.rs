//! `gv list`: the configured repositories.

use vstd::prelude::*;
use crate::app::context::AppContext;
use crate::config::load::{ConfigFiles, load, resolved_from_valid_tree};
use crate::error::AppError;
use crate::git::GitClient;
use crate::repositories::RepositoryDefinition;
use crate::zoxide::ZoxideClient;

verus! {

/// One configured repository.
#[derive(Debug, Clone, PartialEq, Eq)]
pub struct ListEntry {
    pub name: String,
    pub path: String,
    pub url: String,
    pub source_config: String,
}

/// Every configured repository, in configuration order.
#[derive(Debug, Clone, PartialEq, Eq)]
pub struct ListReport {
    pub repositories: Vec<ListEntry>,
}

/// The entry listing a repository.
pub open spec fn lists(entry: ListEntry, repository: RepositoryDefinition) -> bool {
    &&& entry.name@ == repository.name_view()
    &&& entry.path@ == repository.path_view()
    &&& entry.url@ == repository.url_view()
    &&& entry.source_config@ == repository.source_config_view()
}

/// The listing of the given repositories, one entry each, in order.
pub fn list_entries(repositories: &[RepositoryDefinition]) -> (report: ListReport)
    ensures
        report.repositories@.len() == repositories@.len(),
        forall|k: int|
            0 <= k < repositories@.len() ==> lists(
                #[trigger] report.repositories@[k],
                repositories@[k],
            ),
{
    let mut out: Vec<ListEntry> = Vec::new();
    let mut k: usize = 0;
    while k < repositories.len()
        invariant
            k <= repositories@.len(),
            out@.len() == k,
            forall|j: int| 0 <= j < k ==> lists(#[trigger] out@[j], repositories@[j]),
        decreases repositories@.len() - k,
    {
        let repository = &repositories[k];
        out.push(
            ListEntry {
                name: String::from_str(repository.name().as_str()),
                path: String::from_str(repository.path()),
                url: String::from_str(repository.url().as_str()),
                source_config: String::from_str(repository.source_config()),
            },
        );
        k = k + 1;
    }
    ListReport { repositories: out }
}

/// `gv list`: checks that Git is available, loads the configuration and
/// lists every repository.
pub fn execute<G: GitClient, Z: ZoxideClient, F: ConfigFiles>(
    ctx: &AppContext<G, Z>,
    files: &F,
    config_path: Option<&str>,
) -> (res: Result<ListReport, AppError>)
    ensures
        res matches Ok(r) ==> exists|configured: Seq<RepositoryDefinition>|
            #[trigger] resolved_from_valid_tree(configured) && r.repositories@.len() == configured.len()
                && forall|k: int|
                0 <= k < configured.len() ==> lists(#[trigger] r.repositories@[k], configured[k]),
{
    match ctx.git().verify_available() {
        Ok(()) => {},
        Err(e) => return Err(e),
    }
    match load(files, config_path) {
        Ok(config) => {
            let report = list_entries(config.repositories.as_slice());
            assert(resolved_from_valid_tree(config.repositories@));
            Ok(report)
        },
        Err(e) => Err(e),
    }
}

} // verus!
