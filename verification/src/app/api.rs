//! The application's entry points, one per command, over a given context.

use vstd::prelude::*;
use crate::app::clone;
use crate::app::context::{AppContext, CacheStore, Clock};
use crate::app::events::EventSink;
use crate::app::refresh::{self, RefreshOptions};
use crate::app::status::{self, StatusReport};
use crate::app::sync::{self, SyncOptions};
use crate::app::validate;
use crate::cache::CleanReport;
use crate::config::load::load;
use crate::repositories::{picked, RepositoryDefinition, select_repositories, selection_of};
use crate::app::entry::one_entry_each;
use crate::config::load::ConfigFiles;
use crate::error::AppError;
use crate::git::GitClient;
use crate::zoxide::ZoxideClient;

verus! {

fn as_deref(path: &Option<String>) -> (p: Option<&str>)
    ensures
        match path {
            Some(s) => p matches Some(t) && t@ == s@,
            None => p is None,
        },
{
    match path {
        Some(s) => Some(s.as_str()),
        None => None,
    }
}

/// `gv status`.
pub fn status<G: GitClient, Z: ZoxideClient, F: ConfigFiles>(
    ctx: &AppContext<G, Z>,
    files: &F,
    config_path: Option<String>,
    targets: Vec<String>,
    fetch: bool,
) -> (res: Result<StatusReport, AppError>)
    ensures
        res matches Ok(r) ==> exists|configured: Seq<RepositoryDefinition>, idx: Seq<usize>|
            selection_of(configured, targets@, idx) && r.entries@.len() == idx.len() && forall|
                k: int,
            |
                0 <= k < idx.len() ==> (#[trigger] r.entries@[k]).describes(
                    configured[idx[k] as int],
                ),
        res matches Ok(r) ==> (!fetch ==> forall|k: int|
            0 <= k < r.entries@.len() ==> !((#[trigger] r.entries@[k]).condition is FetchFailed)),
{
    status::execute(ctx, files, as_deref(&config_path), &targets, fetch)
}

/// `gv sync`.
pub fn sync<G: GitClient, Z: ZoxideClient, F: ConfigFiles, C: CacheStore, K: Clock, E: EventSink<sync::Phase>>(
    ctx: &AppContext<G, Z>,
    files: &F,
    cache: &C,
    clock: &K,
    events: &E,
    config_path: Option<String>,
    targets: Vec<String>,
    options: SyncOptions,
) -> (res: Result<sync::Report, AppError>)
    ensures
        res matches Ok(r) ==> (r.zoxide is Some <==> options.register_zoxide),
        res matches Ok(r) ==> exists|configured: Seq<RepositoryDefinition>, idx: Seq<usize>|
            selection_of(configured, targets@, idx) && one_entry_each(
                r.entries@,
                picked(configured, idx),
            ),
        res matches Ok(r) ==> (options.dry_run ==> forall|k: int|
            0 <= k < r.entries@.len() ==> sync::report::leaves_untouched(
                (#[trigger] r.entries@[k]).outcome,
            )),
{
    sync::execute_with_options(ctx, files, cache, clock, events, as_deref(&config_path), &targets, options)
}

/// `gv refresh`.
pub fn refresh<G: GitClient, Z: ZoxideClient, F: ConfigFiles, K: Clock, E: EventSink<refresh::Phase>>(
    ctx: &AppContext<G, Z>,
    files: &F,
    clock: &K,
    events: &E,
    config_path: Option<String>,
    targets: Vec<String>,
    options: RefreshOptions,
) -> (res: Result<refresh::Report, AppError>)
    ensures
        res matches Ok(r) ==> exists|configured: Seq<RepositoryDefinition>, idx: Seq<usize>|
            selection_of(configured, targets@, idx) && one_entry_each(
                r.entries@,
                picked(configured, idx),
            ),
        res matches Ok(r) ==> (options.dry_run ==> forall|k: int|
            0 <= k < r.entries@.len() ==> refresh::report::leaves_untouched(
                (#[trigger] r.entries@[k]).outcome,
            )),
{
    refresh::execute_with_options(ctx, files, clock, events, as_deref(&config_path), &targets, options)
}

/// `gv validate`.
pub fn validate<F: ConfigFiles>(files: &F, config_path: Option<String>) -> (res: Result<
    validate::Report,
    AppError,
>)
    ensures
        res matches Ok(r) ==> exists|
            tree: crate::config::tree::LoadedConfigTree,
            resolutions: Seq<crate::config::validation::PathResolution>,
        |
            crate::config::validation::tree_valid(tree, resolutions) && r.config_path
                == tree.root_path && r.repository_count == crate::config::validation::flat_entries(
                tree.files@,
            ).len(),
{
    validate::execute(files, as_deref(&config_path))
}

/// `gv clone`.
pub fn clone<G: GitClient, Z: ZoxideClient, C: CacheStore, K: Clock>(
    ctx: &AppContext<G, Z>,
    cache: &C,
    clock: &K,
    cwd: &str,
    url: String,
    destination: Option<String>,
) -> (res: Result<clone::Report, AppError>)
    ensures
        res matches Ok(r) ==> r.url@ == url@,
{
    clone::execute(ctx, cache, clock, cwd, url.as_str(), as_deref(&destination))
}

/// A report of the selected repositories: each was removed or is named
/// among the absent, by its display path.
pub open spec fn cleaned(report: CleanReport, repositories: Seq<RepositoryDefinition>, selected: Seq<usize>) -> bool {
    &&& report.removed + report.absent@.len() == selected.len()
    &&& forall|j: int|
        0 <= j < report.absent@.len() ==> selected_paths(repositories, selected).contains(
            (#[trigger] report.absent@[j])@,
        )
}

/// The display paths of the selected repositories, in selection order.
pub open spec fn selected_paths(repositories: Seq<RepositoryDefinition>, selected: Seq<usize>) -> Seq<Seq<char>> {
    Seq::new(selected.len(), |k: int| repositories[selected[k] as int].display_path_view())
}

/// Removes the cache entries of the selected repositories, counting those
/// removed and naming, by display path, those that had none.
pub fn remove_entries<C: CacheStore>(
    cache: &C,
    repositories: &[RepositoryDefinition],
    selected: &Vec<usize>,
) -> (res: Result<CleanReport, AppError>)
    requires
        forall|k: int| 0 <= k < selected@.len() ==> selected@[k] < repositories@.len(),
    ensures
        res matches Ok(r) ==> cleaned(r, repositories@, selected@),
        selected@.len() == 0 ==> (res matches Ok(r) && r.removed == 0 && r.absent@.len() == 0),
{
    let mut removed: usize = 0;
    let mut absent: Vec<String> = Vec::new();
    let ghost mut from: Seq<int> = Seq::empty();
    let mut k: usize = 0;
    while k < selected.len()
        invariant
            k <= selected@.len(),
            removed + absent@.len() == k,
            from.len() == absent@.len(),
            forall|i: int| 0 <= i < selected@.len() ==> selected@[i] < repositories@.len(),
            forall|j: int|
                0 <= j < absent@.len() ==> 0 <= #[trigger] from[j] < k && absent@[j]@
                    == repositories@[selected@[from[j]] as int].display_path_view(),
        decreases selected@.len() - k,
    {
        let repository = &repositories[selected[k]];
        if cache.remove(repository.url().as_str())? {
            removed = removed + 1;
        } else {
            absent.push(String::from_str(repository.display_path()));
            proof {
                from = from.push(k as int);
            }
        }
        k = k + 1;
    }
    let report = CleanReport::new(removed, absent);
    assert forall|j: int| 0 <= j < report.absent@.len() implies selected_paths(
        repositories@,
        selected@,
    ).contains((#[trigger] report.absent@[j])@) by {
        assert(selected_paths(repositories@, selected@)[from[j]] == report.absent@[j]@);
    }
    assert(cleaned(report, repositories@, selected@));
    Ok(report)
}

/// `gv cache clean`: every entry when no repository is named, otherwise the
/// entries of the named repositories of the configuration.
pub fn cache_clean<C: CacheStore, F: ConfigFiles>(
    cache: &C,
    files: &F,
    config_path: Option<String>,
    targets: Vec<String>,
) -> (res: Result<CleanReport, AppError>)
    ensures
        targets@.len() == 0 ==> (res matches Ok(r) ==> r.absent@.len() == 0),
{
    if targets.len() == 0 {
        let removed = cache.clean_all()?;
        return Ok(CleanReport::new(removed, Vec::new()));
    }
    let config = load(files, as_deref(&config_path))?;
    let selected = select_repositories(config.repositories(), &targets)?;
    remove_entries(cache, config.repositories(), &selected)
}

} // verus!
