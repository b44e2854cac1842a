use std::cell::RefCell;
use std::collections::HashMap;
use std::time::Duration;

use grove::app::context::{AppContext, CacheStore, Clock};
use grove::app::events::DiscardEvents;
use grove::app::refresh::{self, RefreshOptions};
use grove::app::status::{self, StatusCondition};
use grove::app::sync::{self, Outcome, Plan, SkippedReason, SyncOptions};
use grove::cache::Outcome as CacheOutcome;
use grove::config::load::ConfigFiles;
use grove::config::validation::ResolutionError;
use grove::error::AppError;
use grove::git::{
    BranchReadiness, GitClient, GitRefreshOutcome, GitUpdate, GitUpdateOutcome, Readiness,
    Restoration, WorktreeStatus,
};
use grove::repositories::RepositoryDefinition;
use grove::zoxide::ZoxideClient;

const CONFIG: &str = r#"version = 1

[repos]
api = "https://e/api.git"
docs = "https://e/docs.git"
web = "https://e/web.git"
"#;

/// One configuration file in memory.
struct Files;

impl ConfigFiles for Files {
    fn current_dir(&self) -> Result<String, AppError> {
        Ok("/g".to_string())
    }

    fn canonicalize(&self, path: &str) -> Result<String, String> {
        if path == "/g/grove.toml" { Ok(path.to_string()) } else { Err("not found".to_string()) }
    }

    fn entry_exists(&self, path: &str) -> Result<bool, String> {
        Ok(path == "/g/grove.toml")
    }

    fn is_file(&self, path: &str) -> bool {
        path == "/g/grove.toml"
    }

    fn read_text(&self, path: &str) -> Result<String, AppError> {
        if path == "/g/grove.toml" { Ok(CONFIG.to_string()) } else { Err(AppError::Io("not found".to_string())) }
    }

    fn resolve_operational(&self, _lexical: &str, _root: &str) -> Option<Result<String, ResolutionError>> {
        None
    }
}

/// `api` is missing, `docs` is dirty, `web` is ready and one commit behind.
#[derive(Default)]
struct Git {
    calls: RefCell<Vec<String>>,
}

impl Git {
    fn record(&self, call: &str, path: &str) {
        self.calls.borrow_mut().push(format!("{call} {path}"));
    }

    fn changed_anything(&self) -> bool {
        self.calls.borrow().iter().any(|call| call.starts_with("fetch") || call.starts_with("update") || call.starts_with("refresh"))
    }
}

impl GitClient for Git {
    fn verify_available(&self) -> Result<(), AppError> {
        Ok(())
    }

    fn path_exists(&self, path: &str) -> bool {
        path != "/g/api"
    }

    fn is_directory(&self, path: &str) -> bool {
        path != "/g/api"
    }

    fn is_work_tree(&self, _path: &str) -> Result<bool, AppError> {
        Ok(true)
    }

    fn inspect(&self, repository: &RepositoryDefinition) -> Result<Readiness, AppError> {
        Ok(if repository.path() == "/g/docs" {
            Readiness::DirtyTree
        } else {
            Readiness::Ready { default_branch: "main".to_string() }
        })
    }

    fn branch_readiness(&self, _repository: &RepositoryDefinition, _branch: &str) -> Result<BranchReadiness, AppError> {
        Ok(BranchReadiness::Divergence { ahead: 0, behind: 1 })
    }

    fn common_directory(&self, path: &str) -> Result<String, AppError> {
        Ok(format!("{path}/.git"))
    }

    fn fetch(&self, path: &str) -> Result<(), AppError> {
        self.record("fetch", path);
        Ok(())
    }

    fn update_default_branch(&self, path: &str, _common: &str, _branch: &str) -> Result<GitUpdateOutcome, AppError> {
        self.record("update", path);
        Ok(GitUpdateOutcome::Completed {
            update: GitUpdate { before: "a".to_string(), after: "b".to_string() },
            restoration: Restoration::NotNeeded,
        })
    }

    fn refresh_default_branch(&self, path: &str, _branch: &str) -> Result<GitRefreshOutcome, AppError> {
        self.record("refresh", path);
        Ok(GitRefreshOutcome::Completed {
            update: GitUpdate { before: "a".to_string(), after: "b".to_string() },
            previous_branch: None,
        })
    }

    fn worktree_status(&self, path: &str) -> Result<Option<WorktreeStatus>, AppError> {
        Ok(Some(WorktreeStatus { branch: Some("main".to_string()), clean: path != "/g/docs" }))
    }

    fn remote_url(&self, path: &str) -> Result<Option<String>, AppError> {
        Ok(Some(format!("https://e/{}.git", path.trim_start_matches("/g/"))))
    }

    fn urls_match(&self, actual: &str, expected: &str) -> bool {
        actual == expected
    }

    fn default_branch(&self, _path: &str, configured: Option<&str>) -> Result<Option<String>, AppError> {
        Ok(Some(configured.unwrap_or("main").to_string()))
    }
}

struct NoZoxide;

impl ZoxideClient for NoZoxide {
    fn verify_available(&self) -> Result<(), AppError> {
        Err(AppError::ZoxideUnavailable("zoxide is not installed".to_string()))
    }

    fn resolve_symlinks(&self) -> bool {
        false
    }

    fn entries(&self) -> Result<Vec<String>, AppError> {
        Ok(Vec::new())
    }

    fn add(&self, _path: &str) -> Result<(), AppError> {
        Ok(())
    }

    fn canonicalize(&self, path: &str) -> Result<String, String> {
        Ok(path.to_string())
    }
}

#[derive(Default)]
struct Cache {
    placed: RefCell<Vec<String>>,
    seeded: RefCell<HashMap<String, String>>,
}

impl CacheStore for Cache {
    fn place(&self, url: &str, _destination: &str, _root: Option<&str>, _branch: Option<&str>) -> Result<CacheOutcome, AppError> {
        self.placed.borrow_mut().push(url.to_string());
        Ok(CacheOutcome::Miss)
    }

    fn is_cached(&self, url: &str) -> bool {
        self.placed.borrow().iter().any(|placed| placed == url) || self.seeded.borrow().contains_key(url)
    }

    fn seed_from_local(&self, url: &str, source: &str) -> Result<bool, AppError> {
        self.seeded.borrow_mut().insert(url.to_string(), source.to_string());
        Ok(true)
    }

    fn remove(&self, _url: &str) -> Result<bool, AppError> {
        Ok(false)
    }

    fn clean_all(&self) -> Result<usize, AppError> {
        Ok(0)
    }
}

struct Clockwork;

impl Clock for Clockwork {
    fn mark(&self) -> u64 {
        0
    }

    fn elapsed_since(&self, _mark: u64) -> Duration {
        Duration::from_millis(5)
    }
}

fn context() -> AppContext<Git, NoZoxide> {
    AppContext::new(Git::default(), NoZoxide)
}

fn everything() -> Vec<String> {
    Vec::new()
}

#[test]
fn a_sync_dry_run_plans_and_changes_nothing() {
    let ctx = context();
    let cache = Cache::default();
    let report = sync::execute_with_options(
        &ctx, &Files, &cache, &Clockwork, &DiscardEvents, Some("/g/grove.toml"), &everything(),
        SyncOptions::new(true, false),
    )
    .unwrap();
    let outcomes = report.entries().iter().map(|e| (e.repository().to_string(), e.outcome().clone())).collect::<Vec<_>>();
    assert_eq!(
        outcomes,
        vec![
            ("api".to_string(), Outcome::Planned(Plan::Clone { url: "https://e/api.git".to_string() })),
            ("docs".to_string(), Outcome::Skipped { reason: SkippedReason::DirtyWorkingTree }),
            ("web".to_string(), Outcome::Planned(Plan::Fetch { branch: "main".to_string() })),
        ]
    );
    assert!(!ctx.git().changed_anything());
    assert!(cache.placed.borrow().is_empty());
    assert!(cache.seeded.borrow().is_empty());
    assert_eq!(report.planned_clones(), 1);
    assert_eq!(report.planned_fetches(), 1);
    assert!(report.has_failures());
}

#[test]
fn a_sync_clones_updates_and_seeds() {
    let ctx = context();
    let cache = Cache::default();
    let report = sync::execute_with_options(
        &ctx, &Files, &cache, &Clockwork, &DiscardEvents, Some("/g/grove.toml"), &everything(),
        SyncOptions::new(false, false),
    )
    .unwrap();
    let outcomes = report.entries().iter().map(|e| e.outcome().clone()).collect::<Vec<_>>();
    assert_eq!(
        outcomes,
        vec![
            Outcome::Cloned { url: "https://e/api.git".to_string(), cache: CacheOutcome::Miss },
            Outcome::Skipped { reason: SkippedReason::DirtyWorkingTree },
            Outcome::Updated { branch: "main".to_string(), before: "a".to_string(), after: "b".to_string() },
        ]
    );
    assert_eq!(*cache.placed.borrow(), vec!["https://e/api.git".to_string()]);
    assert_eq!(cache.seeded.borrow().len(), 2);
    assert_eq!(report.cloned(), 1);
    assert_eq!(report.updated(), 1);
    assert_eq!(report.skipped(), 1);
    assert!(report.zoxide().is_none());
}

#[test]
fn a_sync_of_named_repositories_reports_only_those() {
    let ctx = context();
    let targets = vec!["web".to_string()];
    let report = sync::execute_with_options(
        &ctx, &Files, &Cache::default(), &Clockwork, &DiscardEvents, Some("/g/grove.toml"), &targets,
        SyncOptions::new(true, true),
    )
    .unwrap();
    assert_eq!(report.entries().len(), 1);
    assert_eq!(report.entries()[0].repository(), "web");
    assert!(report.zoxide().is_some());
}

#[test]
fn a_refresh_dry_run_blocks_the_missing_and_plans_the_ready() {
    let ctx = context();
    let report = refresh::execute_with_options(
        &ctx, &Files, &Clockwork, &DiscardEvents, Some("/g/grove.toml"), &everything(),
        RefreshOptions::new(true),
    )
    .unwrap();
    let outcomes = report.entries().iter().map(|e| e.outcome().clone()).collect::<Vec<_>>();
    assert_eq!(
        outcomes,
        vec![
            refresh::Outcome::Blocked { reason: refresh::BlockedReason::MissingRepository },
            refresh::Outcome::Skipped { reason: refresh::SkippedReason::DirtyWorkingTree },
            refresh::Outcome::Planned(refresh::Plan { branch: "main".to_string() }),
        ]
    );
    assert!(!ctx.git().changed_anything());
}

#[test]
fn a_refresh_fetches_and_refreshes_the_ready() {
    let ctx = context();
    let report = refresh::execute_with_options(
        &ctx, &Files, &Clockwork, &DiscardEvents, Some("/g/grove.toml"), &everything(),
        RefreshOptions::new(false),
    )
    .unwrap();
    assert_eq!(
        report.entries()[2].outcome(),
        &refresh::Outcome::Refreshed {
            branch: "main".to_string(),
            before: "a".to_string(),
            after: "b".to_string(),
            previous_branch: None,
        }
    );
    assert_eq!(*ctx.git().calls.borrow(), vec!["fetch /g/web".to_string(), "refresh /g/web".to_string()]);
    assert_eq!(report.refreshed(), 1);
    assert_eq!(report.blocked(), 1);
}

#[test]
fn status_describes_each_selected_repository() {
    let ctx = context();
    let report = status::execute(&ctx, &Files, Some("/g/grove.toml"), &everything(), false).unwrap();
    let conditions = report.entries().iter().map(|e| (e.name().to_string(), e.condition().clone())).collect::<Vec<_>>();
    assert_eq!(
        conditions,
        vec![
            ("api".to_string(), StatusCondition::Missing),
            ("docs".to_string(), StatusCondition::Dirty),
            ("web".to_string(), StatusCondition::Clean),
        ]
    );
    let unknown = vec!["nope".to_string()];
    assert_eq!(
        status::execute(&ctx, &Files, Some("/g/grove.toml"), &unknown, false).map(|r| r.entries().len()),
        Err(AppError::InvalidArguments("unknown repository 'nope'".to_string()))
    );
}

/// Every destination exists, and all share one repository.
#[derive(Default)]
struct SharedGit(Git);

impl GitClient for SharedGit {
    fn verify_available(&self) -> Result<(), AppError> {
        self.0.verify_available()
    }

    fn path_exists(&self, _path: &str) -> bool {
        true
    }

    fn is_directory(&self, _path: &str) -> bool {
        true
    }

    fn is_work_tree(&self, path: &str) -> Result<bool, AppError> {
        self.0.is_work_tree(path)
    }

    fn inspect(&self, repository: &RepositoryDefinition) -> Result<Readiness, AppError> {
        self.0.inspect(repository)
    }

    fn branch_readiness(&self, repository: &RepositoryDefinition, branch: &str) -> Result<BranchReadiness, AppError> {
        self.0.branch_readiness(repository, branch)
    }

    fn common_directory(&self, _path: &str) -> Result<String, AppError> {
        Ok("/g/shared.git".to_string())
    }

    fn fetch(&self, path: &str) -> Result<(), AppError> {
        self.0.fetch(path)
    }

    fn update_default_branch(&self, path: &str, common: &str, branch: &str) -> Result<GitUpdateOutcome, AppError> {
        self.0.update_default_branch(path, common, branch)
    }

    fn refresh_default_branch(&self, path: &str, branch: &str) -> Result<GitRefreshOutcome, AppError> {
        self.0.refresh_default_branch(path, branch)
    }

    fn worktree_status(&self, path: &str) -> Result<Option<WorktreeStatus>, AppError> {
        self.0.worktree_status(path)
    }

    fn remote_url(&self, path: &str) -> Result<Option<String>, AppError> {
        self.0.remote_url(path)
    }

    fn urls_match(&self, actual: &str, expected: &str) -> bool {
        self.0.urls_match(actual, expected)
    }

    fn default_branch(&self, path: &str, configured: Option<&str>) -> Result<Option<String>, AppError> {
        self.0.default_branch(path, configured)
    }
}

#[test]
fn worktrees_sharing_a_default_branch_are_all_blocked() {
    let conflict = refresh::Outcome::Blocked {
        reason: refresh::BlockedReason::LinkedWorktreeDefaultBranchConflict { branch: "main".to_string() },
    };
    for dry_run in [false, true] {
        let ctx = AppContext::new(SharedGit::default(), NoZoxide);
        let report = refresh::execute_with_options(
            &ctx, &Files, &Clockwork, &DiscardEvents, Some("/g/grove.toml"), &everything(),
            RefreshOptions::new(dry_run),
        )
        .unwrap();
        let outcomes = report.entries().iter().map(|e| e.outcome().clone()).collect::<Vec<_>>();
        assert_eq!(
            outcomes,
            vec![
                conflict.clone(),
                refresh::Outcome::Skipped { reason: refresh::SkippedReason::DirtyWorkingTree },
                conflict.clone(),
            ]
        );
        assert!(!ctx.git().0.calls.borrow().iter().any(|call| call.starts_with("refresh")));
    }
}
