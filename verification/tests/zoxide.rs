use std::cell::RefCell;
use std::collections::HashSet;

use grove::app::entry::Entry;
use grove::app::sync::zoxide::{dry_run, register};
use grove::app::sync::{Outcome, Plan, ZoxideOutcome, ZoxideReport};
use grove::error::AppError;
use grove::repositories::{RemoteUrl, RepositoryDefinition, RepositoryName};
use grove::zoxide::ZoxideClient;
use tempfile::TempDir;

struct FakeZoxide {
    initial: Vec<String>,
    final_entries: Vec<String>,
    query_failure: Option<usize>,
    add_failures: HashSet<String>,
    query_count: RefCell<usize>,
    adds: RefCell<Vec<String>>,
}

impl FakeZoxide {
    fn new(initial: Vec<String>, final_entries: Vec<String>) -> Self {
        Self {
            initial,
            final_entries,
            query_failure: None,
            add_failures: HashSet::new(),
            query_count: RefCell::new(0),
            adds: RefCell::new(Vec::new()),
        }
    }

    fn failing_query(mut self, query: usize) -> Self {
        self.query_failure = Some(query);
        self
    }
}

impl ZoxideClient for FakeZoxide {
    fn verify_available(&self) -> Result<(), AppError> {
        Ok(())
    }

    fn resolve_symlinks(&self) -> bool {
        false
    }

    fn entries(&self) -> Result<Vec<String>, AppError> {
        let mut count = self.query_count.borrow_mut();
        *count += 1;
        if self.query_failure == Some(*count) {
            return Err(AppError::ZoxideCommandFailed {
                command: "query".to_string(),
                message: "query failed".to_string(),
            });
        }
        if *count == 1 { Ok(self.initial.clone()) } else { Ok(self.final_entries.clone()) }
    }

    fn add(&self, path: &str) -> Result<(), AppError> {
        self.adds.borrow_mut().push(path.to_string());
        if self.add_failures.contains(path) {
            Err(AppError::ZoxideCommandFailed {
                command: "add".to_string(),
                message: "add failed".to_string(),
            })
        } else {
            Ok(())
        }
    }

    fn canonicalize(&self, path: &str) -> Result<String, String> {
        Ok(path.to_string())
    }
}

struct Unavailable;

impl ZoxideClient for Unavailable {
    fn verify_available(&self) -> Result<(), AppError> {
        Err(AppError::ZoxideUnavailable("zoxide is not installed".to_string()))
    }

    fn resolve_symlinks(&self) -> bool {
        false
    }

    fn entries(&self) -> Result<Vec<String>, AppError> {
        panic!("an unavailable zoxide is never queried")
    }

    fn add(&self, _path: &str) -> Result<(), AppError> {
        panic!("an unavailable zoxide is never asked to add")
    }

    fn canonicalize(&self, path: &str) -> Result<String, String> {
        Ok(path.to_string())
    }
}

fn repositories(root: &TempDir, names: &[&str]) -> Vec<RepositoryDefinition> {
    let root_path = root.path().canonicalize().unwrap();
    let root_text = root_path.to_str().unwrap().to_string();
    names
        .iter()
        .map(|name| {
            let path = root_path.join(name);
            RepositoryDefinition::new(
                RepositoryName::new(name).unwrap(),
                path.to_str().unwrap().to_string(),
                (*name).to_string(),
                RemoteUrl::new(&format!("git@example.com:{name}.git")).unwrap(),
                None,
                root_path.join("grove.toml").to_str().unwrap().to_string(),
                root_text.clone(),
            )
        })
        .collect()
}

fn run(zoxide: &impl ZoxideClient, repositories: &[RepositoryDefinition]) -> ZoxideReport {
    let entries = repositories
        .iter()
        .map(|repository| Entry::new(repository, Outcome::Current { branch: "main".to_string() }))
        .collect::<Vec<_>>();
    register(zoxide, repositories, &entries)
}

#[test]
fn all_existing_uses_one_query_and_no_adds() {
    let root = TempDir::new().unwrap();
    let repositories = repositories(&root, &["first", "second"]);
    let paths = repositories.iter().map(|repository| repository.path().to_string()).collect();
    let zoxide = FakeZoxide::new(paths, Vec::new());

    let report = run(&zoxide, &repositories);

    assert!(
        report
            .entries()
            .iter()
            .all(|entry| matches!(entry.outcome(), ZoxideOutcome::AlreadyRegistered))
    );
    assert_eq!(*zoxide.query_count.borrow(), 1);
    assert!(zoxide.adds.borrow().is_empty());
}

#[test]
fn new_and_mixed_entries_use_one_final_snapshot() {
    let root = TempDir::new().unwrap();
    let repositories = repositories(&root, &["existing", "new"]);
    let existing = repositories[0].path().to_string();
    let new = repositories[1].path().to_string();
    let zoxide = FakeZoxide::new(vec![existing], vec![new.clone()]);

    let report = run(&zoxide, &repositories);

    assert!(matches!(report.entries()[0].outcome(), ZoxideOutcome::AlreadyRegistered));
    assert!(matches!(report.entries()[1].outcome(), ZoxideOutcome::Added));
    assert_eq!(*zoxide.query_count.borrow(), 2);
    assert_eq!(*zoxide.adds.borrow(), [new]);
}

#[test]
fn add_failure_remains_per_repository() {
    let root = TempDir::new().unwrap();
    let repositories = repositories(&root, &["failed", "added"]);
    let failed = repositories[0].path().to_string();
    let added = repositories[1].path().to_string();
    let mut zoxide = FakeZoxide::new(Vec::new(), vec![added]);
    zoxide.add_failures.insert(failed);

    let report = run(&zoxide, &repositories);

    assert!(
        matches!(report.entries()[0].outcome(), ZoxideOutcome::Failed(message) if message == "add failed")
    );
    assert!(matches!(report.entries()[1].outcome(), ZoxideOutcome::Added));
}

#[test]
fn exclusion_and_query_failures_are_explicit() {
    let root = TempDir::new().unwrap();
    let repositories = repositories(&root, &["repo"]);

    let excluded = run(&FakeZoxide::new(Vec::new(), Vec::new()), &repositories);
    assert!(matches!(
        excluded.entries()[0].outcome(),
        ZoxideOutcome::Failed(message) if message.contains("did not register")
    ));

    let initial = FakeZoxide::new(Vec::new(), Vec::new()).failing_query(1);
    let report = run(&initial, &repositories);
    assert!(
        matches!(report.entries()[0].outcome(), ZoxideOutcome::Failed(message) if message == "query failed")
    );
    assert!(initial.adds.borrow().is_empty());

    let final_query = FakeZoxide::new(Vec::new(), Vec::new()).failing_query(2);
    let report = run(&final_query, &repositories);
    assert!(
        matches!(report.entries()[0].outcome(), ZoxideOutcome::Failed(message) if message == "query failed")
    );
    assert_eq!(final_query.adds.borrow().len(), 1);
}

#[test]
fn unavailable_zoxide_is_reported_once_without_entries() {
    let root = TempDir::new().unwrap();
    let repositories = repositories(&root, &["repo"]);

    let report = run(&Unavailable, &repositories);

    assert!(report.entries().is_empty());
    assert_eq!(report.unavailable_message(), Some("zoxide is not installed"));
    assert!(report.has_failures());
}

#[test]
fn only_repositories_on_disk_are_registered_and_paths_are_normalized() {
    let root = TempDir::new().unwrap();
    let repositories = repositories(&root, &["kept", "skipped"]);
    let kept = repositories[0].path().to_string();
    let zoxide = FakeZoxide::new(vec![format!("{kept}/./")], Vec::new());
    let entries = vec![
        Entry::new(&repositories[0], Outcome::Current { branch: "main".to_string() }),
        Entry::new(&repositories[1], Outcome::Blocked {
            reason: grove::app::sync::BlockedReason::DetachedHead,
        }),
    ];

    let report = register(&zoxide, &repositories, &entries);

    assert_eq!(report.entries().len(), 1);
    assert_eq!(report.entries()[0].repository(), "kept");
    assert!(matches!(report.entries()[0].outcome(), ZoxideOutcome::AlreadyRegistered));
}

#[test]
fn dry_run_would_register_every_planned_repository() {
    let root = TempDir::new().unwrap();
    let repositories = repositories(&root, &["clone", "fetch", "dirty"]);
    let entries = vec![
        Entry::new(&repositories[0], Outcome::Planned(Plan::Clone { url: "u".to_string() })),
        Entry::new(&repositories[1], Outcome::Planned(Plan::Fetch { branch: "main".to_string() })),
        Entry::new(&repositories[2], Outcome::Skipped {
            reason: grove::app::sync::SkippedReason::DirtyWorkingTree,
        }),
    ];

    let report = dry_run(&repositories, &entries);

    let names = report.entries().iter().map(|entry| entry.repository()).collect::<Vec<_>>();
    assert_eq!(names, ["clone", "fetch"]);
    assert!(report.entries().iter().all(|entry| *entry.outcome() == ZoxideOutcome::WouldRegister));
}
