use std::collections::HashMap;

use grove::app::add::{
    candidate_path, check_input_directory, derive_name, entry_for, execute, require_origin,
    require_worktree, AddProbe, AdditionSession, Entry, Outcome, Report,
};
use grove::config::addition::Addition;
use grove::error::AppError;

/// Directories by path: whether each is a directory, its worktree and origin.
struct FakeProbe {
    directories: HashMap<String, bool>,
    worktrees: HashMap<String, String>,
    origins: HashMap<String, String>,
}

impl AddProbe for FakeProbe {
    fn directory_metadata(&self, path: &str) -> Result<bool, AppError> {
        self.directories
            .get(path)
            .copied()
            .ok_or_else(|| AppError::Io("No such file or directory".to_string()))
    }

    fn canonicalize(&self, path: &str) -> Result<String, AppError> {
        Ok(path.to_string())
    }

    fn worktree_root(&self, path: &str) -> Result<Option<String>, AppError> {
        Ok(self.worktrees.get(path).cloned())
    }

    fn remote_url(&self, path: &str) -> Result<Option<String>, AppError> {
        Ok(self.origins.get(path).cloned())
    }
}

#[derive(Default)]
struct FakeSession {
    added: Vec<(String, String, String)>,
    announced: Vec<String>,
}

impl AdditionSession for FakeSession {
    fn add(&mut self, name: &str, repository_path: &str, url: &str) -> Result<Addition, AppError> {
        self.added.push((name.to_string(), repository_path.to_string(), url.to_string()));
        Ok(Addition::Added { name: name.to_string(), display_path: name.to_string() })
    }

    fn announce(&mut self, entry: &Entry) -> Result<(), AppError> {
        self.announced.push(entry.input().to_string());
        Ok(())
    }
}

fn probe() -> FakeProbe {
    let mut directories = HashMap::new();
    let mut worktrees = HashMap::new();
    let mut origins = HashMap::new();
    for name in ["api", "web"] {
        let path = format!("/g/{name}");
        directories.insert(path.clone(), true);
        worktrees.insert(path.clone(), path.clone());
        origins.insert(path, format!("https://e/{name}.git"));
    }
    directories.insert("/g/plain".to_string(), true);
    directories.insert("/g/file.txt".to_string(), false);
    FakeProbe { directories, worktrees, origins }
}

#[test]
fn adds_each_path_in_order() {
    let mut session = FakeSession::default();
    let paths = vec!["api".to_string(), "/g/web".to_string()];
    let report = execute(&probe(), &mut session, "/g", &paths, false).unwrap();
    assert_eq!(report.entries().len(), 2);
    assert_eq!(report.added(), 2);
    assert_eq!(report.not_attempted(), 0);
    assert!(!report.has_failure());
    assert_eq!(
        session.added,
        vec![
            ("api".to_string(), "/g/api".to_string(), "https://e/api.git".to_string()),
            ("web".to_string(), "/g/web".to_string(), "https://e/web.git".to_string()),
        ]
    );
    assert_eq!(session.announced, vec!["api".to_string(), "/g/web".to_string()]);
}

#[test]
fn stops_at_the_first_failure() {
    let mut session = FakeSession::default();
    let paths = vec!["api".to_string(), "plain".to_string(), "web".to_string()];
    let report = execute(&probe(), &mut session, "/g", &paths, true).unwrap();
    assert_eq!(report.entries().len(), 2);
    assert_eq!(report.planned(), 1);
    assert_eq!(report.failed(), 1);
    assert_eq!(report.not_attempted(), 1);
    assert!(report.has_failure());
    assert_eq!(
        report.entries()[1].outcome(),
        &Outcome::Failed(
            "repository path 'plain' is not inside a Git worktree; initialize or clone the repository first"
                .to_string()
        )
    );
    assert_eq!(session.added.len(), 1);
}

#[test]
fn no_path_means_the_working_directory() {
    let mut session = FakeSession::default();
    let report = execute(&probe(), &mut session, "/g/api", &Vec::new(), false).unwrap();
    assert_eq!(report.entries().len(), 1);
    assert_eq!(report.entries()[0].input(), ".");
    assert!(report.has_failure());
}

#[test]
fn input_checks_name_the_input() {
    assert_eq!(
        check_input_directory("x", Err(AppError::Io("denied".to_string()))),
        Err(AppError::InvalidArguments(
            "repository path 'x' is unavailable: denied; provide an existing directory".to_string()
        ))
    );
    assert_eq!(
        check_input_directory("f", Ok(false)),
        Err(AppError::InvalidArguments(
            "repository path 'f' is not a directory; provide a directory inside a Git worktree".to_string()
        ))
    );
    assert_eq!(check_input_directory("d", Ok(true)), Ok(()));
    assert_eq!(require_worktree("d", Some("/g/d".to_string())), Ok("/g/d".to_string()));
    assert_eq!(
        require_origin("/g/d", None),
        Err(AppError::InvalidArguments(
            "repository '/g/d' has no remote origin; configure a credential-free origin URL first".to_string()
        ))
    );
}

#[test]
fn names_come_from_the_worktree_directory() {
    assert_eq!(derive_name("/g/tools/api"), Ok("api".to_string()));
    assert_eq!(
        derive_name("/g/bad name"),
        Err(AppError::InvalidArguments(
            "cannot derive a repository name from '/g/bad name'; names may contain only ASCII letters, digits, '-', '_' and '.'; rename the directory or add the entry manually".to_string()
        ))
    );
    assert!(matches!(derive_name("/"), Err(AppError::InvalidArguments(_))));
}

#[test]
fn a_relative_input_is_joined_to_the_working_directory() {
    assert_eq!(candidate_path("/g", "api"), "/g/api");
    assert_eq!(candidate_path("/g/", "api"), "/g/api");
    assert_eq!(candidate_path("/g", "/h/web"), "/h/web");
}

#[test]
fn internal_errors_are_not_entries() {
    assert_eq!(
        entry_for("x".to_string(), Err(AppError::Internal("broken".to_string()))),
        Err(AppError::Internal("broken".to_string()))
    );
    let entry = entry_for("x".to_string(), Err(AppError::ConfigError("bad".to_string()))).unwrap();
    assert_eq!(entry.outcome(), &Outcome::Failed("bad".to_string()));
    assert_eq!(entry.name(), None);
}

#[test]
fn report_counts_by_kind() {
    let entry = |outcome| Entry { input: "p".to_string(), name: None, display_path: None, outcome };
    let report = Report::new(
        vec![entry(Outcome::Added), entry(Outcome::Unchanged), entry(Outcome::Failed("x".to_string()))],
        5,
        false,
    );
    assert_eq!(report.added(), 1);
    assert_eq!(report.unchanged(), 1);
    assert_eq!(report.failed(), 1);
    assert_eq!(report.not_attempted(), 2);
    assert!(report.has_failure());
}
