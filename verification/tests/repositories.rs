use std::cell::RefCell;

use grove::app::api::{cache_clean, remove_entries};
use grove::app::context::CacheStore;
use grove::cache::Outcome;
use grove::config::load::ConfigFiles;
use grove::config::validation::ResolutionError;
use grove::error::AppError;
use grove::repositories::{select_repositories, RemoteUrl, RepositoryDefinition, RepositoryName};

fn repository(name: &str, display: &str) -> RepositoryDefinition {
    RepositoryDefinition::new(
        RepositoryName::new(name).unwrap(),
        format!("/g/{display}"),
        display.to_string(),
        RemoteUrl::new(&format!("https://e/{name}.git")).unwrap(),
        None,
        "/g/grove.toml".to_string(),
        "/g".to_string(),
    )
}

fn configured() -> Vec<RepositoryDefinition> {
    vec![repository("api", "api"), repository("web", "apps/web"), repository("cli", "tools/cli")]
}

#[test]
fn no_target_selects_every_repository() {
    assert_eq!(select_repositories(&configured(), &Vec::new()).unwrap(), vec![0, 1, 2]);
}

#[test]
fn targets_select_by_name_or_display_path_in_configuration_order() {
    let targets = vec!["tools/cli".to_string(), "api".to_string()];
    assert_eq!(select_repositories(&configured(), &targets).unwrap(), vec![0, 2]);
    let repeated = vec!["web".to_string(), "apps/web".to_string()];
    assert_eq!(select_repositories(&configured(), &repeated).unwrap(), vec![1]);
}

#[test]
fn an_unknown_target_is_refused() {
    let targets = vec!["api".to_string(), "nope".to_string()];
    assert_eq!(
        select_repositories(&configured(), &targets),
        Err(AppError::InvalidArguments("unknown repository 'nope'".to_string()))
    );
}

#[test]
fn repository_names_are_plain_directory_names() {
    assert!(RepositoryName::new("my-repo_1.x").is_ok());
    assert!(RepositoryName::new("").is_err());
    assert!(RepositoryName::new("a/b").is_err());
    assert!(RepositoryName::new("..").is_err());
}

/// A cache holding entries for some URLs.
struct FakeStore {
    cached: RefCell<Vec<String>>,
}

impl CacheStore for FakeStore {
    fn place(&self, _url: &str, _destination: &str, _root: Option<&str>, _branch: Option<&str>) -> Result<Outcome, AppError> {
        Ok(Outcome::Miss)
    }

    fn is_cached(&self, url: &str) -> bool {
        self.cached.borrow().iter().any(|cached| cached == url)
    }

    fn seed_from_local(&self, _url: &str, _source: &str) -> Result<bool, AppError> {
        Ok(false)
    }

    fn remove(&self, url: &str) -> Result<bool, AppError> {
        let mut cached = self.cached.borrow_mut();
        let before = cached.len();
        cached.retain(|entry| entry != url);
        Ok(cached.len() < before)
    }

    fn clean_all(&self) -> Result<usize, AppError> {
        let mut cached = self.cached.borrow_mut();
        let count = cached.len();
        cached.clear();
        Ok(count)
    }
}

/// No file system at all: cleaning everything must not read one.
struct NoFiles;

impl ConfigFiles for NoFiles {
    fn current_dir(&self) -> Result<String, AppError> {
        Err(AppError::Internal("no file system".to_string()))
    }

    fn canonicalize(&self, _path: &str) -> Result<String, String> {
        Err("no file system".to_string())
    }

    fn entry_exists(&self, _path: &str) -> Result<bool, String> {
        Err("no file system".to_string())
    }

    fn is_file(&self, _path: &str) -> bool {
        false
    }

    fn read_text(&self, _path: &str) -> Result<String, AppError> {
        Err(AppError::Internal("no file system".to_string()))
    }

    fn resolve_operational(&self, _lexical: &str, _root: &str) -> Option<Result<String, ResolutionError>> {
        None
    }
}

#[test]
fn removing_selected_entries_names_those_that_were_not_cached() {
    let store = FakeStore { cached: RefCell::new(vec!["https://e/api.git".to_string()]) };
    let report = remove_entries(&store, &configured(), &vec![0, 2]).unwrap();
    assert_eq!(report.removed(), 1);
    assert_eq!(report.absent(), &["tools/cli".to_string()]);
    assert!(!store.is_cached("https://e/api.git"));
}

#[test]
fn cleaning_without_targets_empties_the_whole_cache() {
    let store = FakeStore { cached: RefCell::new(vec!["a".to_string(), "b".to_string()]) };
    let report = cache_clean(&store, &NoFiles, None, Vec::new()).unwrap();
    assert_eq!(report.removed(), 2);
    assert!(report.absent().is_empty());
}
