use std::cell::RefCell;
use std::collections::HashMap;

use grove::config::addition::{Addition, CurrentContents};
use grove::config::load::ConfigFiles;
use grove::config::session::{edit_destination, ConfigWriter, EditSession};
use grove::config::validation::ResolutionError;
use grove::error::AppError;

/// Files in memory, readable as configuration and writable by `add`.
struct Disk {
    files: RefCell<HashMap<String, String>>,
    writes: RefCell<Vec<String>>,
}

impl Disk {
    fn new(files: &[(&str, &str)]) -> Self {
        Self {
            files: RefCell::new(files.iter().map(|(p, t)| (p.to_string(), t.to_string())).collect()),
            writes: RefCell::new(Vec::new()),
        }
    }

    fn text(&self, path: &str) -> Option<String> {
        self.files.borrow().get(path).cloned()
    }
}

impl ConfigFiles for Disk {
    fn current_dir(&self) -> Result<String, AppError> {
        Ok("/g".to_string())
    }

    fn canonicalize(&self, path: &str) -> Result<String, String> {
        if self.files.borrow().contains_key(path) { Ok(path.to_string()) } else { Err("not found".to_string()) }
    }

    fn entry_exists(&self, path: &str) -> Result<bool, String> {
        Ok(self.files.borrow().contains_key(path))
    }

    fn is_file(&self, path: &str) -> bool {
        self.files.borrow().contains_key(path)
    }

    fn read_text(&self, path: &str) -> Result<String, AppError> {
        self.text(path).ok_or_else(|| AppError::Io("not found".to_string()))
    }

    fn resolve_operational(&self, _lexical: &str, _root: &str) -> Option<Result<String, ResolutionError>> {
        None
    }
}

impl ConfigWriter for Disk {
    fn current(&self, path: &str) -> CurrentContents {
        match self.text(path) {
            Some(text) => CurrentContents::Text(text),
            None => CurrentContents::NotFound(AppError::Io("not found".to_string())),
        }
    }

    fn write(&self, path: &str, contents: &str) -> Result<Result<(), AppError>, AppError> {
        self.files.borrow_mut().insert(path.to_string(), contents.to_string());
        self.writes.borrow_mut().push(path.to_string());
        Ok(Ok(()))
    }
}

const ROOT: &str = "version = 1\n\n[repos]\napi = \"https://e/api.git\"\n";

fn open(disk: &Disk, dry_run: bool) -> EditSession {
    let destination = edit_destination(disk, "/g/grove.toml", false).unwrap();
    EditSession::open(disk, disk, "/g/grove.toml", destination, false, dry_run).unwrap()
}

#[test]
fn adds_a_new_repository_and_writes_the_file() {
    let disk = Disk::new(&[("/g/grove.toml", ROOT)]);
    let mut session = open(&disk, false);
    let addition = session.add(&disk, &disk, "web", "/g/web", "https://e/web.git").unwrap();
    assert_eq!(addition, Addition::Added { name: "web".to_string(), display_path: "web".to_string() });
    assert_eq!(disk.text("/g/grove.toml").unwrap(), format!("{ROOT}web = \"https://e/web.git\"\n"));
    assert_eq!(session.resolved.repositories.len(), 2);
    assert_eq!(*disk.writes.borrow(), vec!["/g/grove.toml".to_string()]);
}

#[test]
fn a_dry_run_writes_nothing_but_remembers_the_addition() {
    let disk = Disk::new(&[("/g/grove.toml", ROOT)]);
    let mut session = open(&disk, true);
    let addition = session.add(&disk, &disk, "web", "/g/web", "https://e/web.git").unwrap();
    assert_eq!(addition, Addition::Added { name: "web".to_string(), display_path: "web".to_string() });
    assert_eq!(disk.text("/g/grove.toml").unwrap(), ROOT);
    assert!(disk.writes.borrow().is_empty());
    assert_eq!(
        session.add(&disk, &disk, "web", "/g/web", "https://e/web.git").unwrap(),
        Addition::Unchanged { name: "web".to_string(), display_path: "web".to_string() }
    );
}

#[test]
fn known_paths_and_names_are_not_added_again() {
    let disk = Disk::new(&[("/g/grove.toml", ROOT)]);
    let mut session = open(&disk, false);
    assert_eq!(
        session.add(&disk, &disk, "api", "/g/api", "https://e/api.git").unwrap(),
        Addition::Unchanged { name: "api".to_string(), display_path: "api".to_string() }
    );
    assert_eq!(
        session.add(&disk, &disk, "api", "/g/api", "https://e/fork.git"),
        Err(AppError::ConfigError(
            "repository path '/g/api' is already configured as 'api' with a different URL".to_string()
        ))
    );
    assert_eq!(
        session.add(&disk, &disk, "api", "/g/elsewhere/api", "https://e/api.git"),
        Err(AppError::ConfigError("repository name 'api' is already configured at '/g/api'".to_string()))
    );
    assert!(disk.writes.borrow().is_empty());
}

#[test]
fn a_file_changed_meanwhile_is_not_overwritten() {
    let disk = Disk::new(&[("/g/grove.toml", ROOT)]);
    let mut session = open(&disk, false);
    disk.files.borrow_mut().insert("/g/grove.toml".to_string(), format!("{ROOT}# edited\n"));
    assert_eq!(
        session.add(&disk, &disk, "web", "/g/web", "https://e/web.git"),
        Err(AppError::ConfigError(
            "/g/grove.toml changed while gv add was running; no changes were written".to_string()
        ))
    );
    assert_eq!(session.resolved.repositories.len(), 1);
}

#[test]
fn the_override_is_the_destination_when_asked_for() {
    let disk = Disk::new(&[("/g/grove.toml", ROOT)]);
    assert_eq!(edit_destination(&disk, "/g/grove.toml", true).unwrap(), "/g/grove.override.toml");
    assert_eq!(edit_destination(&disk, "/g/grove.toml", false).unwrap(), "/g/grove.toml");
    let session: EditSession =
        EditSession::open(&disk, &disk, "/g/grove.toml", "/g/grove.override.toml".to_string(), true, false)
            .unwrap();
    assert_eq!(session.baseline, None);
    let refused: Result<EditSession, AppError> =
        EditSession::open(&disk, &disk, "/g/grove.toml", "/g/missing.toml".to_string(), false, false);
    assert!(refused.is_err());
}

#[test]
fn a_repository_away_from_its_name_is_written_as_a_table_with_its_path() {
    let disk = Disk::new(&[("/g/grove.toml", ROOT)]);
    let mut session = open(&disk, false);
    let addition = session.add(&disk, &disk, "web", "/g/other/site", "https://e/web.git").unwrap();
    assert_eq!(addition, Addition::Added { name: "web".to_string(), display_path: "other/site".to_string() });
    let text = disk.text("/g/grove.toml").unwrap();
    assert!(text.starts_with(ROOT));
    assert!(text.contains("[repos.web]\npath = \"other/site\"\nurl = \"https://e/web.git\"\n"));
    assert_eq!(session.resolved.repositories.len(), 2);
}

#[test]
fn a_repository_under_a_new_group_creates_the_group() {
    let disk = Disk::new(&[("/g/grove.toml", ROOT)]);
    let mut session = open(&disk, false);
    let addition = session.add(&disk, &disk, "web", "/g/services/web", "https://e/web.git").unwrap();
    assert_eq!(addition, Addition::Added { name: "web".to_string(), display_path: "services/web".to_string() });
    let text = disk.text("/g/grove.toml").unwrap();
    assert!(text.starts_with(ROOT));
    assert!(text.contains("[groups.services]\nweb = \"https://e/web.git\"\n"));
    assert!(!text.contains("[groups]\n"));
    assert_eq!(session.resolved.repositories.len(), 2);
}

#[test]
fn a_repository_joins_its_configured_group() {
    let root = "version = 2\n\n[groups.services]\napi = \"https://e/api.git\"\n";
    let disk = Disk::new(&[("/g/grove.toml", root)]);
    let mut session = open(&disk, false);
    let addition = session.add(&disk, &disk, "web", "/g/services/web", "https://e/web.git").unwrap();
    assert_eq!(addition, Addition::Added { name: "web".to_string(), display_path: "services/web".to_string() });
    assert_eq!(disk.text("/g/grove.toml").unwrap(), format!("{root}web = \"https://e/web.git\"\n"));
}

#[test]
fn an_inline_repository_table_gets_an_inline_entry() {
    let root = "version = 2\nrepos = { api = \"https://e/api.git\" }\n";
    let disk = Disk::new(&[("/g/grove.toml", root)]);
    let mut session = open(&disk, false);
    session.add(&disk, &disk, "web", "/g/web", "https://e/web.git").unwrap();
    let text = disk.text("/g/grove.toml").unwrap();
    assert!(text.contains("web = \"https://e/web.git\""));
    assert!(!text.contains("[repos"));
    assert_eq!(session.resolved.repositories.len(), 2);
}
