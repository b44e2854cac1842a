use std::collections::HashMap;

use grove::config::load::{load, ConfigFiles};
use grove::config::validation::ResolutionError;
use grove::error::AppError;

/// Files held in memory; nothing else exists.
struct MemoryFiles {
    files: HashMap<String, String>,
}

impl MemoryFiles {
    fn new(files: &[(&str, &str)]) -> Self {
        Self { files: files.iter().map(|(path, text)| (path.to_string(), text.to_string())).collect() }
    }
}

impl ConfigFiles for MemoryFiles {
    fn current_dir(&self) -> Result<String, AppError> {
        Ok("/g".to_string())
    }

    fn canonicalize(&self, path: &str) -> Result<String, String> {
        if self.files.contains_key(path) {
            Ok(path.to_string())
        } else {
            Err("No such file or directory".to_string())
        }
    }

    fn entry_exists(&self, path: &str) -> Result<bool, String> {
        Ok(self.files.contains_key(path))
    }

    fn is_file(&self, path: &str) -> bool {
        self.files.contains_key(path)
    }

    fn read_text(&self, path: &str) -> Result<String, AppError> {
        self.files.get(path).cloned().ok_or_else(|| AppError::Io("No such file or directory".to_string()))
    }

    fn resolve_operational(&self, _lexical: &str, _root: &str) -> Option<Result<String, ResolutionError>> {
        None
    }
}

const ROOT: &str = r#"version = 1
include = ["work/grove.toml"]

[repos.api]
url = "https://e/api.git"

[groups.tools]
cli = "https://e/cli.git"
"#;

const WORK: &str = r#"version = 1

[repos]
web = "https://e/web.git"
"#;

const OVERRIDE: &str = r#"[repos.api]
default_branch = "develop"
"#;

#[test]
fn loads_the_root_its_override_and_its_includes_in_order() {
    let files = MemoryFiles::new(&[
        ("/g/grove.toml", ROOT),
        ("/g/grove.override.toml", OVERRIDE),
        ("/g/work/grove.toml", WORK),
    ]);
    let config = load(&files, Some("/g/grove.toml")).unwrap();
    let repositories = config.repositories();
    let names = repositories.iter().map(|r| r.name().as_str().to_string()).collect::<Vec<_>>();
    assert_eq!(names, ["api", "cli", "web"]);
    let paths = repositories.iter().map(|r| r.path().to_string()).collect::<Vec<_>>();
    assert_eq!(paths, ["/g/api", "/g/tools/cli", "/g/work/web"]);
    assert_eq!(repositories[0].default_branch().map(|b| b.as_str().to_string()), Some("develop".to_string()));
    assert_eq!(repositories[1].default_branch(), None);
    assert_eq!(repositories[2].source_config(), "/g/work/grove.toml");
    assert_eq!(config.root_path(), "/g/grove.toml");
}

#[test]
fn a_missing_version_is_refused() {
    let files = MemoryFiles::new(&[("/g/grove.toml", "[repos]\napi = \"https://e/api.git\"\n")]);
    assert_eq!(
        load(&files, Some("/g/grove.toml")).map(|config| config.repositories().len()),
        Err(AppError::ConfigError("/g/grove.toml: missing required field 'version'".to_string()))
    );
}

#[test]
fn invalid_toml_in_an_include_names_the_include() {
    let files = MemoryFiles::new(&[
        ("/g/grove.toml", "version = 1\ninclude = [\"work/grove.toml\"]\n"),
        ("/g/work/grove.toml", "version = = 1"),
    ]);
    match load(&files, Some("/g/grove.toml")) {
        Err(AppError::ConfigError(message)) => {
            assert!(message.starts_with("/g/work/grove.toml: invalid TOML: "), "{message}")
        }
        other => panic!("unexpected {:?}", other.map(|config| config.repositories().len())),
    }
}

#[test]
fn an_override_replaces_a_shorthand_repository_rather_than_extending_it() {
    let files = MemoryFiles::new(&[
        ("/g/grove.toml", "version = 1\n[repos]\napi = \"https://e/api.git\"\n"),
        ("/g/grove.override.toml", OVERRIDE),
    ]);
    assert_eq!(
        load(&files, Some("/g/grove.toml")).map(|config| config.repositories().len()),
        Err(AppError::ConfigError("/g/grove.toml: missing required field 'repos.api.url'".to_string()))
    );
}

#[test]
fn version_two_loads_and_other_versions_are_refused() {
    let files = MemoryFiles::new(&[("/g/grove.toml", "version = 2\n")]);
    assert_eq!(load(&files, Some("/g/grove.toml")).map(|config| config.repositories().len()), Ok(0));
    let files = MemoryFiles::new(&[("/g/grove.toml", "version = 3\n")]);
    assert_eq!(
        load(&files, Some("/g/grove.toml")).map(|config| config.repositories().len()),
        Err(AppError::ConfigError("/g/grove.toml: unsupported config version 3".to_string()))
    );
}
