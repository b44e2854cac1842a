use grove::config::addition::{
    check_unchanged, configured_display_path, existing_addition, group_edit, insertion_target,
    paths_equal, relative_path, root_edit, verify_added_repository, written_addition, Addition,
    CurrentContents, Edit, Form, InsertionTarget, TableKind,
};
use grove::config::load::sibling_override_path;
use grove::config::resolved::GroupDirectory;
use grove::error::AppError;
use grove::repositories::{RemoteUrl, RepositoryDefinition, RepositoryName};

fn repository(name: &str, path: &str, display: &str, url: &str) -> RepositoryDefinition {
    RepositoryDefinition::new(
        RepositoryName::new(name).unwrap(),
        path.to_string(),
        display.to_string(),
        RemoteUrl::new(url).unwrap(),
        None,
        "/g/grove.toml".to_string(),
        "/g".to_string(),
    )
}

#[test]
fn relative_path_is_the_part_below_the_root() {
    assert_eq!(relative_path("/g", "/g/tools/a").unwrap(), "tools/a");
    assert_eq!(relative_path("/g", "/g").unwrap(), ".");
    assert_eq!(
        relative_path("/g", "/h/a"),
        Err(AppError::ConfigError(
            "repository '/h/a' leaves the grove root '/g'; choose a broader grove.toml".to_string()
        ))
    );
}

#[test]
fn paths_compare_by_components() {
    assert!(paths_equal("/g/a/", "/g//a"));
    assert!(!paths_equal("/g/a", "g/a"));
    assert!(!paths_equal("/g/a", "/g/b"));
}

#[test]
fn insertion_target_follows_the_display_path() {
    assert_eq!(insertion_target("api", "api"), InsertionTarget::Root { path: None });
    assert_eq!(
        insertion_target("tools/api", "api"),
        InsertionTarget::Group { group: "tools".to_string() }
    );
    assert_eq!(
        insertion_target("tools/other", "api"),
        InsertionTarget::Root { path: Some("tools/other".to_string()) }
    );
    assert_eq!(insertion_target(".", "api"), InsertionTarget::Root { path: Some(".".to_string()) });
}

#[test]
fn root_edit_keeps_the_form_of_the_table() {
    assert_eq!(
        root_edit(TableKind::Absent, false, "/g/grove.toml").unwrap(),
        Edit { create_outer: true, create_group: false, form: Form::Value }
    );
    assert_eq!(
        root_edit(TableKind::Table { holds_tables: true }, false, "/g/grove.toml").unwrap(),
        Edit { create_outer: false, create_group: false, form: Form::Table }
    );
    assert_eq!(
        root_edit(TableKind::Inline, true, "/g/grove.toml").unwrap(),
        Edit { create_outer: false, create_group: false, form: Form::InlineTable }
    );
    assert_eq!(
        root_edit(TableKind::Other, false, "/g/grove.toml"),
        Err(AppError::ConfigError("/g/grove.toml: field 'repos' must be a table".to_string()))
    );
}

#[test]
fn group_edit_creates_what_is_missing_and_refuses_other_values() {
    assert_eq!(
        group_edit(TableKind::Absent, TableKind::Absent, "tools", "/d").unwrap(),
        Edit { create_outer: true, create_group: true, form: Form::Value }
    );
    assert_eq!(
        group_edit(TableKind::Inline, TableKind::Absent, "tools", "/d").unwrap(),
        Edit { create_outer: false, create_group: true, form: Form::InlineValue }
    );
    assert_eq!(
        group_edit(TableKind::Other, TableKind::Absent, "tools", "/d"),
        Err(AppError::ConfigError("/d: field 'groups' must be a table".to_string()))
    );
    assert_eq!(
        group_edit(TableKind::Table { holds_tables: false }, TableKind::Other, "tools", "/d"),
        Err(AppError::ConfigError("/d: group 'tools' must be a table".to_string()))
    );
}

#[test]
fn a_known_path_with_the_same_url_is_unchanged() {
    let repositories = vec![repository("api", "/g/api", "api", "https://e/api.git")];
    assert_eq!(
        existing_addition(&repositories, "api", "/g/api", "https://e/api.git").unwrap(),
        Some(Addition::Unchanged { name: "api".to_string(), display_path: "api".to_string() })
    );
    assert_eq!(
        existing_addition(&repositories, "api", "/g/api", "https://e/other.git"),
        Err(AppError::ConfigError(
            "repository path '/g/api' is already configured as 'api' with a different URL".to_string()
        ))
    );
    assert_eq!(
        existing_addition(&repositories, "api", "/g/elsewhere/api", "https://e/api.git"),
        Err(AppError::ConfigError("repository name 'api' is already configured at '/g/api'".to_string()))
    );
    assert_eq!(existing_addition(&repositories, "web", "/g/web", "https://e/web.git").unwrap(), None);
}

#[test]
fn the_prospective_configuration_must_hold_the_addition() {
    let repositories = vec![repository("api", "/g/api", "api", "https://e/api.git")];
    assert_eq!(verify_added_repository(&repositories, "api", "/g/api", "https://e/api.git"), Ok(()));
    assert!(verify_added_repository(&repositories, "web", "/g/web", "https://e/web.git").is_err());
    assert!(verify_added_repository(&repositories, "api", "/g/other", "https://e/api.git").is_err());
}

#[test]
fn a_grouped_parent_gives_the_display_path() {
    let groups = vec![GroupDirectory::new("/g/tools".to_string(), "tools".to_string())];
    assert_eq!(configured_display_path(&groups, "/g/tools/api", "tools/api", "api").unwrap(), "tools/api");
    assert_eq!(configured_display_path(&groups, "/g/web", "web", "web").unwrap(), "web");
    let twice = vec![
        GroupDirectory::new("/g/tools".to_string(), "tools".to_string()),
        GroupDirectory::new("/g/tools".to_string(), "./tools".to_string()),
    ];
    assert_eq!(
        configured_display_path(&twice, "/g/tools/api", "tools/api", "api"),
        Err(AppError::ConfigError(
            "repository directory '/g/tools' is represented by multiple configured paths: 'tools', './tools'; consolidate them before adding 'api'".to_string()
        ))
    );
}

#[test]
fn a_destination_changed_by_someone_else_is_not_overwritten() {
    assert_eq!(check_unchanged("/g/grove.toml", Some("a"), CurrentContents::Text("a".to_string())), Ok(()));
    assert_eq!(
        check_unchanged("/g/grove.toml", Some("a"), CurrentContents::Text("b".to_string())),
        Err(AppError::ConfigError(
            "/g/grove.toml changed while gv add was running; no changes were written".to_string()
        ))
    );
    assert_eq!(
        check_unchanged("/o.toml", None, CurrentContents::NotFound(AppError::Io("gone".to_string()))),
        Ok(())
    );
    assert_eq!(
        check_unchanged("/o.toml", None, CurrentContents::Text("x".to_string())),
        Err(AppError::ConfigError(
            "/o.toml appeared while gv add was running; no changes were written".to_string()
        ))
    );
}

#[test]
fn an_unsynced_directory_leaves_the_durability_unconfirmed() {
    assert_eq!(
        written_addition("api".to_string(), "api".to_string(), "/g/grove.toml", Ok(())),
        Addition::Added { name: "api".to_string(), display_path: "api".to_string() }
    );
    assert_eq!(
        written_addition(
            "api".to_string(),
            "api".to_string(),
            "/g/grove.toml",
            Err(AppError::Io("no space".to_string()))
        ),
        Addition::DurabilityUnconfirmed {
            name: "api".to_string(),
            display_path: "api".to_string(),
            message: "/g/grove.toml was written, but syncing its directory failed: no space; verify the file before retrying".to_string(),
        }
    );
}

#[test]
fn the_override_sits_beside_its_file() {
    assert_eq!(sibling_override_path("/x/grove.toml"), "/x/grove.override.toml");
    assert_eq!(sibling_override_path("/x/grove"), "/x/grove.override");
}
