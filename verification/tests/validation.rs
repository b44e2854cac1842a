use grove::config::validation::resolve_repository_path;
use grove::error::AppError;

#[test]
fn normalizes_parent_components_inside_root() {
    let root = "/workspace";
    let base = "/workspace/work";

    let resolved =
        resolve_repository_path(base, "../shared/repo", root, "grove.toml", "repo").unwrap();

    assert_eq!(resolved.0, "/workspace/shared/repo");
}

#[test]
fn rejects_paths_outside_root() {
    let root = "/workspace";
    let base = "/workspace/work";

    let result = resolve_repository_path(base, "../../outside", root, "grove.toml", "repo");

    assert!(matches!(result, Err(AppError::ConfigError(_))));
}

#[test]
fn refuses_absolute_repository_paths_with_the_source_and_name() {
    match resolve_repository_path("/workspace", "/elsewhere", "/workspace", "grove.toml", "repo") {
        Err(AppError::ConfigError(message)) => {
            assert_eq!(message, "grove.toml: repository 'repo' path must be relative")
        }
        other => panic!("unexpected result {other:?}"),
    }
}

#[test]
fn displays_a_resolved_path_relative_to_the_root() {
    let resolved =
        resolve_repository_path("/workspace/apps", "./web/../api", "/workspace", "g.toml", "api")
            .unwrap();
    assert_eq!(resolved, ("/workspace/apps/api".to_string(), "apps/api".to_string()));
}
