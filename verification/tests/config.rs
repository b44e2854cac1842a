use grove::config::file::decode;
use grove::config::value::{expand_repository_strings, merge_tables, ConfigValue};

fn parse_table(contents: &str) -> Vec<(String, ConfigValue)> {
    grove::config::file::parse_table(contents, "grove.toml").unwrap()
}

fn get<'a>(table: &'a [(String, ConfigValue)], key: &str) -> &'a ConfigValue {
    &table.iter().find(|(name, _)| name == key).unwrap().1
}

fn table_of(value: &ConfigValue) -> &[(String, ConfigValue)] {
    match value {
        ConfigValue::Table(entries) => entries,
        other => panic!("not a table: {other:?}"),
    }
}

fn text_of(value: &ConfigValue) -> &str {
    match value {
        ConfigValue::Text(text) => text,
        other => panic!("not a text: {other:?}"),
    }
}

#[test]
fn merge_tables_recurses_into_nested_tables_and_replaces_scalars_and_arrays() {
    let mut base = parse_table(
        r#"
version = 2
include = ["work/grove.toml", "personal/grove.toml"]

[groups.apps]
frontend = "git@example.com:frontend.git"

[repos.backend]
url = "git@example.com:backend.git"
"#,
    );
    let overlay = parse_table(
        r#"
include = ["work/grove.toml"]

[groups.apps.frontend]
default_branch = "develop"

[repos]
personal = "git@example.com:personal.git"
"#,
    );

    expand_repository_strings(&mut base);
    merge_tables(&mut base, overlay);

    assert!(matches!(get(&base, "version"), ConfigValue::Integer(2)));
    match get(&base, "include") {
        ConfigValue::Array(items) => {
            assert_eq!(items.len(), 1);
            assert_eq!(text_of(&items[0]), "work/grove.toml");
        }
        other => panic!("not an array: {other:?}"),
    }
    let frontend = table_of(get(table_of(get(table_of(get(&base, "groups")), "apps")), "frontend"));
    assert_eq!(text_of(get(frontend, "url")), "git@example.com:frontend.git");
    assert_eq!(text_of(get(frontend, "default_branch")), "develop");
    let repos = table_of(get(&base, "repos"));
    assert_eq!(text_of(get(table_of(get(repos, "backend")), "url")), "git@example.com:backend.git");
    assert_eq!(text_of(get(repos, "personal")), "git@example.com:personal.git");
}

#[test]
fn merge_tables_leaves_base_only_keys_untouched_by_an_empty_overlay() {
    let mut base = parse_table("version = 2\n");

    merge_tables(&mut base, Vec::new());

    assert!(matches!(get(&base, "version"), ConfigValue::Integer(2)));
}

#[test]
fn decode_refuses_unknown_top_level_fields() {
    let table = parse_table("version = 1\nextra = true\n");
    assert!(decode(table, "grove.toml").is_err());
}

#[test]
fn decode_reads_the_version_and_repositories() {
    let table = parse_table("version = 1\n[repos]\nweb = \"git@example.com:web.git\"\n");
    let raw = decode(table, "grove.toml").unwrap();
    assert_eq!(raw.version, Some(1));
    assert_eq!(raw.repositories.len(), 1);
    assert_eq!(raw.repositories[0].name, "web");
}

#[test]
fn preserves_repository_declaration_order() {
    let table = parse_table(
        r#"
version = 2

[repos]
second = "git@example.com:second.git"

[groups.services]
first = "git@example.com:first.git"
"#,
    );
    let config = decode(table, "grove.toml").unwrap();

    let names = config.repositories.iter().map(|entry| entry.name.as_str()).collect::<Vec<_>>();

    assert_eq!(names, ["second", "first"]);
    assert_eq!(config.repositories[0].default_path, "second");
    assert_eq!(config.repositories[1].default_path, "services/first");
}

#[test]
fn parses_toml_in_document_order() {
    let table = parse_table("b = 1\na = \"x\"\n[c]\nd = true\nf = 1.5\n");
    let keys = table.iter().map(|(key, _)| key.as_str()).collect::<Vec<_>>();
    assert_eq!(keys, ["b", "a", "c"]);
    assert!(matches!(get(&table, "b"), ConfigValue::Integer(1)));
    assert_eq!(text_of(get(&table, "a")), "x");
    let nested = table_of(get(&table, "c"));
    assert!(matches!(get(nested, "d"), ConfigValue::Boolean(true)));
    assert!(matches!(get(nested, "f"), ConfigValue::Other(text) if text == "1.5"));
}

#[test]
fn invalid_toml_names_the_file() {
    let error = grove::config::file::parse_table("a = = 1", "/g/grove.toml").unwrap_err();
    match error {
        grove::error::AppError::ConfigError(message) => {
            assert!(message.starts_with("/g/grove.toml: invalid TOML: "), "{message}")
        }
        other => panic!("unexpected error {other:?}"),
    }
}
