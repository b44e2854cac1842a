use grove::app::clone::default_destination_name;
use grove::error::AppError;

#[test]
fn infers_name_from_path_tail() {
    assert_eq!(default_destination_name("https://example.com/org/repo.git").unwrap(), "repo");
    assert_eq!(default_destination_name("git@example.com:org/repo.git").unwrap(), "repo");
    assert_eq!(default_destination_name("https://example.com/org/repo/").unwrap(), "repo");
}

#[test]
fn drops_query_and_fragment_so_credentials_never_reach_the_path() {
    assert_eq!(
        default_destination_name("https://example.com/repo.git?access_token=secret").unwrap(),
        "repo"
    );
    assert_eq!(default_destination_name("https://example.com/repo.git#fragment").unwrap(), "repo");
}

#[test]
fn rejects_names_that_are_not_a_usable_directory() {
    for url in ["https://example.com/.git", "https://example.com/..", "https://example.com/."] {
        assert!(default_destination_name(url).is_err(), "{url} should be rejected");
    }
}

#[test]
fn refused_name_is_an_invalid_argument_with_guidance() {
    match default_destination_name("git@example.com:") {
        Err(AppError::InvalidArguments(message)) => assert_eq!(
            message,
            "cannot infer a destination directory from the URL; specify one explicitly"
        ),
        other => panic!("unexpected result {other:?}"),
    }
}

#[test]
fn keeps_a_name_without_git_suffix_and_strips_only_the_suffix() {
    assert_eq!(default_destination_name("git@example.com:tools").unwrap(), "tools");
    assert_eq!(default_destination_name("https://example.com/a/gitops.git").unwrap(), "gitops");
    assert_eq!(default_destination_name("https://example.com/a/b.git/#x").unwrap(), "b");
}
