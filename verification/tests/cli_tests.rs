use grc::cli::{resolve_todo_path_with_env, Cli, PathError};

fn args(v: &[&str]) -> Vec<String> {
    v.iter().map(|s| s.to_string()).collect()
}

#[test]
fn resolve_todo_path_uses_env_var_when_set() {
    let result = resolve_todo_path_with_env(Some("/tmp/custom_grc_test.md"), None, None).unwrap();
    assert_eq!(result, "/tmp/custom_grc_test.md");
}

#[test]
fn cli_parses_path_argument() {
    let cli = Cli::try_parse_from(&args(&["grc", "my_todo.md"])).unwrap();
    assert_eq!(cli.todo_path, Some("my_todo.md".to_string()));
}

#[test]
fn cli_no_path_argument() {
    let cli = Cli::try_parse_from(&args(&["grc"])).unwrap();
    assert!(cli.todo_path.is_none());
}

#[test]
fn resolve_todo_path_falls_back_to_home() {
    let result = resolve_todo_path_with_env(None, Some("/home/user"), None).unwrap();
    assert_eq!(result, "/home/user/.todo.md");
}

#[test]
fn resolve_todo_path_uses_userprofile_without_home() {
    let result = resolve_todo_path_with_env(None, None, Some("/profiles/me")).unwrap();
    assert_eq!(result, "/profiles/me/.todo.md");
}

#[test]
fn resolve_todo_path_prefers_home_over_userprofile() {
    let result = resolve_todo_path_with_env(None, Some("/home/a"), Some("/profiles/b")).unwrap();
    assert_eq!(result, "/home/a/.todo.md");
}

#[test]
fn resolve_todo_path_without_any_variable_fails() {
    let err = resolve_todo_path_with_env(None, None, None).unwrap_err();
    assert_eq!(err, PathError::HomeNotFound);
    assert_eq!(
        err.message(),
        "Could not find your system's HOME directory. Please set GRC_TODO_PATH."
    );
}

#[test]
fn cli_rejects_unknown_flag() {
    let err = Cli::try_parse_from(&args(&["grc", "--bogus"])).unwrap_err();
    assert_eq!(err.exit_code, 2);
    assert!(err.message.contains("--bogus"));
}

#[test]
fn cli_help_exits_successfully() {
    let err = Cli::try_parse_from(&args(&["grc", "--help"])).unwrap_err();
    assert_eq!(err.exit_code, 0);
    assert!(err.message.contains("PATH"));
}

#[test]
fn cli_rejects_second_path() {
    let err = Cli::try_parse_from(&args(&["grc", "a.md", "b.md"])).unwrap_err();
    assert_eq!(err.exit_code, 2);
}
