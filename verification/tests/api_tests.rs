use vscode_remote_control::{
    alternate_app_name, candidate_app_names, default_app_name, default_delay_ms, default_true,
    validate_as_string_arg,
};

#[test]
fn defaults_match_the_documented_values() {
    assert_eq!(default_app_name(), "Code - Insiders");
    assert!(default_true());
    assert_eq!(default_delay_ms(), 400);
}

#[test]
fn valid_argument_is_accepted() {
    assert!(validate_as_string_arg("window_name", "my-project").is_ok());
}

#[test]
fn quote_is_rejected() {
    let e = validate_as_string_arg("window_name", "a\"b").unwrap_err();
    assert!(!e.success);
    assert_eq!(e.message, "'window_name' contains a disallowed character (\" or \\)");
}

#[test]
fn backslash_is_rejected() {
    let e = validate_as_string_arg("app_name", "a\\b").unwrap_err();
    assert!(!e.success);
    assert_eq!(e.message, "'app_name' contains a disallowed character (\" or \\)");
}

#[test]
fn empty_argument_is_rejected() {
    let e = validate_as_string_arg("app_name", "").unwrap_err();
    assert!(!e.success);
    assert_eq!(e.message, "'app_name' must not be empty");
}

#[test]
fn alternate_names_swap_the_editions() {
    assert_eq!(alternate_app_name("Code - Insiders"), Some("Code"));
    assert_eq!(alternate_app_name("Code"), Some("Code - Insiders"));
    assert_eq!(alternate_app_name("Cursor"), None);
    // applying it twice gives the name back
    assert_eq!(alternate_app_name(alternate_app_name("Code").unwrap()), Some("Code"));
}

#[test]
fn candidates_start_with_the_requested_name() {
    assert_eq!(candidate_app_names("Code - Insiders"), vec!["Code - Insiders", "Code"]);
    assert_eq!(candidate_app_names("Code"), vec!["Code", "Code - Insiders"]);
    assert_eq!(candidate_app_names("Cursor"), vec!["Cursor"]);
}
