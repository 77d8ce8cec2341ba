use vscode_remote_control::json::Json;
use vscode_remote_control::workspace::{
    find_workspace, home_or_default, user_data_dir_for, state_db_path, storage_missing_message, user_data_dir,
    workspace_storage_dir, WorkspaceEntry,
};

fn manifest(folder: &str) -> Option<Json> {
    Some(Json::Object(vec![("folder".to_string(), Json::Str(folder.to_string()))]))
}

#[test]
fn user_data_depends_on_the_edition() {
    assert_eq!(
        user_data_dir("/Users/me", "Code - Insiders"),
        "/Users/me/Library/Application Support/Code - Insiders/User"
    );
    assert_eq!(user_data_dir("/Users/me", "CODE - INSIDERS"), "/Users/me/Library/Application Support/Code - Insiders/User");
    assert_eq!(user_data_dir("/Users/me", "Code"), "/Users/me/Library/Application Support/Code/User");
    assert_eq!(home_or_default(None), "/Users/unknown");
    assert_eq!(home_or_default(Some("/h".to_string())), "/h");
}

#[test]
fn storage_paths() {
    assert_eq!(workspace_storage_dir("/u"), "/u/workspaceStorage");
    assert_eq!(state_db_path("/u/workspaceStorage", "abc"), "/u/workspaceStorage/abc/state.vscdb");
    assert_eq!(storage_missing_message("/x"), "VS Code workspaceStorage not found: /x");
}

#[test]
fn workspace_is_found_by_folder_name() {
    let entries = vec![
        WorkspaceEntry { dir_name: "no-manifest".to_string(), manifest: None },
        WorkspaceEntry { dir_name: "other".to_string(), manifest: manifest("file:///Users/me/other") },
        WorkspaceEntry { dir_name: "trailing".to_string(), manifest: manifest("file:///Users/me/") },
        WorkspaceEntry { dir_name: "uuid-1".to_string(), manifest: manifest("file:///Users/me/valuego-web/") },
        WorkspaceEntry { dir_name: "uuid-2".to_string(), manifest: manifest("file:///Users/me/valuego-web") },
    ];
    assert_eq!(find_workspace("main.rs \u{2014} valuego-web", &entries).unwrap(), "uuid-1");
    assert_eq!(find_workspace("valuego-web", &entries).unwrap(), "uuid-1");
    assert_eq!(find_workspace("other", &entries).unwrap(), "other");
    assert_eq!(
        find_workspace("missing", &entries).unwrap_err(),
        "No workspace storage found for window: missing"
    );
}

#[test]
fn folder_segment_must_not_be_empty() {
    let entries = vec![WorkspaceEntry { dir_name: "root".to_string(), manifest: manifest("/") }];
    assert!(find_workspace("", &entries).is_err());
}

#[test]
fn user_data_from_a_lowercased_name() {
    assert_eq!(user_data_dir_for("/h", "code - insiders"), "/h/Library/Application Support/Code - Insiders/User");
    assert_eq!(user_data_dir_for("/h", "Code - Insiders"), "/h/Library/Application Support/Code/User");
}
