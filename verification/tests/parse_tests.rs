use vscode_remote_control::conversation::session_from_text;
use vscode_remote_control::json::Json;
use vscode_remote_control::sessions::sessions_from_index_text;
use vscode_remote_control::workspace::{find_workspace, workspace_entry};

fn err_of<T>(r: Result<T, String>) -> String {
    match r {
        Ok(_) => panic!("expected an error"),
        Err(e) => e,
    }
}

fn serde_error(text: &str) -> String {
    serde_json::from_str::<serde_json::Value>(text).unwrap_err().to_string()
}

#[test]
fn session_index_text_is_parsed_and_listed_newest_first() {
    let value = r#"{"version":1,"entries":{
        "b":{"sessionId":"b","title":"B","lastMessageDate":5},
        "a":{"sessionId":"a","lastMessageDate":5},
        "c":{"sessionId":"c","title":"","lastMessageDate":9},
        "d":{"title":"no id","lastMessageDate":99}}}"#;
    let list = sessions_from_index_text(value).unwrap();
    let got: Vec<(String, String)> = list.into_iter().map(|i| (i.id, i.title)).collect();
    assert_eq!(
        got,
        vec![
            ("c".to_string(), "New Chat".to_string()),
            ("a".to_string(), "New Chat".to_string()),
            ("b".to_string(), "B".to_string()),
        ]
    );
}

#[test]
fn session_index_text_that_is_not_json_is_refused() {
    let err = err_of(sessions_from_index_text("not json"));
    assert_eq!(err, format!("Cannot parse chat session index JSON: {}", serde_error("not json")));
    assert!(err.len() > "Cannot parse chat session index JSON: ".len());
}

#[test]
fn session_index_without_entries_is_refused() {
    assert_eq!(
        err_of(sessions_from_index_text(r#"{"version":1}"#)),
        "No 'entries' object in chat session index"
    );
}

#[test]
fn workspace_manifest_text_is_parsed() {
    let e = workspace_entry("uuid-1".to_string(), Some(r#"{"folder":"file:///Users/me/proj/"}"#));
    assert_eq!(e.dir_name, "uuid-1");
    match &e.manifest {
        Some(Json::Object(members)) => {
            assert_eq!(members.len(), 1);
            assert_eq!(members[0].0, "folder");
            assert!(matches!(&members[0].1, Json::Str(s) if s == "file:///Users/me/proj/"));
        },
        _ => panic!("expected an object"),
    }
    let bad = workspace_entry("uuid-2".to_string(), Some("{ broken"));
    assert!(bad.manifest.is_none());
    let missing = workspace_entry("uuid-3".to_string(), None);
    assert!(missing.manifest.is_none());
    let entries = vec![bad, missing, e];
    assert_eq!(find_workspace("main.rs \u{2014} proj", &entries).unwrap(), "uuid-1");
}

#[test]
fn jsonl_session_uses_the_last_snapshot() {
    let content = [
        "{\"kind\":0,\"v\":{\"title\":\"old\",\"requests\":[]}}\r\n",
        "garbage\n",
        "{\"kind\":0,\"v\":{\"title\":\"T2\",\"requests\":[{\"message\":\"hi\",\"timestamp\":7,",
        "\"response\":[{\"value\":\"he\"},{\"kind\":\"x\",\"value\":\"no\"},{\"value\":\"llo\"}]}]}}\n",
        "{\"kind\":2,\"v\":{\"title\":\"patch\"}}\n",
    ]
    .concat();
    let content = content.as_str();
    let d = session_from_text("abc-1", content, true).unwrap();
    assert!(d.success && d.message.is_none());
    assert_eq!(d.title, "T2");
    let got: Vec<(String, String, Option<i64>)> =
        d.messages.into_iter().map(|m| (m.role, m.text, m.timestamp)).collect();
    assert_eq!(
        got,
        vec![
            ("user".to_string(), "hi".to_string(), Some(7)),
            ("assistant".to_string(), "hello".to_string(), None),
        ]
    );
}

#[test]
fn jsonl_snapshot_line_with_carriage_return_parses() {
    let d = session_from_text("abc-2", "{\"kind\":0,\"v\":{\"title\":\"T\"}}\r\n", true).unwrap();
    assert_eq!(d.title, "T");
}

#[test]
fn jsonl_session_without_snapshot_is_refused() {
    assert_eq!(
        err_of(session_from_text("abc-3", "{\"kind\":1}\nnot json\n", true)),
        "No snapshot line found in session file"
    );
}

#[test]
fn json_session_is_one_snapshot() {
    let d = session_from_text("abc-4", r#"{"requests":[{"message":{"text":"old form"}}]}"#, false).unwrap();
    assert_eq!(d.title, "abc-4");
    assert_eq!(d.messages.len(), 1);
    assert_eq!(d.messages[0].text, "old form");
    let err = err_of(session_from_text("abc-5", "[1, 2", false));
    assert_eq!(err, serde_error("[1, 2"));
}
