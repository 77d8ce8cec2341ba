use vscode_remote_control::conversation::{
    pick_session_file, session_not_found_message, SessionFileProbe, check_session_id, latest_snapshot, session_detail, session_detail_rejection,
    session_detail_reply, session_file_names, valid_session_id,
};
use vscode_remote_control::flow::HttpStatus;
use vscode_remote_control::json::{Json, JsonNumber};
use vscode_remote_control::sessions::{
    list_sessions_rejection, list_sessions_reply, sessions_from_index, SessionInfo,
};

fn s(x: &str) -> Json {
    Json::Str(x.to_string())
}

fn num(n: i64) -> Json {
    if n >= 0 {
        Json::Number(JsonNumber::PosInt(n as u64))
    } else {
        Json::Number(JsonNumber::NegInt(n))
    }
}

fn obj(members: Vec<(&str, Json)>) -> Json {
    Json::Object(members.into_iter().map(|(k, v)| (k.to_string(), v)).collect())
}

fn entry(id: &str, title: Option<&str>, ts: Option<i64>) -> Json {
    let mut m = vec![("sessionId", s(id))];
    if let Some(t) = title {
        m.push(("title", s(t)));
    }
    if let Some(t) = ts {
        m.push(("lastMessageDate", num(t)));
    }
    obj(m)
}

fn pairs(list: &[SessionInfo]) -> Vec<(String, String)> {
    list.iter().map(|i| (i.id.clone(), i.title.clone())).collect()
}

#[test]
fn sessions_are_listed_newest_first() {
    let index = obj(vec![(
        "entries",
        obj(vec![
            ("a", entry("a", Some("Old"), Some(100))),
            ("b", entry("b", Some("New"), Some(300))),
            ("c", entry("c", Some("Middle"), Some(200))),
        ]),
    )]);
    let list = sessions_from_index(&index).unwrap();
    assert_eq!(
        pairs(&list),
        vec![
            ("b".to_string(), "New".to_string()),
            ("c".to_string(), "Middle".to_string()),
            ("a".to_string(), "Old".to_string()),
        ]
    );
}

#[test]
fn sessions_with_the_same_time_keep_index_order() {
    let index = obj(vec![(
        "entries",
        obj(vec![
            ("1", entry("x", Some("first"), Some(5))),
            ("2", entry("y", Some("second"), Some(5))),
            ("3", entry("z", Some("newest"), Some(9))),
        ]),
    )]);
    let list = sessions_from_index(&index).unwrap();
    let ids: Vec<String> = list.iter().map(|i| i.id.clone()).collect();
    assert_eq!(ids, vec!["z", "x", "y"]);
}

#[test]
fn missing_fields_get_their_defaults() {
    let index = obj(vec![(
        "entries",
        obj(vec![
            ("1", entry("empty-title", Some(""), None)),
            ("2", entry("no-title", None, Some(-3))),
            ("3", obj(vec![("title", s("no id"))])),
            ("4", obj(vec![("sessionId", num(7))])),
            ("5", Json::Null),
        ]),
    )]);
    let list = sessions_from_index(&index).unwrap();
    assert_eq!(
        pairs(&list),
        vec![
            ("empty-title".to_string(), "New Chat".to_string()),
            ("no-title".to_string(), "New Chat".to_string()),
        ]
    );
}

#[test]
fn index_without_entries_is_an_error() {
    let e = sessions_from_index(&obj(vec![("version", num(1))])).err().unwrap();
    assert_eq!(e, "No 'entries' object in chat session index");
    let e = sessions_from_index(&obj(vec![("entries", Json::Array(vec![]))])).err().unwrap();
    assert_eq!(e, "No 'entries' object in chat session index");
}

#[test]
fn listing_answers() {
    let (status, resp) = list_sessions_reply(Err("boom".to_string()));
    assert_eq!(status.code(), 400);
    assert!(!resp.success);
    assert_eq!(resp.message.as_deref(), Some("List sessions failed: boom"));
    let (status, resp) = list_sessions_reply(Ok(vec![]));
    assert_eq!(status.code(), 200);
    assert!(resp.success && resp.message.is_none());
    assert!(list_sessions_rejection("Code").is_none());
    let (status, resp) = list_sessions_rejection("").unwrap();
    assert!(status == HttpStatus::BadRequest);
    assert_eq!(resp.message.as_deref(), Some("'app_name' must not be empty"));
}

#[test]
fn session_ids_are_uuid_shaped() {
    assert!(valid_session_id("838f950d-db82-41c7-b189-f98a4580dc21"));
    assert!(valid_session_id("ABCDEF-0123"));
    assert!(!valid_session_id(""));
    assert!(!valid_session_id("../etc/passwd"));
    assert!(!valid_session_id("abc.json"));
    assert!(!valid_session_id("g123"));
    assert_eq!(check_session_id("x/y").unwrap_err(), "Invalid session_id");
    assert!(check_session_id("0f23fa70").is_ok());
}

#[test]
fn session_file_names_are_jsonl_then_json() {
    let (a, b) = session_file_names("abc");
    assert_eq!(a, "abc.jsonl");
    assert_eq!(b, "abc.json");
}

#[test]
fn latest_snapshot_is_the_last_kind_zero_line() {
    let lines = vec![
        Some(obj(vec![("kind", num(0)), ("v", obj(vec![("title", s("first"))]))])),
        None,
        Some(obj(vec![("kind", num(0)), ("v", obj(vec![("title", s("second"))]))])),
        Some(obj(vec![("kind", num(1))])),
        Some(obj(vec![("kind", Json::Number(JsonNumber::Float))])),
    ];
    let snap = latest_snapshot(&lines).unwrap();
    let detail = session_detail("id", snap);
    assert_eq!(detail.title, "second");
    assert!(latest_snapshot(&vec![None, Some(obj(vec![("kind", num(2))]))]).is_none());
}

#[test]
fn conversation_is_read_from_requests() {
    let requests = Json::Array(vec![
        obj(vec![
            ("message", s("hello")),
            ("timestamp", num(1778075224825)),
            (
                "response",
                Json::Array(vec![
                    obj(vec![("value", s("Hi "))]),
                    obj(vec![("kind", s("toolInvocation")), ("value", s("ignored"))]),
                    obj(vec![("value", s(""))]),
                    obj(vec![("value", s("there"))]),
                ]),
            ),
        ]),
        obj(vec![("message", obj(vec![("text", s("older format"))]))]),
        obj(vec![("message", s("")), ("response", Json::Array(vec![obj(vec![("value", s("only answer"))])]))]),
    ]);
    let snapshot = obj(vec![("kind", num(0)), ("v", obj(vec![("title", s("My chat")), ("requests", requests)]))]);
    let d = session_detail("sid", &snapshot);
    assert!(d.success);
    assert!(d.message.is_none());
    assert_eq!(d.title, "My chat");
    let got: Vec<(String, String, Option<i64>)> =
        d.messages.iter().map(|m| (m.role.clone(), m.text.clone(), m.timestamp)).collect();
    assert_eq!(
        got,
        vec![
            ("user".to_string(), "hello".to_string(), Some(1778075224825)),
            ("assistant".to_string(), "Hi there".to_string(), None),
            ("user".to_string(), "older format".to_string(), None),
            ("assistant".to_string(), "only answer".to_string(), None),
        ]
    );
}

#[test]
fn snapshot_without_v_or_title_uses_itself_and_the_id() {
    let snapshot = obj(vec![("title", s("")), ("requests", s("not an array"))]);
    let d = session_detail("the-id", &snapshot);
    assert_eq!(d.title, "the-id");
    assert!(d.messages.is_empty());
}

#[test]
fn detail_answers() {
    let (status, resp) = session_detail_rejection("Code", "").unwrap();
    assert_eq!(status.code(), 400);
    assert_eq!(resp.message.as_deref(), Some("session_id must not be empty"));
    let (_, resp) = session_detail_rejection("a\"b", "").unwrap();
    assert_eq!(resp.message.as_deref(), Some("'app_name' contains a disallowed character (\" or \\)"));
    assert!(session_detail_rejection("Code", "abc").is_none());
    let (status, resp) = session_detail_reply(Err("Session not found: x".to_string()));
    assert_eq!(status.code(), 400);
    assert!(!resp.success && resp.title.is_empty() && resp.messages.is_empty());
    assert_eq!(resp.message.as_deref(), Some("Session not found: x"));
}

fn probe(has_chat_dir: bool, jsonl_exists: bool, json_exists: bool) -> SessionFileProbe {
    SessionFileProbe { has_chat_dir, jsonl_exists, json_exists }
}

#[test]
fn session_file_is_the_first_found_jsonl_preferred() {
    assert_eq!(pick_session_file(&vec![probe(false, false, false), probe(true, true, true)]), Some((1, true)));
    assert_eq!(pick_session_file(&vec![probe(true, false, false), probe(true, false, true), probe(true, true, false)]), Some((1, false)));
    assert_eq!(pick_session_file(&vec![probe(true, false, false)]), None);
    assert_eq!(pick_session_file(&vec![]), None);
    assert_eq!(session_not_found_message("abc"), "Session not found: abc");
}
