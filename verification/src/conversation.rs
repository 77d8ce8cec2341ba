//! One chat session: which file holds it, which snapshot of it counts, and
//! the conversation it records.
use vstd::prelude::*;
use crate::api::{is_valid_arg, validate_as_string_arg};
use crate::flow::HttpStatus;
use crate::focus::rejection;
use crate::json::{
    array_of, get, i64_of, json_as_array, json_as_i64, json_as_str, json_as_u64, json_get, json_of,
    parse_json, spec_parse_json, str_of, u64_of, Json, JsonNumber,
};
use crate::text::{chars_of, lines, text_lines, views};

verus! {

broadcast use vstd::string::group_string_axioms;

/// A character allowed in a session id: an ASCII hex digit or `-`.
pub open spec fn is_id_char(c: char) -> bool {
    ('0' <= c && c <= '9') || ('a' <= c && c <= 'f') || ('A' <= c && c <= 'F') || c == '-'
}

/// A session id shaped like a UUID: not empty, hex digits and hyphens only.
pub open spec fn is_valid_session_id(id: Seq<char>) -> bool {
    id.len() > 0 && forall|i: int| 0 <= i < id.len() ==> is_id_char(id[i])
}

/// Whether `id` may name a session file.
pub fn valid_session_id(id: &str) -> (r: bool)
    ensures
        r == is_valid_session_id(id@),
{
    let v = chars_of(id);
    if v.len() == 0 {
        return false;
    }
    let mut i: usize = 0;
    while i < v.len()
        invariant
            i <= v.len(),
            v@ == id@,
            forall|k: int| 0 <= k < i ==> is_id_char(v@[k]),
        decreases v.len() - i,
    {
        let c = v[i];
        if !(('0' <= c && c <= '9') || ('a' <= c && c <= 'f') || ('A' <= c && c <= 'F') || c == '-') {
            return false;
        }
        i = i + 1;
    }
    true
}

/// A valid session id holds no path separator and no dot, so the file names
/// made from it stay inside the directory they are looked up in.
pub proof fn lemma_valid_session_id_stays_in_dir(id: Seq<char>)
    requires
        is_valid_session_id(id),
    ensures
        !id.contains('/'),
        !id.contains('.'),
        !id.contains('\\'),
{
    assert forall|i: int| 0 <= i < id.len() implies id[i] != '/' && id[i] != '.' && id[i] != '\\' by {
        assert(is_id_char(id[i]));
    }
}

/// The two file names that may hold session `id`: the JSONL one, looked for
/// first, and the JSON one.
pub fn session_file_names(id: &str) -> (r: (String, String))
    ensures
        r.0@ == id@ + ".jsonl"@,
        r.1@ == id@ + ".json"@,
{
    let mut jsonl = String::from_str(id);
    jsonl.append(".jsonl");
    let mut json = String::from_str(id);
    json.append(".json");
    (jsonl, json)
}

/// What is on disk for session `id` in one workspace directory: whether it
/// has a `chatSessions` directory, and whether that holds the JSONL file
/// and the JSON file of the session.
pub struct SessionFileProbe {
    pub has_chat_dir: bool,
    pub jsonl_exists: bool,
    pub json_exists: bool,
}

/// The workspace directory `probe` describes holds a file of the session.
pub open spec fn probe_found(probe: SessionFileProbe) -> bool {
    probe.has_chat_dir && (probe.jsonl_exists || probe.json_exists)
}

/// The file that holds a session: in the first workspace directory, in
/// directory order, that holds one, the JSONL file when it exists, else the
/// JSON file. The result is the index of that directory and whether the
/// file is the JSONL one.
pub fn pick_session_file(probes: &Vec<SessionFileProbe>) -> (r: Option<(usize, bool)>)
    ensures
        match r {
            Some((k, jsonl)) => k < probes@.len() && probe_found(probes@[k as int]) && (forall|j: int|
                0 <= j < k ==> !probe_found(#[trigger] probes@[j])) && jsonl == probes@[k as int].jsonl_exists,
            None => forall|j: int| 0 <= j < probes@.len() ==> !probe_found(#[trigger] probes@[j]),
        },
{
    let mut i: usize = 0;
    while i < probes.len()
        invariant
            i <= probes.len(),
            forall|j: int| 0 <= j < i ==> !probe_found(#[trigger] probes@[j]),
        decreases probes.len() - i,
    {
        let p = &probes[i];
        if p.has_chat_dir {
            if p.jsonl_exists {
                return Some((i, true));
            }
            if p.json_exists {
                return Some((i, false));
            }
        }
        i = i + 1;
    }
    None
}

/// The error for a session whose file is in no workspace.
pub fn session_not_found_message(id: &str) -> (r: String)
    ensures
        r@ == "Session not found: "@ + id@,
{
    let mut r = String::from_str("Session not found: ");
    r.append(id);
    r
}

/// The error for a missing workspace storage directory, when reading a session.
pub fn session_storage_missing_message(ws_storage: &str) -> (r: String)
    ensures
        r@ == "VS Code workspace storage not found: "@ + ws_storage@,
{
    let mut r = String::from_str("VS Code workspace storage not found: ");
    r.append(ws_storage);
    r
}

/// A JSONL line that is a full snapshot of the session: its `kind` is 0.
pub open spec fn is_snapshot(j: Json) -> bool {
    match get(j, "kind"@) {
        Some(k) => u64_of(k) == Some(0u64),
        None => false,
    }
}

/// Line `k` parsed and is a snapshot.
pub open spec fn snapshot_at(lines: Seq<Option<Json>>, k: int) -> bool {
    lines[k] matches Some(j) && is_snapshot(j)
}

/// The last snapshot among `ls`, if any.
pub open spec fn last_snapshot(ls: Seq<Option<Json>>) -> Option<Json>
    decreases ls.len(),
{
    if ls.len() == 0 {
        None
    } else if snapshot_at(ls, ls.len() - 1) {
        ls.last()
    } else {
        last_snapshot(ls.drop_last())
    }
}

/// The most recent snapshot among the lines of a JSONL session file (each
/// `None` where the line is not JSON): the last line whose `kind` is 0.
pub fn latest_snapshot(lines: &Vec<Option<Json>>) -> (r: Option<&Json>)
    ensures
        match r {
            Some(j) => last_snapshot(lines@) == Some(*j),
            None => last_snapshot(lines@) is None,
        },
        match r {
            Some(j) => exists|k: int|
                0 <= k < lines@.len() && #[trigger] lines@[k] == Some(*j) && is_snapshot(*j) && forall|m: int|
                    k < m < lines@.len() ==> !snapshot_at(lines@, m),
            None => forall|k: int| 0 <= k < lines@.len() ==> !snapshot_at(lines@, k),
        },
{
    let mut i: usize = lines.len();
    assert(lines@.take(i as int) == lines@);
    while i > 0
        invariant
            i <= lines.len(),
            forall|m: int| i <= m < lines@.len() ==> !snapshot_at(lines@, m),
            last_snapshot(lines@) == last_snapshot(lines@.take(i as int)),
        decreases i,
    {
        let k = i - 1;
        assert(lines@.take(i as int).drop_last() == lines@.take(k as int));
        assert(lines@.take(i as int).last() == lines@[k as int]);
        assert(snapshot_at(lines@.take(i as int), k as int) == snapshot_at(lines@, k as int));
        match &lines[k] {
            Some(j) => {
                let kind_zero = match json_get(j, "kind") {
                    Some(kind) => match json_as_u64(kind) {
                        Some(n) => n == 0,
                        None => false,
                    },
                    None => false,
                };
                if kind_zero {
                    assert(lines@[k as int] == Some(*j));
                    return Some(j);
                }
            },
            None => {},
        }
        i = k;
    }
    None
}

/// One message of a conversation.
pub struct ChatMessage {
    pub role: String,
    pub text: String,
    pub timestamp: Option<i64>,
}

/// What a message says.
pub struct MessageView {
    pub role: Seq<char>,
    pub text: Seq<char>,
    pub timestamp: Option<i64>,
}

impl View for ChatMessage {
    type V = MessageView;

    open spec fn view(&self) -> MessageView {
        MessageView { role: self.role@, text: self.text@, timestamp: self.timestamp }
    }
}

/// What a sequence of messages says.
pub open spec fn message_views(s: Seq<ChatMessage>) -> Seq<MessageView> {
    s.map_values(|m: ChatMessage| m@)
}

/// The conversation of one session.
pub struct SessionDetailResponse {
    pub success: bool,
    pub message: Option<String>,
    pub title: String,
    pub messages: Vec<ChatMessage>,
}

/// The body of a snapshot: its `v` member, or the snapshot itself.
pub open spec fn body_of(outer: Json) -> Json {
    match get(outer, "v"@) {
        Some(v) => v,
        None => outer,
    }
}

/// The text of `j`'s member `key` when that is a string, else nothing.
pub open spec fn text_member(j: Json, key: Seq<char>) -> Option<Seq<char>> {
    match get(j, key) {
        Some(m) => str_of(m),
        None => None,
    }
}

/// The title of a session: its non-empty `title`, else its id.
pub open spec fn title_of(body: Json, id: Seq<char>) -> Seq<char> {
    match text_member(body, "title"@) {
        Some(t) => if t.len() > 0 {
            t
        } else {
            id
        },
        None => id,
    }
}

/// The requests of a session: its `requests` array, else none.
pub open spec fn requests_of(body: Json) -> Seq<Json> {
    match get(body, "requests"@) {
        Some(r) => match array_of(r) {
            Some(items) => items,
            None => seq![],
        },
        None => seq![],
    }
}

/// What the user wrote in a request: `message` when it is a string, else the
/// string `text` inside `message`, else nothing.
pub open spec fn user_text(req: Json) -> Seq<char> {
    match get(req, "message"@) {
        Some(m) => match str_of(m) {
            Some(s) => s,
            None => match text_member(m, "text"@) {
                Some(s) => s,
                None => seq![],
            },
        },
        None => seq![],
    }
}

/// When a request was made: its `timestamp` when that is an `i64`.
pub open spec fn request_time(req: Json) -> Option<i64> {
    match get(req, "timestamp"@) {
        Some(t) => i64_of(t),
        None => None,
    }
}

/// The text one response item contributes: its string `value`, when it has
/// no `kind`.
pub open spec fn reply_piece(item: Json) -> Seq<char> {
    if get(item, "kind"@) is None {
        match text_member(item, "value"@) {
            Some(s) => s,
            None => seq![],
        }
    } else {
        seq![]
    }
}

/// The text of response items, in order.
pub open spec fn reply_text(items: Seq<Json>) -> Seq<char>
    decreases items.len(),
{
    if items.len() == 0 {
        seq![]
    } else {
        reply_text(items.drop_last()) + reply_piece(items.last())
    }
}

/// What the assistant answered to a request.
pub open spec fn assistant_text(req: Json) -> Seq<char> {
    match get(req, "response"@) {
        Some(r) => match array_of(r) {
            Some(items) => reply_text(items),
            None => seq![],
        },
        None => seq![],
    }
}

/// The messages one request contributes: the user's, then the assistant's,
/// each only when not empty.
pub open spec fn request_messages(req: Json) -> Seq<MessageView> {
    (if user_text(req).len() > 0 {
        seq![MessageView { role: "user"@, text: user_text(req), timestamp: request_time(req) }]
    } else {
        seq![]
    }) + (if assistant_text(req).len() > 0 {
        seq![MessageView { role: "assistant"@, text: assistant_text(req), timestamp: None }]
    } else {
        seq![]
    })
}

/// The conversation that `requests` record, in order.
pub open spec fn conversation(requests: Seq<Json>) -> Seq<MessageView>
    decreases requests.len(),
{
    if requests.len() == 0 {
        seq![]
    } else {
        conversation(requests.drop_last()) + request_messages(requests.last())
    }
}

/// The text of a member that may be missing or not a string.
fn member_text<'a>(j: &'a Json, key: &str) -> (r: Option<&'a String>)
    ensures
        match r {
            Some(s) => text_member(*j, key@) == Some(s@),
            None => text_member(*j, key@) is None,
        },
{
    match json_get(j, key) {
        Some(m) => json_as_str(m),
        None => None,
    }
}

/// What the assistant answered to `req`.
fn assistant_reply(req: &Json) -> (r: String)
    ensures
        r@ == assistant_text(*req),
{
    let items = match json_get(req, "response") {
        Some(resp) => match json_as_array(resp) {
            Some(items) => items,
            None => return String::new(),
        },
        None => return String::new(),
    };
    let mut text = String::new();
    let mut i: usize = 0;
    assert(items@.take(0) == Seq::<Json>::empty());
    while i < items.len()
        invariant
            i <= items.len(),
            assistant_text(*req) == reply_text(items@),
            text@ == reply_text(items@.take(i as int)),
        decreases items.len() - i,
    {
        assert(items@.take(i + 1).drop_last() == items@.take(i as int));
        assert(items@.take(i + 1).last() == items@[i as int]);
        let item = &items[i];
        if json_get(item, "kind").is_none() {
            match member_text(item, "value") {
                Some(s) => text.append(s.as_str()),
                None => {},
            }
        }
        i = i + 1;
    }
    assert(items@.take(items.len() as int) == items@);
    text
}

/// What the user wrote in `req`.
fn user_request_text(req: &Json) -> (r: String)
    ensures
        r@ == user_text(*req),
{
    match json_get(req, "message") {
        Some(m) => match json_as_str(m) {
            Some(s) => s.clone(),
            None => match member_text(m, "text") {
                Some(s) => s.clone(),
                None => String::new(),
            },
        },
        None => String::new(),
    }
}

/// The conversation a snapshot records, titled by its non-empty `title` or
/// else by `session_id`.
pub fn session_detail(session_id: &str, snapshot: &Json) -> (r: SessionDetailResponse)
    ensures
        r.success,
        r.message is None,
        r.title@ == title_of(body_of(*snapshot), session_id@),
        message_views(r.messages@) == conversation(requests_of(body_of(*snapshot))),
{
    let body = match json_get(snapshot, "v") {
        Some(v) => v,
        None => snapshot,
    };
    let title = match member_text(body, "title") {
        Some(t) => if t.as_str().is_empty() {
            String::from_str(session_id)
        } else {
            t.clone()
        },
        None => String::from_str(session_id),
    };
    let empty: Vec<Json> = Vec::new();
    let requests: &Vec<Json> = match json_get(body, "requests") {
        Some(r) => match json_as_array(r) {
            Some(items) => items,
            None => &empty,
        },
        None => &empty,
    };
    let mut messages: Vec<ChatMessage> = Vec::new();
    let mut i: usize = 0;
    assert(requests@.take(0) == Seq::<Json>::empty());
    assert(message_views(messages@) == Seq::<MessageView>::empty());
    while i < requests.len()
        invariant
            i <= requests.len(),
            requests@ == requests_of(body_of(*snapshot)),
            message_views(messages@) == conversation(requests@.take(i as int)),
        decreases requests.len() - i,
    {
        assert(requests@.take(i + 1).drop_last() == requests@.take(i as int));
        assert(requests@.take(i + 1).last() == requests@[i as int]);
        let req = &requests[i];
        let ghost before = message_views(messages@);
        let user = user_request_text(req);
        let ts = match json_get(req, "timestamp") {
            Some(t) => json_as_i64(t),
            None => None,
        };
        let ghost with_user = if user@.len() > 0 {
            seq![MessageView { role: "user"@, text: user@, timestamp: ts }]
        } else {
            seq![]
        };
        if !user.as_str().is_empty() {
            let m = ChatMessage { role: String::from_str("user"), text: user, timestamp: ts };
            assert(message_views(messages@.push(m)) == message_views(messages@).push(m@));
            messages.push(m);
        }
        assert(message_views(messages@) == before + with_user);
        let reply = assistant_reply(req);
        let ghost with_reply = if reply@.len() > 0 {
            seq![MessageView { role: "assistant"@, text: reply@, timestamp: None }]
        } else {
            seq![]
        };
        if !reply.as_str().is_empty() {
            let m = ChatMessage { role: String::from_str("assistant"), text: reply, timestamp: None };
            assert(message_views(messages@.push(m)) == message_views(messages@).push(m@));
            messages.push(m);
        }
        assert(message_views(messages@) == before + (with_user + with_reply));
        i = i + 1;
    }
    assert(requests@.take(requests.len() as int) == requests@);
    SessionDetailResponse { success: true, message: None, title, messages }
}

/// `d` is the conversation that `snapshot` records, titled by its non-empty
/// `title` or else by `id`.
pub open spec fn detail_of(d: SessionDetailResponse, id: Seq<char>, snapshot: Json) -> bool {
    &&& d.success
    &&& d.message is None
    &&& d.title@ == title_of(body_of(snapshot), id)
    &&& message_views(d.messages@) == conversation(requests_of(body_of(snapshot)))
}

/// The lines of a JSONL file, each parsed, `None` where a line is not JSON.
pub open spec fn parsed_lines(content: Seq<char>) -> Seq<Option<Json>> {
    lines(content).map_values(|l: Seq<char>| json_of(l))
}

/// Each line of `content` parsed.
fn parse_lines(content: &str) -> (r: Vec<Option<Json>>)
    ensures
        r@ == parsed_lines(content@),
{
    let ls = text_lines(content);
    let mut out: Vec<Option<Json>> = Vec::new();
    let mut i: usize = 0;
    while i < ls.len()
        invariant
            i <= ls.len(),
            views(ls@) == lines(content@),
            out@ == views(ls@).take(i as int).map_values(|l: Seq<char>| json_of(l)),
        decreases ls.len() - i,
    {
        let parsed = match parse_json(ls[i].as_str()) {
            Ok(j) => Some(j),
            Err(_) => None,
        };
        assert(views(ls@)[i as int] == ls@[i as int]@);
        assert(views(ls@).take(i + 1) == views(ls@).take(i as int).push(ls@[i as int]@));
        out.push(parsed);
        i = i + 1;
    }
    assert(views(ls@).take(ls.len() as int) == views(ls@));
    out
}

/// The conversation of session `session_id` from the text of its file. For
/// a JSONL file it is that of the last line that is a snapshot, and a file
/// without one is refused; a JSON file is one snapshot, and one that is not
/// JSON is refused with the parse error.
pub fn session_from_text(session_id: &str, content: &str, is_jsonl: bool) -> (r: Result<SessionDetailResponse, String>)
    ensures
        is_jsonl ==> match last_snapshot(parsed_lines(content@)) {
            Some(s) => r matches Ok(d) && detail_of(d, session_id@, s),
            None => r matches Err(e) && e@ == "No snapshot line found in session file"@,
        },
        !is_jsonl ==> match spec_parse_json(content@) {
            Ok(s) => r matches Ok(d) && detail_of(d, session_id@, s),
            Err(m) => r matches Err(e) && e@ == m,
        },
{
    if is_jsonl {
        let ls = parse_lines(content);
        match latest_snapshot(&ls) {
            Some(snapshot) => Ok(session_detail(session_id, snapshot)),
            None => Err(no_snapshot_message()),
        }
    } else {
        match parse_json(content) {
            Ok(snapshot) => Ok(session_detail(session_id, &snapshot)),
            Err(e) => Err(e),
        }
    }
}

// ---------------------------------------------------------------------------
// Answering a session request
// ---------------------------------------------------------------------------

/// A request for the conversation of one session.
pub struct SessionDetailRequest {
    /// Process name of the application, e.g. `Code - Insiders`.
    pub app_name: String,
    /// The id of the session.
    pub session_id: String,
}

/// A failed answer to a session request.
pub open spec fn detail_failure(r: SessionDetailResponse, message: Seq<char>) -> bool {
    &&& !r.success
    &&& r.message matches Some(m) && m@ == message
    &&& r.title@.len() == 0
    &&& r.messages@.len() == 0
}

fn detail_failure_response(message: String) -> (r: SessionDetailResponse)
    ensures
        detail_failure(r, message@),
{
    SessionDetailResponse { success: false, message: Some(message), title: String::new(), messages: Vec::new() }
}

/// The answer when a session request cannot start: a bad request for an
/// invalid application name, then for an empty session id; nothing otherwise.
pub fn session_detail_rejection(app_name: &str, session_id: &str) -> (r: Option<(HttpStatus, SessionDetailResponse)>)
    ensures
        r is Some <==> !is_valid_arg(app_name@) || session_id@.len() == 0,
        r matches Some((status, resp)) ==> status == HttpStatus::BadRequest && detail_failure(
            resp,
            if !is_valid_arg(app_name@) {
                rejection("app_name"@, app_name@)
            } else {
                "session_id must not be empty"@
            },
        ),
{
    if let Err(e) = validate_as_string_arg("app_name", app_name) {
        return Some((HttpStatus::BadRequest, detail_failure_response(e.message)));
    }
    if session_id.is_empty() {
        return Some(
            (
                HttpStatus::BadRequest,
                detail_failure_response(String::from_str("session_id must not be empty")),
            ),
        );
    }
    None
}

/// Refuses a session id that is not shaped like a UUID.
pub fn check_session_id(session_id: &str) -> (r: Result<(), String>)
    ensures
        r is Ok <==> is_valid_session_id(session_id@),
        r matches Err(e) ==> e@ == "Invalid session_id"@,
{
    if valid_session_id(session_id) {
        Ok(())
    } else {
        Err(String::from_str("Invalid session_id"))
    }
}

/// The error for a session file without a snapshot line.
pub fn no_snapshot_message() -> (r: String)
    ensures
        r@ == "No snapshot line found in session file"@,
{
    String::from_str("No snapshot line found in session file")
}

/// The answer for the conversation found, or for the error that stopped the
/// request.
pub fn session_detail_reply(result: Result<SessionDetailResponse, String>) -> (r: (HttpStatus, SessionDetailResponse))
    ensures
        match result {
            Ok(d) => r.0 == HttpStatus::Success && r.1 == d,
            Err(e) => r.0 == HttpStatus::BadRequest && detail_failure(r.1, e@),
        },
{
    match result {
        Ok(d) => (HttpStatus::Success, d),
        Err(e) => (HttpStatus::BadRequest, detail_failure_response(e)),
    }
}

/// What the user wrote is kept whole: when a request's `message` is a
/// string, or an object whose `text` is a string, the user's text is that
/// entire string, line breaks and all; otherwise it is empty. A request
/// whose user text is not empty contributes it first, as the user's message
/// stamped with the request's time.
pub proof fn lemma_user_message_is_whole(req: Json)
    ensures
        match get(req, "message"@) {
            Some(Json::Str(s)) => user_text(req) == s@,
            Some(m) => match get(m, "text"@) {
                Some(Json::Str(t)) => user_text(req) == t@,
                _ => user_text(req).len() == 0,
            },
            None => user_text(req).len() == 0,
        },
        user_text(req).len() > 0 ==> request_messages(req).len() > 0 && request_messages(req)[0] == (
        MessageView { role: "user"@, text: user_text(req), timestamp: request_time(req) }),
{
}

/// A JSONL line is a snapshot exactly when its `kind` is the integer 0.
pub proof fn lemma_snapshot_is_kind_zero(j: Json)
    ensures
        is_snapshot(j) <==> get(j, "kind"@) == Some(Json::Number(JsonNumber::PosInt(0))),
{
}

/// The body of a snapshot is its `v` member when it has one, else the
/// snapshot itself; the session's title is the body's `title` when that is
/// a non-empty string, and the session id otherwise.
pub proof fn lemma_title_falls_back_to_id(snapshot: Json, id: Seq<char>)
    ensures
        match get(snapshot, "v"@) {
            Some(v) => body_of(snapshot) == v,
            None => body_of(snapshot) == snapshot,
        },
        match get(body_of(snapshot), "title"@) {
            Some(Json::Str(t)) => title_of(body_of(snapshot), id) == if t@.len() > 0 {
                t@
            } else {
                id
            },
            _ => title_of(body_of(snapshot), id) == id,
        },
{
}

/// The assistant's answer is the string values of the response items that
/// have no `kind`, each whole, in order, with nothing between them: one item
/// gives its own value, and the answer to two runs of items is the answer to
/// the first followed by the answer to the second.
pub proof fn lemma_reply_text_concatenates(a: Seq<Json>, b: Seq<Json>, item: Json)
    ensures
        reply_text(a + b) == reply_text(a) + reply_text(b),
        reply_text(seq![item]) == match get(item, "kind"@) {
            Some(_) => Seq::<char>::empty(),
            None => match get(item, "value"@) {
                Some(Json::Str(v)) => v@,
                _ => Seq::<char>::empty(),
            },
        },
    decreases b.len(),
{
    assert(seq![item].drop_last() == Seq::<Json>::empty());
    assert(reply_text(Seq::<Json>::empty()) == Seq::<char>::empty());
    assert(reply_text(seq![item]) == Seq::<char>::empty() + reply_piece(item));
    if b.len() == 0 {
        assert(a + b == a);
        assert(reply_text(a) + Seq::<char>::empty() == reply_text(a));
    } else {
        lemma_reply_text_concatenates(a, b.drop_last(), item);
        assert((a + b).drop_last() == a + b.drop_last());
        assert((a + b).last() == b.last());
        assert(reply_text(a) + reply_text(b.drop_last()) + reply_piece(b.last()) == reply_text(a) + (
        reply_text(b.drop_last()) + reply_piece(b.last())));
    }
}

/// A conversation follows its requests in order: a single request gives
/// its own messages, and the conversation of two runs of requests is that of
/// the first followed by that of the second.
pub proof fn lemma_conversation_follows_requests(a: Seq<Json>, b: Seq<Json>, req: Json)
    ensures
        conversation(a + b) == conversation(a) + conversation(b),
        conversation(seq![req]) == request_messages(req),
    decreases b.len(),
{
    assert(seq![req].drop_last() == Seq::<Json>::empty());
    assert(conversation(Seq::<Json>::empty()) == Seq::<MessageView>::empty());
    assert(conversation(seq![req]) == Seq::<MessageView>::empty() + request_messages(req));
    if b.len() == 0 {
        assert(a + b == a);
        assert(conversation(a) + Seq::<MessageView>::empty() == conversation(a));
    } else {
        lemma_conversation_follows_requests(a, b.drop_last(), req);
        assert((a + b).drop_last() == a + b.drop_last());
        assert((a + b).last() == b.last());
        assert(conversation(a) + conversation(b.drop_last()) + request_messages(b.last()) == conversation(a) + (
        conversation(b.drop_last()) + request_messages(b.last())));
    }
}

} // verus!
