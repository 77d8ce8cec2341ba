use vscode_remote_control::flow::{Action, Event, HttpStatus};
use vscode_remote_control::focus::{CloseFlow, CloseWindowRequest, FocusFlow, FocusRequest};
use vscode_remote_control::script::{
    close_window_script, enter_script, focus_script, list_windows_script, open_chat_script,
    paste_script, process_exists_script,
};
use vscode_remote_control::windows::{sort_windows, ListWindowsQuery, WindowEntry, WindowsFlow};
use vscode_remote_control::ApiResponse;

fn script_of<R>(a: &Action<R>) -> String {
    match a {
        Action::RunScript(s) => s.clone(),
        _ => panic!("expected a script"),
    }
}

fn reply_of(a: Action<ApiResponse>) -> (u16, bool, String) {
    match a {
        Action::Reply(st, r) => (st.code(), r.success, r.message),
        _ => panic!("expected a reply"),
    }
}

fn ok(s: &str) -> Event {
    Event::Script(Ok(s.to_string()))
}

fn request(open_chat: bool, content: Option<&str>) -> FocusRequest {
    FocusRequest {
        app_name: "Code - Insiders".to_string(),
        window_name: "proj".to_string(),
        open_chat,
        chat_content: content.map(|c| c.to_string()),
        step_delay_ms: 400,
    }
}

#[test]
fn focus_rejects_invalid_names_before_running_anything() {
    let mut r = request(true, None);
    r.window_name = "x\"; do shell script \"rm".to_string();
    let (_, a) = FocusFlow::start(r);
    let (code, success, message) = reply_of(a);
    assert_eq!(code, 400);
    assert!(!success);
    assert_eq!(message, "'window_name' contains a disallowed character (\" or \\)");
    let mut r = request(true, None);
    r.app_name = String::new();
    let (_, a) = FocusFlow::start(r);
    assert_eq!(reply_of(a).2, "'app_name' must not be empty");
}

#[test]
fn focus_runs_every_step_in_order() {
    let (mut flow, a) = FocusFlow::start(request(true, Some("hello")));
    assert_eq!(script_of(&a), process_exists_script("Code - Insiders"));
    let a = flow.resume(ok("true"));
    assert_eq!(script_of(&a), process_exists_script("Code"));
    let a = flow.resume(ok("false"));
    assert_eq!(script_of(&a), list_windows_script("Code - Insiders"));
    let a = flow.resume(ok("other\nproj \u{2014} x"));
    assert_eq!(script_of(&a), focus_script("Code - Insiders", "proj"));
    let a = flow.resume(ok(""));
    assert!(matches!(a, Action::Sleep(400)));
    let a = flow.resume(Event::Slept);
    assert_eq!(script_of(&a), open_chat_script("Code - Insiders"));
    let a = flow.resume(ok(""));
    assert!(matches!(a, Action::Sleep(400)));
    let a = flow.resume(Event::Slept);
    match &a {
        Action::SetClipboard(c) => assert_eq!(c, "hello"),
        _ => panic!("expected the clipboard"),
    }
    let a = flow.resume(Event::Clipboard(Ok(())));
    assert!(matches!(a, Action::Sleep(150)));
    let a = flow.resume(Event::Slept);
    assert_eq!(script_of(&a), paste_script("Code - Insiders"));
    let a = flow.resume(ok(""));
    assert!(matches!(a, Action::Sleep(3000)));
    let a = flow.resume(Event::Slept);
    assert_eq!(script_of(&a), enter_script("Code - Insiders"));
    let a = flow.resume(ok(""));
    assert_eq!(reply_of(a), (200, true, "OK".to_string()));
}

#[test]
fn focus_without_chat_answers_after_focusing() {
    let (mut flow, _) = FocusFlow::start(request(false, None));
    flow.resume(ok("true"));
    flow.resume(ok("true"));
    let a = flow.resume(ok("proj"));
    assert_eq!(script_of(&a), focus_script("Code - Insiders", "proj"));
    assert_eq!(reply_of(flow.resume(ok(""))), (200, true, "OK".to_string()));
}

#[test]
fn focus_with_chat_but_no_content_stops_after_opening() {
    let (mut flow, _) = FocusFlow::start(request(true, None));
    flow.resume(ok("true"));
    flow.resume(ok("false"));
    flow.resume(ok("proj"));
    assert!(matches!(flow.resume(ok("")), Action::Sleep(400)));
    flow.resume(Event::Slept);
    assert_eq!(reply_of(flow.resume(ok(""))), (200, true, "OK".to_string()));
}

#[test]
fn focus_uses_the_other_edition_when_it_shows_the_window() {
    let (mut flow, _) = FocusFlow::start(request(false, None));
    flow.resume(ok("true"));
    flow.resume(ok("true"));
    let a = flow.resume(ok("unrelated"));
    assert_eq!(script_of(&a), list_windows_script("Code"));
    let a = flow.resume(ok("proj"));
    assert_eq!(script_of(&a), focus_script("Code", "proj"));
}

#[test]
fn focus_reports_each_failure() {
    let (mut flow, _) = FocusFlow::start(request(false, None));
    let (code, _, m) = reply_of(flow.resume(Event::Script(Err("boom".to_string()))));
    assert_eq!((code, m.as_str()), (400, "检查进程状态失败：boom"));

    let (mut flow, _) = FocusFlow::start(request(false, None));
    flow.resume(ok("false"));
    let (code, _, m) = reply_of(flow.resume(ok("false")));
    assert_eq!(code, 400);
    assert_eq!(m, "未找到进程 'Code - Insiders'，也未找到 'Code'。请确保已启动 VS Code 或 VS Code Insiders。");

    let (mut flow, _) = FocusFlow::start(request(false, None));
    flow.resume(ok("true"));
    flow.resume(ok("true"));
    flow.resume(ok("a"));
    let (code, _, m) = reply_of(flow.resume(ok("b")));
    assert_eq!(code, 400);
    assert_eq!(m, "未在 Code - Insiders / Code 中找到包含 'proj' 的窗口。");

    let (mut flow, _) = FocusFlow::start(request(false, None));
    flow.resume(ok("true"));
    flow.resume(ok("false"));
    let (_, _, m) = reply_of(flow.resume(Event::Script(Err("x".to_string()))));
    assert_eq!(m, "读取窗口列表失败：x");

    let (mut flow, _) = FocusFlow::start(request(true, Some("c")));
    flow.resume(ok("true"));
    flow.resume(ok("false"));
    flow.resume(ok("proj"));
    assert_eq!(reply_of(flow.resume(Event::Script(Err("e".to_string())))), (400, false, "Focus failed: e".to_string()));

    let (mut flow, _) = FocusFlow::start(request(true, Some("c")));
    flow.resume(ok("true"));
    flow.resume(ok("false"));
    flow.resume(ok("proj"));
    flow.resume(ok(""));
    flow.resume(Event::Slept);
    assert_eq!(reply_of(flow.resume(Event::Script(Err("e".to_string())))), (500, false, "Open chat failed: e".to_string()));
}

#[test]
fn focus_reports_late_failures_as_server_errors() {
    let start = || {
        let (mut flow, _) = FocusFlow::start(request(true, Some("c")));
        flow.resume(ok("true"));
        flow.resume(ok("false"));
        flow.resume(ok("proj"));
        flow.resume(ok(""));
        flow.resume(Event::Slept);
        flow.resume(ok(""));
        flow.resume(Event::Slept);
        flow
    };
    let mut flow = start();
    assert_eq!(reply_of(flow.resume(Event::Clipboard(Err("disk".to_string())))), (500, false, "Clipboard error: disk".to_string()));
    let mut flow = start();
    flow.resume(Event::Clipboard(Ok(())));
    flow.resume(Event::Slept);
    assert_eq!(reply_of(flow.resume(Event::Script(Err("p".to_string())))), (500, false, "Paste failed: p".to_string()));
    let mut flow = start();
    flow.resume(Event::Clipboard(Ok(())));
    flow.resume(Event::Slept);
    flow.resume(ok(""));
    flow.resume(Event::Slept);
    assert_eq!(reply_of(flow.resume(Event::Script(Err("k".to_string())))), (500, false, "Enter key failed: k".to_string()));
}

#[test]
fn close_window_flow() {
    let req = || CloseWindowRequest { app_name: "Code".to_string(), window_name: "proj".to_string() };
    let (mut flow, a) = CloseFlow::start(req());
    assert_eq!(script_of(&a), process_exists_script("Code"));
    flow.resume(Ok("true".to_string()));
    flow.resume(Ok("false".to_string()));
    let a = flow.resume(Ok("proj".to_string()));
    assert_eq!(script_of(&a), close_window_script("Code", "proj"));
    assert_eq!(reply_of(flow.resume(Ok(String::new()))), (200, true, "OK".to_string()));

    let (mut flow, _) = CloseFlow::start(req());
    flow.resume(Ok("true".to_string()));
    flow.resume(Ok("false".to_string()));
    flow.resume(Ok("proj".to_string()));
    assert_eq!(reply_of(flow.resume(Err("nope".to_string()))), (400, false, "Close window failed: nope".to_string()));

    let (_, a) = CloseFlow::start(CloseWindowRequest { app_name: "Code".to_string(), window_name: "a\\b".to_string() });
    assert_eq!(reply_of(a).0, 400);
}

#[test]
fn windows_are_listed_sorted_by_title_then_application() {
    let (mut flow, a) = WindowsFlow::start(ListWindowsQuery { app_name: "Code - Insiders".to_string() });
    assert_eq!(script_of(&a), process_exists_script("Code - Insiders"));
    flow.resume(Ok("true".to_string()));
    let a = flow.resume(Ok("true".to_string()));
    assert_eq!(script_of(&a), list_windows_script("Code - Insiders"));
    let a = flow.resume(Ok("zeta\nalpha\n\nsame".to_string()));
    assert_eq!(script_of(&a), list_windows_script("Code"));
    match flow.resume(Ok("same\nbeta".to_string())) {
        Action::Reply(st, r) => {
            assert!(st == HttpStatus::Success);
            assert!(r.success && r.message.is_none());
            assert_eq!(
                r.windows,
                vec![
                    "alpha".to_string(),
                    "beta".to_string(),
                    "same".to_string(),
                    "same".to_string(),
                    "zeta".to_string(),
                ]
            );
        },
        _ => panic!("expected a reply"),
    }
}

#[test]
fn windows_listing_failures() {
    let (_, a) = WindowsFlow::start(ListWindowsQuery { app_name: String::new() });
    match a {
        Action::Reply(st, r) => {
            assert_eq!(st.code(), 400);
            assert_eq!(r.message.as_deref(), Some("'app_name' must not be empty"));
            assert!(r.windows.is_empty());
        },
        _ => panic!("expected a reply"),
    }
    let (mut flow, _) = WindowsFlow::start(ListWindowsQuery { app_name: "Cursor".to_string() });
    match flow.resume(Ok("false".to_string())) {
        Action::Reply(st, r) => {
            assert_eq!(st.code(), 400);
            assert_eq!(
                r.message.as_deref(),
                Some("未找到进程 'Cursor'，也未找到 'Code 或 Code - Insiders'。请确保已启动 VS Code 或 VS Code Insiders。")
            );
        },
        _ => panic!("expected a reply"),
    }
    let (mut flow, _) = WindowsFlow::start(ListWindowsQuery { app_name: "Cursor".to_string() });
    flow.resume(Ok("true".to_string()));
    match flow.resume(Err("raw error".to_string())) {
        Action::Reply(st, r) => {
            assert_eq!(st.code(), 400);
            assert_eq!(r.message.as_deref(), Some("raw error"));
        },
        _ => panic!("expected a reply"),
    }
}

/// Runs a focus flow to its end, answering every snippet with `ok`, and
/// records each action that is not a reply.
fn trace(req: FocusRequest) -> Vec<String> {
    let (mut flow, mut a) = FocusFlow::start(req);
    let mut steps = Vec::new();
    loop {
        let ev = match &a {
            Action::RunScript(s) => {
                steps.push(format!("run {s}"));
                if s.contains("count of") { ok("true") } else if s.contains("repeat with") { ok("proj") } else { ok("") }
            },
            Action::Sleep(ms) => {
                steps.push(format!("sleep {ms}"));
                Event::Slept
            },
            Action::SetClipboard(c) => {
                steps.push(format!("clipboard {c}"));
                Event::Clipboard(Ok(()))
            },
            Action::Reply(_, r) => {
                steps.push(format!("reply {}", r.message));
                return steps;
            },
        };
        a = flow.resume(ev);
    }
}

#[test]
fn chat_content_only_reaches_the_clipboard() {
    let secret = "tell application \"Finder\" to quit";
    let with_secret = trace(request(true, Some(secret)));
    let with_other = trace(request(true, Some("hello")));
    assert_eq!(with_secret.len(), with_other.len());
    let mut clipboard_steps = 0;
    for (x, y) in with_secret.iter().zip(with_other.iter()) {
        if x.starts_with("clipboard ") {
            clipboard_steps += 1;
            assert_eq!(x, &format!("clipboard {secret}"));
            assert_eq!(y, "clipboard hello");
        } else {
            assert_eq!(x, y);
            assert!(!x.contains("Finder"));
        }
    }
    assert_eq!(clipboard_steps, 1);
}

#[test]
fn windows_with_the_same_title_are_ordered_by_application() {
    let e = |app: &str, title: &str| WindowEntry { app_name: app.to_string(), title: title.to_string() };
    let sorted = sort_windows(vec![e("Code", "b"), e("Code - Insiders", "a"), e("Code", "a"), e("Code", "B")]);
    let got: Vec<(String, String)> = sorted.into_iter().map(|w| (w.title, w.app_name)).collect();
    assert_eq!(
        got,
        vec![
            ("B".to_string(), "Code".to_string()),
            ("a".to_string(), "Code".to_string()),
            ("a".to_string(), "Code - Insiders".to_string()),
            ("b".to_string(), "Code".to_string()),
        ]
    );
}
