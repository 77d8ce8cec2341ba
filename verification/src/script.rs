//! The AppleScript snippets the service runs through `osascript`, and what
//! their output means.
use vstd::prelude::*;
use crate::api::{is_disallowed, is_valid_arg};
use crate::text::{lines, nonempty_lines, same_text, trim, trim_str, views, is_nonempty};

verus! {

broadcast use vstd::string::group_string_axioms;

// ---------------------------------------------------------------------------
// Running osascript
// ---------------------------------------------------------------------------

/// What a finished `osascript` run yields: its trimmed standard output when it
/// exited successfully, else its trimmed standard error as the error.
pub fn script_outcome(success: bool, stdout: &str, stderr: &str) -> (r: Result<String, String>)
    ensures
        success ==> (r matches Ok(out) && out@ == trim(stdout@)),
        !success ==> (r matches Err(e) && e@ == trim(stderr@)),
{
    if success {
        Ok(trim_str(stdout))
    } else {
        Err(trim_str(stderr))
    }
}

/// The error for an `osascript` run that took longer than ten seconds.
pub fn timeout_message() -> (r: String)
    ensures
        r@ == "osascript timed out (10s) \u{2014} ensure the binary is added to System Settings \u{2192} Privacy & Security \u{2192} Accessibility, then restart the service"@,
{
    String::from_str(
        "osascript timed out (10s) \u{2014} ensure the binary is added to System Settings \u{2192} Privacy & Security \u{2192} Accessibility, then restart the service",
    )
}

/// The error for an `osascript` that could not be started.
pub fn spawn_failed_message(reason: &str) -> (r: String)
    ensures
        r@ == "Failed to spawn osascript: "@ + reason@,
{
    let mut r = String::from_str("Failed to spawn osascript: ");
    r.append(reason);
    r
}

// ---------------------------------------------------------------------------
// The snippets
// ---------------------------------------------------------------------------

/// Asks whether a process named `app` runs.
pub open spec fn process_exists_text(app: Seq<char>) -> Seq<char> {
    "tell application \"System Events\"\n  return (count of (every process whose name is \""@ + app
        + "\")) > 0\nend tell"@
}

/// Lists the non-empty window titles of process `app`, one per line.
pub open spec fn list_windows_text(app: Seq<char>) -> Seq<char> {
    "tell application \"System Events\"\n  set vsProc to first process whose name is \""@ + app
        + "\"\n  set output to \"\"\n  repeat with w in (every window of vsProc)\n    try\n      set t to title of w\n      if t is not \"\" then\n        set output to output & t & linefeed\n      end if\n    end try\n  end repeat\n  return output\nend tell"@
}

/// Raises the first window of `app` whose title contains `window` and brings
/// `app` to the front.
pub open spec fn focus_text(app: Seq<char>, window: Seq<char>) -> Seq<char> {
    "tell application \"System Events\"\n  set vsProc to first process whose name is \""@ + app
        + "\"\n  set targetWin to (first window of vsProc whose title contains \""@ + window
        + "\")\n  perform action \"AXRaise\" of targetWin\n  set frontmost of vsProc to true\nend tell"@
}

/// Brings `app` to the front and opens Copilot Chat (Cmd+Shift+I).
pub open spec fn open_chat_text(app: Seq<char>) -> Seq<char> {
    "tell application \"System Events\"\n  set vsProc to first process whose name is \""@ + app
        + "\"\n  set frontmost of vsProc to true\n  keystroke \"i\" using {command down, shift down}\nend tell"@
}

/// Brings `app` to the front and pastes (Cmd+V).
pub open spec fn paste_text(app: Seq<char>) -> Seq<char> {
    "tell application \"System Events\"\n  set vsProc to first process whose name is \""@ + app
        + "\"\n  set frontmost of vsProc to true\n  keystroke \"v\" using {command down}\nend tell"@
}

/// Brings `app` to the front and presses Return.
pub open spec fn enter_text(app: Seq<char>) -> Seq<char> {
    "tell application \"System Events\"\n  set vsProc to first process whose name is \""@ + app
        + "\"\n  set frontmost of vsProc to true\n  key code 36\nend tell"@
}

/// Raises the first window of `app` whose title contains `window` and closes
/// it (Cmd+W).
pub open spec fn close_window_text(app: Seq<char>, window: Seq<char>) -> Seq<char> {
    "tell application \"System Events\"\n  set vsProc to first process whose name is \""@ + app
        + "\"\n  set targetWin to (first window of vsProc whose title contains \""@ + window
        + "\")\n    perform action \"AXRaise\" of targetWin\n    set frontmost of vsProc to true\n    keystroke \"w\" using {command down}\nend tell"@
}

/// Sets the clipboard to the UTF-8 text of the file at `path`.
pub open spec fn clipboard_text(path: Seq<char>) -> Seq<char> {
    "set fileContent to (read POSIX file \""@ + path
        + "\" as \u{ab}class utf8\u{bb})\nset the clipboard to fileContent"@
}

/// The snippet that asks whether process `app` runs.
pub fn process_exists_script(app: &str) -> (r: String)
    ensures
        r@ == process_exists_text(app@),
{
    let mut r = String::from_str(
        "tell application \"System Events\"\n  return (count of (every process whose name is \"",
    );
    r.append(app);
    r.append("\")) > 0\nend tell");
    r
}

/// The snippet that lists the window titles of `app`.
pub fn list_windows_script(app: &str) -> (r: String)
    ensures
        r@ == list_windows_text(app@),
{
    let mut r = String::from_str(
        "tell application \"System Events\"\n  set vsProc to first process whose name is \"",
    );
    r.append(app);
    r.append(
        "\"\n  set output to \"\"\n  repeat with w in (every window of vsProc)\n    try\n      set t to title of w\n      if t is not \"\" then\n        set output to output & t & linefeed\n      end if\n    end try\n  end repeat\n  return output\nend tell",
    );
    r
}

/// The snippet that raises the window of `app` titled with `window`.
pub fn focus_script(app: &str, window: &str) -> (r: String)
    ensures
        r@ == focus_text(app@, window@),
{
    let mut r = String::from_str(
        "tell application \"System Events\"\n  set vsProc to first process whose name is \"",
    );
    r.append(app);
    r.append("\"\n  set targetWin to (first window of vsProc whose title contains \"");
    r.append(window);
    r.append("\")\n  perform action \"AXRaise\" of targetWin\n  set frontmost of vsProc to true\nend tell");
    r
}

/// The snippet that opens Copilot Chat in `app`.
pub fn open_chat_script(app: &str) -> (r: String)
    ensures
        r@ == open_chat_text(app@),
{
    let mut r = String::from_str(
        "tell application \"System Events\"\n  set vsProc to first process whose name is \"",
    );
    r.append(app);
    r.append(
        "\"\n  set frontmost of vsProc to true\n  keystroke \"i\" using {command down, shift down}\nend tell",
    );
    r
}

/// The snippet that pastes into `app`.
pub fn paste_script(app: &str) -> (r: String)
    ensures
        r@ == paste_text(app@),
{
    let mut r = String::from_str(
        "tell application \"System Events\"\n  set vsProc to first process whose name is \"",
    );
    r.append(app);
    r.append("\"\n  set frontmost of vsProc to true\n  keystroke \"v\" using {command down}\nend tell");
    r
}

/// The snippet that presses Return in `app`.
pub fn enter_script(app: &str) -> (r: String)
    ensures
        r@ == enter_text(app@),
{
    let mut r = String::from_str(
        "tell application \"System Events\"\n  set vsProc to first process whose name is \"",
    );
    r.append(app);
    r.append("\"\n  set frontmost of vsProc to true\n  key code 36\nend tell");
    r
}

/// The snippet that closes the window of `app` titled with `window`.
pub fn close_window_script(app: &str, window: &str) -> (r: String)
    ensures
        r@ == close_window_text(app@, window@),
{
    let mut r = String::from_str(
        "tell application \"System Events\"\n  set vsProc to first process whose name is \"",
    );
    r.append(app);
    r.append("\"\n  set targetWin to (first window of vsProc whose title contains \"");
    r.append(window);
    r.append(
        "\")\n    perform action \"AXRaise\" of targetWin\n    set frontmost of vsProc to true\n    keystroke \"w\" using {command down}\nend tell",
    );
    r
}

/// The file through which text reaches the clipboard.
pub fn clipboard_temp_path() -> (r: String)
    ensures
        r@ == "/tmp/vscode_rc_clipboard.txt"@,
{
    String::from_str("/tmp/vscode_rc_clipboard.txt")
}

/// The snippet that copies the file at `path` to the clipboard.
pub fn clipboard_script(path: &str) -> (r: String)
    ensures
        r@ == clipboard_text(path@),
{
    let mut r = String::from_str("set fileContent to (read POSIX file \"");
    r.append(path);
    r.append("\" as \u{ab}class utf8\u{bb})\nset the clipboard to fileContent");
    r
}

// ---------------------------------------------------------------------------
// Reading the output
// ---------------------------------------------------------------------------

/// The output of the process check says the process runs.
pub open spec fn says_running(output: Seq<char>) -> bool {
    trim(output) == "true"@
}

/// Whether the output of the process check says the process runs.
pub fn process_running(output: &str) -> (r: bool)
    ensures
        r == says_running(output@),
{
    let t = trim_str(output);
    same_text(t.as_str(), "true")
}

/// The window titles in the output of the window listing.
pub open spec fn titles_in(output: Seq<char>) -> Seq<Seq<char>> {
    lines(output).filter(|l: Seq<char>| is_nonempty(l))
}

/// The window titles in the output of the window listing: its non-empty lines.
pub fn window_titles(output: &str) -> (r: Vec<String>)
    ensures
        views(r@) == titles_in(output@),
{
    nonempty_lines(output)
}

// ---------------------------------------------------------------------------
// Arguments cannot escape their string literals
// ---------------------------------------------------------------------------

/// The number of characters in `s` that end or escape an AppleScript string
/// literal.
pub open spec fn escape_count(s: Seq<char>) -> nat
    decreases s.len(),
{
    if s.len() == 0 {
        0
    } else {
        escape_count(s.drop_last()) + if is_disallowed(s.last()) {
            1nat
        } else {
            0nat
        }
    }
}

/// Escape characters of a concatenation are those of its parts.
pub proof fn lemma_escape_count_add(a: Seq<char>, b: Seq<char>)
    ensures
        escape_count(a + b) == escape_count(a) + escape_count(b),
    decreases b.len(),
{
    if b.len() > 0 {
        assert((a + b).drop_last() == a + b.drop_last());
        lemma_escape_count_add(a, b.drop_last());
    }
}

/// A sequence without disallowed characters holds no escape character.
proof fn lemma_escape_free(s: Seq<char>)
    requires
        forall|i: int| 0 <= i < s.len() ==> !is_disallowed(#[trigger] s[i]),
    ensures
        escape_count(s) == 0,
    decreases s.len(),
{
    if s.len() > 0 {
        assert(!is_disallowed(s[s.len() - 1]));
        assert(s.last() == s[s.len() - 1]);
        assert forall|i: int| 0 <= i < s.drop_last().len() implies !is_disallowed(
            #[trigger] s.drop_last()[i],
        ) by {
            assert(s.drop_last()[i] == s[i]);
        }
        lemma_escape_free(s.drop_last());
    }
}

/// A valid argument holds no escape character.
pub proof fn lemma_valid_arg_escape_free(s: Seq<char>)
    requires
        is_valid_arg(s) || s.len() == 0,
    ensures
        escape_count(s) == 0,
{
    assert forall|i: int| 0 <= i < s.len() implies !is_disallowed(#[trigger] s[i]) by {
        if is_disallowed(s[i]) {
            assert(crate::api::has_disallowed(s));
        }
    }
    lemma_escape_free(s);
}

/// Every snippet built from validated names holds exactly the quotes and
/// backslashes of its template: a validated name cannot end or escape the
/// string literal it is placed in.
pub proof fn lemma_scripts_keep_their_literals(app: Seq<char>, window: Seq<char>, path: Seq<char>)
    requires
        is_valid_arg(app),
        is_valid_arg(window),
        is_valid_arg(path),
    ensures
        escape_count(process_exists_text(app)) == escape_count(process_exists_text(seq![])),
        escape_count(list_windows_text(app)) == escape_count(list_windows_text(seq![])),
        escape_count(focus_text(app, window)) == escape_count(focus_text(seq![], seq![])),
        escape_count(open_chat_text(app)) == escape_count(open_chat_text(seq![])),
        escape_count(paste_text(app)) == escape_count(paste_text(seq![])),
        escape_count(enter_text(app)) == escape_count(enter_text(seq![])),
        escape_count(close_window_text(app, window)) == escape_count(close_window_text(seq![], seq![])),
        escape_count(clipboard_text(path)) == escape_count(clipboard_text(seq![])),
{
    let e: Seq<char> = seq![];
    lemma_valid_arg_escape_free(app);
    lemma_valid_arg_escape_free(window);
    lemma_valid_arg_escape_free(path);
    lemma_valid_arg_escape_free(e);
    let head = "tell application \"System Events\"\n  set vsProc to first process whose name is \""@;
    let mid = "\"\n  set targetWin to (first window of vsProc whose title contains \""@;
    // two-argument snippets
    let focus_tail = "\")\n  perform action \"AXRaise\" of targetWin\n  set frontmost of vsProc to true\nend tell"@;
    let close_tail = "\")\n    perform action \"AXRaise\" of targetWin\n    set frontmost of vsProc to true\n    keystroke \"w\" using {command down}\nend tell"@;
    assert forall|a: Seq<char>, w: Seq<char>, tail: Seq<char>|
        escape_count(a) == 0 && escape_count(w) == 0 implies #[trigger] escape_count(
        head + a + mid + w + tail,
    ) == escape_count(head) + escape_count(mid) + escape_count(tail) by {
        lemma_escape_count_add(head, a);
        lemma_escape_count_add(head + a, mid);
        lemma_escape_count_add(head + a + mid, w);
        lemma_escape_count_add(head + a + mid + w, tail);
    }
    assert(escape_count(focus_text(app, window)) == escape_count(head + app + mid + window + focus_tail));
    assert(escape_count(focus_text(e, e)) == escape_count(head + e + mid + e + focus_tail));
    assert(escape_count(close_window_text(app, window)) == escape_count(
        head + app + mid + window + close_tail,
    ));
    assert(escape_count(close_window_text(e, e)) == escape_count(head + e + mid + e + close_tail));
    // one-argument snippets
    assert forall|pre: Seq<char>, a: Seq<char>, tail: Seq<char>|
        escape_count(a) == 0 implies #[trigger] escape_count(pre + a + tail) == escape_count(pre)
        + escape_count(tail) by {
        lemma_escape_count_add(pre, a);
        lemma_escape_count_add(pre + a, tail);
    }
    let exists_head = "tell application \"System Events\"\n  return (count of (every process whose name is \""@;
    let exists_tail = "\")) > 0\nend tell"@;
    assert(escape_count(process_exists_text(app)) == escape_count(exists_head + app + exists_tail));
    assert(escape_count(process_exists_text(e)) == escape_count(exists_head + e + exists_tail));
    let list_tail = "\"\n  set output to \"\"\n  repeat with w in (every window of vsProc)\n    try\n      set t to title of w\n      if t is not \"\" then\n        set output to output & t & linefeed\n      end if\n    end try\n  end repeat\n  return output\nend tell"@;
    assert(escape_count(list_windows_text(app)) == escape_count(head + app + list_tail));
    assert(escape_count(list_windows_text(e)) == escape_count(head + e + list_tail));
    let chat_tail = "\"\n  set frontmost of vsProc to true\n  keystroke \"i\" using {command down, shift down}\nend tell"@;
    assert(escape_count(open_chat_text(app)) == escape_count(head + app + chat_tail));
    assert(escape_count(open_chat_text(e)) == escape_count(head + e + chat_tail));
    let paste_tail = "\"\n  set frontmost of vsProc to true\n  keystroke \"v\" using {command down}\nend tell"@;
    assert(escape_count(paste_text(app)) == escape_count(head + app + paste_tail));
    assert(escape_count(paste_text(e)) == escape_count(head + e + paste_tail));
    let enter_tail = "\"\n  set frontmost of vsProc to true\n  key code 36\nend tell"@;
    assert(escape_count(enter_text(app)) == escape_count(head + app + enter_tail));
    assert(escape_count(enter_text(e)) == escape_count(head + e + enter_tail));
    let clip_head = "set fileContent to (read POSIX file \""@;
    let clip_tail = "\" as \u{ab}class utf8\u{bb})\nset the clipboard to fileContent"@;
    assert(escape_count(clipboard_text(path)) == escape_count(clip_head + path + clip_tail));
    assert(escape_count(clipboard_text(e)) == escape_count(clip_head + e + clip_tail));
}

/// `s` is one of the snippets, filled with `app` and `window`.
pub open spec fn built_from(s: Seq<char>, app: Seq<char>, window: Seq<char>) -> bool {
    ||| s == process_exists_text(app)
    ||| s == list_windows_text(app)
    ||| s == focus_text(app, window)
    ||| s == open_chat_text(app)
    ||| s == paste_text(app)
    ||| s == enter_text(app)
    ||| s == close_window_text(app, window)
}

/// `s` is one of the snippets filled with validated names, so that (by
/// `lemma_scripts_keep_their_literals`) it holds exactly the quotes and
/// backslashes of its template.
pub open spec fn safe_script(s: Seq<char>) -> bool {
    exists|app: Seq<char>, window: Seq<char>|
        is_valid_arg(app) && is_valid_arg(window) && #[trigger] built_from(s, app, window)
}

} // verus!
