use vscode_remote_control::script::{
    clipboard_script, clipboard_temp_path, close_window_script, enter_script, focus_script,
    list_windows_script, open_chat_script, paste_script, process_exists_script, process_running,
    script_outcome, spawn_failed_message, timeout_message, window_titles,
};

#[test]
fn process_check_snippet() {
    assert_eq!(
        process_exists_script("Code"),
        "tell application \"System Events\"\n  return (count of (every process whose name is \"Code\")) > 0\nend tell"
    );
}

#[test]
fn focus_snippet() {
    assert_eq!(
        focus_script("Code - Insiders", "my-project"),
        "tell application \"System Events\"\n  set vsProc to first process whose name is \"Code - Insiders\"\n  set targetWin to (first window of vsProc whose title contains \"my-project\")\n  perform action \"AXRaise\" of targetWin\n  set frontmost of vsProc to true\nend tell"
    );
}

#[test]
fn keystroke_snippets() {
    assert_eq!(
        open_chat_script("Code"),
        "tell application \"System Events\"\n  set vsProc to first process whose name is \"Code\"\n  set frontmost of vsProc to true\n  keystroke \"i\" using {command down, shift down}\nend tell"
    );
    assert_eq!(
        paste_script("Code"),
        "tell application \"System Events\"\n  set vsProc to first process whose name is \"Code\"\n  set frontmost of vsProc to true\n  keystroke \"v\" using {command down}\nend tell"
    );
    assert_eq!(
        enter_script("Code"),
        "tell application \"System Events\"\n  set vsProc to first process whose name is \"Code\"\n  set frontmost of vsProc to true\n  key code 36\nend tell"
    );
}

#[test]
fn close_and_list_snippets() {
    assert_eq!(
        close_window_script("Code", "w"),
        "tell application \"System Events\"\n  set vsProc to first process whose name is \"Code\"\n  set targetWin to (first window of vsProc whose title contains \"w\")\n    perform action \"AXRaise\" of targetWin\n    set frontmost of vsProc to true\n    keystroke \"w\" using {command down}\nend tell"
    );
    let list = list_windows_script("Code");
    assert!(list.starts_with("tell application \"System Events\"\n  set vsProc to first process whose name is \"Code\"\n"));
    assert!(list.ends_with("  return output\nend tell"));
}

#[test]
fn clipboard_snippet() {
    assert_eq!(clipboard_temp_path(), "/tmp/vscode_rc_clipboard.txt");
    assert_eq!(
        clipboard_script("/tmp/vscode_rc_clipboard.txt"),
        "set fileContent to (read POSIX file \"/tmp/vscode_rc_clipboard.txt\" as \u{ab}class utf8\u{bb})\nset the clipboard to fileContent"
    );
}

#[test]
fn outcome_trims_the_relevant_stream() {
    assert_eq!(script_outcome(true, "  true\n", "ignored").unwrap(), "true");
    assert_eq!(script_outcome(false, "out", " execution error -25211\n").unwrap_err(), "execution error -25211");
}

#[test]
fn messages_for_failed_runs() {
    assert_eq!(
        timeout_message(),
        "osascript timed out (10s) \u{2014} ensure the binary is added to System Settings \u{2192} Privacy & Security \u{2192} Accessibility, then restart the service"
    );
    assert_eq!(spawn_failed_message("No such file"), "Failed to spawn osascript: No such file");
}

#[test]
fn process_check_output() {
    assert!(process_running("true"));
    assert!(process_running(" true\n"));
    assert!(!process_running("false"));
    assert!(!process_running("True"));
}

#[test]
fn window_titles_are_the_non_empty_lines() {
    assert_eq!(
        window_titles("a \u{2014} proj\n\nb \u{2014} other\n"),
        vec!["a \u{2014} proj", "b \u{2014} other"]
    );
    assert!(window_titles("").is_empty());
}
