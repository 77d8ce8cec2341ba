# vscode-remote-control

A small HTTP service that remote-controls VS Code on macOS: it focuses or
closes a window by part of its title, opens Copilot Chat and pastes text into
it, lists windows, and reads the chat sessions VS Code keeps on disk.

## Layout

- `src/` — the verified library (Verus). It checks requests, builds the
  AppleScript snippets and decides in which order to run them, reads what
  they print, finds a window's workspace, and turns VS Code's session index
  and session files into listings and conversations. Each request handler is
  a small state machine (`FocusFlow`, `CloseFlow`, `WindowsFlow`) that is
  fed the result of each step and answers with the next action.
- `app/` — the program around it: the axum routes, running `osascript`,
  sleeping, and reading files and the SQLite state database. The text read
  is handed to the library, which parses it.
- `tests/` — tests of the library on concrete values.

Modules of the library:

| module         | contents                                                   |
|----------------|------------------------------------------------------------|
| `api`          | defaults, `ApiResponse`, argument validation, app names     |
| `text`         | trimming, lines, substring search, splitting, joining       |
| `json`         | the JSON model the library reads, and parsing into it       |
| `script`       | the AppleScript snippets and the reading of their output    |
| `flow`         | steps, events, the running-process check, window resolution |
| `focus`        | the focus and close-window flows                            |
| `windows`      | the window listing flow (titles, in listing order)          |
| `workspace`    | storage paths and the workspace of a window                 |
| `sessions`     | the session listing, newest first                           |
| `conversation` | session files, snapshots and the conversation they record   |
