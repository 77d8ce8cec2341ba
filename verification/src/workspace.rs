//! Where VS Code keeps its per-workspace data, and which workspace a window
//! shows.
use vstd::prelude::*;
use crate::json::{get, json_as_str, json_get, json_of, parse_json, str_of, Json};
use crate::text::{
    after_last, contains_str, contains_sub, last_path_segment, same_text, spec_to_lowercase,
    split_on, split_str, to_lowercase, trim_end_char, views,
};

verus! {

broadcast use vstd::string::group_string_axioms;

/// The home directory to use: the one given, else `/Users/unknown`.
pub fn home_or_default(home: Option<String>) -> (r: String)
    ensures
        r@ == match home {
            Some(h) => h@,
            None => "/Users/unknown"@,
        },
{
    match home {
        Some(h) => h,
        None => String::from_str("/Users/unknown"),
    }
}

/// The application is an Insiders build: its lowercased name contains `insiders`.
pub open spec fn is_insiders(app_name: Seq<char>) -> bool {
    contains_sub(spec_to_lowercase(app_name), "insiders"@)
}

/// The user-data directory of the VS Code edition that `app_name` names.
pub open spec fn user_data_path(home: Seq<char>, app_name: Seq<char>) -> Seq<char> {
    home + if is_insiders(app_name) {
        "/Library/Application Support/Code - Insiders/User"@
    } else {
        "/Library/Application Support/Code/User"@
    }
}

/// The user-data directory under `home` for an application whose
/// lowercased name is `lowercase_name`.
pub fn user_data_dir_for(home: &str, lowercase_name: &str) -> (r: String)
    ensures
        r@ == home@ + if contains_sub(lowercase_name@, "insiders"@) {
            "/Library/Application Support/Code - Insiders/User"@
        } else {
            "/Library/Application Support/Code/User"@
        },
{
    let mut r = String::from_str(home);
    if contains_str(lowercase_name, "insiders") {
        r.append("/Library/Application Support/Code - Insiders/User");
    } else {
        r.append("/Library/Application Support/Code/User");
    }
    r
}

/// The user-data directory of the VS Code edition that `app_name` names,
/// under `home`.
pub fn user_data_dir(home: &str, app_name: &str) -> (r: String)
    ensures
        r@ == user_data_path(home@, app_name@),
{
    let lower = to_lowercase(app_name);
    user_data_dir_for(home, lower.as_str())
}

/// The directory that holds one sub-directory per workspace.
pub fn workspace_storage_dir(user_data: &str) -> (r: String)
    ensures
        r@ == user_data@ + "/workspaceStorage"@,
{
    let mut r = String::from_str(user_data);
    r.append("/workspaceStorage");
    r
}

/// The state database of workspace `uuid`.
pub fn state_db_path(ws_storage: &str, uuid: &str) -> (r: String)
    ensures
        r@ == ws_storage@ + "/"@ + uuid@ + "/state.vscdb"@,
{
    let mut r = String::from_str(ws_storage);
    r.append("/");
    r.append(uuid);
    r.append("/state.vscdb");
    r
}

/// The error for a missing workspace storage directory, when listing sessions.
pub fn storage_missing_message(ws_storage: &str) -> (r: String)
    ensures
        r@ == "VS Code workspaceStorage not found: "@ + ws_storage@,
{
    let mut r = String::from_str("VS Code workspaceStorage not found: ");
    r.append(ws_storage);
    r
}

/// One workspace directory: its name, and the contents of its
/// `workspace.json` when that file exists and holds JSON.
pub struct WorkspaceEntry {
    pub dir_name: String,
    pub manifest: Option<Json>,
}

/// The entry for workspace directory `dir_name`, given the text of its
/// `workspace.json` when that file could be read: the manifest is that text
/// parsed, and nothing when the file is missing or does not hold JSON.
pub fn workspace_entry(dir_name: String, manifest_text: Option<&str>) -> (r: WorkspaceEntry)
    ensures
        r.dir_name == dir_name,
        r.manifest == match manifest_text {
            Some(t) => json_of(t@),
            None => None,
        },
{
    let manifest = match manifest_text {
        Some(t) => match parse_json(t) {
            Ok(j) => Some(j),
            Err(_) => None,
        },
        None => None,
    };
    WorkspaceEntry { dir_name, manifest }
}

/// The separator between the parts of a VS Code window title.
pub open spec fn title_separator() -> Seq<char> {
    " \u{2014} "@
}

/// The parts of a window title, each a possible folder name.
pub open spec fn title_parts(window_name: Seq<char>) -> Seq<Seq<char>> {
    split_on(window_name, title_separator())
}

/// The last segment of the `folder` URL that a `workspace.json` records.
pub open spec fn folder_segment(manifest: Json) -> Option<Seq<char>> {
    match get(manifest, "folder"@) {
        Some(f) => match str_of(f) {
            Some(url) => Some(after_last(trim_end_char(url, '/'), '/')),
            None => None,
        },
        None => None,
    }
}

/// The workspace of `entry` is shown by a window whose title has `parts`.
pub open spec fn entry_matches(parts: Seq<Seq<char>>, entry: WorkspaceEntry) -> bool {
    match entry.manifest {
        Some(m) => match folder_segment(m) {
            Some(seg) => seg.len() > 0 && parts.contains(seg),
            None => false,
        },
        None => false,
    }
}

/// Whether `name` is one of `parts`.
fn contains_part(parts: &Vec<String>, name: &str) -> (r: bool)
    ensures
        r == views(parts@).contains(name@),
{
    let mut i: usize = 0;
    while i < parts.len()
        invariant
            i <= parts.len(),
            forall|k: int| 0 <= k < i ==> views(parts@)[k] != name@,
        decreases parts.len() - i,
    {
        if same_text(parts[i].as_str(), name) {
            assert(views(parts@)[i as int] == name@);
            return true;
        }
        i = i + 1;
    }
    false
}

/// Whether the workspace of `entry` is shown by a window whose title has `parts`.
fn workspace_matches(parts: &Vec<String>, entry: &WorkspaceEntry) -> (r: bool)
    ensures
        r == entry_matches(views(parts@), *entry),
{
    match &entry.manifest {
        Some(m) => match json_get(m, "folder") {
            Some(f) => match json_as_str(f) {
                Some(url) => {
                    let seg = last_path_segment(url.as_str());
                    !seg.as_str().is_empty() && contains_part(parts, seg.as_str())
                },
                None => false,
            },
            None => false,
        },
        None => false,
    }
}

/// The workspace directory of the window titled `window_name`: the first
/// entry whose `workspace.json` names a folder whose last segment is one of
/// the ` — `-separated parts of the title. Without one, the error says so.
pub fn find_workspace(window_name: &str, entries: &Vec<WorkspaceEntry>) -> (r: Result<String, String>)
    ensures
        match r {
            Ok(name) => exists|k: int|
                0 <= k < entries@.len() && entry_matches(title_parts(window_name@), #[trigger] entries@[k])
                    && (forall|j: int| 0 <= j < k ==> !entry_matches(title_parts(window_name@), entries@[j]))
                    && name@ == entries@[k].dir_name@,
            Err(msg) => (forall|k: int|
                0 <= k < entries@.len() ==> !entry_matches(title_parts(window_name@), #[trigger] entries@[k]))
                && msg@ == "No workspace storage found for window: "@ + window_name@,
        },
{
    proof {
        reveal_strlit(" \u{2014} ");
    }
    let parts = split_str(window_name, " \u{2014} ");
    let mut i: usize = 0;
    while i < entries.len()
        invariant
            i <= entries.len(),
            views(parts@) == title_parts(window_name@),
            forall|j: int| 0 <= j < i ==> !entry_matches(title_parts(window_name@), #[trigger] entries@[j]),
        decreases entries.len() - i,
    {
        if workspace_matches(&parts, &entries[i]) {
            return Ok(entries[i].dir_name.clone());
        }
        i = i + 1;
    }
    let mut msg = String::from_str("No workspace storage found for window: ");
    msg.append(window_name);
    Err(msg)
}

/// A window shows a workspace only by the exact name of its folder: an
/// entry matches a title exactly when the last segment of the `folder` URL
/// its manifest records is not empty and equals one of the ` — `-separated
/// parts of the title. A folder name that is only contained in a part, or
/// only contains one, does not match; nor does an entry without a readable
/// manifest or without a `folder` string.
pub proof fn lemma_match_is_by_exact_folder_name(window: Seq<char>, e: WorkspaceEntry)
    ensures
        entry_matches(title_parts(window), e) <==> match e.manifest {
            Some(m) => match get(m, "folder"@) {
                Some(f) => match str_of(f) {
                    Some(url) => after_last(trim_end_char(url, '/'), '/').len() > 0 && exists|k: int|
                        0 <= k < split_on(window, " \u{2014} "@).len() && #[trigger] split_on(
                            window,
                            " \u{2014} "@,
                        )[k] == after_last(trim_end_char(url, '/'), '/'),
                    None => false,
                },
                None => false,
            },
            None => false,
        },
{
    let parts = split_on(window, " \u{2014} "@);
    if entry_matches(title_parts(window), e) {
        let seg = folder_segment(e.manifest->Some_0)->Some_0;
        assert(parts.contains(seg));
        let k = choose|k: int| 0 <= k < parts.len() && parts[k] == seg;
        assert(split_on(window, " \u{2014} "@)[k] == seg);
    }
}

} // verus!
