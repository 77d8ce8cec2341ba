//! Request defaults, the reply type, argument validation and the choice of
//! application names to look for.
use vstd::prelude::*;
use crate::text::{chars_of, same_text};

verus! {

broadcast use vstd::string::group_string_axioms;

/// A reply: whether the request succeeded, and a message.
pub struct ApiResponse {
    pub success: bool,
    pub message: String,
}

/// What a reply says.
pub struct ApiResponseView {
    pub success: bool,
    pub message: Seq<char>,
}

impl View for ApiResponse {
    type V = ApiResponseView;

    open spec fn view(&self) -> ApiResponseView {
        ApiResponseView { success: self.success, message: self.message@ }
    }
}

/// The application whose windows are meant when a request names none.
pub fn default_app_name() -> (name: String)
    ensures
        name@ == "Code - Insiders"@,
{
    String::from_str("Code - Insiders")
}

/// Whether Copilot Chat is opened when a request does not say.
pub fn default_true() -> (b: bool)
    ensures
        b,
{
    true
}

/// Default delay, in milliseconds, between two automation steps.
pub fn default_delay_ms() -> (ms: u64)
    ensures
        ms == 400,
{
    400
}

/// `c` could end an AppleScript string literal or start an escape in it.
pub open spec fn is_disallowed(c: char) -> bool {
    c == '"' || c == '\\'
}

/// `s` holds a character that could break out of an AppleScript string literal.
pub open spec fn has_disallowed(s: Seq<char>) -> bool {
    exists|i: int| 0 <= i < s.len() && is_disallowed(s[i])
}

/// `s` may be embedded in an AppleScript string literal: it is not empty and
/// holds neither `"` nor `\`.
pub open spec fn is_valid_arg(s: Seq<char>) -> bool {
    s.len() > 0 && !has_disallowed(s)
}

/// The message that rejects argument `label` for a disallowed character.
pub open spec fn disallowed_message(label: Seq<char>) -> Seq<char> {
    "'"@ + label + "' contains a disallowed character (\" or \\)"@
}

/// The message that rejects argument `label` for being empty.
pub open spec fn empty_message(label: Seq<char>) -> Seq<char> {
    "'"@ + label + "' must not be empty"@
}

/// Checks a value that will be embedded in an AppleScript double-quoted string
/// literal. A value that holds `"` or `\` is rejected first; then an empty one.
pub fn validate_as_string_arg(label: &str, value: &str) -> (r: Result<(), ApiResponse>)
    ensures
        r is Ok <==> is_valid_arg(value@),
        r matches Err(e) ==> !e.success && e.message@ == if has_disallowed(value@) {
            disallowed_message(label@)
        } else {
            empty_message(label@)
        },
{
    let v = chars_of(value);
    let mut i: usize = 0;
    while i < v.len()
        invariant
            i <= v.len(),
            v@ == value@,
            forall|k: int| 0 <= k < i ==> !is_disallowed(v@[k]),
        decreases v.len() - i,
    {
        let ch = v[i];
        if ch == '"' || ch == '\\' {
            let mut message = String::from_str("'");
            message.append(label);
            message.append("' contains a disallowed character (\" or \\)");
            return Err(ApiResponse { success: false, message });
        }
        i = i + 1;
    }
    if v.len() == 0 {
        let mut message = String::from_str("'");
        message.append(label);
        message.append("' must not be empty");
        return Err(ApiResponse { success: false, message });
    }
    Ok(())
}

/// The other edition of VS Code: `Code` for `Code - Insiders` and back.
pub open spec fn alternate(name: Seq<char>) -> Option<Seq<char>> {
    if name == "Code - Insiders"@ {
        Some("Code"@)
    } else if name == "Code"@ {
        Some("Code - Insiders"@)
    } else {
        None
    }
}

/// The process name of the other VS Code edition, if `app_name` is one of them.
pub fn alternate_app_name(app_name: &str) -> (r: Option<&'static str>)
    ensures
        match r {
            Some(a) => alternate(app_name@) == Some(a@),
            None => alternate(app_name@) is None,
        },
{
    if same_text(app_name, "Code - Insiders") {
        Some("Code")
    } else if same_text(app_name, "Code") {
        Some("Code - Insiders")
    } else {
        None
    }
}

/// The names to look for: the requested one, then its alternate edition.
pub open spec fn candidates(name: Seq<char>) -> Seq<Seq<char>> {
    match alternate(name) {
        Some(a) => seq![name, a],
        None => seq![name],
    }
}

/// The process names to look for, the requested one first.
pub fn candidate_app_names(app_name: &str) -> (names: Vec<&str>)
    ensures
        names@.map_values(|s: &str| s@) == candidates(app_name@),
{
    let mut names = vec![app_name];
    if let Some(alternate) = alternate_app_name(app_name) {
        names.push(alternate);
    }
    assert(names@.map_values(|s: &str| s@) == candidates(app_name@));
    names
}

/// The two editions are each other's alternate.
pub proof fn lemma_alternate_involution(name: Seq<char>)
    ensures
        alternate(name) matches Some(a) ==> alternate(a) == Some(name),
{
    reveal_strlit("Code - Insiders");
    reveal_strlit("Code");
    assert("Code - Insiders"@.len() == 15);
    assert("Code"@.len() == 4);
}

/// The candidates start with the requested name, name each process once and
/// are at most the two editions.
pub proof fn lemma_candidates_shape(name: Seq<char>)
    ensures
        candidates(name).len() >= 1,
        candidates(name)[0] == name,
        candidates(name).len() <= 2,
        candidates(name).no_duplicates(),
{
    reveal_strlit("Code - Insiders");
    reveal_strlit("Code");
    assert("Code - Insiders"@.len() == 15);
    assert("Code"@.len() == 4);
}

/// Names that may all be embedded in AppleScript string literals.
pub open spec fn valid_names(names: Seq<Seq<char>>) -> bool {
    forall|i: int| 0 <= i < names.len() ==> is_valid_arg(#[trigger] names[i])
}

/// The candidates for a valid name are valid names: the two edition names
/// hold no quote and no backslash.
pub proof fn lemma_candidates_valid(name: Seq<char>)
    requires
        is_valid_arg(name),
    ensures
        valid_names(candidates(name)),
{
    reveal_strlit("Code - Insiders");
    reveal_strlit("Code");
    let code = "Code"@;
    let insiders = "Code - Insiders"@;
    assert(code =~= seq!['C', 'o', 'd', 'e']);
    assert(insiders =~= seq!['C', 'o', 'd', 'e', ' ', '-', ' ', 'I', 'n', 's', 'i', 'd', 'e', 'r', 's']);
    assert(!has_disallowed(code));
    assert(!has_disallowed(insiders));
}

} // verus!
