//! The verified core of a small HTTP service that remote-controls VS Code on
//! macOS: it checks requests, decides which AppleScript snippets to run and
//! in which order, reads what they print, and reads VS Code's record of chat
//! sessions. Running the snippets, waiting, and reading files are left to
//! the caller, which hands the results back.
use vstd::prelude::*;

pub mod api;
pub mod conversation;
pub mod flow;
pub mod focus;
pub mod json;
pub mod script;
pub mod sessions;
pub mod text;
pub mod windows;
pub mod workspace;

pub use api::{
    alternate_app_name, candidate_app_names, default_app_name, default_delay_ms, default_true,
    validate_as_string_arg, ApiResponse,
};

verus! {

} // verus!
