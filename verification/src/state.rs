//! Application-level state shared across capture and profile operations.

use vstd::prelude::*;
use crate::keybindings::{ActionMaps, AllBinds};

verus! {

/// The loaded keybinding profile, the master action list, and the name of
/// the profile file currently in use.
pub struct AppState {
    pub current_bindings: Option<ActionMaps>,
    pub all_binds: Option<AllBinds>,
    pub current_file_name: Option<String>,
}

impl AppState {
    /// A fresh state with nothing loaded.
    pub fn new() -> (r: AppState)
        ensures
            r.current_bindings is None,
            r.all_binds is None,
            r.current_file_name is None,
    {
        AppState { current_bindings: None, all_binds: None, current_file_name: None }
    }
}

} // verus!
