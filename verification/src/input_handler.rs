//! Forwarding of keyboard events to tmux sessions.
use vstd::prelude::*;
use crate::text::{str_equal, string_of};

verus! {

/// Forwards keys to the active pane of a tmux session.
pub struct InputHandler {
    /// tmux session name, e.g. `"sdlc-myproject"`.
    session_name: String,
}

impl View for InputHandler {
    type V = Seq<char>;

    closed spec fn view(&self) -> Seq<char> {
        self.session_name@
    }
}

impl InputHandler {
    /// Handler for the given session.
    pub fn new(session_name: String) -> (r: Self)
        ensures
            r@ == session_name@,
    {
        InputHandler { session_name }
    }

    /// The session name.
    pub fn session_name(&self) -> (r: &str)
        ensures
            r@ == self@,
    {
        self.session_name.as_str()
    }
}

/// tmux key name for a key name, if it has a special one.
pub open spec fn tmux_key_name(key: Seq<char>) -> Option<Seq<char>> {
    if key == "enter"@ || key == "return"@ { Some("Enter"@) }
    else if key == "backspace"@ { Some("BSpace"@) }
    else if key == "escape"@ { Some("Escape"@) }
    else if key == "tab"@ { Some("Tab"@) }
    else if key == "up"@ { Some("Up"@) }
    else if key == "down"@ { Some("Down"@) }
    else if key == "left"@ { Some("Left"@) }
    else if key == "right"@ { Some("Right"@) }
    else if key == "home"@ { Some("Home"@) }
    else if key == "end"@ { Some("End"@) }
    else if key == "pageup"@ { Some("PPage"@) }
    else if key == "pagedown"@ { Some("NPage"@) }
    else { None }
}

/// Converts a key name to a `tmux send-keys` argument; `None` when Cmd is held (the key
/// is an application shortcut). Keys without a special tmux name pass through.
pub fn key_to_tmux(key: &str, modifiers_cmd: bool) -> (r: Option<String>)
    ensures
        modifiers_cmd ==> r is None,
        !modifiers_cmd ==> (r matches Some(s) && s@ == (match tmux_key_name(key@) { Some(n) => n, None => key@ })),
{
    if modifiers_cmd {
        return None;
    }
    let name: &str = if str_equal(key, "enter") || str_equal(key, "return") { "Enter" }
        else if str_equal(key, "backspace") { "BSpace" }
        else if str_equal(key, "escape") { "Escape" }
        else if str_equal(key, "tab") { "Tab" }
        else if str_equal(key, "up") { "Up" }
        else if str_equal(key, "down") { "Down" }
        else if str_equal(key, "left") { "Left" }
        else if str_equal(key, "right") { "Right" }
        else if str_equal(key, "home") { "Home" }
        else if str_equal(key, "end") { "End" }
        else if str_equal(key, "pageup") { "PPage" }
        else if str_equal(key, "pagedown") { "NPage" }
        else { key };
    Some(string_of(name))
}

} // verus!
