//! Keyboard input encoding.
pub mod xterm_escape;
