//! Events produced by the terminal decoder and the actions the shell
//! derives from them.

use vstd::prelude::*;

verus! {

/// One logical keystroke, decoded from the raw terminal byte stream.
/// `Unrecognized` marks an unrecognized or malformed escape or byte
/// sequence; it is a no-op for the shell, never an error.
#[derive(Clone, Copy, PartialEq, Eq, Structural, Debug)]
pub enum Event {
    Left,
    Right,
    Up,
    Down,
    Backspace,
    Return,
    Tab,
    Home,
    End,
    PageUp,
    PageDown,
    Insert,
    Delete,
    Null,
    Function(u8),
    Char(char),
    Ctrl(char),
    Alt(char),
    Unrecognized,
}

/// What the caller of the shell must do after handing it an event.
#[derive(Clone, Copy, PartialEq, Eq, Structural, Debug)]
pub enum Action {
    /// Nothing to do beyond redrawing the line.
    Continue,
    /// Submit the current line for processing.
    Process,
    /// Terminate the shell.
    Exit,
    /// Redraw from a blank screen.
    ClearScreen,
}

} // verus!
