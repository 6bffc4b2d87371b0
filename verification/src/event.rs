//! Key events and their interpretation as navigation commands.

use vstd::prelude::*;

verus! {

/// The named key carried by an input event. Keys the loop does not react
/// to arrive as `Other`.
#[derive(Clone, Copy, Debug, PartialEq, Eq, Structural)]
pub enum KeyCode {
    ArrowRight,
    ArrowDown,
    ArrowLeft,
    ArrowUp,
    Escape,
    KeyQ,
    Other,
}

/// Whether the key was pressed or released; only presses are acted on.
#[derive(Clone, Copy, Debug, PartialEq, Eq, Structural)]
pub enum KeyAction {
    Press,
    Release,
}

/// One occurrence of global keyboard input.
#[derive(Clone, Copy, Debug, PartialEq, Eq, Structural)]
pub struct KeyEvent {
    pub code: KeyCode,
    pub action: KeyAction,
}

/// What the navigation loop should do with one event.
#[derive(Clone, Copy, Debug, PartialEq, Eq, Structural)]
pub enum NavCommand {
    /// Step to the next file and show it.
    Next,
    /// Step to the previous file and show it.
    Previous,
    /// Stop the loop.
    Quit,
    /// Leave the session untouched.
    Ignore,
}

/// The command an event stands for: right/down presses step forward,
/// left/up presses step backward, escape or the q key quits, and
/// everything else (releases included) is ignored.
pub open spec fn classify(e: KeyEvent) -> NavCommand {
    if e.action != KeyAction::Press {
        NavCommand::Ignore
    } else {
        match e.code {
            KeyCode::ArrowRight | KeyCode::ArrowDown => NavCommand::Next,
            KeyCode::ArrowLeft | KeyCode::ArrowUp => NavCommand::Previous,
            KeyCode::Escape | KeyCode::KeyQ => NavCommand::Quit,
            KeyCode::Other => NavCommand::Ignore,
        }
    }
}

/// Executable form of `classify`.
pub fn classify_event(e: KeyEvent) -> (c: NavCommand)
    ensures
        c == classify(e),
{
    match e.action {
        KeyAction::Press => match e.code {
            KeyCode::ArrowRight | KeyCode::ArrowDown => NavCommand::Next,
            KeyCode::ArrowLeft | KeyCode::ArrowUp => NavCommand::Previous,
            KeyCode::Escape | KeyCode::KeyQ => NavCommand::Quit,
            KeyCode::Other => NavCommand::Ignore,
        },
        KeyAction::Release => NavCommand::Ignore,
    }
}

} // verus!
