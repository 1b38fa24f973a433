//! Keyboard shortcuts of the form.
use vstd::prelude::*;

verus! {

/// The keys that take part in a shortcut.
#[derive(Clone, Copy, Debug, PartialEq, Eq, Structural)]
pub enum Key {
    Enter,
    R,
    L,
    C,
    O,
    F1,
    Other,
}

/// What a shortcut does.
#[derive(Clone, Copy, Debug, PartialEq, Eq, Structural)]
pub enum Action {
    /// Submit the form.
    Send,
    /// Submit the form, recording audio.
    SendWithAudio,
    /// Clear the form.
    Clear,
    /// Copy the response to the clipboard.
    CopyResponse,
    /// Open the conversation in the browser.
    ShowConversation,
    /// Show the tool's help text.
    ShowHelp,
}

/// Ctrl+Enter sends, Ctrl+R sends with audio, Ctrl+L clears,
/// Ctrl+Shift+C copies the response, Ctrl+O shows the conversation, and F1
/// shows help whatever the modifiers.
pub open spec fn action_of(key: Key, ctrl: bool, shift: bool) -> Option<Action> {
    match key {
        Key::Enter => if ctrl {
            Some(Action::Send)
        } else {
            None
        },
        Key::R => if ctrl {
            Some(Action::SendWithAudio)
        } else {
            None
        },
        Key::L => if ctrl {
            Some(Action::Clear)
        } else {
            None
        },
        Key::C => if ctrl && shift {
            Some(Action::CopyResponse)
        } else {
            None
        },
        Key::O => if ctrl {
            Some(Action::ShowConversation)
        } else {
            None
        },
        Key::F1 => Some(Action::ShowHelp),
        Key::Other => None,
    }
}

/// The action of a key pressed with the given modifiers, if it is a
/// shortcut.
pub fn shortcut_action(key: Key, ctrl: bool, shift: bool) -> (r: Option<Action>)
    ensures
        r == action_of(key, ctrl, shift),
{
    match key {
        Key::Enter if ctrl => Some(Action::Send),
        Key::R if ctrl => Some(Action::SendWithAudio),
        Key::L if ctrl => Some(Action::Clear),
        Key::C if ctrl && shift => Some(Action::CopyResponse),
        Key::O if ctrl => Some(Action::ShowConversation),
        Key::F1 => Some(Action::ShowHelp),
        _ => None,
    }
}

} // verus!
