//! Keyboard input and screen states of the interactive front end.
use vstd::prelude::*;

verus! {

/// No modifier key held.
pub const NO_MODIFIERS: u8 = 0;

/// Bit of the Control key in a modifier set (Shift is 1, Alt is 4).
pub const CONTROL: u8 = 2;

/// A key of the keyboard, as far as the front end tells keys apart.
#[derive(Debug, Clone, Copy, PartialEq, Eq, Structural)]
pub enum KeyCode {
    Char(char),
    Esc,
    Enter,
    Left,
    Right,
    Up,
    Down,
    Other,
}

/// A key press: the key and the bit set of the modifiers held.
#[derive(Debug, Clone, Copy, PartialEq, Eq, Structural)]
pub struct KeyPress {
    pub code: KeyCode,
    pub modifiers: u8,
}

/// What a key press asks for.
#[derive(Debug, Clone, Copy, PartialEq, Eq, Structural)]
pub enum KeyAction {
    Quit,
    Keep,
    Trash,
    ConfirmTrash,
    CancelTrash,
    Next,
    Previous,
    Undo,
    Help,
    NoAction,
}

/// Screen shown by the front end.
#[derive(Debug, Clone, Copy, PartialEq, Eq, Structural)]
pub enum ViewState {
    Browsing,
    Help,
    Summary,
    ConfirmTrash,
    Welcome,
}

/// The key bindings while browsing.
pub open spec fn browse_action(k: KeyPress) -> KeyAction {
    let plain = k.modifiers == NO_MODIFIERS;
    let ctrl = k.modifiers == CONTROL;
    match k.code {
        KeyCode::Char('q') if plain => KeyAction::Quit,
        KeyCode::Char('c') if ctrl => KeyAction::Quit,
        KeyCode::Esc if plain => KeyAction::Quit,
        KeyCode::Right if plain => KeyAction::Keep,
        KeyCode::Char('k') if plain => KeyAction::Keep,
        KeyCode::Left if plain => KeyAction::Trash,
        KeyCode::Char('t') if plain => KeyAction::Trash,
        KeyCode::Down if plain => KeyAction::Next,
        KeyCode::Up if plain => KeyAction::Previous,
        KeyCode::Char('j') if plain => KeyAction::Next,
        KeyCode::Char('i') if plain => KeyAction::Previous,
        KeyCode::Char('u') if plain => KeyAction::Undo,
        KeyCode::Char('z') if ctrl => KeyAction::Undo,
        KeyCode::Char('?') if plain => KeyAction::Help,
        _ => KeyAction::NoAction,
    }
}

/// The key bindings of the trash confirmation dialog.
pub open spec fn confirm_action(k: KeyPress) -> KeyAction {
    let plain = k.modifiers == NO_MODIFIERS;
    match k.code {
        KeyCode::Char('y') if plain => KeyAction::ConfirmTrash,
        KeyCode::Char('Y') if plain => KeyAction::ConfirmTrash,
        KeyCode::Enter if plain => KeyAction::ConfirmTrash,
        KeyCode::Char('n') if plain => KeyAction::CancelTrash,
        KeyCode::Char('N') if plain => KeyAction::CancelTrash,
        KeyCode::Esc if plain => KeyAction::CancelTrash,
        _ => KeyAction::NoAction,
    }
}

/// Maps a key press while browsing to an action.
pub fn handle_key_event(key: KeyPress) -> (r: KeyAction)
    ensures
        r == browse_action(key),
{
    let plain = key.modifiers == NO_MODIFIERS;
    let ctrl = key.modifiers == CONTROL;
    match key.code {
        KeyCode::Char('q') if plain => KeyAction::Quit,
        KeyCode::Char('c') if ctrl => KeyAction::Quit,
        KeyCode::Esc if plain => KeyAction::Quit,
        KeyCode::Right if plain => KeyAction::Keep,
        KeyCode::Char('k') if plain => KeyAction::Keep,
        KeyCode::Left if plain => KeyAction::Trash,
        KeyCode::Char('t') if plain => KeyAction::Trash,
        KeyCode::Down if plain => KeyAction::Next,
        KeyCode::Up if plain => KeyAction::Previous,
        KeyCode::Char('j') if plain => KeyAction::Next,
        KeyCode::Char('i') if plain => KeyAction::Previous,
        KeyCode::Char('u') if plain => KeyAction::Undo,
        KeyCode::Char('z') if ctrl => KeyAction::Undo,
        KeyCode::Char('?') if plain => KeyAction::Help,
        _ => KeyAction::NoAction,
    }
}

/// Maps a key press in the trash confirmation dialog to an action.
pub fn handle_confirm_input(key: KeyPress) -> (r: KeyAction)
    ensures
        r == confirm_action(key),
{
    let plain = key.modifiers == NO_MODIFIERS;
    match key.code {
        KeyCode::Char('y') if plain => KeyAction::ConfirmTrash,
        KeyCode::Char('Y') if plain => KeyAction::ConfirmTrash,
        KeyCode::Enter if plain => KeyAction::ConfirmTrash,
        KeyCode::Char('n') if plain => KeyAction::CancelTrash,
        KeyCode::Char('N') if plain => KeyAction::CancelTrash,
        KeyCode::Esc if plain => KeyAction::CancelTrash,
        _ => KeyAction::NoAction,
    }
}

} // verus!
