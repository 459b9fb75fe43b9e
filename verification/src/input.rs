//! Keys, mouse and other events.
use vstd::prelude::*;

verus! {

/// A key without its modifiers.
#[derive(Debug, Clone, Copy, PartialEq, Eq, Structural)]
pub enum KeyCode {
    Backspace,
    Enter,
    Left,
    Right,
    Up,
    Down,
    Home,
    End,
    PageUp,
    PageDown,
    Tab,
    Delete,
    Insert,
    F(u8),
    Char(char),
    /// A key that stands for nothing.
    Null,
    Esc,
}

/// Modifier keys, one bit each.
#[derive(Debug, Clone, Copy, PartialEq, Eq, Structural)]
pub struct KeyModifiers {
    pub shift: bool,
    pub control: bool,
    pub alt: bool,
    pub command: bool,
}

/// No modifier key.
pub open spec fn no_modifiers() -> KeyModifiers {
    KeyModifiers { shift: false, control: false, alt: false, command: false }
}

/// Only the control key.
pub open spec fn control_only() -> KeyModifiers {
    KeyModifiers { control: true, ..no_modifiers() }
}

/// Only the alt key.
pub open spec fn alt_only() -> KeyModifiers {
    KeyModifiers { alt: true, ..no_modifiers() }
}

impl KeyModifiers {
    pub fn empty() -> (r: Self)
        ensures
            r == no_modifiers(),
    {
        KeyModifiers { shift: false, control: false, alt: false, command: false }
    }

    pub fn control() -> (r: Self)
        ensures
            r == control_only(),
    {
        KeyModifiers { shift: false, control: true, alt: false, command: false }
    }

    pub fn alt() -> (r: Self)
        ensures
            r == alt_only(),
    {
        KeyModifiers { shift: false, control: false, alt: true, command: false }
    }
}

/// A key that was pressed.
#[derive(Debug, Clone, Copy, PartialEq, Eq, Structural)]
pub struct KeyEvent {
    pub code: KeyCode,
    pub modifiers: KeyModifiers,
}

#[derive(Debug, Clone, Copy, PartialEq, Eq, Structural)]
pub enum MouseButton {
    Left,
    Right,
    Middle,
}

/// What the mouse did.
#[derive(Debug, Clone, Copy, PartialEq, Eq, Structural)]
pub enum MouseEventKind {
    Down(MouseButton),
    Up(MouseButton),
    Drag(MouseButton),
    Moved,
    ScrollDown,
    ScrollUp,
    ScrollLeft,
    ScrollRight,
}

#[derive(Debug, Clone, Copy, PartialEq, Eq, Structural)]
pub struct MouseEvent {
    pub kind: MouseEventKind,
    pub column: u16,
    pub row: u16,
    pub modifiers: KeyModifiers,
}

/// What reaches the user interface.
#[derive(Debug, Clone)]
pub enum Event {
    FocusGained,
    FocusLost,
    Key(KeyEvent),
    Mouse(MouseEvent),
    Paste(String),
    Resize(u16, u16),
    IdleTimeout,
}

/// Whether an event was used up.
#[derive(Debug, Clone, Copy, PartialEq, Eq, Structural)]
pub enum EventResult {
    Consumed,
    Ignored,
}

/// Takes the shift key off a character, whose case already tells of it.
pub fn canonicalize_key(key: &mut KeyEvent)
    ensures
        *final(key) == if old(key).code is Char {
            KeyEvent {
                code: old(key).code,
                modifiers: KeyModifiers { shift: false, ..old(key).modifiers },
            }
        } else {
            *old(key)
        },
{
    match key.code {
        KeyCode::Char(_) => {
            key.modifiers.shift = false;
        },
        _ => {},
    }
}

/// Of the keys that are held down, none, just control or just alt.
pub proof fn law_held_keys(m: KeyModifiers)
    ensures
        m == no_modifiers() <==> !m.shift && !m.control && !m.alt && !m.command,
        m == control_only() <==> !m.shift && m.control && !m.alt && !m.command,
        m == alt_only() <==> !m.shift && !m.control && m.alt && !m.command,
{
}

} // verus!
