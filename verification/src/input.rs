//! Logical keys, independent of any physical keyboard layout or transport.
//!
//! Board support code maps its raw input (I2C matrix bytes, terminal
//! events, GPIO edges, ...) onto [`KeyCode`], so the UI never has to know
//! about hardware specifics.

use vstd::prelude::*;

verus! {

/// A logical key.
#[derive(Debug, Clone, Copy, PartialEq, Eq, Hash, Structural)]
pub enum KeyCode {
    /// A printable ASCII character.
    Char(char),
    /// Return / Enter.
    Enter,
    /// Horizontal tab.
    Tab,
    /// Backspace.
    Backspace,
    /// Delete / forward-erase.
    Delete,
    /// Escape.
    Esc,
    /// D-Pad / arrow keys.
    Up,
    Down,
    Left,
    Right,
    /// Navigational keys.
    Home,
    End,
    PageUp,
    PageDown,
    /// Function keys.
    F(u8),
    /// Modifier keys (reported as press/release where the hardware supports it).
    Shift,
    Alt,
    Ctrl,
    Fn,
    /// Symbol/alt-graph key found on several handheld keyboards.
    Symbol,
    /// Space bar.
    Space,
    /// Application menu key.
    Menu,
    /// Any key we did not recognise.
    Unknown(u8),
}

/// Whether `c` is an ASCII character.
pub open spec fn is_ascii_char(c: char) -> bool {
    (c as u32) <= 0x7f
}

/// The ASCII byte a key represents, if any.
pub open spec fn key_byte(k: KeyCode) -> Option<u8> {
    match k {
        KeyCode::Char(c) => if is_ascii_char(c) {
            Some(c as u8)
        } else {
            None
        },
        KeyCode::Space => Some(32u8),
        KeyCode::Enter => Some(10u8),
        KeyCode::Backspace => Some(8u8),
        KeyCode::Esc => Some(27u8),
        KeyCode::Tab => Some(9u8),
        _ => None,
    }
}

/// The logical key a character denotes.
pub open spec fn key_of_char(c: char) -> KeyCode {
    if c == '\n' || c == '\r' {
        KeyCode::Enter
    } else if c == '\t' {
        KeyCode::Tab
    } else if c == '\u{8}' || c == '\u{7f}' {
        KeyCode::Backspace
    } else if c == ' ' {
        KeyCode::Space
    } else if c == '\u{1b}' {
        KeyCode::Esc
    } else if is_ascii_char(c) {
        KeyCode::Char(c)
    } else {
        KeyCode::Unknown(0)
    }
}

impl KeyCode {
    /// Returns true if this key produces text when pressed.
    pub fn is_text(&self) -> (r: bool)
        ensures
            r == (*self is Char || *self is Space),
    {
        match self {
            KeyCode::Char(_) | KeyCode::Space => true,
            _ => false,
        }
    }

    /// Returns the ASCII byte this key represents, if any.
    pub fn as_byte(&self) -> (r: Option<u8>)
        ensures
            r == key_byte(*self),
    {
        match self {
            KeyCode::Char(c) => {
                let b = *c as u32;
                if b <= 0x7f {
                    Some(b as u8)
                } else {
                    None
                }
            },
            KeyCode::Space => Some(32u8),
            KeyCode::Enter => Some(10u8),
            KeyCode::Backspace => Some(8u8),
            KeyCode::Esc => Some(27u8),
            KeyCode::Tab => Some(9u8),
            _ => None,
        }
    }

    /// The logical key a character denotes: line breaks are Enter, DEL and
    /// BS are Backspace, other ASCII characters are themselves.
    pub fn from_char(c: char) -> (r: KeyCode)
        ensures
            r == key_of_char(c),
    {
        if c == '\n' || c == '\r' {
            KeyCode::Enter
        } else if c == '\t' {
            KeyCode::Tab
        } else if c == '\u{8}' || c == '\u{7f}' {
            KeyCode::Backspace
        } else if c == ' ' {
            KeyCode::Space
        } else if c == '\u{1b}' {
            KeyCode::Esc
        } else if (c as u32) <= 0x7f {
            KeyCode::Char(c)
        } else {
            KeyCode::Unknown(0)
        }
    }
}

impl From<char> for KeyCode {
    fn from(c: char) -> (r: KeyCode) {
        KeyCode::from_char(c)
    }
}

impl vstd::std_specs::convert::FromSpecImpl<char> for KeyCode {
    open spec fn obeys_from_spec() -> bool {
        true
    }

    open spec fn from_spec(c: char) -> KeyCode {
        key_of_char(c)
    }
}

/// Press or release state of a key.
#[derive(Debug, Clone, Copy, PartialEq, Eq, Structural)]
pub enum KeyState {
    Pressed,
    Released,
}

/// A single key event.
#[derive(Debug, Clone, Copy, PartialEq, Eq, Structural)]
pub struct KeyEvent {
    pub code: KeyCode,
    pub state: KeyState,
}

impl KeyEvent {
    pub fn pressed(code: KeyCode) -> (r: Self)
        ensures
            r == (KeyEvent { code, state: KeyState::Pressed }),
    {
        KeyEvent { code, state: KeyState::Pressed }
    }

    pub fn released(code: KeyCode) -> (r: Self)
        ensures
            r == (KeyEvent { code, state: KeyState::Released }),
    {
        KeyEvent { code, state: KeyState::Released }
    }
}

/// A source of [`KeyEvent`]s.
///
/// A polling interface, so it works both in a desktop simulator (a thread
/// drains the terminal into a queue) and on microcontrollers (an I2C poll
/// loop). `read` is non-blocking and returns how many events were written.
pub trait Keyboard {
    /// Number of events currently queued without blocking.
    fn pending(&mut self) -> usize;

    /// Drain up to `events.len()` queued key events into `events`.
    ///
    /// Returns the number of events written. Never blocks.
    fn read(&mut self, events: &mut [KeyEvent]) -> usize;
}

} // verus!
