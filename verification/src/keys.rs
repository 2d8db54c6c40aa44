//! Keyboard and mouse input as plain values, and key bindings matched against it.

use vstd::prelude::*;
use vstd::string::*;
use crate::text::{all_ascii, is_ascii_char, ascii_lower_char, push_decimal, decimal_digits};

verus! {

/// A key, as reported by the terminal.
#[derive(Debug, Clone, Copy, PartialEq, Eq, Structural)]
pub enum KeyCode {
    Char(char),
    Left,
    Right,
    Up,
    Down,
    Home,
    End,
    PageUp,
    PageDown,
    Backspace,
    Delete,
    Enter,
    Esc,
    Tab,
    F(u8),
    /// Any other key.
    Other,
}

/// Modifier keys held during a key event.
#[derive(Debug, Clone, Copy, PartialEq, Eq, Structural)]
pub struct KeyModifiers {
    pub control: bool,
    pub shift: bool,
    pub alt: bool,
}

/// A key event.
#[derive(Debug, Clone, Copy, PartialEq, Eq, Structural)]
pub struct KeyInput {
    pub code: KeyCode,
    pub modifiers: KeyModifiers,
    /// True for a key press, false for a release or repeat.
    pub is_press: bool,
}

/// An input event.
#[derive(Debug, Clone, Copy, PartialEq, Eq, Structural)]
pub enum InputEvent {
    Key(KeyInput),
    ScrollUp,
    ScrollDown,
    /// Any other mouse event.
    OtherMouse,
    /// Resize, focus, paste and other events.
    Other,
}

/// Whether a character is alphabetic under the Unicode tables.
pub uninterp spec fn unicode_alphabetic(c: char) -> bool;

/// Whether a character is lower-case under the Unicode tables.
pub uninterp spec fn unicode_lowercase_char(c: char) -> bool;

/// The first character of the Unicode lower-case mapping of a character.
pub uninterp spec fn unicode_lower_first(c: char) -> Option<char>;

pub open spec fn is_ascii_letter(c: char) -> bool {
    (65 <= (c as u32) <= 90) || (97 <= (c as u32) <= 122)
}

/// `char::is_alphabetic`; among ASCII characters exactly the letters are alphabetic.
#[verifier::external_body]
fn char_is_alphabetic(c: char) -> (r: bool)
    ensures
        r == unicode_alphabetic(c),
        is_ascii_char(c) ==> r == is_ascii_letter(c),
{
    c.is_alphabetic()
}

/// `char::is_lowercase`; among ASCII characters exactly a-z are lower-case.
#[verifier::external_body]
fn char_is_lowercase(c: char) -> (r: bool)
    ensures
        r == unicode_lowercase_char(c),
        is_ascii_char(c) ==> r == (97 <= (c as u32) <= 122),
{
    c.is_lowercase()
}

/// First character of `char::to_lowercase`; for ASCII it lowers A-Z only.
#[verifier::external_body]
fn char_lower_first(c: char) -> (r: Option<char>)
    ensures
        r == unicode_lower_first(c),
        is_ascii_char(c) ==> r == Some(ascii_lower_char(c)),
{
    c.to_lowercase().next()
}

/// A key binding.
#[derive(Debug, Clone, Copy, PartialEq, Eq, Structural)]
pub enum KeyDef {
    /// A character key.
    Char(char),
    /// A non-character key pressed without Control.
    Code(KeyCode),
    /// A character key pressed with Control.
    Ctrl(char),
    /// A key pressed with Shift.
    Shift(KeyCode),
    ScrollUp,
    ScrollDown,
}

/// Whether a binding matches an input event.
///
/// A `Char` binding matches a press of that character without Control; for a
/// lower-case letter Shift must not be held, for an upper-case letter the
/// character itself or Shift with the same letter in any case matches.
pub open spec fn spec_matches(def: KeyDef, ev: InputEvent) -> bool {
    match ev {
        InputEvent::Key(k) => k.is_press && match def {
            KeyDef::Char(c) => match k.code {
                KeyCode::Char(kc) => !k.modifiers.control && if unicode_alphabetic(c) {
                    if unicode_lowercase_char(c) {
                        kc == c && !k.modifiers.shift
                    } else {
                        kc == c || (k.modifiers.shift && unicode_lower_first(kc)
                            == unicode_lower_first(c))
                    }
                } else {
                    kc == c
                },
                _ => false,
            },
            KeyDef::Code(code) => k.code == code && !k.modifiers.control,
            KeyDef::Ctrl(c) => k.code == KeyCode::Char(c) && k.modifiers.control,
            KeyDef::Shift(code) => k.code == code && k.modifiers.shift,
            KeyDef::ScrollUp | KeyDef::ScrollDown => false,
        },
        InputEvent::ScrollUp => def == KeyDef::ScrollUp,
        InputEvent::ScrollDown => def == KeyDef::ScrollDown,
        _ => false,
    }
}

fn key_code_eq(a: KeyCode, b: KeyCode) -> (r: bool)
    ensures
        r == (a == b),
{
    match (a, b) {
        (KeyCode::Char(x), KeyCode::Char(y)) => x == y,
        (KeyCode::F(x), KeyCode::F(y)) => x == y,
        (KeyCode::Left, KeyCode::Left) => true,
        (KeyCode::Right, KeyCode::Right) => true,
        (KeyCode::Up, KeyCode::Up) => true,
        (KeyCode::Down, KeyCode::Down) => true,
        (KeyCode::Home, KeyCode::Home) => true,
        (KeyCode::End, KeyCode::End) => true,
        (KeyCode::PageUp, KeyCode::PageUp) => true,
        (KeyCode::PageDown, KeyCode::PageDown) => true,
        (KeyCode::Backspace, KeyCode::Backspace) => true,
        (KeyCode::Delete, KeyCode::Delete) => true,
        (KeyCode::Enter, KeyCode::Enter) => true,
        (KeyCode::Esc, KeyCode::Esc) => true,
        (KeyCode::Tab, KeyCode::Tab) => true,
        (KeyCode::Other, KeyCode::Other) => true,
        _ => false,
    }
}

impl KeyDef {
    /// Whether this binding matches the event (see `spec_matches`).
    pub fn matches(self, event: &InputEvent) -> (r: bool)
        ensures
            r == spec_matches(self, *event),
    {
        match event {
            InputEvent::Key(k) => {
                if !k.is_press {
                    return false;
                }
                match self {
                    KeyDef::Char(c) => match k.code {
                        KeyCode::Char(kc) => {
                            if k.modifiers.control {
                                return false;
                            }
                            if char_is_alphabetic(c) {
                                if char_is_lowercase(c) {
                                    kc == c && !k.modifiers.shift
                                } else {
                                    kc == c || (k.modifiers.shift && match (
                                        char_lower_first(kc),
                                        char_lower_first(c),
                                    ) {
                                        (Some(a), Some(b)) => a == b,
                                        (None, None) => true,
                                        _ => false,
                                    })
                                }
                            } else {
                                kc == c
                            }
                        },
                        _ => false,
                    },
                    KeyDef::Code(code) => key_code_eq(k.code, code) && !k.modifiers.control,
                    KeyDef::Ctrl(c) => match k.code {
                        KeyCode::Char(kc) => kc == c && k.modifiers.control,
                        _ => false,
                    },
                    KeyDef::Shift(code) => key_code_eq(k.code, code) && k.modifiers.shift,
                    KeyDef::ScrollUp | KeyDef::ScrollDown => false,
                }
            },
            InputEvent::ScrollUp => match self {
                KeyDef::ScrollUp => true,
                _ => false,
            },
            InputEvent::ScrollDown => match self {
                KeyDef::ScrollDown => true,
                _ => false,
            },
            _ => false,
        }
    }

    /// The label of the binding, as shown in the command palette.
    pub fn label(&self) -> (r: String)
        ensures
            r@ == spec_label(*self),
    {
        let mut out = String::new();
        match self {
            KeyDef::Char(c) => {
                if *c == ' ' {
                    out.append("Space");
                } else {
                    crate::text::push_char(&mut out, *c);
                }
            },
            KeyDef::Code(code) => {
                push_code_label(&mut out, *code);
            },
            KeyDef::Ctrl(c) => {
                out.append("Ctrl+");
                crate::text::push_char(&mut out, *c);
            },
            KeyDef::Shift(code) => {
                match code {
                    KeyCode::Esc => out.append("Shift+Esc"),
                    KeyCode::Backspace => out.append("Shift+Backspace"),
                    KeyCode::Left => out.append("Shift+Left"),
                    KeyCode::Right => out.append("Shift+Right"),
                    KeyCode::Up => out.append("Shift+Up"),
                    KeyCode::Down => out.append("Shift+Down"),
                    _ => out.append("Shift+?"),
                }
            },
            KeyDef::ScrollUp => out.append("Scroll Up"),
            KeyDef::ScrollDown => out.append("Scroll Down"),
        }
        out
    }
}

fn push_code_label(out: &mut String, code: KeyCode)
    ensures
        final(out)@ == old(out)@ + spec_code_label(code),
{
    match code {
        KeyCode::Esc => out.append("Esc"),
        KeyCode::Backspace => out.append("Backspace"),
        KeyCode::Left => out.append("Left"),
        KeyCode::Right => out.append("Right"),
        KeyCode::Up => out.append("Up"),
        KeyCode::Down => out.append("Down"),
        KeyCode::Char(c) => {
            if c == ' ' {
                out.append("Space");
            } else {
                out.append("Other");
            }
        },
        KeyCode::F(n) => {
            out.append("F");
            push_decimal(out, n as u64);
        },
        _ => out.append("Other"),
    }
}

/// The label of a non-character key binding.
pub open spec fn spec_code_label(code: KeyCode) -> Seq<char> {
    match code {
        KeyCode::Esc => "Esc"@,
        KeyCode::Backspace => "Backspace"@,
        KeyCode::Left => "Left"@,
        KeyCode::Right => "Right"@,
        KeyCode::Up => "Up"@,
        KeyCode::Down => "Down"@,
        KeyCode::Char(c) => if c == ' ' {
            "Space"@
        } else {
            "Other"@
        },
        KeyCode::F(n) => "F"@ + decimal_digits(n as nat),
        _ => "Other"@,
    }
}

/// The label of a key binding.
pub open spec fn spec_label(d: KeyDef) -> Seq<char> {
    match d {
        KeyDef::Char(c) => if c == ' ' {
            "Space"@
        } else {
            seq![c]
        },
        KeyDef::Code(code) => spec_code_label(code),
        KeyDef::Ctrl(c) => "Ctrl+"@ + seq![c],
        KeyDef::Shift(code) => match code {
            KeyCode::Esc => "Shift+Esc"@,
            KeyCode::Backspace => "Shift+Backspace"@,
            KeyCode::Left => "Shift+Left"@,
            KeyCode::Right => "Shift+Right"@,
            KeyCode::Up => "Shift+Up"@,
            KeyCode::Down => "Shift+Down"@,
            _ => "Shift+?"@,
        },
        KeyDef::ScrollUp => "Scroll Up"@,
        KeyDef::ScrollDown => "Scroll Down"@,
    }
}

} // verus!
