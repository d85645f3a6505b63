//! Hardware keyboard presses (`UIPress` with a `UIKey`) turned into keystrokes.
//!
//! UIKit hands a physical key to the responder chain as `pressesBegan:` / `pressesEnded:`
//! before the text system sees it. Everything that is not plain text (modifier chords, arrows,
//! escape, function keys, enter, tab, backspace) is turned into a keystroke here, exactly the
//! way the Mac shapes an `NSEvent`, so keymaps written for the Mac work unchanged on an iPad
//! with a keyboard. Plain characters are left to the text system (`insertText:` on the first
//! responder) while a text input is active, so IME and marked text keep working; when nothing
//! is editing they become keystrokes too.

use crate::text::{is_control, is_control_code, lowercase_all, single, text_of, to_lowercase};
use vstd::prelude::*;
use vstd::string::*;

verus! {

/// `UIKeyModifierFlags`.
pub const ALPHA_SHIFT: u32 = 0x1_0000;

pub const SHIFT: u32 = 0x2_0000;

pub const CONTROL: u32 = 0x4_0000;

pub const ALTERNATE: u32 = 0x8_0000;

pub const COMMAND: u32 = 0x10_0000;

/// What UIKit tells us about one key press (`UIKey`).
#[derive(Debug, Clone, PartialEq, Eq)]
pub struct UiKey {
    /// `UIKey.keyCode`, a USB HID usage from the keyboard page.
    pub hid: u32,
    /// `UIKey.characters`: what the key types with every modifier applied.
    pub characters: String,
    /// `UIKey.charactersIgnoringModifiers`: the same ignoring everything but Shift.
    pub characters_ignoring_modifiers: String,
    /// `UIKey.modifierFlags`.
    pub flags: u32,
}

/// The modifier keys that are down.
#[derive(Debug, Clone, Copy, PartialEq, Eq, Structural)]
pub struct Modifiers {
    pub control: bool,
    pub alt: bool,
    pub shift: bool,
    /// Command on a Mac keyboard.
    pub platform: bool,
    pub function: bool,
}

/// The state of the caps lock key.
#[derive(Debug, Clone, Copy, PartialEq, Eq, Structural)]
pub struct Capslock {
    pub on: bool,
}

/// A key press as keymaps name it.
#[derive(Debug, Clone, PartialEq, Eq)]
pub struct Keystroke {
    pub modifiers: Modifiers,
    /// The key's name, unshifted.
    pub key: String,
    /// What the press would type.
    pub key_char: Option<String>,
}

/// What a [`UiKey`] holds.
pub struct UiKeyView {
    pub hid: u32,
    pub characters: Seq<char>,
    pub characters_ignoring_modifiers: Seq<char>,
    pub flags: u32,
}

impl View for UiKey {
    type V = UiKeyView;

    open spec fn view(&self) -> UiKeyView {
        UiKeyView {
            hid: self.hid,
            characters: self.characters@,
            characters_ignoring_modifiers: self.characters_ignoring_modifiers@,
            flags: self.flags,
        }
    }
}

/// What a [`Keystroke`] holds.
pub struct KeystrokeView {
    pub modifiers: Modifiers,
    pub key: Seq<char>,
    pub key_char: Option<Seq<char>>,
}

impl View for Keystroke {
    type V = KeystrokeView;

    open spec fn view(&self) -> KeystrokeView {
        KeystrokeView {
            modifiers: self.modifiers,
            key: self.key@,
            key_char: text_of(self.key_char),
        }
    }
}

/// The keyboard-page usages of the eight modifier keys (left/right ctrl, shift, alt, cmd).
pub open spec fn modifier_usage(hid: u32) -> bool {
    0xE0 <= hid <= 0xE7
}

pub fn is_modifier_key(hid: u32) -> (modifier: bool)
    ensures
        modifier == modifier_usage(hid),
{
    0xE0 <= hid && hid <= 0xE7
}

/// The modifiers a flag word sets.
pub open spec fn flagged_modifiers(flags: u32) -> Modifiers {
    Modifiers {
        control: flags & CONTROL != 0,
        alt: flags & ALTERNATE != 0,
        shift: flags & SHIFT != 0,
        platform: flags & COMMAND != 0,
        function: false,
    }
}

/// The modifier state a flag word describes.
pub fn modifiers(flags: u32) -> (state: (Modifiers, Capslock))
    ensures
        state.0 == flagged_modifiers(flags),
        state.1.on == (flags & ALPHA_SHIFT != 0),
{
    (
        Modifiers {
            control: flags & CONTROL != 0,
            alt: flags & ALTERNATE != 0,
            shift: flags & SHIFT != 0,
            platform: flags & COMMAND != 0,
            function: false,
        },
        Capslock { on: flags & ALPHA_SHIFT != 0 },
    )
}

/// The name of a key that is named rather than spelled.
pub open spec fn key_name(hid: u32) -> Option<Seq<char>> {
    match hid {
        0x28 => Some("enter"@),
        0x58 => Some("enter"@),
        0x29 => Some("escape"@),
        0x2A => Some("backspace"@),
        0x2B => Some("tab"@),
        0x2C => Some("space"@),
        0x39 => Some("capslock"@),
        0x3A => Some("f1"@),
        0x3B => Some("f2"@),
        0x3C => Some("f3"@),
        0x3D => Some("f4"@),
        0x3E => Some("f5"@),
        0x3F => Some("f6"@),
        0x40 => Some("f7"@),
        0x41 => Some("f8"@),
        0x42 => Some("f9"@),
        0x43 => Some("f10"@),
        0x44 => Some("f11"@),
        0x45 => Some("f12"@),
        0x49 => Some("insert"@),
        0x4A => Some("home"@),
        0x4B => Some("pageup"@),
        0x4C => Some("delete"@),
        0x4D => Some("end"@),
        0x4E => Some("pagedown"@),
        0x4F => Some("right"@),
        0x50 => Some("left"@),
        0x51 => Some("down"@),
        0x52 => Some("up"@),
        _ => None,
    }
}

/// A key that is named rather than spelled, by HID usage.
pub fn named_key(hid: u32) -> (name: Option<&'static str>)
    ensures
        match name {
            Some(name) => key_name(hid) == Some(name@),
            None => key_name(hid) is None,
        },
{
    match hid {
        0x28 => Some("enter"),
        0x58 => Some("enter"),
        0x29 => Some("escape"),
        0x2A => Some("backspace"),
        0x2B => Some("tab"),
        0x2C => Some("space"),
        0x39 => Some("capslock"),
        0x3A => Some("f1"),
        0x3B => Some("f2"),
        0x3C => Some("f3"),
        0x3D => Some("f4"),
        0x3E => Some("f5"),
        0x3F => Some("f6"),
        0x40 => Some("f7"),
        0x41 => Some("f8"),
        0x42 => Some("f9"),
        0x43 => Some("f10"),
        0x44 => Some("f11"),
        0x45 => Some("f12"),
        0x49 => Some("insert"),
        0x4A => Some("home"),
        0x4B => Some("pageup"),
        0x4C => Some("delete"),
        0x4D => Some("end"),
        0x4E => Some("pagedown"),
        0x4F => Some("right"),
        0x50 => Some("left"),
        0x51 => Some("down"),
        0x52 => Some("up"),
        _ => None,
    }
}

/// The ASCII character that names a key whatever the layout types for it: the letters in
/// order, the digits from `1` to `9` and then `0`, and the punctuation keys.
pub open spec fn ascii_name(hid: u32) -> Option<char> {
    if 0x04 <= hid <= 0x1D {
        Some(('a' as u32 + (hid - 0x04)) as char)
    } else if 0x1E <= hid <= 0x26 {
        Some(('1' as u32 + (hid - 0x1E)) as char)
    } else {
        match hid {
            0x27 => Some('0'),
            0x2D => Some('-'),
            0x2E => Some('='),
            0x2F => Some('['),
            0x30 => Some(']'),
            0x31 => Some('\\'),
            0x33 => Some(';'),
            0x34 => Some('\''),
            0x35 => Some('`'),
            0x36 => Some(','),
            0x37 => Some('.'),
            0x38 => Some('/'),
            _ => None,
        }
    }
}

/// A key on the keyboard page that has an ASCII name even when the layout spells it
/// differently (Thai, Armenian…).
pub fn ascii_fallback(hid: u32) -> (name: Option<String>)
    ensures
        match ascii_name(hid) {
            Some(c) => text_of(name) == Some(seq![c]),
            None => name is None,
        },
{
    let c: char = if 0x04 <= hid && hid <= 0x1D {
        (0x61u8 + (hid - 0x04) as u8) as char
    } else if 0x1E <= hid && hid <= 0x26 {
        (0x31u8 + (hid - 0x1E) as u8) as char
    } else {
        match hid {
            0x27 => '0',
            0x2D => '-',
            0x2E => '=',
            0x2F => '[',
            0x30 => ']',
            0x31 => '\\',
            0x33 => ';',
            0x34 => '\'',
            0x35 => '`',
            0x36 => ',',
            0x37 => '.',
            0x38 => '/',
            _ => return None,
        }
    };
    Some(single(c))
}

/// Whether `text` is what one key types: one character that is not a control code.
pub open spec fn types_text(text: Seq<char>) -> bool {
    text.len() == 1 && !is_control_code(text[0])
}

/// True for text the key would type: one character that is not a control code.
pub fn is_text(s: &str) -> (text: bool)
    ensures
        text == types_text(s@),
{
    s.unicode_len() == 1 && !is_control(s.get_char(0))
}

/// What a named key types when no chord is held.
pub open spec fn named_key_char(hid: u32) -> Option<Seq<char>> {
    match hid {
        0x28 => Some(seq!['\n']),
        0x58 => Some(seq!['\n']),
        0x2B => Some(seq!['\t']),
        0x2C => Some(seq![' ']),
        _ => None,
    }
}

/// Whether Shift only chose another symbol, so that the symbol itself is the key.
pub open spec fn shift_is_spent(spelled: Seq<char>, lowered: Seq<char>, shift: bool) -> bool {
    shift && lowered == spelled
}

/// How a key spelled `spelled` is named under `modifiers`, given its lowercase form: a shifted
/// letter by the lowercase letter, beside Shift; a shifted symbol by itself, with Shift dropped.
pub open spec fn named_unshifted(
    spelled: Seq<char>,
    lowered: Seq<char>,
    modifiers: Modifiers,
) -> (Modifiers, Seq<char>) {
    (
        Modifiers {
            shift: modifiers.shift && !shift_is_spent(spelled, lowered, modifiers.shift),
            ..modifiers
        },
        if modifiers.shift {
            lowered
        } else {
            spelled
        },
    )
}

/// Names a key unshifted, given its lowercase form. UIKit applies Shift to
/// `charactersIgnoringModifiers` ("A", "!"); keymaps name the key unshifted, so a letter becomes
/// "shift-a" while a symbol is itself and drops the modifier.
pub fn name_unshifted(spelled: String, lowered: String, modifiers: Modifiers) -> (named: (
    Modifiers,
    String,
))
    ensures
        named.0 == named_unshifted(spelled@, lowered@, modifiers).0,
        named.1@ == named_unshifted(spelled@, lowered@, modifiers).1,
{
    if modifiers.shift {
        if lowered == spelled {
            (Modifiers { shift: false, ..modifiers }, spelled)
        } else {
            (modifiers, lowered)
        }
    } else {
        (modifiers, spelled)
    }
}

/// How a key the layout spells is spelled: by what it types, else by its ASCII name.
pub open spec fn spelling(key: UiKeyView) -> Option<Seq<char>> {
    if types_text(key.characters_ignoring_modifiers) {
        Some(key.characters_ignoring_modifiers)
    } else {
        match ascii_name(key.hid) {
            Some(c) => Some(seq![c]),
            None => None,
        }
    }
}

/// The keystroke a press produces.
pub open spec fn press_keystroke(key: UiKeyView) -> Option<KeystrokeView> {
    let modifiers = flagged_modifiers(key.flags);
    let chord = modifiers.control || modifiers.platform;
    if modifier_usage(key.hid) {
        None
    } else if key_name(key.hid) is Some {
        Some(
            KeystrokeView {
                modifiers,
                key: key_name(key.hid).unwrap(),
                key_char: if chord {
                    None
                } else {
                    named_key_char(key.hid)
                },
            },
        )
    } else if spelling(key) is Some {
        let spelled = spelling(key).unwrap();
        let (modifiers, name) = named_unshifted(spelled, lowercase_all(spelled), modifiers);
        Some(
            KeystrokeView {
                modifiers,
                key: name,
                key_char: if !chord && types_text(key.characters) {
                    Some(key.characters)
                } else {
                    None
                },
            },
        )
    } else {
        None
    }
}

/// The keystroke a press produces, or `None` for a modifier key or a key nothing maps.
pub fn keystroke(key: &UiKey) -> (pressed: Option<Keystroke>)
    ensures
        match pressed {
            Some(pressed) => press_keystroke(key@) == Some(pressed@),
            None => press_keystroke(key@) is None,
        },
{
    if is_modifier_key(key.hid) {
        return None;
    }
    let (modifiers, _) = modifiers(key.flags);
    let plain = !modifiers.control && !modifiers.platform;

    if let Some(name) = named_key(key.hid) {
        let key_char = if !plain {
            None
        } else {
            match key.hid {
                0x28 => Some(single('\n')),
                0x58 => Some(single('\n')),
                0x2B => Some(single('\t')),
                0x2C => Some(single(' ')),
                _ => None,
            }
        };
        return Some(Keystroke { modifiers, key: name.to_string(), key_char });
    }
    let spelled = if is_text(key.characters_ignoring_modifiers.as_str()) {
        key.characters_ignoring_modifiers.clone()
    } else {
        match ascii_fallback(key.hid) {
            Some(name) => name,
            None => return None,
        }
    };
    let lowered = to_lowercase(spelled.as_str());
    let (modifiers, name) = name_unshifted(spelled, lowered, modifiers);
    let key_char = if plain && is_text(key.characters.as_str()) {
        Some(key.characters.clone())
    } else {
        None
    };
    Some(Keystroke { modifiers, key: name, key_char })
}

/// Whether the text system types a keystroke.
pub open spec fn typed_by_text_system(keystroke: KeystrokeView) -> bool {
    &&& !keystroke.modifiers.control
    &&& !keystroke.modifiers.platform
    &&& !keystroke.modifiers.alt
    &&& keystroke.key != "enter"@
    &&& keystroke.key != "tab"@
    &&& keystroke.key_char matches Some(typed) && types_text(typed)
}

/// Whether the text system should type this keystroke instead of us dispatching it: a
/// character with no chord modifier, which `insertText:` delivers through the input handler.
pub fn is_plain_text(keystroke: &Keystroke) -> (plain: bool)
    ensures
        plain == typed_by_text_system(keystroke@),
{
    let m = &keystroke.modifiers;
    if m.control || m.platform || m.alt {
        return false;
    }
    match &keystroke.key_char {
        Some(typed) => keystroke.key != "enter".to_string() && keystroke.key != "tab".to_string()
            && is_text(typed.as_str()),
        None => false,
    }
}

} // verus!
