//! Which key is which: names and characters by HID usage, modifier bits, and what is typed.

use crate::described::{
    delivered_phase, us_key_characters, GestureState, TouchPhase, UiTouchPhase,
};
use crate::hardware_keyboard::{
    flagged_modifiers, press_keystroke, typed_by_text_system, UiKeyView,
};
use crate::text::{decimal_digits, lowercase_all, unicode_lowercase};
use vstd::prelude::*;
use vstd::string::*;

verus! {

/// The name of the keystroke a press gives, if it gives one.
pub open spec fn pressed_name(key: UiKeyView) -> Option<Seq<char>> {
    match press_keystroke(key) {
        Some(pressed) => Some(pressed.key),
        None => None,
    }
}

/// A press of each key that the USB HID keyboard page names rather than spells is named so,
/// whatever the layout types for it and whatever is held.
pub proof fn law_named_keys_keep_their_names(key: UiKeyView)
    ensures
        key.hid == 0x28 ==> pressed_name(key) == Some("enter"@),
        key.hid == 0x58 ==> pressed_name(key) == Some("enter"@),
        key.hid == 0x29 ==> pressed_name(key) == Some("escape"@),
        key.hid == 0x2A ==> pressed_name(key) == Some("backspace"@),
        key.hid == 0x2B ==> pressed_name(key) == Some("tab"@),
        key.hid == 0x2C ==> pressed_name(key) == Some("space"@),
        key.hid == 0x39 ==> pressed_name(key) == Some("capslock"@),
        key.hid == 0x3A ==> pressed_name(key) == Some("f1"@),
        key.hid == 0x3B ==> pressed_name(key) == Some("f2"@),
        key.hid == 0x3C ==> pressed_name(key) == Some("f3"@),
        key.hid == 0x3D ==> pressed_name(key) == Some("f4"@),
        key.hid == 0x3E ==> pressed_name(key) == Some("f5"@),
        key.hid == 0x3F ==> pressed_name(key) == Some("f6"@),
        key.hid == 0x40 ==> pressed_name(key) == Some("f7"@),
        key.hid == 0x41 ==> pressed_name(key) == Some("f8"@),
        key.hid == 0x42 ==> pressed_name(key) == Some("f9"@),
        key.hid == 0x43 ==> pressed_name(key) == Some("f10"@),
        key.hid == 0x44 ==> pressed_name(key) == Some("f11"@),
        key.hid == 0x45 ==> pressed_name(key) == Some("f12"@),
        key.hid == 0x49 ==> pressed_name(key) == Some("insert"@),
        key.hid == 0x4A ==> pressed_name(key) == Some("home"@),
        key.hid == 0x4B ==> pressed_name(key) == Some("pageup"@),
        key.hid == 0x4C ==> pressed_name(key) == Some("delete"@),
        key.hid == 0x4D ==> pressed_name(key) == Some("end"@),
        key.hid == 0x4E ==> pressed_name(key) == Some("pagedown"@),
        key.hid == 0x4F ==> pressed_name(key) == Some("right"@),
        key.hid == 0x50 ==> pressed_name(key) == Some("left"@),
        key.hid == 0x51 ==> pressed_name(key) == Some("down"@),
        key.hid == 0x52 ==> pressed_name(key) == Some("up"@),
{
}

/// Whether a usage is one of the keys that are named rather than spelled: enter, escape,
/// backspace, tab and space; caps lock and the function keys; insert to the arrows; and the
/// keypad's enter.
pub open spec fn has_a_name(hid: u32) -> bool {
    0x28 <= hid <= 0x2C || 0x39 <= hid <= 0x45 || 0x49 <= hid <= 0x52 || hid == 0x58
}

/// Enter types a newline, tab a tab and space a space, unless Control or Command is held; the
/// other named keys type nothing. A named key keeps every modifier.
pub proof fn law_named_keys_type_little(key: UiKeyView)
    requires
        has_a_name(key.hid),
    ensures
        ({
            let pressed = press_keystroke(key).unwrap();
            let chord = key.flags & 0x4_0000 != 0 || key.flags & 0x10_0000 != 0;
            &&& press_keystroke(key) is Some
            &&& chord ==> pressed.key_char is None
            &&& !chord && (key.hid == 0x28 || key.hid == 0x58) ==> pressed.key_char == Some(
                seq!['\n'],
            )
            &&& !chord && key.hid == 0x2B ==> pressed.key_char == Some(seq!['\t'])
            &&& !chord && key.hid == 0x2C ==> pressed.key_char == Some(seq![' '])
            &&& key.hid != 0x28 && key.hid != 0x58 && key.hid != 0x2B && key.hid != 0x2C
                ==> pressed.key_char is None
            &&& pressed.modifiers.control <==> key.flags & 0x4_0000 != 0
            &&& pressed.modifiers.alt <==> key.flags & 0x8_0000 != 0
            &&& pressed.modifiers.shift <==> key.flags & 0x2_0000 != 0
            &&& pressed.modifiers.platform <==> key.flags & 0x10_0000 != 0
            &&& !pressed.modifiers.function
        }),
{
}

/// Each modifier is one bit of the flag word, and no bit sets the function key.
pub proof fn law_each_modifier_has_its_bit(flags: u32)
    ensures
        flagged_modifiers(flags).shift <==> flags & 0x2_0000 != 0,
        flagged_modifiers(flags).control <==> flags & 0x4_0000 != 0,
        flagged_modifiers(flags).alt <==> flags & 0x8_0000 != 0,
        flagged_modifiers(flags).platform <==> flags & 0x10_0000 != 0,
        !flagged_modifiers(flags).function,
{
}

/// The eight modifier keys give no keystroke, whatever else is held.
pub proof fn law_modifier_keys_press_nothing(key: UiKeyView)
    requires
        0xE0 <= key.hid <= 0xE7,
    ensures
        press_keystroke(key) is None,
{
}

/// Whether `text` is one character that a key can type: neither a C0 code, nor delete, nor a C1
/// code.
pub open spec fn one_character(text: Seq<char>) -> bool {
    &&& text.len() == 1
    &&& text[0] as u32 >= 0x20
    &&& (text[0] as u32) < 0x7f || text[0] as u32 > 0x9f
}

/// A key that has no name of its own is named by the one character the layout spells it with.
/// Under Shift an uppercase ASCII letter is named by its lowercase letter, beside Shift; any
/// other ASCII character by itself, and Shift is spent on it; and a character outside ASCII by
/// what it lowercases to, with Shift kept exactly where that is something else. The other
/// modifiers stay.
pub proof fn law_spelled_keys_are_named_as_they_are_spelled(key: UiKeyView)
    requires
        !has_a_name(key.hid),
        !(0xE0 <= key.hid <= 0xE7),
        one_character(key.characters_ignoring_modifiers),
    ensures
        ({
            let pressed = press_keystroke(key).unwrap();
            let spelled = key.characters_ignoring_modifiers;
            let code = spelled[0] as u32;
            let shift = key.flags & 0x2_0000 != 0;
            &&& press_keystroke(key) is Some
            &&& !shift ==> pressed.key == spelled && !pressed.modifiers.shift
            &&& shift && 0x41 <= code <= 0x5A ==> pressed.key == seq![(code + 0x20) as char]
                && pressed.modifiers.shift
            &&& shift && code < 0x80 && !(0x41 <= code <= 0x5A) ==> pressed.key == spelled
                && !pressed.modifiers.shift
            &&& shift && code >= 0x80 ==> pressed.key == unicode_lowercase(spelled[0])
            &&& shift && code >= 0x80 ==> (pressed.modifiers.shift <==> unicode_lowercase(
                spelled[0],
            ) != spelled)
            &&& pressed.modifiers.control <==> key.flags & 0x4_0000 != 0
            &&& pressed.modifiers.alt <==> key.flags & 0x8_0000 != 0
            &&& pressed.modifiers.platform <==> key.flags & 0x10_0000 != 0
            &&& !pressed.modifiers.function
        }),
{
    let spelled = key.characters_ignoring_modifiers;
    reveal_with_fuel(lowercase_all, 2);
    assert(spelled.drop_last() =~= Seq::<char>::empty());
    assert(spelled =~= seq![spelled[0]]);
    assert(Seq::<char>::empty() + unicode_lowercase(spelled[0]) =~= unicode_lowercase(spelled[0]));
    let code = spelled[0] as u32;
    if 0x41 <= code <= 0x5A {
        let lower = (code + 0x20) as char;
        assert(lowercase_all(spelled) =~= seq![lower]);
        assert(seq![lower][0] != spelled[0]);
    } else if code < 0x80 {
        assert(lowercase_all(spelled) =~= spelled);
    }
}

/// A key without a name of its own types what the layout says, where that is one character, and
/// nothing else: nothing under Control or Command.
pub proof fn law_spelled_keys_type_what_the_layout_says(key: UiKeyView)
    requires
        !has_a_name(key.hid),
    ensures
        press_keystroke(key) matches Some(pressed) ==> pressed.key_char == if one_character(
            key.characters,
        ) && key.flags & 0x4_0000 == 0 && key.flags & 0x10_0000 == 0 {
            Some(key.characters)
        } else {
            None
        },
{
}

/// A key that the layout spells with anything but one character is named by the character on the
/// key of a US keyboard, and Shift counts for nothing; the other modifiers stay. Where there is
/// none, it gives no keystroke.
pub proof fn law_unspelled_keys_are_named_by_their_us_key(key: UiKeyView)
    requires
        !one_character(key.characters_ignoring_modifiers),
    ensures
        key.hid == 0x04 ==> pressed_name(key) == Some(seq!['a']),
        key.hid == 0x05 ==> pressed_name(key) == Some(seq!['b']),
        key.hid == 0x06 ==> pressed_name(key) == Some(seq!['c']),
        key.hid == 0x07 ==> pressed_name(key) == Some(seq!['d']),
        key.hid == 0x08 ==> pressed_name(key) == Some(seq!['e']),
        key.hid == 0x09 ==> pressed_name(key) == Some(seq!['f']),
        key.hid == 0x0A ==> pressed_name(key) == Some(seq!['g']),
        key.hid == 0x0B ==> pressed_name(key) == Some(seq!['h']),
        key.hid == 0x0C ==> pressed_name(key) == Some(seq!['i']),
        key.hid == 0x0D ==> pressed_name(key) == Some(seq!['j']),
        key.hid == 0x0E ==> pressed_name(key) == Some(seq!['k']),
        key.hid == 0x0F ==> pressed_name(key) == Some(seq!['l']),
        key.hid == 0x10 ==> pressed_name(key) == Some(seq!['m']),
        key.hid == 0x11 ==> pressed_name(key) == Some(seq!['n']),
        key.hid == 0x12 ==> pressed_name(key) == Some(seq!['o']),
        key.hid == 0x13 ==> pressed_name(key) == Some(seq!['p']),
        key.hid == 0x14 ==> pressed_name(key) == Some(seq!['q']),
        key.hid == 0x15 ==> pressed_name(key) == Some(seq!['r']),
        key.hid == 0x16 ==> pressed_name(key) == Some(seq!['s']),
        key.hid == 0x17 ==> pressed_name(key) == Some(seq!['t']),
        key.hid == 0x18 ==> pressed_name(key) == Some(seq!['u']),
        key.hid == 0x19 ==> pressed_name(key) == Some(seq!['v']),
        key.hid == 0x1A ==> pressed_name(key) == Some(seq!['w']),
        key.hid == 0x1B ==> pressed_name(key) == Some(seq!['x']),
        key.hid == 0x1C ==> pressed_name(key) == Some(seq!['y']),
        key.hid == 0x1D ==> pressed_name(key) == Some(seq!['z']),
        key.hid == 0x1E ==> pressed_name(key) == Some(seq!['1']),
        key.hid == 0x1F ==> pressed_name(key) == Some(seq!['2']),
        key.hid == 0x20 ==> pressed_name(key) == Some(seq!['3']),
        key.hid == 0x21 ==> pressed_name(key) == Some(seq!['4']),
        key.hid == 0x22 ==> pressed_name(key) == Some(seq!['5']),
        key.hid == 0x23 ==> pressed_name(key) == Some(seq!['6']),
        key.hid == 0x24 ==> pressed_name(key) == Some(seq!['7']),
        key.hid == 0x25 ==> pressed_name(key) == Some(seq!['8']),
        key.hid == 0x26 ==> pressed_name(key) == Some(seq!['9']),
        key.hid == 0x27 ==> pressed_name(key) == Some(seq!['0']),
        key.hid == 0x2D ==> pressed_name(key) == Some(seq!['-']),
        key.hid == 0x2E ==> pressed_name(key) == Some(seq!['=']),
        key.hid == 0x2F ==> pressed_name(key) == Some(seq!['[']),
        key.hid == 0x30 ==> pressed_name(key) == Some(seq![']']),
        key.hid == 0x31 ==> pressed_name(key) == Some(seq!['\\']),
        key.hid == 0x33 ==> pressed_name(key) == Some(seq![';']),
        key.hid == 0x34 ==> pressed_name(key) == Some(seq!['\'']),
        key.hid == 0x35 ==> pressed_name(key) == Some(seq!['`']),
        key.hid == 0x36 ==> pressed_name(key) == Some(seq![',']),
        key.hid == 0x37 ==> pressed_name(key) == Some(seq!['.']),
        key.hid == 0x38 ==> pressed_name(key) == Some(seq!['/']),
        !has_a_name(key.hid) ==> (press_keystroke(key) matches Some(pressed) ==> {
            &&& !pressed.modifiers.shift
            &&& pressed.modifiers.control <==> key.flags & 0x4_0000 != 0
            &&& pressed.modifiers.alt <==> key.flags & 0x8_0000 != 0
            &&& pressed.modifiers.platform <==> key.flags & 0x10_0000 != 0
            &&& !pressed.modifiers.function
        }),
        !has_a_name(key.hid) && !(0x04 <= key.hid <= 0x27 || 0x2D <= key.hid <= 0x31 || 0x33
            <= key.hid <= 0x38) ==> press_keystroke(key) is None,
{
    if 0x04 <= key.hid <= 0x1D {
        lemma_lowercase_of_one(('a' as u32 + (key.hid - 0x04)) as char);
    } else if 0x1E <= key.hid <= 0x26 {
        lemma_lowercase_of_one(('1' as u32 + (key.hid - 0x1E)) as char);
    } else {
        lemma_lowercase_of_one('0');
        lemma_lowercase_of_one('-');
        lemma_lowercase_of_one('=');
        lemma_lowercase_of_one('[');
        lemma_lowercase_of_one(']');
        lemma_lowercase_of_one('\\');
        lemma_lowercase_of_one(';');
        lemma_lowercase_of_one('\'');
        lemma_lowercase_of_one('`');
        lemma_lowercase_of_one(',');
        lemma_lowercase_of_one('.');
        lemma_lowercase_of_one('/');
    }
}

proof fn lemma_lowercase_of_one(c: char)
    requires
        (c as u32) < 0x80,
        !(0x41 <= c as u32 <= 0x5A),
    ensures
        lowercase_all(seq![c]) == seq![c],
{
    reveal_with_fuel(lowercase_all, 2);
    assert(seq![c].drop_last() =~= Seq::<char>::empty());
    assert(seq![c].last() == c);
    assert(lowercase_all(seq![c]) =~= seq![c]);
}

/// What a US keyboard fills in for a key that types `plain`, and `shifted` under Shift, where
/// neither Control nor Command is held.
pub open spec fn spells(usage: u32, flags: u32, plain: char, shifted: char) -> bool {
    let key = us_key_characters(usage, flags);
    let shift = flags & 0x2_0000 != 0;
    let caps = flags & 0x1_0000 != 0 && 0x04 <= usage <= 0x1D;
    &&& key.characters_ignoring_modifiers == if shift {
        seq![shifted]
    } else {
        seq![plain]
    }
    &&& flags & 0x4_0000 == 0 && flags & 0x10_0000 == 0 ==> key.characters == if shift || caps {
        seq![shifted]
    } else {
        seq![plain]
    }
}

/// The letters of a US keyboard, in both cases. Caps lock shifts what they type, and not what
/// they are spelled with.
pub proof fn law_us_letters(usage: u32, flags: u32)
    ensures
        usage == 0x04 ==> spells(usage, flags, 'a', 'A'),
        usage == 0x05 ==> spells(usage, flags, 'b', 'B'),
        usage == 0x06 ==> spells(usage, flags, 'c', 'C'),
        usage == 0x07 ==> spells(usage, flags, 'd', 'D'),
        usage == 0x08 ==> spells(usage, flags, 'e', 'E'),
        usage == 0x09 ==> spells(usage, flags, 'f', 'F'),
        usage == 0x0A ==> spells(usage, flags, 'g', 'G'),
        usage == 0x0B ==> spells(usage, flags, 'h', 'H'),
        usage == 0x0C ==> spells(usage, flags, 'i', 'I'),
        usage == 0x0D ==> spells(usage, flags, 'j', 'J'),
        usage == 0x0E ==> spells(usage, flags, 'k', 'K'),
        usage == 0x0F ==> spells(usage, flags, 'l', 'L'),
        usage == 0x10 ==> spells(usage, flags, 'm', 'M'),
        usage == 0x11 ==> spells(usage, flags, 'n', 'N'),
        usage == 0x12 ==> spells(usage, flags, 'o', 'O'),
        usage == 0x13 ==> spells(usage, flags, 'p', 'P'),
        usage == 0x14 ==> spells(usage, flags, 'q', 'Q'),
        usage == 0x15 ==> spells(usage, flags, 'r', 'R'),
        usage == 0x16 ==> spells(usage, flags, 's', 'S'),
        usage == 0x17 ==> spells(usage, flags, 't', 'T'),
        usage == 0x18 ==> spells(usage, flags, 'u', 'U'),
        usage == 0x19 ==> spells(usage, flags, 'v', 'V'),
        usage == 0x1A ==> spells(usage, flags, 'w', 'W'),
        usage == 0x1B ==> spells(usage, flags, 'x', 'X'),
        usage == 0x1C ==> spells(usage, flags, 'y', 'Y'),
        usage == 0x1D ==> spells(usage, flags, 'z', 'Z'),
{
}

/// The other keys of a US keyboard that type something, plain and shifted. Caps lock leaves them
/// alone.
pub proof fn law_us_symbols(usage: u32, flags: u32)
    ensures
        usage == 0x1E ==> spells(usage, flags, '1', '!'),
        usage == 0x1F ==> spells(usage, flags, '2', '@'),
        usage == 0x20 ==> spells(usage, flags, '3', '#'),
        usage == 0x21 ==> spells(usage, flags, '4', '$'),
        usage == 0x22 ==> spells(usage, flags, '5', '%'),
        usage == 0x23 ==> spells(usage, flags, '6', '^'),
        usage == 0x24 ==> spells(usage, flags, '7', '&'),
        usage == 0x25 ==> spells(usage, flags, '8', '*'),
        usage == 0x26 ==> spells(usage, flags, '9', '('),
        usage == 0x27 ==> spells(usage, flags, '0', ')'),
        usage == 0x28 ==> spells(usage, flags, '\r', '\r'),
        usage == 0x58 ==> spells(usage, flags, '\r', '\r'),
        usage == 0x29 ==> spells(usage, flags, '\u{1b}', '\u{1b}'),
        usage == 0x2A ==> spells(usage, flags, '\u{8}', '\u{8}'),
        usage == 0x2B ==> spells(usage, flags, '\t', '\t'),
        usage == 0x2C ==> spells(usage, flags, ' ', ' '),
        usage == 0x2D ==> spells(usage, flags, '-', '_'),
        usage == 0x2E ==> spells(usage, flags, '=', '+'),
        usage == 0x2F ==> spells(usage, flags, '[', '{'),
        usage == 0x30 ==> spells(usage, flags, ']', '}'),
        usage == 0x31 ==> spells(usage, flags, '\\', '|'),
        usage == 0x33 ==> spells(usage, flags, ';', ':'),
        usage == 0x34 ==> spells(usage, flags, '\'', '"'),
        usage == 0x35 ==> spells(usage, flags, '`', '~'),
        usage == 0x36 ==> spells(usage, flags, ',', '<'),
        usage == 0x37 ==> spells(usage, flags, '.', '>'),
        usage == 0x38 ==> spells(usage, flags, '/', '?'),
{
}

/// Whether a key of a US keyboard types anything.
pub open spec fn types_on_us(usage: u32) -> bool {
    0x04 <= usage <= 0x31 || 0x33 <= usage <= 0x38 || usage == 0x58
}

/// A key of a US keyboard keeps its usage and flags. The others type nothing, and so does every
/// key under Command. Under Control a letter types its C0 code, 1 for A to 26 for Z, and any
/// other key what it types without.
pub proof fn law_us_chords(usage: u32, flags: u32)
    ensures
        ({
            let key = us_key_characters(usage, flags);
            let free = us_key_characters(usage, flags & !0x4_0000);
            let control = flags & 0x4_0000 != 0;
            let command = flags & 0x10_0000 != 0;
            &&& key.hid == usage
            &&& key.flags == flags
            &&& !types_on_us(usage) ==> key.characters.len() == 0
                && key.characters_ignoring_modifiers.len() == 0
            &&& types_on_us(usage) ==> key.characters_ignoring_modifiers.len() == 1
            &&& types_on_us(usage) && !command ==> key.characters.len() == 1
            &&& command ==> key.characters.len() == 0
            &&& !command && control && 0x04 <= usage <= 0x1D ==> key.characters == seq![
                (usage - 0x03) as char,
            ]
            &&& !command && control && !(0x04 <= usage <= 0x1D) ==> key.characters
                == free.characters
        }),
{
    assert((flags & !0x4_0000) & 0x2_0000 == flags & 0x2_0000 && (flags & !0x4_0000) & 0x1_0000
        == flags & 0x1_0000 && (flags & !0x4_0000) & 0x10_0000 == flags & 0x10_0000 && (flags
        & !0x4_0000) & 0x4_0000 == 0) by (bit_vector);
}

/// The text system types a press exactly where neither Control nor Option nor Command is held and
/// the key is the space bar, or has no name and types one character.
pub proof fn law_the_text_system_types_plain_characters(key: UiKeyView)
    ensures
        press_keystroke(key) matches Some(pressed) ==> (typed_by_text_system(pressed) <==> {
            &&& key.flags & 0x4_0000 == 0
            &&& key.flags & 0x8_0000 == 0
            &&& key.flags & 0x10_0000 == 0
            &&& key.hid == 0x2C || (!has_a_name(key.hid) && one_character(key.characters)
                && pressed.key != "enter"@ && pressed.key != "tab"@)
        }),
{
    reveal_strlit("enter");
    reveal_strlit("tab");
    reveal_strlit("space");
    if key.hid == 0x2C {
        assert("space"@.len() == 5 && "enter"@.len() == 5 && "tab"@.len() == 3);
        assert("space"@[0] != "enter"@[0]);
    }
    assert(seq!['\n'][0] == '\n');
    assert(seq!['\t'][0] == '\t');
    assert(seq![' '][0] == ' ');
}

/// The raw values of a touch's phase, and what each is delivered as: a finger that rests counts
/// as one that moves.
pub proof fn law_touch_phases_by_number()
    ensures
        UiTouchPhase::Began.raw() == 0 && delivered_phase(UiTouchPhase::Began)
            == TouchPhase::Started,
        UiTouchPhase::Moved.raw() == 1 && delivered_phase(UiTouchPhase::Moved)
            == TouchPhase::Moved,
        UiTouchPhase::Stationary.raw() == 2 && delivered_phase(UiTouchPhase::Stationary)
            == TouchPhase::Moved,
        UiTouchPhase::Ended.raw() == 3 && delivered_phase(UiTouchPhase::Ended)
            == TouchPhase::Ended,
        UiTouchPhase::Cancelled.raw() == 4 && delivered_phase(UiTouchPhase::Cancelled)
            == TouchPhase::Cancelled,
{
}

/// The raw values of a gesture's state, and what each is delivered as.
pub proof fn law_gesture_states_by_number()
    ensures
        GestureState::Began.raw() == 1 && GestureState::Began.delivered() == TouchPhase::Started,
        GestureState::Changed.raw() == 2 && GestureState::Changed.delivered() == TouchPhase::Moved,
        GestureState::Ended.raw() == 3 && GestureState::Ended.delivered() == TouchPhase::Ended,
        GestureState::Cancelled.raw() == 4 && GestureState::Cancelled.delivered()
            == TouchPhase::Cancelled,
{
}

/// The number that a row of decimal digits names.
pub open spec fn number_named(digits: Seq<char>) -> int
    decreases digits.len(),
{
    if digits.len() == 0 {
        0
    } else {
        10 * number_named(digits.drop_last()) + (digits.last() as u32 - 0x30)
    }
}

/// A number is written in decimal digits that name it, without leading zeros.
pub proof fn law_numbers_are_written_in_decimal(value: nat)
    ensures
        number_named(decimal_digits(value)) == value,
        decimal_digits(value).len() > 0,
        forall|i: int|
            0 <= i < decimal_digits(value).len() ==> 0x30 <= #[trigger] decimal_digits(
                value,
            )[i] as u32 <= 0x39,
        decimal_digits(value).len() > 1 ==> decimal_digits(value)[0] != '0',
    decreases value,
{
    reveal_with_fuel(number_named, 2);
    let digits = decimal_digits(value);
    if value >= 10 {
        law_numbers_are_written_in_decimal(value / 10);
        let high = decimal_digits(value / 10);
        assert(digits.drop_last() =~= high);
        assert forall|i: int| 0 <= i < digits.len() implies 0x30 <= #[trigger] digits[i] as u32
            <= 0x39 by {
            if i < high.len() {
                assert(digits[i] == high[i]);
            }
        }
        if value < 100 {
            assert(high.len() == 1);
        } else {
            reveal_with_fuel(decimal_digits, 3);
        }
    } else {
        assert(digits.drop_last() =~= Seq::<char>::empty());
    }
}

/// A text is lowercased piece by piece, and each ASCII letter from `A` to `Z` becomes the letter
/// 0x20 further on; other ASCII characters stay.
pub proof fn law_texts_are_lowercased_letter_by_letter(a: Seq<char>, b: Seq<char>, c: char)
    ensures
        lowercase_all(a + b) == lowercase_all(a) + lowercase_all(b),
        0x41 <= c as u32 <= 0x5A ==> lowercase_all(seq![c]) == seq![(c as u32 + 0x20) as char],
        (c as u32) < 0x80 && !(0x41 <= c as u32 <= 0x5A) ==> lowercase_all(seq![c]) == seq![c],
        (c as u32) >= 0x80 ==> lowercase_all(seq![c]) == unicode_lowercase(c),
    decreases b.len(),
{
    reveal_with_fuel(lowercase_all, 2);
    assert(seq![c].drop_last() =~= Seq::<char>::empty());
    assert(seq![c].last() == c);
    assert(Seq::<char>::empty() + unicode_lowercase(c) =~= unicode_lowercase(c));
    if (c as u32) < 0x80 && !(0x41 <= c as u32 <= 0x5A) {
        lemma_lowercase_of_one(c);
    } else if (c as u32) < 0x80 {
        assert(lowercase_all(seq![c]) =~= seq![(c as u32 + 0x20) as char]);
    }
    if b.len() == 0 {
        assert(a + b =~= a);
        assert(lowercase_all(a) + lowercase_all(b) =~= lowercase_all(a));
    } else {
        law_texts_are_lowercased_letter_by_letter(a, b.drop_last(), c);
        assert((a + b).drop_last() =~= a + b.drop_last());
        assert(lowercase_all(a + b) =~= lowercase_all(a) + lowercase_all(b));
    }
}

} // verus!
