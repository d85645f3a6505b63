//! What holds of every key of the US layout once it has become a keystroke.

use crate::described::{letter_usage, us_characters, us_key_characters};
use crate::hardware_keyboard::{
    ascii_name, flagged_modifiers, key_name, modifier_usage, press_keystroke, spelling,
    typed_by_text_system, Modifiers, UiKeyView, SHIFT,
};
use crate::text::{is_control_code, lowercase, lowercase_all};
use vstd::prelude::*;

verus! {

/// A key that is spelled by what it types rather than named.
pub open spec fn spelled_usage(usage: u32) -> bool {
    us_characters(usage) is Some && key_name(usage) is None
}

proof fn lemma_lowercase_of_one(c: char)
    requires
        (c as u32) < 0x80,
    ensures
        lowercase_all(seq![c]) == lowercase(c),
{
    reveal_with_fuel(lowercase_all, 2);
    assert(seq![c].drop_last() =~= Seq::<char>::empty());
    assert(seq![c].last() == c);
    assert(lowercase_all(seq![c]) =~= lowercase(c));
}

proof fn lemma_us_spelling(usage: u32, flags: u32)
    requires
        spelled_usage(usage),
    ensures
        !modifier_usage(usage),
        ({
            let (plain, shifted) = us_characters(usage).unwrap();
            &&& 0x21 <= plain as u32 && (plain as u32) < 0x7f
            &&& 0x21 <= shifted as u32 && (shifted as u32) < 0x7f
            &&& spelling(us_key_characters(usage, flags)) == Some(
                seq![
                    if flags & SHIFT != 0 {
                        shifted
                    } else {
                        plain
                    },
                ],
            )
        }),
{
}

/// A shifted letter is named by the letter beside Shift, as keymaps write it: `shift-a`.
pub proof fn law_shifted_letters_keep_shift(usage: u32, flags: u32)
    requires
        letter_usage(usage),
        flags & SHIFT != 0,
    ensures
        press_keystroke(us_key_characters(usage, flags)) matches Some(pressed) && pressed.key
            == seq![us_characters(usage).unwrap().0] && pressed.modifiers == flagged_modifiers(
            flags,
        ),
{
    lemma_us_spelling(usage, flags);
    let (plain, shifted) = us_characters(usage).unwrap();
    lemma_lowercase_of_one(shifted);
    assert(seq![shifted][0] != seq![plain][0]);
}

/// A shifted symbol is named by itself, and Shift is spent on it: `!` rather than `shift-1`.
pub proof fn law_shifted_symbols_drop_shift(usage: u32, flags: u32)
    requires
        spelled_usage(usage),
        !letter_usage(usage),
        flags & SHIFT != 0,
    ensures
        press_keystroke(us_key_characters(usage, flags)) matches Some(pressed) && pressed.key
            == seq![us_characters(usage).unwrap().1] && pressed.modifiers == (Modifiers {
            shift: false,
            ..flagged_modifiers(flags)
        }),
{
    lemma_us_spelling(usage, flags);
    let (plain, shifted) = us_characters(usage).unwrap();
    lemma_lowercase_of_one(shifted);
}

/// Without Shift a spelled key is named by its plain character, whatever else is held, caps
/// lock included.
pub proof fn law_unshifted_keys_are_named_plainly(usage: u32, flags: u32)
    requires
        spelled_usage(usage),
        flags & SHIFT == 0,
    ensures
        press_keystroke(us_key_characters(usage, flags)) matches Some(pressed) && pressed.key
            == seq![us_characters(usage).unwrap().0] && pressed.modifiers == flagged_modifiers(
            flags,
        ),
{
    lemma_us_spelling(usage, flags);
}

/// A press under Control or Command types nothing, whatever the layout says.
pub proof fn law_chords_type_nothing(key: UiKeyView)
    requires
        flagged_modifiers(key.flags).control || flagged_modifiers(key.flags).platform,
    ensures
        press_keystroke(key) matches Some(pressed) ==> pressed.key_char is None
            && !typed_by_text_system(pressed),
{
}

/// Every key that types something on a US keyboard becomes a keystroke, and so does every
/// named key; no other key does.
pub proof fn law_mapped_us_keys_become_keystrokes(usage: u32, flags: u32)
    ensures
        press_keystroke(us_key_characters(usage, flags)) is Some <==> us_characters(usage) is Some
            || key_name(usage) is Some,
{
    if spelled_usage(usage) {
        lemma_us_spelling(usage, flags);
    }
}

/// The layout-independent name of a key is the character a US keyboard types for it.
pub proof fn law_ascii_names_are_the_us_layout(usage: u32)
    ensures
        ascii_name(usage) matches Some(c) ==> us_characters(usage) matches Some((plain, _))
            && plain == c,
        ascii_name(usage) is Some <==> spelled_usage(usage),
{
}

/// A keystroke left to the text system carries exactly the one character it types.
pub proof fn law_plain_text_types_one_character(key: UiKeyView)
    ensures
        press_keystroke(key) matches Some(pressed) && typed_by_text_system(pressed) ==> {
            let typed = press_keystroke(key).unwrap().key_char.unwrap();
            &&& typed.len() == 1
            &&& !is_control_code(typed[0])
            &&& key_name(key.hid) is None ==> typed == key.characters
        },
{
}

} // verus!
