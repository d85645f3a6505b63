//! Key presses, touches and gestures as UIKit reports them.

use apple_frames::described::{
    us_key, DescribedInput, DescribedPress, GestureState, PressPhase, TouchPhase, UiTouchPhase,
};
use apple_frames::hardware_keyboard::{
    is_modifier_key, is_plain_text, keystroke, modifiers, UiKey, ALPHA_SHIFT, ALTERNATE, COMMAND,
    CONTROL, SHIFT,
};
use apple_frames::injection::{inject, InjectError, StatusBarContentStyle};

fn key(hid: u32, chars: &str, ignoring: &str, flags: u32) -> UiKey {
    UiKey {
        hid,
        characters: chars.to_string(),
        characters_ignoring_modifiers: ignoring.to_string(),
        flags,
    }
}

#[test]
fn touch_phases_map_like_uikit_documents_them() {
    assert_eq!(
        TouchPhase::from(UiTouchPhase::from_raw(0)),
        TouchPhase::Started
    );
    assert_eq!(
        TouchPhase::from(UiTouchPhase::from_raw(1)),
        TouchPhase::Moved
    );
    assert_eq!(
        TouchPhase::from(UiTouchPhase::from_raw(2)),
        TouchPhase::Moved
    );
    assert_eq!(
        TouchPhase::from(UiTouchPhase::from_raw(3)),
        TouchPhase::Ended
    );
    assert_eq!(
        TouchPhase::from(UiTouchPhase::from_raw(4)),
        TouchPhase::Cancelled
    );
    // Hover region phases (5..=7) and garbage never leave a finger down.
    assert_eq!(
        TouchPhase::from(UiTouchPhase::from_raw(6)),
        TouchPhase::Cancelled
    );
    assert_eq!(
        TouchPhase::from(UiTouchPhase::from_raw(-1)),
        TouchPhase::Cancelled
    );
}

#[test]
fn gesture_states_deliver_only_while_active() {
    assert_eq!(GestureState::from_raw(0), None, "possible");
    assert_eq!(GestureState::from_raw(5), None, "failed");
    assert_eq!(
        GestureState::from_raw(1).map(GestureState::phase),
        Some(TouchPhase::Started)
    );
    assert_eq!(
        GestureState::from_raw(2).map(GestureState::phase),
        Some(TouchPhase::Moved)
    );
    assert_eq!(
        GestureState::from_raw(3).map(GestureState::phase),
        Some(TouchPhase::Ended)
    );
    assert_eq!(
        GestureState::from_raw(4).map(GestureState::phase),
        Some(TouchPhase::Cancelled)
    );
}

#[test]
fn the_us_stand_in_types_what_a_keyboard_would() {
    let l = us_key(0x0F, 0);
    assert_eq!(
        (
            l.characters.as_str(),
            l.characters_ignoring_modifiers.as_str()
        ),
        ("l", "l")
    );
    let shift_l = us_key(0x0F, SHIFT);
    assert_eq!(shift_l.characters_ignoring_modifiers, "L");
    let caps_l = us_key(0x0F, ALPHA_SHIFT);
    assert_eq!(caps_l.characters, "L", "caps lock shifts letters");
    let caps_1 = us_key(0x1E, ALPHA_SHIFT);
    assert_eq!(caps_1.characters, "1", "but not digits");
    let bang = us_key(0x1E, SHIFT);
    assert_eq!(
        (
            bang.characters.as_str(),
            bang.characters_ignoring_modifiers.as_str()
        ),
        ("!", "!")
    );
    let ctrl_c = us_key(0x06, CONTROL);
    assert_eq!(ctrl_c.characters, "\u{3}");
    assert_eq!(ctrl_c.characters_ignoring_modifiers, "c");
    let cmd_shift_l = us_key(0x0F, COMMAND | SHIFT);
    assert_eq!(cmd_shift_l.characters, "", "a ⌘ chord types nothing");
    assert_eq!(cmd_shift_l.characters_ignoring_modifiers, "L");
    let up = us_key(0x52, 0);
    assert_eq!(
        (
            up.characters.as_str(),
            up.characters_ignoring_modifiers.as_str()
        ),
        ("", "")
    );
    assert_eq!(us_key(0x28, 0).characters, "\r");
}

/// The stand-in feeds the real mapping: the keystrokes it yields are the ones the Mac backend
/// builds for the same chords, so a keymap test on the simulator means something.
#[test]
fn described_presses_become_the_keystrokes_the_mac_would_build() {
    let k = keystroke(&us_key(0x0F, COMMAND | SHIFT)).unwrap();
    assert_eq!(k.key, "l");
    assert!(k.modifiers.platform && k.modifiers.shift && !k.modifiers.control);
    assert_eq!(k.key_char, None);
    let up = keystroke(&us_key(0x52, 0)).unwrap();
    assert_eq!((up.key.as_str(), up.key_char), ("up", None));
    let a = keystroke(&us_key(0x04, 0)).unwrap();
    assert_eq!((a.key.as_str(), a.key_char.as_deref()), ("a", Some("a")));
    assert!(is_plain_text(&a));
    let bang = keystroke(&us_key(0x1E, SHIFT)).unwrap();
    assert_eq!(bang.key, "!");
    assert!(!bang.modifiers.shift);
    let ctrl_c = keystroke(&us_key(0x06, CONTROL)).unwrap();
    assert_eq!((ctrl_c.key.as_str(), ctrl_c.key_char), ("c", None));
    assert!(ctrl_c.modifiers.control);
    assert!(
        keystroke(&us_key(0xE3, COMMAND)).is_none(),
        "a modifier key itself"
    );
}

#[test]
fn letters_keep_shift_symbols_drop_it() {
    let a = keystroke(&key(0x04, "A", "A", SHIFT)).unwrap();
    assert_eq!(a.key, "a");
    assert!(a.modifiers.shift);
    assert_eq!(a.key_char.as_deref(), Some("A"));
    let bang = keystroke(&key(0x1E, "!", "!", SHIFT)).unwrap();
    assert_eq!(bang.key, "!");
    assert!(!bang.modifiers.shift);
}

#[test]
fn chords_have_no_key_char() {
    let c = keystroke(&key(0x06, "", "c", CONTROL)).unwrap();
    assert_eq!(c.key, "c");
    assert!(c.modifiers.control);
    assert_eq!(c.key_char, None);
    assert!(!is_plain_text(&c));
    let s = keystroke(&key(0x16, "ß", "s", ALTERNATE)).unwrap();
    assert_eq!(s.key, "s");
    assert_eq!(s.key_char.as_deref(), Some("ß"));
    assert!(!is_plain_text(&s));
}

#[test]
fn named_keys_and_modifiers() {
    let up = keystroke(&key(0x52, "", "", COMMAND)).unwrap();
    assert_eq!(up.key, "up");
    assert!(up.modifiers.platform);
    let enter = keystroke(&key(0x28, "\r", "\r", 0)).unwrap();
    assert_eq!(
        (enter.key.as_str(), enter.key_char.as_deref()),
        ("enter", Some("\n"))
    );
    assert!(!is_plain_text(&enter));
    assert!(keystroke(&key(0xE0, "", "", CONTROL)).is_none());
    assert!(is_plain_text(&keystroke(&key(0x04, "a", "a", 0)).unwrap()));
    assert!(is_plain_text(&keystroke(&key(0x2C, " ", " ", 0)).unwrap()));
}

#[test]
fn caps_lock_shifts_what_a_letter_types_and_not_its_name() {
    let caps_l = us_key(0x0F, ALPHA_SHIFT);
    assert_eq!(caps_l.characters_ignoring_modifiers, "l");
    let pressed = keystroke(&caps_l).unwrap();
    assert_eq!(pressed.key, "l");
    assert_eq!(pressed.key_char.as_deref(), Some("L"));
}

#[test]
fn a_shifted_letter_outside_ascii_is_named_by_its_lowercase() {
    let o = keystroke(&key(0x33, "Ö", "Ö", SHIFT)).unwrap();
    assert_eq!(o.key, "ö");
    assert!(o.modifiers.shift);
    // One character may lowercase to two.
    let i = keystroke(&key(0x0C, "İ", "İ", SHIFT)).unwrap();
    assert_eq!(i.key, "i\u{307}");
    assert!(i.modifiers.shift);
}

#[test]
fn a_key_without_text_falls_back_to_its_us_name() {
    let c = keystroke(&key(0x06, "\u{3}", "\u{3}", CONTROL)).unwrap();
    assert_eq!(c.key, "c");
    assert_eq!(c.key_char, None);
    assert!(keystroke(&key(0x65, "", "", 0)).is_none(), "nothing maps the menu key");
}

#[test]
fn modifier_flags_name_the_keys_that_are_down() {
    let (state, capslock) = modifiers(SHIFT | ALTERNATE | ALPHA_SHIFT);
    assert!(state.shift && state.alt);
    assert!(!state.control && !state.platform && !state.function);
    assert!(capslock.on);
    assert!(is_modifier_key(0xE0) && is_modifier_key(0xE7));
    assert!(!is_modifier_key(0xDF) && !is_modifier_key(0xE8));
}

#[test]
fn injection_needs_the_main_thread_and_a_window() {
    let press = || {
        DescribedInput::<u64>::Press(DescribedPress {
            usage: 0x04,
            flags: 0,
            phase: PressPhase::Began,
        })
    };
    assert_eq!(inject(press(), false, true).err(), Some(InjectError::NotMainThread));
    assert_eq!(inject(press(), false, false).err(), Some(InjectError::NotMainThread));
    assert_eq!(inject(press(), true, false).err(), Some(InjectError::NoWindow));
    assert!(inject(press(), true, true).is_ok());
    assert_eq!(StatusBarContentStyle::default(), StatusBarContentStyle::Dark);
}
