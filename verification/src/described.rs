//! Input at the UIKit boundary, as data.
//!
//! UIKit hands the metal view `UIPress`es, `UITouch`es, a `UIPinchGestureRecognizer` and the
//! text system's `insertText:` / `deleteBackward`. None of those objects can be made from
//! outside UIKit, so a test that wants to prove the UIKit delivery cannot post them. What it
//! can do is *describe* one: the primitive values the window reads out of the object (a HID
//! usage and modifier flags, a touch id, phase and point, a recognizer state and scale, a
//! string). The window's UIKit callbacks unpack the object into exactly these values;
//! [`DescribedInput`] holds them.
//!
//! A coordinate is whatever number `C` the caller measures points in.

use crate::hardware_keyboard::{
    UiKey, UiKeyView, ALPHA_SHIFT, COMMAND, CONTROL, SHIFT,
};
use crate::text::single;
use vstd::prelude::*;
use vstd::std_specs::convert::FromSpecImpl;

verus! {

/// Which end of a hardware key press UIKit reported (`pressesBegan:` / `pressesEnded:` /
/// `pressesCancelled:`).
#[derive(Debug, Clone, Copy, PartialEq, Eq, Structural)]
pub enum PressPhase {
    /// `pressesBegan:`.
    Began,
    /// `pressesEnded:`.
    Ended,
    /// `pressesCancelled:`: released without a key-up, treated as an end.
    Cancelled,
}

/// One hardware key press as the window reads it from a `UIPress.key`.
#[derive(Debug, Clone, PartialEq, Eq)]
pub struct DescribedPress {
    /// `UIKey.keyCode`: a USB HID usage from the keyboard page.
    pub usage: u32,
    /// `UIKey.modifierFlags` (`UIKeyModifierFlags`).
    pub flags: u32,
    /// Which callback.
    pub phase: PressPhase,
}

/// The phase of a touch or a gesture.
#[derive(Debug, Clone, Copy, PartialEq, Eq, Structural)]
pub enum TouchPhase {
    Started,
    Moved,
    Ended,
    Cancelled,
}

/// `UITouchPhase`.
#[derive(Debug, Clone, Copy, PartialEq, Eq, Structural)]
pub enum UiTouchPhase {
    /// `UITouchPhaseBegan`.
    Began,
    /// `UITouchPhaseMoved`.
    Moved,
    /// `UITouchPhaseStationary`.
    Stationary,
    /// `UITouchPhaseEnded`.
    Ended,
    /// `UITouchPhaseCancelled`.
    Cancelled,
}

impl UiTouchPhase {
    /// The raw `UITouchPhase` of this phase.
    pub open spec fn raw(self) -> i64 {
        match self {
            UiTouchPhase::Began => 0,
            UiTouchPhase::Moved => 1,
            UiTouchPhase::Stationary => 2,
            UiTouchPhase::Ended => 3,
            UiTouchPhase::Cancelled => 4,
        }
    }

    /// The phase a raw `UITouchPhase` names; anything else (the regionEntered/Moved/Exited
    /// values of a hover) counts as cancelled, so a stray touch never sticks.
    pub fn from_raw(value: i64) -> (phase: Self)
        ensures
            0 <= value <= 4 ==> phase.raw() == value,
            !(0 <= value <= 4) ==> phase is Cancelled,
    {
        match value {
            0 => UiTouchPhase::Began,
            1 => UiTouchPhase::Moved,
            2 => UiTouchPhase::Stationary,
            3 => UiTouchPhase::Ended,
            _ => UiTouchPhase::Cancelled,
        }
    }
}

/// The phase a touch in a UIKit phase is delivered in: a finger that rests has moved nowhere.
pub open spec fn delivered_phase(phase: UiTouchPhase) -> TouchPhase {
    match phase {
        UiTouchPhase::Began => TouchPhase::Started,
        UiTouchPhase::Moved => TouchPhase::Moved,
        UiTouchPhase::Stationary => TouchPhase::Moved,
        UiTouchPhase::Ended => TouchPhase::Ended,
        UiTouchPhase::Cancelled => TouchPhase::Cancelled,
    }
}

impl From<UiTouchPhase> for TouchPhase {
    fn from(phase: UiTouchPhase) -> (delivered: Self) {
        match phase {
            UiTouchPhase::Began => TouchPhase::Started,
            UiTouchPhase::Moved => TouchPhase::Moved,
            UiTouchPhase::Stationary => TouchPhase::Moved,
            UiTouchPhase::Ended => TouchPhase::Ended,
            UiTouchPhase::Cancelled => TouchPhase::Cancelled,
        }
    }
}

impl FromSpecImpl<UiTouchPhase> for TouchPhase {
    open spec fn obeys_from_spec() -> bool {
        true
    }

    open spec fn from_spec(phase: UiTouchPhase) -> Self {
        delivered_phase(phase)
    }
}

/// One touch of a `touchesBegan:` / `touchesMoved:` / `touchesEnded:` / `touchesCancelled:`
/// set, as the window reads it from the `UITouch`.
#[derive(Debug, Clone, Copy, PartialEq)]
pub struct DescribedTouch<C> {
    /// Identifies the finger across its phases (UIKit keeps one `UITouch` object per finger;
    /// the window uses its address).
    pub id: u64,
    /// `UITouch.phase`.
    pub phase: UiTouchPhase,
    /// `locationInView:` the metal view, x in points.
    pub x: C,
    /// `locationInView:` the metal view, y in points.
    pub y: C,
}

/// `UIGestureRecognizerState`, the four values a continuous recognizer reports to its target.
#[derive(Debug, Clone, Copy, PartialEq, Eq, Structural)]
pub enum GestureState {
    /// `UIGestureRecognizerStateBegan`.
    Began,
    /// `UIGestureRecognizerStateChanged`.
    Changed,
    /// `UIGestureRecognizerStateEnded`.
    Ended,
    /// `UIGestureRecognizerStateCancelled`.
    Cancelled,
}

impl GestureState {
    /// The raw `UIGestureRecognizerState` of this state.
    pub open spec fn raw(self) -> i64 {
        match self {
            GestureState::Began => 1,
            GestureState::Changed => 2,
            GestureState::Ended => 3,
            GestureState::Cancelled => 4,
        }
    }

    /// The phase a gesture in this state is delivered in.
    pub open spec fn delivered(self) -> TouchPhase {
        match self {
            GestureState::Began => TouchPhase::Started,
            GestureState::Changed => TouchPhase::Moved,
            GestureState::Ended => TouchPhase::Ended,
            GestureState::Cancelled => TouchPhase::Cancelled,
        }
    }

    /// The state a raw value names, `None` for possible / failed (nothing to deliver).
    pub fn from_raw(value: i64) -> (state: Option<Self>)
        ensures
            state is Some <==> 1 <= value <= 4,
            state matches Some(state) ==> state.raw() == value,
    {
        match value {
            1 => Some(GestureState::Began),
            2 => Some(GestureState::Changed),
            3 => Some(GestureState::Ended),
            4 => Some(GestureState::Cancelled),
            _ => None,
        }
    }

    /// The phase of a gesture in this state.
    pub fn phase(self) -> (phase: TouchPhase)
        ensures
            phase == self.delivered(),
    {
        match self {
            GestureState::Began => TouchPhase::Started,
            GestureState::Changed => TouchPhase::Moved,
            GestureState::Ended => TouchPhase::Ended,
            GestureState::Cancelled => TouchPhase::Cancelled,
        }
    }
}

/// One report of the view's `UIPinchGestureRecognizer`, as the window reads it.
#[derive(Debug, Clone, Copy, PartialEq)]
pub struct DescribedPinch<C> {
    /// `recognizer.state`.
    pub state: GestureState,
    /// `recognizer.scale` since the previous report (the window resets it to 1 after each).
    pub scale: C,
    /// `locationInView:` the metal view, x in points.
    pub x: C,
    /// `locationInView:` the metal view, y in points.
    pub y: C,
}

/// Something UIKit could deliver to the window, described rather than posted.
#[derive(Debug, Clone, PartialEq)]
pub enum DescribedInput<C> {
    /// A hardware key press (`pressesBegan:` and friends on the metal view).
    Press(DescribedPress),
    /// One `touches…:withEvent:` set: every touch in it shares the callback.
    Touches(Vec<DescribedTouch<C>>),
    /// The pinch recognizer firing.
    Pinch(DescribedPinch<C>),
    /// The text system's `insertText:` on the text input view.
    InsertText(String),
    /// The text system's `deleteBackward` on the text input view.
    DeleteBackward,
}

/// What a US keyboard types for a usage: `(unshifted, shifted)`, `None` for a key that types
/// nothing (arrows, modifiers, function keys).
pub open spec fn us_characters(usage: u32) -> Option<(char, char)> {
    if 0x04 <= usage <= 0x1D {
        Some((('a' as u32 + (usage - 0x04)) as char, ('A' as u32 + (usage - 0x04)) as char))
    } else {
        match usage {
            0x1E => Some(('1', '!')),
            0x1F => Some(('2', '@')),
            0x20 => Some(('3', '#')),
            0x21 => Some(('4', '$')),
            0x22 => Some(('5', '%')),
            0x23 => Some(('6', '^')),
            0x24 => Some(('7', '&')),
            0x25 => Some(('8', '*')),
            0x26 => Some(('9', '(')),
            0x27 => Some(('0', ')')),
            0x28 => Some(('\r', '\r')),
            0x58 => Some(('\r', '\r')),
            0x29 => Some(('\u{1b}', '\u{1b}')),
            0x2A => Some(('\u{8}', '\u{8}')),
            0x2B => Some(('\t', '\t')),
            0x2C => Some((' ', ' ')),
            0x2D => Some(('-', '_')),
            0x2E => Some(('=', '+')),
            0x2F => Some(('[', '{')),
            0x30 => Some((']', '}')),
            0x31 => Some(('\\', '|')),
            0x33 => Some((';', ':')),
            0x34 => Some(('\'', '"')),
            0x35 => Some(('`', '~')),
            0x36 => Some((',', '<')),
            0x37 => Some(('.', '>')),
            0x38 => Some(('/', '?')),
            _ => None,
        }
    }
}

/// The usages of the letter keys, `A` first.
pub open spec fn letter_usage(usage: u32) -> bool {
    0x04 <= usage <= 0x1D
}

pub fn us_pair(usage: u32) -> (pair: Option<(char, char)>)
    ensures
        pair == us_characters(usage),
{
    if 0x04 <= usage && usage <= 0x1D {
        let place: u8 = (usage - 0x04) as u8;
        return Some(((0x61u8 + place) as char, (0x41u8 + place) as char));
    }
    match usage {
        0x1E => Some(('1', '!')),
        0x1F => Some(('2', '@')),
        0x20 => Some(('3', '#')),
        0x21 => Some(('4', '$')),
        0x22 => Some(('5', '%')),
        0x23 => Some(('6', '^')),
        0x24 => Some(('7', '&')),
        0x25 => Some(('8', '*')),
        0x26 => Some(('9', '(')),
        0x27 => Some(('0', ')')),
        0x28 => Some(('\r', '\r')),
        0x58 => Some(('\r', '\r')),
        0x29 => Some(('\u{1b}', '\u{1b}')),
        0x2A => Some(('\u{8}', '\u{8}')),
        0x2B => Some(('\t', '\t')),
        0x2C => Some((' ', ' ')),
        0x2D => Some(('-', '_')),
        0x2E => Some(('=', '+')),
        0x2F => Some(('[', '{')),
        0x30 => Some((']', '}')),
        0x31 => Some(('\\', '|')),
        0x33 => Some((';', ':')),
        0x34 => Some(('\'', '"')),
        0x35 => Some(('`', '~')),
        0x36 => Some((',', '<')),
        0x37 => Some(('.', '>')),
        0x38 => Some(('/', '?')),
        _ => None,
    }
}

/// The C0 code of a lowercase letter: 1 for `a`, 26 for `z`.
pub open spec fn control_code(letter: char) -> char {
    (letter as u32 - 0x60) as char
}

/// What UIKit's layout engine would fill in for a US key.
pub open spec fn us_key_characters(usage: u32, flags: u32) -> UiKeyView {
    let shift = flags & SHIFT != 0;
    let caps = flags & ALPHA_SHIFT != 0;
    match us_characters(usage) {
        None => UiKeyView {
            hid: usage,
            characters: seq![],
            characters_ignoring_modifiers: seq![],
            flags,
        },
        Some((plain, shifted)) => UiKeyView {
            hid: usage,
            characters: if flags & COMMAND != 0 {
                seq![]
            } else if flags & CONTROL != 0 && letter_usage(usage) {
                seq![control_code(plain)]
            } else if shift || (caps && letter_usage(usage)) {
                seq![shifted]
            } else {
                seq![plain]
            },
            characters_ignoring_modifiers: seq![
                if shift {
                    shifted
                } else {
                    plain
                },
            ],
            flags,
        },
    }
}

/// The `UIKey` a US keyboard would hand the window for `usage` under `flags`: what UIKit's
/// layout engine fills into `characters` and `charactersIgnoringModifiers`.
///
/// `charactersIgnoringModifiers` ignores everything but Shift (so `!` for shift-1, `A` for
/// shift-a); `characters` also applies caps lock to a letter and Control (the C0 code of a
/// letter, as UIKit reports it), and is empty under Command, the way a Mac reports a chord.
/// Option is left as the plain character: the dead-key and symbol layer of a real layout is not
/// modelled here.
pub fn us_key(usage: u32, flags: u32) -> (key: UiKey)
    ensures
        key@ == us_key_characters(usage, flags),
{
    let shift = flags & SHIFT != 0;
    let caps = flags & ALPHA_SHIFT != 0;
    let (ignoring, characters) = match us_pair(usage) {
        Some((plain, shifted)) => {
            let letter = 'a' <= plain && plain <= 'z';
            let characters = if flags & COMMAND != 0 {
                String::new()
            } else if flags & CONTROL != 0 && letter {
                let code: u32 = plain as u32;
                single((code - 0x60) as u8 as char)
            } else if shift || (caps && letter) {
                single(shifted)
            } else {
                single(plain)
            };
            let ignoring = if shift {
                shifted
            } else {
                plain
            };
            (single(ignoring), characters)
        },
        None => (String::new(), String::new()),
    };
    UiKey { hid: usage, characters, characters_ignoring_modifiers: ignoring, flags }
}

} // verus!
