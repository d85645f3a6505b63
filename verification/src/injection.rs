//! Delivery of a described input, and the look of the status bar.

use crate::described::DescribedInput;
use vstd::prelude::*;
use vstd::string::*;

verus! {

/// Why a described input could not be delivered.
#[derive(Debug, Clone, Copy, PartialEq, Eq, Structural)]
pub enum InjectError {
    /// Called off the main thread; UIKit delivers on it and so does this.
    NotMainThread,
    /// No window is open.
    NoWindow,
}

impl InjectError {
    /// The error in words.
    pub fn message(&self) -> (text: &'static str)
        ensures
            text@ == match *self {
                InjectError::NotMainThread => "inject: not on the main thread"@,
                InjectError::NoWindow => "inject: no window"@,
            },
    {
        match self {
            InjectError::NotMainThread => "inject: not on the main thread",
            InjectError::NoWindow => "inject: no window",
        }
    }
}

/// Admits a described input for delivery to the open window, as if UIKit had handed it over:
/// only on the main thread, and only to a window. What comes back is what the window delivers.
pub fn inject<C>(
    input: DescribedInput<C>,
    on_main_thread: bool,
    window_is_open: bool,
) -> (admitted: Result<DescribedInput<C>, InjectError>)
    ensures
        admitted == if !on_main_thread {
            Err(InjectError::NotMainThread)
        } else if !window_is_open {
            Err(InjectError::NoWindow)
        } else {
            Ok(input)
        },
{
    if !on_main_thread {
        Err(InjectError::NotMainThread)
    } else if !window_is_open {
        Err(InjectError::NoWindow)
    } else {
        Ok(input)
    }
}

/// The foreground color used by the iOS status bar.
#[derive(Debug, Clone, Copy, PartialEq, Eq, Structural)]
pub enum StatusBarContentStyle {
    /// Light status-bar content for dark backgrounds.
    Light,
    /// Dark status-bar content for light backgrounds.
    Dark,
}

impl Default for StatusBarContentStyle {
    fn default() -> (style: Self)
        ensures
            style == StatusBarContentStyle::Dark,
    {
        StatusBarContentStyle::Dark
    }
}

} // verus!
