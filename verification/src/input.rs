//! Keys and buttons, as the window hands them over.

use vstd::prelude::*;

verus! {

/// The modifier keys that are held.
#[derive(Debug, Clone, Copy, PartialEq, Eq, Structural)]
pub struct Modifiers {
    pub control: bool,
    pub alt: bool,
    pub shift: bool,
    pub platform: bool,
}

impl Default for Modifiers {
    fn default() -> (none: Self)
        ensures
            none == (Modifiers { control: false, alt: false, shift: false, platform: false }),
    {
        Modifiers { control: false, alt: false, shift: false, platform: false }
    }
}

/// A button of the mouse.
#[derive(Debug, Clone, Copy, PartialEq, Eq, Structural)]
pub enum MouseButton {
    Left,
    Right,
    Middle,
    Back,
    Forward,
}

} // verus!
