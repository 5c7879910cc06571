//! What is done about a key, before a keyboard layout says what it types.

use vstd::prelude::*;

verus! {

/// The layout that is used where another cannot be compiled.
pub const FALLBACK_LAYOUT: &'static str = "us";

/// The keyboard model that layouts are compiled for.
pub const KEYBOARD_MODEL: &'static str = "pc105";

/// What the kernel's key numbers are off by from those of XKB.
pub const EVDEV_OFFSET: u32 = 8;

/// The layout to use: the wanted one where it compiles, and the fallback
/// otherwise.
pub fn layout_to_use(wanted: &str, compiles: bool) -> (layout: String)
    ensures
        layout@ == if compiles {
            wanted@
        } else {
            FALLBACK_LAYOUT@
        },
{
    if compiles {
        wanted.to_string()
    } else {
        FALLBACK_LAYOUT.to_string()
    }
}

/// What is done about a key.
#[derive(Clone, Copy, Debug, PartialEq, Eq, Structural)]
pub struct KeyPlan {
    /// The key's number in XKB.
    pub keycode: u32,
    /// Whether its text is read first, before it changes what is held.
    pub reads_text: bool,
    /// Whether it goes down then, or up.
    pub down: bool,
}

/// What is done about a key, by the kernel's number for it. A key types when it
/// goes down, by what was held before it did; one that goes up types nothing.
pub fn key_event(evdev_keycode: u32, pressed: bool) -> (plan: KeyPlan)
    requires
        evdev_keycode <= u32::MAX - EVDEV_OFFSET,
    ensures
        plan.keycode == evdev_keycode + EVDEV_OFFSET,
        plan.reads_text == pressed,
        plan.down == pressed,
{
    KeyPlan { keycode: evdev_keycode + EVDEV_OFFSET, reads_text: pressed, down: pressed }
}

/// XKB's numbers are the kernel's, eight further on, so that no two keys of the kernel's
/// share one of XKB's.
pub proof fn law_xkb_numbers_are_eight_further_on(a: u32, b: u32)
    ensures
        EVDEV_OFFSET == 8,
        a + EVDEV_OFFSET == b + EVDEV_OFFSET <==> a == b,
{
}

} // verus!
