use vstd::prelude::*;

verus! {

/// The state of the keyboard modifiers: each field says whether that
/// modifier is active (pressed or toggled).
#[derive(Debug, Clone, Copy, Default, PartialEq, Eq, Structural)]
pub struct Modifiers {
    pub ctrl: bool,
    pub alt: bool,
    pub shift: bool,
    pub caps_lock: bool,
    pub logo: bool,
    pub num_lock: bool,
}

/// Modifier masks as the compositor sends them.
#[derive(Debug, Clone, Copy, Default, PartialEq, Eq, Structural)]
pub struct RawModifiers {
    pub mods_depressed: u32,
    pub mods_latched: u32,
    pub mods_locked: u32,
    pub group: u32,
}

impl Modifiers {
    /// No modifier active.
    pub fn none() -> (r: Modifiers)
        ensures
            !r.ctrl && !r.alt && !r.shift && !r.caps_lock && !r.logo && !r.num_lock,
    {
        Modifiers { ctrl: false, alt: false, shift: false, caps_lock: false, logo: false, num_lock: false }
    }
}

} // verus!
