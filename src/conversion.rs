use vstd::prelude::*;
use crate::wayland_events::input_method::Modifiers;

verus! {

/// Linux input event code of the left mouse button.
pub const BTN_LEFT: u32 = 0x110;
/// Linux input event code of the right mouse button.
pub const BTN_RIGHT: u32 = 0x111;
/// Linux input event code of the middle mouse button.
pub const BTN_MIDDLE: u32 = 0x112;

/// The runtime's mouse buttons.
#[derive(Debug, Clone, Copy, PartialEq, Eq, Structural)]
pub enum MouseButton {
    Left,
    Right,
    Middle,
    Other(u16),
}

/// A key that could not be converted.
#[derive(Debug, Clone, Copy, PartialEq, Eq, Structural)]
pub struct KeyCodeError(pub u32);

/// The runtime's modifier set, as bits.
#[derive(Debug, Clone, Copy, PartialEq, Eq, Structural)]
pub struct NativeModifiers {
    pub bits: u32,
}

pub const SHIFT: u32 = 0b100;
pub const CTRL: u32 = 0b100_000;
pub const ALT: u32 = 0b100_000_000;
pub const LOGO: u32 = 0b100_000_000_000;

/// What the pointer over a widget suggests.
#[derive(Debug, Clone, Copy, PartialEq, Eq, Structural)]
pub enum Interaction {
    Idle,
    Pointer,
    Grab,
    Text,
    Crosshair,
    Working,
    Grabbing,
    ResizingHorizontally,
    ResizingVertically,
    NotAllowed,
}

/// The cursor shapes of the compositor's cursor-shape protocol that the
/// runtime uses.
#[derive(Debug, Clone, Copy, PartialEq, Eq, Structural)]
pub enum CursorIcon {
    Default,
    Pointer,
    Grab,
    Text,
    Crosshair,
    Progress,
    Grabbing,
    EwResize,
    NsResize,
    NotAllowed,
    NResize,
    SResize,
    WResize,
    EResize,
    NwResize,
    SwResize,
    NeResize,
    SeResize,
}

/// The runtime's button for a Linux button code: the three usual buttons by
/// name, any other code that fits in 16 bits as `Other`, and none otherwise.
pub open spec fn button_of(button: u32) -> Option<MouseButton> {
    if button == BTN_LEFT {
        Some(MouseButton::Left)
    } else if button == BTN_RIGHT {
        Some(MouseButton::Right)
    } else if button == BTN_MIDDLE {
        Some(MouseButton::Middle)
    } else if button <= u16::MAX {
        Some(MouseButton::Other(button as u16))
    } else {
        None
    }
}

pub fn pointer_button_to_native(button: u32) -> (r: Option<MouseButton>)
    ensures
        r == button_of(button),
{
    if button == BTN_LEFT {
        Some(MouseButton::Left)
    } else if button == BTN_RIGHT {
        Some(MouseButton::Right)
    } else if button == BTN_MIDDLE {
        Some(MouseButton::Middle)
    } else if button <= 65535 {
        Some(MouseButton::Other(button as u16))
    } else {
        None
    }
}

/// The bits of the modifiers that the runtime knows: alt, control, logo
/// and shift. Caps lock and num lock have no bit.
pub open spec fn modifier_bits(mods: Modifiers) -> u32 {
    ((if mods.alt { ALT } else { 0 }) + (if mods.ctrl { CTRL } else { 0 }) + (if mods.logo { LOGO } else { 0 }) + (if mods.shift {
        SHIFT
    } else {
        0
    })) as u32
}

pub fn modifiers_to_native(mods: Modifiers) -> (r: NativeModifiers)
    ensures
        r.bits == modifier_bits(mods),
{
    let mut bits: u32 = 0;
    if mods.alt {
        bits = bits + ALT;
    }
    if mods.ctrl {
        bits = bits + CTRL;
    }
    if mods.logo {
        bits = bits + LOGO;
    }
    if mods.shift {
        bits = bits + SHIFT;
    }
    NativeModifiers { bits }
}

impl NativeModifiers {
    pub fn shift(&self) -> (r: bool)
        ensures
            r == (self.bits & SHIFT != 0),
    {
        self.bits & SHIFT != 0
    }

    pub fn control(&self) -> (r: bool)
        ensures
            r == (self.bits & CTRL != 0),
    {
        self.bits & CTRL != 0
    }

    pub fn alt(&self) -> (r: bool)
        ensures
            r == (self.bits & ALT != 0),
    {
        self.bits & ALT != 0
    }

    pub fn logo(&self) -> (r: bool)
        ensures
            r == (self.bits & LOGO != 0),
    {
        self.bits & LOGO != 0
    }
}

/// The cursor shape that shows an interaction.
pub open spec fn icon_of(cursor: Interaction) -> CursorIcon {
    match cursor {
        Interaction::Idle => CursorIcon::Default,
        Interaction::Pointer => CursorIcon::Pointer,
        Interaction::Grab => CursorIcon::Grab,
        Interaction::Text => CursorIcon::Text,
        Interaction::Crosshair => CursorIcon::Crosshair,
        Interaction::Working => CursorIcon::Progress,
        Interaction::Grabbing => CursorIcon::Grabbing,
        Interaction::ResizingHorizontally => CursorIcon::EwResize,
        Interaction::ResizingVertically => CursorIcon::NsResize,
        Interaction::NotAllowed => CursorIcon::NotAllowed,
    }
}

pub fn cursor_icon(cursor: Interaction) -> (r: CursorIcon)
    ensures
        r == icon_of(cursor),
{
    match cursor {
        Interaction::Idle => CursorIcon::Default,
        Interaction::Pointer => CursorIcon::Pointer,
        Interaction::Grab => CursorIcon::Grab,
        Interaction::Text => CursorIcon::Text,
        Interaction::Crosshair => CursorIcon::Crosshair,
        Interaction::Working => CursorIcon::Progress,
        Interaction::Grabbing => CursorIcon::Grabbing,
        Interaction::ResizingHorizontally => CursorIcon::EwResize,
        Interaction::ResizingVertically => CursorIcon::NsResize,
        Interaction::NotAllowed => CursorIcon::NotAllowed,
    }
}

} // verus!
