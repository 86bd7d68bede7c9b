use vstd::prelude::*;
use crate::wayland_events::input_method::RawModifiers as EventRawModifiers;

verus! {

/// Modifier masks as the input method's keyboard grab reports them.
#[derive(Debug, Clone, Copy, Default, PartialEq, Eq, Structural)]
pub struct RawModifiers {
    pub mods_depressed: u32,
    pub mods_latched: u32,
    pub mods_locked: u32,
    pub group: u32,
}

impl From<EventRawModifiers> for RawModifiers {
    fn from(value: EventRawModifiers) -> (r: RawModifiers) {
        RawModifiers {
            mods_depressed: value.mods_depressed,
            mods_latched: value.mods_latched,
            mods_locked: value.mods_locked,
            group: value.group,
        }
    }
}

impl vstd::std_specs::convert::FromSpecImpl<EventRawModifiers> for RawModifiers {
    open spec fn obeys_from_spec() -> bool {
        true
    }

    open spec fn from_spec(value: EventRawModifiers) -> RawModifiers {
        RawModifiers {
            mods_depressed: value.mods_depressed,
            mods_latched: value.mods_latched,
            mods_locked: value.mods_locked,
            group: value.group,
        }
    }
}

impl From<RawModifiers> for EventRawModifiers {
    fn from(value: RawModifiers) -> (r: EventRawModifiers) {
        EventRawModifiers {
            mods_depressed: value.mods_depressed,
            mods_latched: value.mods_latched,
            mods_locked: value.mods_locked,
            group: value.group,
        }
    }
}

impl vstd::std_specs::convert::FromSpecImpl<RawModifiers> for EventRawModifiers {
    open spec fn obeys_from_spec() -> bool {
        true
    }

    open spec fn from_spec(value: RawModifiers) -> EventRawModifiers {
        EventRawModifiers {
            mods_depressed: value.mods_depressed,
            mods_latched: value.mods_latched,
            mods_locked: value.mods_locked,
            group: value.group,
        }
    }
}

} // verus!
