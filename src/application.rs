use vstd::prelude::*;

verus! {

/// Marker for the platform state that the runtime hands to the protocol
/// layer's dispatchers.
#[derive(Debug, Clone, Copy, PartialEq, Eq, Structural)]
pub struct IcedSctkState;

} // verus!
