use vstd::prelude::*;

pub mod keyboard;

verus! {

/// The data attached to an input-method object of the protocol.
#[derive(Debug, Clone, Copy, PartialEq, Eq, Structural)]
pub struct InputMethod {}

} // verus!
