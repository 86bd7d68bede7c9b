use vstd::prelude::*;

verus! {

/// The data attached to a virtual-keyboard object of the protocol.
#[derive(Debug, Clone, Copy, PartialEq, Eq, Structural)]
pub struct VirtualKeyboard {}

} // verus!
