use vstd::prelude::*;

verus! {

/// Identifies a parameter of an instrument, such as its frequency.
#[derive(Clone, Copy, PartialEq, Eq, Debug, Structural)]
pub struct ParameterId(pub u32);

} // verus!
