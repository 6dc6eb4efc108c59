use vstd::prelude::*;

verus! {

/// The position of an event within the samples of one update, counted in samples.
#[derive(Debug, Clone, Copy, PartialEq, Eq, Hash)]
pub struct SampleOffset {
    pub value: u32,
}

impl SampleOffset {
    pub fn from_value(value: u32) -> (r: Self)
        ensures
            r.value == value,
    {
        Self { value }
    }
}

} // verus!
