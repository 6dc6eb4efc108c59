use vstd::prelude::*;

use crate::port::PortError;

verus! {

/// Why an instrument could not update.
#[derive(Debug)]
pub enum InstrumentError {
    GeneralError(String),
    /// A port of the named instrument failed.
    PortError(String, PortError),
}

impl InstrumentError {
    /// The failure of a port of the instrument called `name`.
    pub fn from_port_error(name: &str, err: PortError) -> (r: Self)
        ensures
            r matches InstrumentError::PortError(n, e) && n@ == name@ && e == err,
    {
        InstrumentError::PortError(name.to_owned(), err)
    }
}

} // verus!
