use vstd::prelude::*;

use crate::names::str_eq;

verus! {

/// Index of a port on an instrument.
pub type PortId = usize;

/// One end of a connection: a named instrument and one of its ports.
#[derive(Debug)]
pub struct EndPoint {
    pub instrument_name: String,
    pub port: PortId,
}

/// A wire from the output port of one instrument to the input port of another.
#[derive(Debug)]
pub struct Connection {
    pub source: EndPoint,
    pub target: EndPoint,
}

/// Whether two connections join the same ports of the same instruments.
pub open spec fn same_wire(a: Connection, b: Connection) -> bool {
    &&& a.source.instrument_name@ == b.source.instrument_name@
    &&& a.source.port == b.source.port
    &&& a.target.instrument_name@ == b.target.instrument_name@
    &&& a.target.port == b.target.port
}

impl Connection {
    /// Whether `connections` holds a connection that joins the same ports of
    /// the same instruments as this one.
    pub fn is_among(&self, connections: &Vec<Connection>) -> (r: bool)
        ensures
            r == exists|i: int| 0 <= i < connections.len() && same_wire(#[trigger] connections[i], *self),
    {
        let mut i: usize = 0;
        while i < connections.len()
            invariant
                i <= connections.len(),
                forall|j: int| 0 <= j < i ==> !same_wire(#[trigger] connections[j], *self),
            decreases connections.len() - i,
        {
            let x = &connections[i];
            if str_eq(x.source.instrument_name.as_str(), self.source.instrument_name.as_str())
                && x.source.port == self.source.port && str_eq(
                x.target.instrument_name.as_str(),
                self.target.instrument_name.as_str(),
            ) && x.target.port == self.target.port {
                return true;
            }
            i = i + 1;
        }
        false
    }
}

} // verus!
