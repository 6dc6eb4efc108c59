use vstd::prelude::*;

use crate::names::str_eq;

verus! {

/// The `[rack]` section of a configuration.
#[derive(Debug, PartialEq, Eq)]
pub struct RackConfig {
    pub bitrate: u32,
}

/// The meter (time signature) of the score, such as 3/4 or 4/4.
#[derive(Debug, Clone, Copy, PartialEq, Eq, Default)]
pub struct MeterConfig {
    pub numerator: i32,
    pub denominator: i32,
}

/// An instrument and one of its ports, both by name.
#[derive(Debug, PartialEq, Eq)]
pub struct EndPointConfig {
    pub instrument: String,
    pub port: String,
}

/// A configured connection from a source end point to a target end point.
#[derive(Debug, PartialEq, Eq)]
pub struct ConnectionConfig {
    pub source: EndPointConfig,
    pub target: EndPointConfig,
}

/// A connection written as `[source instrument, source port, target instrument, target port]`.
pub type EndPointConfigTuple = (String, String, String, String);

/// The `[connections]` section of a configuration: a list of connection tuples.
#[derive(Debug, PartialEq, Eq, Default)]
pub struct EndPointConfigTuples {
    pub endpoints: Vec<EndPointConfigTuple>,
}

/// The connection that a tuple describes, by the views of its four names.
pub open spec fn tuple_describes(t: EndPointConfigTuple, c: ConnectionConfig) -> bool {
    &&& c.source.instrument@ == t.0@
    &&& c.source.port@ == t.1@
    &&& c.target.instrument@ == t.2@
    &&& c.target.port@ == t.3@
}

impl ConnectionConfig {
    /// Turns each `[source, source port, target, target port]` tuple into a
    /// connection, keeping the order of the tuples.
    pub fn from_connection_tuples(tuples: &Vec<EndPointConfigTuple>) -> (r: Vec<ConnectionConfig>)
        ensures
            r.len() == tuples.len(),
            forall|i: int| 0 <= i < r.len() ==> tuple_describes(#[trigger] tuples[i], r[i]),
    {
        let mut result: Vec<ConnectionConfig> = Vec::new();
        let mut i: usize = 0;
        while i < tuples.len()
            invariant
                i <= tuples.len(),
                result.len() == i,
                forall|j: int| 0 <= j < i ==> tuple_describes(#[trigger] tuples[j], result[j]),
            decreases tuples.len() - i,
        {
            let t = &tuples[i];
            result.push(ConnectionConfig {
                source: EndPointConfig { instrument: t.0.clone(), port: t.1.clone() },
                target: EndPointConfig { instrument: t.2.clone(), port: t.3.clone() },
            });
            i = i + 1;
        }
        result
    }
}

/// The position of the first of the configured instrument names that is
/// `name`, if any.
pub fn instrument_index_by_name(names: &Vec<String>, name: &str) -> (r: Option<usize>)
    ensures
        match r {
            Some(i) => i < names.len() && names[i as int]@ == name@ && forall|j: int|
                0 <= j < i ==> (#[trigger] names[j])@ != name@,
            None => forall|j: int| 0 <= j < names.len() ==> (#[trigger] names[j])@ != name@,
        },
{
    let mut i: usize = 0;
    while i < names.len()
        invariant
            i <= names.len(),
            forall|j: int| 0 <= j < i ==> (#[trigger] names[j])@ != name@,
        decreases names.len() - i,
    {
        if str_eq(names[i].as_str(), name) {
            return Some(i);
        }
        i = i + 1;
    }
    None
}

} // verus!
