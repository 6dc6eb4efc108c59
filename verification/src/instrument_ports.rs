use vstd::prelude::*;

use crate::connection::PortId;
use crate::port::{InputPort, OutputPort};

verus! {

/// Resolves the configured name of a port to its index on an instrument.
pub trait PortResolver {
    /// The output port that `name` resolves to. Each instrument has its own;
    /// what the library knows of it is only that `output_port` gives it.
    closed spec fn output_port_named(&self, name: Seq<char>) -> Option<PortId> {
        arbitrary()
    }

    /// The input port that `name` resolves to.
    closed spec fn input_port_named(&self, name: Seq<char>) -> Option<PortId> {
        arbitrary()
    }

    fn output_port(&self, name: &str) -> (r: Option<PortId>)
        ensures
            r == self.output_port_named(name@),
    ;

    fn input_port(&self, name: &str) -> (r: Option<PortId>)
        ensures
            r == self.input_port_named(name@),
    ;
}

/// The input and output ports of an instrument, indexed by `PortId`.
#[verifier::reject_recursive_types(T)]
pub struct InstrumentPorts<T> {
    input_ports: Vec<InputPort<T>>,
    output_ports: Vec<OutputPort<T>>,
}

impl<T> InstrumentPorts<T> {
    /// The input ports, by index.
    pub closed spec fn inputs(&self) -> Seq<InputPort<T>> {
        self.input_ports@
    }

    /// The output ports, by index.
    pub closed spec fn outputs(&self) -> Seq<OutputPort<T>> {
        self.output_ports@
    }

    /// `input_ports` input ports and `output_ports` output ports, none of them connected.
    pub fn new(input_ports: usize, output_ports: usize) -> (r: Self)
        ensures
            r.inputs().len() == input_ports,
            r.outputs().len() == output_ports,
            forall|i: int| 0 <= i < input_ports ==> !(#[trigger] r.inputs()[i]).connected(),
            forall|i: int| 0 <= i < output_ports ==> !(#[trigger] r.outputs()[i]).connected(),
    {
        let mut inputs: Vec<InputPort<T>> = Vec::new();
        let mut i: usize = 0;
        while i < input_ports
            invariant
                i <= input_ports,
                inputs.len() == i,
                forall|j: int| 0 <= j < i ==> !(#[trigger] inputs@[j]).connected(),
            decreases input_ports - i,
        {
            inputs.push(InputPort::new());
            i = i + 1;
        }
        let mut outputs: Vec<OutputPort<T>> = Vec::new();
        let mut i: usize = 0;
        while i < output_ports
            invariant
                i <= output_ports,
                outputs.len() == i,
                forall|j: int| 0 <= j < i ==> !(#[trigger] outputs@[j]).connected(),
            decreases output_ports - i,
        {
            outputs.push(OutputPort::new());
            i = i + 1;
        }
        InstrumentPorts { input_ports: inputs, output_ports: outputs }
    }

    /// How many input ports there are.
    pub fn input_count(&self) -> (r: usize)
        ensures
            r == self.inputs().len(),
    {
        self.input_ports.len()
    }

    /// How many output ports there are.
    pub fn output_count(&self) -> (r: usize)
        ensures
            r == self.outputs().len(),
    {
        self.output_ports.len()
    }

    /// The input port `id`.
    pub fn input_port_mut(&mut self, id: PortId) -> (r: &mut InputPort<T>)
        requires
            id < old(self).inputs().len(),
        ensures
            *r == old(self).inputs()[id as int],
            final(self).inputs() == old(self).inputs().update(id as int, *final(r)),
            final(self).outputs() == old(self).outputs(),
    {
        &mut self.input_ports[id]
    }

    /// The output port `id`.
    pub fn output_port_mut(&mut self, id: PortId) -> (r: &mut OutputPort<T>)
        requires
            id < old(self).outputs().len(),
        ensures
            *r == old(self).outputs()[id as int],
            final(self).outputs() == old(self).outputs().update(id as int, *final(r)),
            final(self).inputs() == old(self).inputs(),
    {
        &mut self.output_ports[id]
    }
}

} // verus!
