//! Neurons, connections and the genome they form.
use vstd::prelude::*;

use crate::random::random_below;
use crate::{CONNECTIONS_N, INPUTS_N, INTERMEDIATES_N, OUTPUTS_N};

verus! {

/// A slot in one of the three neuron pools, with its pool-local index.
#[derive(Clone, Copy, Debug, PartialEq, Eq, Structural)]
pub enum Neuron {
    Input(usize),
    Intermediate(usize),
    Output(usize),
}

/// Where a connection reads its value from during actuation.
#[derive(Clone, Copy, Debug, PartialEq, Eq, Structural)]
pub enum Source {
    /// A component of the external force.
    Input(usize),
    /// An entry of the agent's internal state.
    Intermediate(usize),
}

/// Where a connection writes its value to during actuation.
#[derive(Clone, Copy, Debug, PartialEq, Eq, Structural)]
pub enum Target {
    /// An entry of the agent's internal state.
    Intermediate(usize),
    /// A component of the output force.
    Output(usize),
}

impl Neuron {
    /// The pool tag: 0 for inputs, 1 for intermediates, 2 for outputs.
    pub open spec fn discriminant(self) -> u8 {
        match self {
            Neuron::Input(_) => 0,
            Neuron::Intermediate(_) => 1,
            Neuron::Output(_) => 2,
        }
    }

    /// The pool-local index.
    pub open spec fn value(self) -> usize {
        match self {
            Neuron::Input(i) => i,
            Neuron::Intermediate(i) => i,
            Neuron::Output(i) => i,
        }
    }

    /// A neuron a connection may start at: an input or an intermediate, within its pool.
    pub open spec fn is_source(self) -> bool {
        match self {
            Neuron::Input(i) => i < INPUTS_N,
            Neuron::Intermediate(i) => i < INTERMEDIATES_N,
            Neuron::Output(_) => false,
        }
    }

    /// A neuron a connection may end at: an intermediate or an output, within its pool.
    pub open spec fn is_target(self) -> bool {
        match self {
            Neuron::Input(_) => false,
            Neuron::Intermediate(i) => i < INTERMEDIATES_N,
            Neuron::Output(i) => i < OUTPUTS_N,
        }
    }

    pub fn get_discriminant(&self) -> (r: u8)
        ensures
            r == self.discriminant(),
    {
        match self {
            Neuron::Input(_) => 0,
            Neuron::Intermediate(_) => 1,
            Neuron::Output(_) => 2,
        }
    }

    pub fn get_value(&self) -> (r: usize)
        ensures
            r == self.value(),
    {
        match self {
            Neuron::Input(n) => *n,
            Neuron::Intermediate(n) => *n,
            Neuron::Output(n) => *n,
        }
    }
}

/// A weighted directed edge between two neurons.
///
/// The weight is kept as the bit pattern of an IEEE-754 single-precision
/// number: the genome's identity and encoding depend on those bits only.
#[derive(Clone, Copy, Debug, PartialEq, Eq, Structural)]
pub struct Connection {
    pub from: Neuron,
    pub to: Neuron,
    pub weight_bits: u32,
}

impl Connection {
    /// Starts at an input or intermediate and ends at an intermediate or output,
    /// each index within its pool.
    pub open spec fn wf(self) -> bool {
        self.from.is_source() && self.to.is_target()
    }

    pub fn new(from: Neuron, to: Neuron, weight_bits: u32) -> (r: Connection)
        ensures
            r == (Connection { from, to, weight_bits }),
    {
        Connection { from, to, weight_bits }
    }

    pub fn is_well_formed(&self) -> (r: bool)
        ensures
            r == self.wf(),
    {
        let source_ok = match self.from {
            Neuron::Input(i) => i < INPUTS_N,
            Neuron::Intermediate(i) => i < INTERMEDIATES_N,
            Neuron::Output(_) => false,
        };
        let target_ok = match self.to {
            Neuron::Input(_) => false,
            Neuron::Intermediate(i) => i < INTERMEDIATES_N,
            Neuron::Output(i) => i < OUTPUTS_N,
        };
        source_ok && target_ok
    }

    /// The slot read by this connection, or `None` when `from` is not a valid source.
    pub fn source(&self) -> (r: Option<Source>)
        ensures
            r == (if self.from.is_source() {
                Some(
                    match self.from {
                        Neuron::Input(i) => Source::Input(i),
                        _ => Source::Intermediate(self.from.value()),
                    },
                )
            } else {
                None
            }),
    {
        match self.from {
            Neuron::Input(i) => if i < INPUTS_N {
                Some(Source::Input(i))
            } else {
                None
            },
            Neuron::Intermediate(i) => if i < INTERMEDIATES_N {
                Some(Source::Intermediate(i))
            } else {
                None
            },
            Neuron::Output(_) => None,
        }
    }

    /// The slot written by this connection, or `None` when `to` is not a valid target.
    pub fn target(&self) -> (r: Option<Target>)
        ensures
            r == (if self.to.is_target() {
                Some(
                    match self.to {
                        Neuron::Output(i) => Target::Output(i),
                        _ => Target::Intermediate(self.to.value()),
                    },
                )
            } else {
                None
            }),
    {
        match self.to {
            Neuron::Input(_) => None,
            Neuron::Intermediate(i) => if i < INTERMEDIATES_N {
                Some(Target::Intermediate(i))
            } else {
                None
            },
            Neuron::Output(i) => if i < OUTPUTS_N {
                Some(Target::Output(i))
            } else {
                None
            },
        }
    }

    /// A connection with uniformly drawn endpoints and the given weight: the
    /// source is an input or an intermediate with equal chance, the target an
    /// intermediate or an output with equal chance, each index uniform in its pool.
    pub fn random(weight_bits: u32) -> (r: Connection)
        ensures
            r.wf(),
            r.weight_bits == weight_bits,
    {
        let input = Neuron::Input(random_below(INPUTS_N));
        let from_intermediate = Neuron::Intermediate(random_below(INTERMEDIATES_N));
        let to_intermediate = Neuron::Intermediate(random_below(INTERMEDIATES_N));
        let output = Neuron::Output(random_below(OUTPUTS_N));
        let from = if random_below(2) == 0 {
            input
        } else {
            from_intermediate
        };
        let to = if random_below(2) == 0 {
            to_intermediate
        } else {
            output
        };
        Connection { from, to, weight_bits }
    }
}

/// A genome: a fixed-length ordered sequence of connections.
#[derive(Clone, Copy, Debug, PartialEq, Eq)]
pub struct NeuralNetwork {
    pub connections: [Connection; CONNECTIONS_N],
}

impl NeuralNetwork {
    /// Every connection is well formed.
    pub open spec fn wf(self) -> bool {
        forall|i: int| 0 <= i < CONNECTIONS_N ==> (#[trigger] self.connections@[i]).wf()
    }

    pub fn is_well_formed(&self) -> (r: bool)
        ensures
            r == self.wf(),
    {
        let mut i: usize = 0;
        while i < CONNECTIONS_N
            invariant
                i <= CONNECTIONS_N,
                forall|j: int| 0 <= j < i ==> (#[trigger] self.connections@[j]).wf(),
            decreases CONNECTIONS_N - i,
        {
            if !self.connections[i].is_well_formed() {
                return false;
            }
            i += 1;
        }
        true
    }

    /// A genome of independently drawn connections carrying the given weights in order.
    pub fn random(weights: [u32; CONNECTIONS_N]) -> (r: NeuralNetwork)
        ensures
            r.wf(),
            forall|i: int| 0 <= i < CONNECTIONS_N ==> (#[trigger] r.connections@[i]).weight_bits == weights@[i],
    {
        let connections = [
            Connection::random(weights[0]),
            Connection::random(weights[1]),
            Connection::random(weights[2]),
            Connection::random(weights[3]),
            Connection::random(weights[4]),
            Connection::random(weights[5]),
            Connection::random(weights[6]),
            Connection::random(weights[7]),
        ];
        NeuralNetwork { connections }
    }
}

} // verus!
