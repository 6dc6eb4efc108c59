use vstd::prelude::*;

use crate::commands::ParameterId;
use crate::connection::PortId;
use crate::names::str_eq;

verus! {

/// The ports of the audio output: a left and a right input.
pub struct AudioOutPorts;

impl AudioOutPorts {
    pub const IN_LEFT: PortId = 0;
    pub const IN_RIGHT: PortId = 1;

    /// The input port called `name`: `IN_LEFT` or `IN_RIGHT`.
    pub fn input_port(name: &str) -> (r: Option<PortId>)
        ensures
            r == if name@ == "IN_LEFT"@ {
                Some(Self::IN_LEFT)
            } else if name@ == "IN_RIGHT"@ {
                Some(Self::IN_RIGHT)
            } else {
                None::<PortId>
            },
    {
        if str_eq(name, "IN_LEFT") {
            Some(Self::IN_LEFT)
        } else if str_eq(name, "IN_RIGHT") {
            Some(Self::IN_RIGHT)
        } else {
            None
        }
    }
}

/// Why the audio output refused a connection.
#[derive(Debug, Clone, Copy, PartialEq, Eq)]
pub enum AudioOutError {
    PortAlreadyConnected(PortId),
}

/// The ports of a stereo delay.
pub struct DelayPorts;

impl DelayPorts {
    pub const IN_LEFT: PortId = 0;
    pub const IN_RIGHT: PortId = 1;
    pub const OUT_LEFT: PortId = 0;
    pub const OUT_RIGHT: PortId = 1;

    /// The output port called `name`: `OUT_LEFT` or `OUT_RIGHT`.
    pub fn output_port(name: &str) -> (r: Option<PortId>)
        ensures
            r == stereo_out(name@),
    {
        stereo_output_port(name)
    }

    /// The input port called `name`: `IN_LEFT` or `IN_RIGHT`.
    pub fn input_port(name: &str) -> (r: Option<PortId>)
        ensures
            r == if name@ == "IN_LEFT"@ {
                Some(Self::IN_LEFT)
            } else if name@ == "IN_RIGHT"@ {
                Some(Self::IN_RIGHT)
            } else {
                None::<PortId>
            },
    {
        if str_eq(name, "IN_LEFT") {
            Some(Self::IN_LEFT)
        } else if str_eq(name, "IN_RIGHT") {
            Some(Self::IN_RIGHT)
        } else {
            None
        }
    }
}

/// The parameters of the delay.
pub struct DelayParameters;

impl DelayParameters {
    pub fn delay() -> (r: ParameterId)
        ensures
            r == ParameterId(0),
    {
        ParameterId(0)
    }
    pub fn decay() -> (r: ParameterId)
        ensures
            r == ParameterId(1),
    {
        ParameterId(1)
    }
}

/// The port that a stereo output called `name` resolves to: `OUT_LEFT` is 0, `OUT_RIGHT` is 1.
pub open spec fn stereo_out(name: Seq<char>) -> Option<PortId> {
    if name == "OUT_LEFT"@ {
        Some(0usize)
    } else if name == "OUT_RIGHT"@ {
        Some(1usize)
    } else {
        None
    }
}

/// Resolves `OUT_LEFT` and `OUT_RIGHT`, the outputs of every stereo instrument.
pub fn stereo_output_port(name: &str) -> (r: Option<PortId>)
    ensures
        r == stereo_out(name@),
{
    if str_eq(name, "OUT_LEFT") {
        Some(0)
    } else if str_eq(name, "OUT_RIGHT") {
        Some(1)
    } else {
        None
    }
}

/// The port that a mono output called `name` resolves to: `OUT` is 0.
pub open spec fn mono_out(name: Seq<char>) -> Option<PortId> {
    if name == "OUT"@ {
        Some(0usize)
    } else {
        None
    }
}

/// The single output of a generator that constantly writes one value.
pub struct DCGeneratorPorts;

impl DCGeneratorPorts {
    pub const OUT: PortId = 0;

    /// The output port called `name`: `OUT`.
    pub fn output_port(name: &str) -> (r: Option<PortId>)
        ensures
            r == mono_out(name@),
    {
        if str_eq(name, "OUT") {
            Some(Self::OUT)
        } else {
            None
        }
    }
}

/// The single output of the noise generator.
pub struct RandomGeneratorPorts;

impl RandomGeneratorPorts {
    pub const OUT: PortId = 0;

    /// The output port called `name`: `OUT`.
    pub fn output_port(name: &str) -> (r: Option<PortId>)
        ensures
            r == mono_out(name@),
    {
        if str_eq(name, "OUT") {
            Some(Self::OUT)
        } else {
            None
        }
    }
}

/// The ports of the oscillator: a stereo output and a control input that
/// modulates its frequency.
pub struct RawSourcePorts;

impl RawSourcePorts {
    pub const OUT_LEFT: PortId = 0;
    pub const OUT_RIGHT: PortId = 1;
    pub const IN_CV: PortId = 0;

    /// The output port called `name`: `OUT_LEFT` or `OUT_RIGHT`.
    pub fn output_port(name: &str) -> (r: Option<PortId>)
        ensures
            r == stereo_out(name@),
    {
        stereo_output_port(name)
    }

    /// The input port called `name`: `IN_CV`.
    pub fn input_port(name: &str) -> (r: Option<PortId>)
        ensures
            r == if name@ == "IN_CV"@ {
                Some(Self::IN_CV)
            } else {
                None::<PortId>
            },
    {
        if str_eq(name, "IN_CV") {
            Some(Self::IN_CV)
        } else {
            None
        }
    }
}

/// The parameters of the oscillator that a `set` command can change.
pub struct RawSourceParameters;

impl RawSourceParameters {
    pub fn frequency() -> (r: ParameterId)
        ensures
            r == ParameterId(0),
    {
        ParameterId(0)
    }
    pub fn waveform() -> (r: ParameterId)
        ensures
            r == ParameterId(1),
    {
        ParameterId(1)
    }
    pub fn fm_depth() -> (r: ParameterId)
        ensures
            r == ParameterId(2),
    {
        ParameterId(2)
    }
}

/// The shape of the oscillator's wave.
#[derive(Debug, Clone, Copy, PartialEq, Eq, Structural)]
pub enum Waveform {
    Silent,
    Sine,
    Saw,
    Square,
}

impl Waveform {
    /// The waveform a configured number selects: 1 sine, 2 sawtooth, 3 square,
    /// anything else silence.
    pub fn from_number(waveform: u32) -> (r: Waveform)
        ensures
            r == match waveform {
                1 => Waveform::Sine,
                2 => Waveform::Saw,
                3 => Waveform::Square,
                _ => Waveform::Silent,
            },
    {
        match waveform {
            1 => Waveform::Sine,
            2 => Waveform::Saw,
            3 => Waveform::Square,
            _ => Waveform::Silent,
        }
    }
}

/// The outputs of the sine source.
pub struct SignalSourcePorts;

impl SignalSourcePorts {
    pub const OUT_LEFT: PortId = 0;
    pub const OUT_RIGHT: PortId = 1;

    /// The output port called `name`: `OUT_LEFT` or `OUT_RIGHT`.
    pub fn output_port(name: &str) -> (r: Option<PortId>)
        ensures
            r == stereo_out(name@),
    {
        stereo_output_port(name)
    }
}

/// The parameters of the sine source.
pub struct SignalSourceParameters;

impl SignalSourceParameters {
    pub fn frequency() -> (r: ParameterId)
        ensures
            r == ParameterId(0),
    {
        ParameterId(0)
    }
}

/// The ports of the two-oscillator synthesizer: a stereo output, and the
/// inputs on which its internal mixer delivers.
pub struct TheOneOhOnePorts;

impl TheOneOhOnePorts {
    pub const OUT_LEFT: PortId = 0;
    pub const OUT_RIGHT: PortId = 1;
    pub const INTERNAL_IN_LEFT: PortId = 0;
    pub const INTERNAL_IN_RIGHT: PortId = 1;

    /// The output port called `name`: `OUT_LEFT` or `OUT_RIGHT`.
    pub fn output_port(name: &str) -> (r: Option<PortId>)
        ensures
            r == stereo_out(name@),
    {
        stereo_output_port(name)
    }

    /// The input port called `name`: `__INTERNAL_IN_LEFT` or `__INTERNAL_IN_RIGHT`.
    pub fn input_port(name: &str) -> (r: Option<PortId>)
        ensures
            r == if name@ == "__INTERNAL_IN_LEFT"@ {
                Some(Self::INTERNAL_IN_LEFT)
            } else if name@ == "__INTERNAL_IN_RIGHT"@ {
                Some(Self::INTERNAL_IN_RIGHT)
            } else {
                None::<PortId>
            },
    {
        if str_eq(name, "__INTERNAL_IN_LEFT") {
            Some(Self::INTERNAL_IN_LEFT)
        } else if str_eq(name, "__INTERNAL_IN_RIGHT") {
            Some(Self::INTERNAL_IN_RIGHT)
        } else {
            None
        }
    }
}

/// The parameters of the synthesizer.
pub struct TheOneOhOneParameters;

impl TheOneOhOneParameters {
    pub fn frequency() -> (r: ParameterId)
        ensures
            r == ParameterId(1),
    {
        ParameterId(1)
    }
}

} // verus!
