use vstd::prelude::*;

use crate::commands::ParameterId;
use crate::mixer::{channel_parameter, channel_parameter_overflows, MixerParameters};
use crate::names::str_eq;

verus! {

/// Why a configured command could not be turned into an instrument command.
#[derive(Debug, PartialEq, Eq)]
pub enum InstrumentConfigError {
    /// The configuration names a command that is not known.
    UnknownCommand(String),
    /// The command lacks a parameter: the command's name, then the parameter's.
    MissingCommandParameter(String, String),
    /// The command refers to a parameter that the instrument does not know.
    UnknownParameter(String),
}

/// The kinds of instrument a configuration can create.
#[derive(Debug, Clone, Copy, PartialEq, Eq, Structural)]
pub enum InstrumentKind {
    Mixer,
    RawSource,
    TheOneOhOne,
}

/// What a configured command becomes, once its value is attached.
#[derive(Debug, Clone, Copy, PartialEq, Eq, Structural)]
pub enum CommandPlan {
    /// A command without parameters does nothing.
    Nop,
    /// A `set` command for this parameter.
    SetParameter(ParameterId),
}

/// The parameter that `name` resolves to on an instrument of kind `kind`, if any.
pub open spec fn parameter_of(kind: InstrumentKind, name: Seq<char>) -> Option<u32> {
    match kind {
        InstrumentKind::Mixer => if channel_parameter(name) is Some {
            Some(channel_parameter(name).unwrap() as u32)
        } else if name == "mgl"@ || name == "master_gain_left"@ {
            Some(0u32)
        } else if name == "mgr"@ || name == "master_gain_right"@ {
            Some(1u32)
        } else {
            None
        },
        InstrumentKind::RawSource => if name == "f"@ || name == "frequency"@ {
            Some(0u32)
        } else if name == "w"@ || name == "waveform"@ {
            Some(1u32)
        } else if name == "fm_depth"@ {
            Some(2u32)
        } else {
            None
        },
        InstrumentKind::TheOneOhOne => None,
    }
}

/// Whether resolving `name` on an instrument of kind `kind` computes a
/// channel parameter number below zero or beyond `u32`.
pub open spec fn parameter_overflows(kind: InstrumentKind, name: Seq<char>) -> bool {
    kind == InstrumentKind::Mixer && channel_parameter_overflows(name)
}

/// Each parameter goes by a short and a long name, and both resolve to the
/// same parameter: on the oscillator `f`/`frequency` is parameter 0,
/// `w`/`waveform` parameter 1 and `fm_depth` parameter 2; on the mixer
/// `mgl`/`master_gain_left` is parameter 0 and `mgr`/`master_gain_right`
/// parameter 1. The synthesizer resolves none of them.
pub proof fn lemma_parameter_names()
    ensures
        parameter_of(InstrumentKind::RawSource, "f"@) == Some(0u32),
        parameter_of(InstrumentKind::RawSource, "frequency"@) == Some(0u32),
        parameter_of(InstrumentKind::RawSource, "w"@) == Some(1u32),
        parameter_of(InstrumentKind::RawSource, "waveform"@) == Some(1u32),
        parameter_of(InstrumentKind::RawSource, "fm_depth"@) == Some(2u32),
        parameter_of(InstrumentKind::Mixer, "mgl"@) == Some(0u32),
        parameter_of(InstrumentKind::Mixer, "master_gain_left"@) == Some(0u32),
        parameter_of(InstrumentKind::Mixer, "mgr"@) == Some(1u32),
        parameter_of(InstrumentKind::Mixer, "master_gain_right"@) == Some(1u32),
        forall|name: Seq<char>| parameter_of(InstrumentKind::TheOneOhOne, name) is None,
{
    reveal_strlit("f");
    reveal_strlit("frequency");
    reveal_strlit("w");
    reveal_strlit("waveform");
    reveal_strlit("fm_depth");
    reveal_strlit("mgl");
    reveal_strlit("master_gain_left");
    reveal_strlit("mgr");
    reveal_strlit("master_gain_right");
    reveal_strlit("GAIN.");
    reveal_strlit("BALANCE.");
    assert("w"@ != "f"@) by {
        assert("w"@[0] != "f"@[0]);
    }
    assert("mgr"@ != "mgl"@) by {
        assert("mgr"@[2] != "mgl"@[2]);
    }
}

impl InstrumentKind {
    /// The parameter that a configuration calls `parameter_name`.
    ///
    /// The mixer knows `GAIN.n` and `BALANCE.n` for its channels and
    /// `mgl`/`master_gain_left` and `mgr`/`master_gain_right` for its master
    /// gain; the oscillator knows `f`/`frequency`, `w`/`waveform` and
    /// `fm_depth`; the synthesizer knows none yet.
    pub fn map_parameter_id(&self, parameter_name: &str) -> (r: Result<ParameterId, InstrumentConfigError>)
        requires
            !parameter_overflows(*self, parameter_name@),
        ensures
            match parameter_of(*self, parameter_name@) {
                Some(v) => r == Ok::<ParameterId, InstrumentConfigError>(ParameterId(v)),
                None => r matches Err(InstrumentConfigError::UnknownParameter(n)) && n@ == parameter_name@,
            },
    {
        match self {
            InstrumentKind::Mixer => {
                if let Some(id) = MixerParameters::map_channel_parameter(parameter_name) {
                    return Ok(id);
                }
                if str_eq(parameter_name, "mgl") || str_eq(parameter_name, "master_gain_left") {
                    Ok(MixerParameters::master_gain_left())
                } else if str_eq(parameter_name, "mgr") || str_eq(parameter_name, "master_gain_right") {
                    Ok(MixerParameters::master_gain_right())
                } else {
                    Err(InstrumentConfigError::UnknownParameter(parameter_name.to_owned()))
                }
            },
            InstrumentKind::RawSource => {
                if str_eq(parameter_name, "f") || str_eq(parameter_name, "frequency") {
                    Ok(ParameterId(0))
                } else if str_eq(parameter_name, "w") || str_eq(parameter_name, "waveform") {
                    Ok(ParameterId(1))
                } else if str_eq(parameter_name, "fm_depth") {
                    Ok(ParameterId(2))
                } else {
                    Err(InstrumentConfigError::UnknownParameter(parameter_name.to_owned()))
                }
            },
            InstrumentKind::TheOneOhOne => Err(
                InstrumentConfigError::UnknownParameter(parameter_name.to_owned()),
            ),
        }
    }

    /// Decides what a configured command becomes.
    ///
    /// A command without parameters does nothing. Otherwise only `set` is
    /// known: it needs a `parameter` that is text (`parameter`, `None` when it
    /// is not text) and a `value` that is a number (`value_is_float`), checked
    /// in that order; then the parameter is resolved on this kind of
    /// instrument.
    pub fn plan_command(
        &self,
        name: &str,
        has_parameters: bool,
        parameter: Option<&str>,
        value_is_float: bool,
    ) -> (r: Result<CommandPlan, InstrumentConfigError>)
        requires
            has_parameters && name@ == "set"@ && parameter is Some ==> !parameter_overflows(
                *self,
                parameter.unwrap()@,
            ),
        ensures
            !has_parameters ==> r == Ok::<CommandPlan, InstrumentConfigError>(CommandPlan::Nop),
            has_parameters && name@ != "set"@ ==> (r matches Err(
                InstrumentConfigError::UnknownCommand(n),
            ) && n@ == name@),
            has_parameters && name@ == "set"@ && parameter is None ==> (r matches Err(
                InstrumentConfigError::MissingCommandParameter(c, p),
            ) && c@ == "set"@ && p@ == "parameter"@),
            has_parameters && name@ == "set"@ && parameter is Some && !value_is_float ==> (r matches Err(
                InstrumentConfigError::MissingCommandParameter(c, p),
            ) && c@ == "set"@ && p@ == "value"@),
            has_parameters && name@ == "set"@ && parameter is Some && value_is_float ==> match parameter_of(
                *self,
                parameter.unwrap()@,
            ) {
                Some(v) => r == Ok::<CommandPlan, InstrumentConfigError>(CommandPlan::SetParameter(ParameterId(v))),
                None => r matches Err(InstrumentConfigError::UnknownParameter(n)) && n@
                    == parameter.unwrap()@,
            },
    {
        if !has_parameters {
            return Ok(CommandPlan::Nop);
        }
        if str_eq(name, "set") {
            let parameter = match parameter {
                Some(p) => p,
                None => {
                    return Err(
                        InstrumentConfigError::MissingCommandParameter(
                            "set".to_string(),
                            "parameter".to_string(),
                        ),
                    );
                },
            };
            if !value_is_float {
                return Err(
                    InstrumentConfigError::MissingCommandParameter(
                        "set".to_string(),
                        "value".to_string(),
                    ),
                );
            }
            let id = self.map_parameter_id(parameter)?;
            Ok(CommandPlan::SetParameter(id))
        } else {
            Err(InstrumentConfigError::UnknownCommand(name.to_owned()))
        }
    }
}

} // verus!
