use synth_rack::commands::ParameterId;
use synth_rack::instrument_config::{CommandPlan, InstrumentConfigError, InstrumentKind};
use synth_rack::instruments::{
    AudioOutPorts, DCGeneratorPorts, DelayParameters, DelayPorts, RandomGeneratorPorts,
    RawSourceParameters, RawSourcePorts, SignalSourceParameters, SignalSourcePorts,
    TheOneOhOneParameters, TheOneOhOnePorts, Waveform,
};
use synth_rack::mixer::{input_port, port_id, MixerInPorts, MixerOutPorts, MixerParameters, Side, MixerTarget};
use synth_rack::instrument_error::InstrumentError;
use synth_rack::names::{parse_unsigned, split_once, str_eq, strip_prefix};

#[test]
fn parse_unsigned_reads_decimal_numbers() {
    assert_eq!(parse_unsigned("0", 255), Some(0));
    assert_eq!(parse_unsigned("42", 255), Some(42));
    assert_eq!(parse_unsigned("+7", 255), Some(7));
    assert_eq!(parse_unsigned("007", 255), Some(7));
    assert_eq!(parse_unsigned("255", 255), Some(255));
    assert_eq!(parse_unsigned("4294967295", 0xffff_ffff), Some(4294967295));
}

#[test]
fn parse_unsigned_refuses_what_rust_refuses() {
    assert_eq!(parse_unsigned("", 255), None);
    assert_eq!(parse_unsigned("+", 255), None);
    assert_eq!(parse_unsigned("-1", 255), None);
    assert_eq!(parse_unsigned("1a", 255), None);
    assert_eq!(parse_unsigned(" 1", 255), None);
    assert_eq!(parse_unsigned("256", 255), None);
    assert_eq!(parse_unsigned("4294967296", 0xffff_ffff), None);
    for s in ["", "+", "-1", "1a", " 1", "256", "12x", "99999"] {
        assert_eq!(parse_unsigned(s, 255), s.parse::<u8>().ok().map(|v| v as u64));
    }
}

#[test]
fn string_helpers() {
    assert!(str_eq("abc", "abc"));
    assert!(!str_eq("abc", "abd"));
    assert!(!str_eq("abc", "ab"));
    assert_eq!(strip_prefix("GAIN.3", "GAIN."), Some("3"));
    assert_eq!(strip_prefix("GAIN", "GAIN."), None);
    assert_eq!(split_once("IN_LEFT.2.5", '.'), Some(("IN_LEFT", "2.5")));
    assert_eq!(split_once("IN_LEFT", '.'), None);
}

#[test]
fn fixed_port_names_resolve() {
    assert_eq!(AudioOutPorts::input_port("IN_LEFT"), Some(AudioOutPorts::IN_LEFT));
    assert_eq!(AudioOutPorts::input_port("IN_RIGHT"), Some(AudioOutPorts::IN_RIGHT));
    assert_eq!(AudioOutPorts::input_port("OUT_LEFT"), None);
    assert_eq!(DelayPorts::input_port("IN_RIGHT"), Some(1));
    assert_eq!(DelayPorts::output_port("OUT_LEFT"), Some(0));
    assert_eq!(DCGeneratorPorts::output_port("OUT"), Some(DCGeneratorPorts::OUT));
    assert_eq!(DCGeneratorPorts::output_port("OUT_LEFT"), None);
    assert_eq!(RandomGeneratorPorts::output_port("OUT"), Some(0));
    assert_eq!(RawSourcePorts::input_port("IN_CV"), Some(RawSourcePorts::IN_CV));
    assert_eq!(RawSourcePorts::output_port("OUT_RIGHT"), Some(RawSourcePorts::OUT_RIGHT));
    assert_eq!(SignalSourcePorts::output_port("OUT_LEFT"), Some(0));
    assert_eq!(SignalSourcePorts::output_port("out_left"), None);
    assert_eq!(TheOneOhOnePorts::input_port("__INTERNAL_IN_RIGHT"), Some(1));
    assert_eq!(TheOneOhOnePorts::output_port("OUT_RIGHT"), Some(1));
    assert_eq!(MixerOutPorts::output_port("OUT_RIGHT"), Some(MixerOutPorts::OUT_RIGHT));
}

#[test]
fn sixteen_channel_mixer_names_resolve() {
    assert_eq!(MixerInPorts::input_port("IN_LEFT_01"), Some(MixerInPorts::IN_LEFT_01));
    assert_eq!(MixerInPorts::input_port("IN_RIGHT_01"), Some(MixerInPorts::IN_RIGHT_01));
    assert_eq!(MixerInPorts::input_port("IN_LEFT_09"), Some(MixerInPorts::IN_LEFT_09));
    assert_eq!(MixerInPorts::input_port("IN_RIGHT_16"), Some(MixerInPorts::IN_RIGHT_16));
    assert_eq!(MixerInPorts::input_port("IN_LEFT_17"), None);
    assert_eq!(MixerInPorts::input_port("IN_LEFT_00"), None);
    assert_eq!(MixerInPorts::input_port("IN_LEFT_1"), None);
    assert_eq!(MixerInPorts::input_port("IN_LEFT_001"), None);
}

#[test]
fn mixer_channel_names_resolve() {
    assert_eq!(input_port(2, "IN_LEFT.1"), Some(0));
    assert_eq!(input_port(2, "IN_RIGHT.1"), Some(1));
    assert_eq!(input_port(2, "IN_LEFT.2"), Some(2));
    assert_eq!(input_port(2, "IN_RIGHT.2"), Some(3));
    assert_eq!(input_port(2, "IN_LEFT.3"), None);
    assert_eq!(input_port(2, "IN_LEFT.0"), None);
    assert_eq!(input_port(2, "IN_LEFT.+2"), Some(2));
    assert_eq!(input_port(2, "IN_LEFT"), None);
    assert_eq!(input_port(2, "OUT_LEFT.1"), None);
    assert_eq!(input_port(2, "IN_LEFT.1.0"), None);
    assert_eq!(input_port(128, "IN_RIGHT.128"), Some(255));
}

#[test]
fn mixer_port_id_checks_the_channel() {
    assert_eq!(port_id(4, 3, Side::Left).unwrap(), 6);
    assert_eq!(port_id(4, 3, Side::Right).unwrap(), 7);
    assert!(matches!(port_id(4, 4, Side::Left), Err(InstrumentError::GeneralError(_))));
}

#[test]
fn mixer_channel_parameters_resolve() {
    assert_eq!(MixerParameters::map_channel_parameter("GAIN.1"), Some(ParameterId(1000)));
    assert_eq!(MixerParameters::map_channel_parameter("GAIN.16"), Some(ParameterId(1015)));
    assert_eq!(MixerParameters::map_channel_parameter("BALANCE.2"), Some(ParameterId(2001)));
    assert_eq!(MixerParameters::map_channel_parameter("GAIN.x"), None);
    assert_eq!(MixerParameters::map_channel_parameter("VOLUME.1"), None);
    assert_eq!(MixerParameters::master_gain_left(), ParameterId(0));
    assert_eq!(MixerParameters::master_gain_right(), ParameterId(1));
}

#[test]
fn mixer_parameter_numbers_give_the_channel() {
    assert_eq!(MixerParameters::channel_index(1000), Some(0));
    assert_eq!(MixerParameters::channel_index(1015), Some(15));
    assert_eq!(MixerParameters::channel_index(2003), Some(3));
    assert_eq!(MixerParameters::channel_index(999), None);
    assert_eq!(MixerParameters::channel_index(0), None);
}

#[test]
fn parameter_constants() {
    assert_eq!(RawSourceParameters::frequency(), ParameterId(0));
    assert_eq!(RawSourceParameters::waveform(), ParameterId(1));
    assert_eq!(RawSourceParameters::fm_depth(), ParameterId(2));
    assert_eq!(SignalSourceParameters::frequency(), ParameterId(0));
    assert_eq!(DelayParameters::delay(), ParameterId(0));
    assert_eq!(DelayParameters::decay(), ParameterId(1));
    assert_eq!(TheOneOhOneParameters::frequency(), ParameterId(1));
}

#[test]
fn waveform_numbers() {
    assert_eq!(Waveform::from_number(1), Waveform::Sine);
    assert_eq!(Waveform::from_number(2), Waveform::Saw);
    assert_eq!(Waveform::from_number(3), Waveform::Square);
    assert_eq!(Waveform::from_number(0), Waveform::Silent);
    assert_eq!(Waveform::from_number(4), Waveform::Silent);
}

#[test]
fn configured_parameter_names_resolve_per_instrument() {
    let mixer = InstrumentKind::Mixer;
    let source = InstrumentKind::RawSource;
    let synth = InstrumentKind::TheOneOhOne;
    assert_eq!(source.map_parameter_id("f"), Ok(ParameterId(0)));
    assert_eq!(source.map_parameter_id("frequency"), Ok(ParameterId(0)));
    assert_eq!(source.map_parameter_id("waveform"), Ok(ParameterId(1)));
    assert_eq!(source.map_parameter_id("fm_depth"), Ok(ParameterId(2)));
    assert_eq!(
        source.map_parameter_id("gain"),
        Err(InstrumentConfigError::UnknownParameter("gain".to_string()))
    );
    assert_eq!(mixer.map_parameter_id("GAIN.2"), Ok(ParameterId(1001)));
    assert_eq!(mixer.map_parameter_id("mgl"), Ok(ParameterId(0)));
    assert_eq!(mixer.map_parameter_id("master_gain_right"), Ok(ParameterId(1)));
    assert_eq!(mixer.map_parameter_id("mgr"), Ok(ParameterId(1)));
    assert_eq!(
        mixer.map_parameter_id("xyz"),
        Err(InstrumentConfigError::UnknownParameter("xyz".to_string()))
    );
    assert_eq!(
        mixer.map_parameter_id("GAIN.x"),
        Err(InstrumentConfigError::UnknownParameter("GAIN.x".to_string()))
    );
    assert_eq!(
        synth.map_parameter_id("frequency"),
        Err(InstrumentConfigError::UnknownParameter("frequency".to_string()))
    );
}

#[test]
fn configured_commands_are_planned() {
    let source = InstrumentKind::RawSource;
    assert_eq!(source.plan_command("set", false, None, false), Ok(CommandPlan::Nop));
    assert_eq!(source.plan_command("anything", false, None, false), Ok(CommandPlan::Nop));
    assert_eq!(
        source.plan_command("set", true, Some("frequency"), true),
        Ok(CommandPlan::SetParameter(ParameterId(0)))
    );
    assert_eq!(
        source.plan_command("play", true, Some("frequency"), true),
        Err(InstrumentConfigError::UnknownCommand("play".to_string()))
    );
    assert_eq!(
        source.plan_command("set", true, None, true),
        Err(InstrumentConfigError::MissingCommandParameter(
            "set".to_string(),
            "parameter".to_string()
        ))
    );
    assert_eq!(
        source.plan_command("set", true, Some("frequency"), false),
        Err(InstrumentConfigError::MissingCommandParameter(
            "set".to_string(),
            "value".to_string()
        ))
    );
    assert_eq!(
        source.plan_command("set", true, Some("volume"), true),
        Err(InstrumentConfigError::UnknownParameter("volume".to_string()))
    );
}

#[test]
fn mixer_commands_reach_their_setting() {
    assert_eq!(MixerParameters::command_target(0, 2), MixerTarget::MasterGainLeft);
    assert_eq!(MixerParameters::command_target(1, 2), MixerTarget::MasterGainRight);
    assert_eq!(MixerParameters::command_target(1001, 2), MixerTarget::ChannelGain(1));
    assert_eq!(MixerParameters::command_target(2001, 2), MixerTarget::ChannelBalance(1));
    // the balance offset itself counts as a gain
    assert_eq!(MixerParameters::command_target(2000, 2), MixerTarget::ChannelGain(0));
    assert_eq!(MixerParameters::command_target(1002, 2), MixerTarget::Nothing);
    assert_eq!(MixerParameters::command_target(7, 2), MixerTarget::Nothing);
}

#[test]
fn channel_parameter_names_reach_their_channel() {
    let target = |name: &str| MixerParameters::command_target(MixerParameters::map_channel_parameter(name).unwrap().0, 4);
    assert_eq!(target("GAIN.1"), MixerTarget::ChannelGain(0));
    assert_eq!(target("GAIN.4"), MixerTarget::ChannelGain(3));
    assert_eq!(target("BALANCE.3"), MixerTarget::ChannelBalance(2));
    assert_eq!(target("GAIN.5"), MixerTarget::Nothing);
}

#[test]
fn parse_unsigned_with_small_limits() {
    assert_eq!(parse_unsigned("3", 0), None);
    assert_eq!(parse_unsigned("0", 0), Some(0));
    assert_eq!(parse_unsigned("5", 5), Some(5));
    assert_eq!(parse_unsigned("6", 5), None);
}

#[test]
fn mixers_have_up_to_255_channels() {
    assert_eq!(input_port(255, "IN_LEFT.255"), Some(508));
    assert_eq!(input_port(255, "IN_RIGHT.255"), Some(509));
    assert_eq!(input_port(255, "IN_RIGHT.256"), None);
    assert!(matches!(port_id(200, 150, Side::Right), Ok(301)));
}
