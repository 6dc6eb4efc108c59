use vstd::prelude::*;

use crate::commands::ParameterId;
use crate::connection::PortId;
use crate::instrument_error::InstrumentError;
use crate::instruments::{stereo_out, stereo_output_port};
use crate::names::{
    after_prefix, first_split, has_prefix, parse_unsigned, parsed_below, split_once, str_eq,
    strip_prefix,
};

verus! {

/// The channel number written as exactly two digits, from `01` to `16`.
pub open spec fn two_digit_channel(s: Seq<char>) -> Option<nat> {
    if s.len() == 2 && '0' <= s[0] <= '9' && '0' <= s[1] <= '9' {
        let v = (s[0] as nat - '0' as nat) * 10 + (s[1] as nat - '0' as nat);
        if 1 <= v <= 16 {
            Some(v as nat)
        } else {
            None
        }
    } else {
        None
    }
}

/// The decimal digit for `d`, from 0 to 9.
pub open spec fn digit(d: int) -> char {
    ('0' as int + d) as char
}

/// The number `n`, below 100, written with two decimal digits.
pub open spec fn two_digits(n: int) -> Seq<char> {
    seq![digit(n / 10), digit(n % 10)]
}

/// The channels of the sixteen channel mixer are exactly `01` to `16`: each
/// channel `n` written with two digits is channel `n`, and every two digit
/// text that is a channel writes its number.
pub proof fn lemma_two_digit_channels(s: Seq<char>)
    ensures
        forall|n: int|
            1 <= n <= 16 ==> #[trigger] two_digit_channel(two_digits(n)) == Some(n as nat),
        two_digit_channel(s) matches Some(n) ==> 1 <= n <= 16 && s == two_digits(n as int),
{
    assert forall|n: int| 1 <= n <= 16 implies #[trigger] two_digit_channel(two_digits(n)) == Some(n as nat) by {
        let t = two_digits(n);
        assert(t[0] as int == '0' as int + n / 10);
        assert(t[1] as int == '0' as int + n % 10);
    }
    if two_digit_channel(s) is Some {
        let n = two_digit_channel(s).unwrap();
        assert(s[0] as int - '0' as int == n / 10);
        assert(s[1] as int - '0' as int == n % 10);
        assert(s =~= two_digits(n as int));
    }
}

/// `IN_LEFT_nn` and `IN_RIGHT_nn`, for a channel `n` from 1 to 16 written
/// with two digits, name channel `n` of the sixteen channel mixer: so
/// `MixerInPorts::input_port` gives port `2 * (n - 1)` for the left and
/// `2 * (n - 1) + 1` for the right input.
pub proof fn lemma_sixteen_channel_names(n: int)
    requires
        1 <= n <= 16,
    ensures
        has_prefix("IN_LEFT_"@ + two_digits(n), "IN_LEFT_"@),
        two_digit_channel(after_prefix("IN_LEFT_"@ + two_digits(n), "IN_LEFT_"@)) == Some(n as nat),
        !has_prefix("IN_RIGHT_"@ + two_digits(n), "IN_LEFT_"@),
        has_prefix("IN_RIGHT_"@ + two_digits(n), "IN_RIGHT_"@),
        two_digit_channel(after_prefix("IN_RIGHT_"@ + two_digits(n), "IN_RIGHT_"@)) == Some(n as nat),
{
    reveal_strlit("IN_LEFT_");
    reveal_strlit("IN_RIGHT_");
    lemma_two_digit_channels(two_digits(n));
    let left = "IN_LEFT_"@ + two_digits(n);
    let right = "IN_RIGHT_"@ + two_digits(n);
    assert(left.subrange(0, 8) =~= "IN_LEFT_"@);
    assert(after_prefix(left, "IN_LEFT_"@) =~= two_digits(n));
    assert(right.subrange(0, 9) =~= "IN_RIGHT_"@);
    assert(after_prefix(right, "IN_RIGHT_"@) =~= two_digits(n));
    assert(right.subrange(0, 8)[3] != "IN_LEFT_"@[3]);
}

/// The inputs of the sixteen channel mixer: a left and a right input per channel.
pub struct MixerInPorts;

impl MixerInPorts {
    pub const IN_LEFT_01: PortId = 0;
    pub const IN_RIGHT_01: PortId = 1;
    pub const IN_LEFT_02: PortId = 2;
    pub const IN_RIGHT_02: PortId = 3;
    pub const IN_LEFT_03: PortId = 4;
    pub const IN_RIGHT_03: PortId = 5;
    pub const IN_LEFT_04: PortId = 6;
    pub const IN_RIGHT_04: PortId = 7;
    pub const IN_LEFT_05: PortId = 8;
    pub const IN_RIGHT_05: PortId = 9;
    pub const IN_LEFT_06: PortId = 10;
    pub const IN_RIGHT_06: PortId = 11;
    pub const IN_LEFT_07: PortId = 12;
    pub const IN_RIGHT_07: PortId = 13;
    pub const IN_LEFT_08: PortId = 14;
    pub const IN_RIGHT_08: PortId = 15;
    pub const IN_LEFT_09: PortId = 16;
    pub const IN_RIGHT_09: PortId = 17;
    pub const IN_LEFT_10: PortId = 18;
    pub const IN_RIGHT_10: PortId = 19;
    pub const IN_LEFT_11: PortId = 20;
    pub const IN_RIGHT_11: PortId = 21;
    pub const IN_LEFT_12: PortId = 22;
    pub const IN_RIGHT_12: PortId = 23;
    pub const IN_LEFT_13: PortId = 24;
    pub const IN_RIGHT_13: PortId = 25;
    pub const IN_LEFT_14: PortId = 26;
    pub const IN_RIGHT_14: PortId = 27;
    pub const IN_LEFT_15: PortId = 28;
    pub const IN_RIGHT_15: PortId = 29;
    pub const IN_LEFT_16: PortId = 30;
    pub const IN_RIGHT_16: PortId = 31;

    /// The input port of the sixteen channel mixer called `name`:
    /// `IN_LEFT_nn` is port `2 * (nn - 1)` and `IN_RIGHT_nn` port
    /// `2 * (nn - 1) + 1`, for `nn` written with two digits from `01` to `16`.
    pub fn input_port(name: &str) -> (r: Option<PortId>)
        ensures
            r == if has_prefix(name@, "IN_LEFT_"@) && two_digit_channel(
                after_prefix(name@, "IN_LEFT_"@),
            ) is Some {
                Some((2 * (two_digit_channel(after_prefix(name@, "IN_LEFT_"@)).unwrap() - 1)) as usize)
            } else if has_prefix(name@, "IN_RIGHT_"@) && two_digit_channel(
                after_prefix(name@, "IN_RIGHT_"@),
            ) is Some {
                Some(
                    (2 * (two_digit_channel(after_prefix(name@, "IN_RIGHT_"@)).unwrap() - 1)
                        + 1) as usize,
                )
            } else {
                None::<PortId>
            },
    {
        match strip_prefix(name, "IN_LEFT_") {
            Some(rest) => {
                if let Some(channel) = Self::channel_number(rest) {
                    return Some(2 * (channel - 1));
                }
            },
            None => {},
        }
        match strip_prefix(name, "IN_RIGHT_") {
            Some(rest) => {
                if let Some(channel) = Self::channel_number(rest) {
                    return Some(2 * (channel - 1) + 1);
                }
            },
            None => {},
        }
        None
    }

    /// A channel number written with exactly two digits, from `01` to `16`.
    fn channel_number(s: &str) -> (r: Option<usize>)
        ensures
            match two_digit_channel(s@) {
                Some(v) => r == Some(v as usize),
                None => r is None,
            },
    {
        if s.unicode_len() != 2 {
            return None;
        }
        let a = s.get_char(0);
        let b = s.get_char(1);
        if !('0' <= a && a <= '9' && '0' <= b && b <= '9') {
            return None;
        }
        let v = ((a as usize) - ('0' as usize)) * 10 + ((b as usize) - ('0' as usize));
        if 1 <= v && v <= 16 {
            Some(v)
        } else {
            None
        }
    }
}

/// The stereo output of the mixer.
pub struct MixerOutPorts;

impl MixerOutPorts {
    pub const OUT_LEFT: PortId = 0;
    pub const OUT_RIGHT: PortId = 1;

    /// The output port called `name`: `OUT_LEFT` or `OUT_RIGHT`.
    pub fn output_port(name: &str) -> (r: Option<PortId>)
        ensures
            r == stereo_out(name@),
    {
        stereo_output_port(name)
    }
}

/// The side of a mixer channel.
#[derive(Debug, Clone, Copy, PartialEq, Eq, Structural)]
pub enum Side {
    Left,
    Right,
}

/// The input port of `side` of channel `channel` (counted from 0) of a mixer
/// with `channels` channels: left inputs are the even ports, right inputs the odd ones.
pub open spec fn channel_port(channel: int, side: Side) -> int {
    match side {
        Side::Left => channel * 2,
        Side::Right => 1 + channel * 2,
    }
}

/// The input port for `side` of channel `channel` (counted from 0); an error
/// for a channel the mixer does not have.
pub fn port_id(channels: u8, channel: u8, side: Side) -> (r: Result<PortId, InstrumentError>)
    ensures
        channel >= channels ==> r matches Err(InstrumentError::GeneralError(_)),
        channel < channels ==> r == Ok::<PortId, InstrumentError>(channel_port(channel as int, side) as PortId),
{
    if channel >= channels {
        Err(InstrumentError::GeneralError("non-existing channel used".to_string()))
    } else {
        match side {
            Side::Left => Ok((channel as PortId) * 2),
            Side::Right => Ok(1 + (channel as PortId) * 2),
        }
    }
}

/// The input port that a name of the form `IN_LEFT.n` or `IN_RIGHT.n`
/// resolves to on a mixer with `channels` channels, `n` counting from 1.
pub open spec fn channel_input(channels: int, name: Seq<char>) -> Option<int> {
    match first_split(name, '.') {
        None => None,
        Some((prefix, index)) => {
            let side = if prefix == "IN_LEFT"@ {
                Some(Side::Left)
            } else if prefix == "IN_RIGHT"@ {
                Some(Side::Right)
            } else {
                None
            };
            match (side, parsed_below(index, 255)) {
                (Some(side), Some(n)) => if 1 <= n && n - 1 < channels {
                    Some(channel_port(n - 1, side))
                } else {
                    None
                },
                _ => None,
            }
        },
    }
}

/// Resolves `IN_LEFT.n` and `IN_RIGHT.n` (channel `n`, counted from 1) to an
/// input port of a mixer with `channels` channels.
pub fn input_port(channels: u8, name: &str) -> (r: Option<PortId>)
    ensures
        match channel_input(channels as int, name@) {
            Some(p) => r == Some(p as PortId),
            None => r is None,
        },
{
    let (prefix, index) = match split_once(name, '.') {
        Some(parts) => parts,
        None => return None,
    };
    let side = if str_eq(prefix, "IN_LEFT") {
        Side::Left
    } else if str_eq(prefix, "IN_RIGHT") {
        Side::Right
    } else {
        return None;
    };
    let number = match parse_unsigned(index, 255) {
        Some(n) => n,
        None => return None,
    };
    if number < 1 {
        return None;
    }
    let channel = (number - 1) as u8;
    match port_id(channels, channel, side) {
        Ok(p) => Some(p),
        Err(_) => None,
    }
}

/// The parameters of the mixer that a `set` command can change.
pub struct MixerParameters;

/// Gain parameters of the channels are numbered from here on.
pub const PARAMETER_OFFSET: u32 = 1000;

/// Balance parameters of the channels are numbered from here on.
pub const BALANCE_PARAMETER_OFFSET: u32 = 2000;

/// The parameter that `GAIN.n` or `BALANCE.n` names: the gain or balance of
/// channel `n` (counted from 1), numbered from the gain or balance offset.
pub open spec fn channel_parameter(name: Seq<char>) -> Option<int> {
    if has_prefix(name, "GAIN."@) {
        match parsed_below(after_prefix(name, "GAIN."@), u32::MAX as nat) {
            Some(n) => Some(PARAMETER_OFFSET + n - 1),
            None => None,
        }
    } else if has_prefix(name, "BALANCE."@) {
        match parsed_below(after_prefix(name, "BALANCE."@), u32::MAX as nat) {
            Some(n) => Some(BALANCE_PARAMETER_OFFSET + n - 1),
            None => None,
        }
    } else {
        None
    }
}

/// Whether resolving `name` with `map_channel_parameter` computes a number
/// below zero or beyond `u32` (channel `0`, or a channel number past the `u32` range).
pub open spec fn channel_parameter_overflows(name: Seq<char>) -> bool {
    match channel_parameter(name) {
        Some(v) => {
            ||| v > u32::MAX
            ||| (has_prefix(name, "GAIN."@) && parsed_below(after_prefix(name, "GAIN."@), u32::MAX as nat) == Some(0nat))
            ||| (!has_prefix(name, "GAIN."@) && parsed_below(after_prefix(name, "BALANCE."@), u32::MAX as nat) == Some(0nat))
        },
        None => false,
    }
}

/// The channel (counted from 0) whose gain or balance parameter `value`
/// numbers: numbers from the gain offset up to the balance offset count gain
/// parameters, numbers from the balance offset on count balance parameters.
pub open spec fn channel_of(value: u32) -> Option<int> {
    if PARAMETER_OFFSET <= value < BALANCE_PARAMETER_OFFSET {
        Some(value - PARAMETER_OFFSET)
    } else if value >= BALANCE_PARAMETER_OFFSET {
        Some(value - BALANCE_PARAMETER_OFFSET)
    } else {
        None
    }
}

/// What a `set` command for a mixer parameter changes.
#[derive(Debug, Clone, Copy, PartialEq, Eq, Structural)]
pub enum MixerTarget {
    MasterGainLeft,
    MasterGainRight,
    /// The gain of a channel, counted from 0.
    ChannelGain(usize),
    /// The balance of a channel, counted from 0.
    ChannelBalance(usize),
    /// Nothing: the parameter names no setting of the mixer.
    Nothing,
}

/// What setting parameter `value` changes on a mixer with `channels` channel
/// settings. A number above the balance offset changes a balance; the balance
/// offset itself, like the gain numbers, changes a gain.
pub open spec fn mixer_target(value: u32, channels: int) -> MixerTarget {
    if value == 0 {
        MixerTarget::MasterGainLeft
    } else if value == 1 {
        MixerTarget::MasterGainRight
    } else {
        match channel_of(value) {
            None => MixerTarget::Nothing,
            Some(c) => if c >= channels {
                MixerTarget::Nothing
            } else if value > BALANCE_PARAMETER_OFFSET {
                MixerTarget::ChannelBalance(c as usize)
            } else {
                MixerTarget::ChannelGain(c as usize)
            },
        }
    }
}

/// A `GAIN.n` parameter reaches the gain of channel `n` (counted from 1) and
/// a `BALANCE.n` parameter the balance of channel `n`, as long as the mixer
/// has that channel, `n` is at most 1000 for a gain (higher numbers run into
/// the balance numbers) and at least 2 for a balance (`BALANCE.1` numbers the
/// balance offset itself, which sets a gain).
pub proof fn lemma_channel_parameters_reach_their_channel(name: Seq<char>, channels: int)
    requires
        channel_parameter(name) is Some,
        !channel_parameter_overflows(name),
    ensures
        ({
            let v = channel_parameter(name).unwrap() as u32;
            let gain = has_prefix(name, "GAIN."@);
            let n = if gain {
                parsed_below(after_prefix(name, "GAIN."@), u32::MAX as nat).unwrap()
            } else {
                parsed_below(after_prefix(name, "BALANCE."@), u32::MAX as nat).unwrap()
            };
            &&& gain && n <= 1000 && n <= channels ==> mixer_target(v, channels) == MixerTarget::ChannelGain(
                (n - 1) as usize,
            )
            &&& !gain && 2 <= n <= channels ==> mixer_target(v, channels) == MixerTarget::ChannelBalance(
                (n - 1) as usize,
            )
        }),
{
}

impl MixerParameters {
    pub fn master_gain_left() -> (r: ParameterId)
        ensures
            r == ParameterId(0),
    {
        ParameterId(0)
    }

    pub fn master_gain_right() -> (r: ParameterId)
        ensures
            r == ParameterId(1),
    {
        ParameterId(1)
    }

    /// The parameter that `GAIN.n` or `BALANCE.n` names: gain parameters of
    /// channel `n` are numbered from 1000, balance parameters from 2000.
    pub fn map_channel_parameter(parameter_name: &str) -> (r: Option<ParameterId>)
        requires
            !channel_parameter_overflows(parameter_name@),
        ensures
            match channel_parameter(parameter_name@) {
                Some(v) => r == Some(ParameterId(v as u32)),
                None => r is None,
            },
    {
        match strip_prefix(parameter_name, "GAIN.") {
            Some(rest) => {
                return match parse_unsigned(rest, 0xffff_ffff) {
                    Some(channel) => Some(ParameterId(PARAMETER_OFFSET + ((channel as u32) - 1))),
                    None => None,
                };
            },
            None => {},
        }
        match strip_prefix(parameter_name, "BALANCE.") {
            Some(rest) => {
                return match parse_unsigned(rest, 0xffff_ffff) {
                    Some(channel) => Some(
                        ParameterId(BALANCE_PARAMETER_OFFSET + ((channel as u32) - 1)),
                    ),
                    None => None,
                };
            },
            None => {},
        }
        None
    }

    /// The channel (counted from 0) whose gain or balance parameter `value` numbers.
    pub fn channel_index(value: u32) -> (r: Option<usize>)
        ensures
            r == match channel_of(value) {
                Some(c) => Some(c as usize),
                None => None::<usize>,
            },
    {
        if value >= PARAMETER_OFFSET && value < BALANCE_PARAMETER_OFFSET {
            Some((value - PARAMETER_OFFSET) as usize)
        } else if value >= BALANCE_PARAMETER_OFFSET {
            Some((value - BALANCE_PARAMETER_OFFSET) as usize)
        } else {
            None
        }
    }

    /// What a `set` command for parameter `value` changes on a mixer with
    /// `channels` channel settings.
    pub fn command_target(value: u32, channels: usize) -> (r: MixerTarget)
        ensures
            r == mixer_target(value, channels as int),
    {
        if value == 0 {
            return MixerTarget::MasterGainLeft;
        }
        if value == 1 {
            return MixerTarget::MasterGainRight;
        }
        match Self::channel_index(value) {
            None => MixerTarget::Nothing,
            Some(c) => {
                if c >= channels {
                    MixerTarget::Nothing
                } else if value > BALANCE_PARAMETER_OFFSET {
                    MixerTarget::ChannelBalance(c)
                } else {
                    MixerTarget::ChannelGain(c)
                }
            },
        }
    }
}

} // verus!
