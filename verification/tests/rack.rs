use synth_rack::config::{ConnectionConfig, EndPointConfig};
use synth_rack::connection::{Connection, EndPoint, PortId};
use synth_rack::instrument_error::InstrumentError;
use synth_rack::instrument_ports::{InstrumentPorts, PortResolver};
use synth_rack::port::{InputPort, PortError};
use synth_rack::rack::{Instrument, InstrumentIdMap, InstrumentInfo, Rack, RackError};
use synth_rack::rack_builder::{RackBuilder, RackBuilderError};
use synth_rack::sample_offset::SampleOffset;

fn keys(n: usize) -> Vec<usize> {
    (100..100 + n).collect()
}

/// An instrument for the tests: `OUT` writes a constant value, `IN` is read by hand.
struct Constant {
    info: InstrumentInfo,
    ports: InstrumentPorts<f32>,
    value: f32,
    updates: u32,
}

impl Constant {
    fn new(name: &str, value: f32) -> Self {
        Constant { info: InstrumentInfo::new(name), ports: InstrumentPorts::new(2, 1), value, updates: 0 }
    }
}

impl PortResolver for Constant {
    fn output_port(&self, name: &str) -> Option<PortId> {
        if name == "OUT" { Some(0) } else { None }
    }

    fn input_port(&self, name: &str) -> Option<PortId> {
        match name {
            "IN_LEFT" => Some(0),
            "IN_RIGHT" => Some(1),
            "IN_MISSING" => Some(7),
            _ => None,
        }
    }
}

impl Instrument for Constant {
    type Sample = f32;
    type Events = Vec<String>;
    type Command = f32;

    fn handle_command(&mut self, command: f32) {
        self.value = command;
    }

    fn info(&self) -> &InstrumentInfo {
        &self.info
    }

    fn ports(&mut self) -> &mut InstrumentPorts<f32> {
        &mut self.ports
    }

    fn update(&mut self, _time_window: u128, sample_count: u32, events: &Vec<String>) -> Result<(), InstrumentError> {
        if events.iter().any(|e| e == self.info.name()) {
            return Err(InstrumentError::GeneralError(self.info.name().to_string()));
        }
        self.updates += 1;
        let name = self.info.name().to_owned();
        let value = self.value;
        let out = self.ports.output_port_mut(0);
        for _ in 0..sample_count {
            out.write_if_connected(value).map_err(|e| InstrumentError::from_port_error(&name, e))?;
        }
        Ok(())
    }
}

const OUT: PortId = 0;
const IN_LEFT: PortId = 0;

fn get_rack() -> Rack<Constant> {
    let mut rack = Rack::new(48000);
    let audio_out = Constant::new(&rack.audio_out_name.clone(), 0.0);
    rack.add_instrument(audio_out).expect("add_instrument failed unexpectedly");
    rack
}

fn wire(source: &str, source_port: PortId, target: &str, target_port: PortId) -> Connection {
    Connection {
        source: EndPoint { instrument_name: source.to_string(), port: source_port },
        target: EndPoint { instrument_name: target.to_string(), port: target_port },
    }
}

#[test]
fn cannot_add_instrument_if_name_in_use() {
    let instrument1 = Constant::new("instrumentA", 0.5);
    let instrument2 = Constant::new("instrumentA", 0.5);

    let mut rack = get_rack();

    rack.add_instrument(instrument1).expect("add_instrument failed unexpectedly");

    assert!(matches!(rack.add_instrument(instrument2), Err(RackError::InstrumentNameAlreadyExists)));
}

#[test]
fn connect_connects_two_instrument_ports() {
    let instrument1 = Constant::new("instrumentA", 0.5);

    let mut rack = get_rack();

    rack.add_instrument(instrument1).expect("add_instrument failed unexpectedly");

    let connection = Connection {
        source: EndPoint { instrument_name: "instrumentA".to_string(), port: OUT },
        target: EndPoint { instrument_name: rack.audio_out_name.clone(), port: IN_LEFT },
    };

    rack.connect(connection).expect("connect failed unexpectedly");

    let source = rack.instrument("instrumentA").expect("could not find instrument");

    source
        .ports()
        .output_port_mut(OUT)
        .write_if_connected(123.0)
        .expect("write to instrument1 failed unexpectedly");

    let audio_out_name = rack.audio_out_name.clone();
    let target = rack.instrument(audio_out_name.as_str()).expect("could not find instrument");

    let result_from_input =
        target.ports().input_port_mut(IN_LEFT).read().expect("read failed unexpectedly");

    assert_eq!(result_from_input, 123.0)
}

#[test]
fn disconnect_will_disconnect_port() {
    let instrument1 = Constant::new("instrumentA", 0.5);
    let instrument2 = Constant::new("instrumentB", 0.5);

    let mut rack = get_rack();

    rack.add_instrument(instrument1).expect("add_instrument failed unexpectedly");
    rack.add_instrument(instrument2).expect("add_instrument failed unexpectedly");

    rack.connect(wire("instrumentA", OUT, "instrumentB", IN_LEFT)).expect("connect failed unexpectedly");
    rack.disconnect(wire("instrumentA", OUT, "instrumentB", IN_LEFT)).expect("disconnect failed unexpectedly");

    let source = rack.instrument("instrumentA").expect("could not find instrument");

    let is_connected = source.ports().output_port_mut(OUT).is_connected();

    assert_eq!(is_connected, false);

    let target = rack.instrument("instrumentB").expect("could not find instrument");

    let read_error = target.ports().input_port_mut(IN_LEFT).read().expect_err("write should have failed");

    assert!(matches!(read_error, PortError::NotConnected));
}

#[test]
fn connect_refuses_bad_connections() {
    let mut rack = get_rack();
    rack.add_instrument(Constant::new("A", 1.0)).unwrap();
    rack.add_instrument(Constant::new("B", 1.0)).unwrap();

    assert!(matches!(
        rack.connect(wire("A", OUT, "A", IN_LEFT)),
        Err(RackError::CannotConnectInstrumentToItself(n)) if n == "A"
    ));
    assert!(matches!(
        rack.connect(wire("X", OUT, "B", IN_LEFT)),
        Err(RackError::InstrumentNotFound(n)) if n == "X"
    ));
    assert!(matches!(
        rack.connect(wire("A", OUT, "Y", IN_LEFT)),
        Err(RackError::InstrumentNotFound(n)) if n == "Y"
    ));
    rack.connect(wire("A", OUT, "B", IN_LEFT)).unwrap();
    // the output port is taken
    assert!(matches!(
        rack.connect(wire("A", OUT, "B", 1)),
        Err(RackError::PortError(PortError::AlreadyConnected))
    ));
}

#[test]
fn disconnect_refuses_unknown_connections_and_free_ports() {
    let mut rack = get_rack();
    rack.add_instrument(Constant::new("A", 1.0)).unwrap();
    rack.add_instrument(Constant::new("B", 1.0)).unwrap();

    assert!(matches!(
        rack.disconnect(wire("A", OUT, "B", IN_LEFT)),
        Err(RackError::UnknownConnection(_))
    ));
    rack.connect(wire("A", OUT, "B", IN_LEFT)).unwrap();
    rack.disconnect(wire("A", OUT, "B", IN_LEFT)).unwrap();
    // the connection stays recorded, but its ports are free now
    assert!(matches!(
        rack.disconnect(wire("A", OUT, "B", IN_LEFT)),
        Err(RackError::PortError(PortError::NotConnected))
    ));
}

#[test]
fn update_runs_instruments_in_wiring_order_and_feeds_the_samples_through() {
    let mut rack = get_rack();
    let out_name = rack.audio_out_name.clone();
    rack.add_instrument(Constant::new("A", 0.25)).unwrap();
    rack.connect(wire("A", OUT, &out_name, IN_LEFT)).unwrap();

    rack.update(1_000_000, 3, &vec![]).unwrap();

    let out = rack.instrument(&out_name).unwrap();
    assert_eq!(out.updates, 1);
    for _ in 0..3 {
        assert_eq!(out.ports().input_port_mut(IN_LEFT).read().unwrap(), 0.25);
    }
    assert!(matches!(out.ports().input_port_mut(IN_LEFT).read(), Err(PortError::BufferEmpty)));
}

#[test]
fn update_reports_the_failing_instrument() {
    let mut rack = get_rack();
    let out_name = rack.audio_out_name.clone();
    rack.add_instrument(Constant::new("A", 0.25)).unwrap();
    rack.connect(wire("A", OUT, &out_name, IN_LEFT)).unwrap();

    let result = rack.update(1_000_000, 3, &vec!["A".to_string()]);

    assert!(matches!(result, Err(RackError::InstrumentError(InstrumentError::GeneralError(n))) if n == "A"));
}

#[test]
fn instruments_are_found_by_name_and_key() {
    let mut rack = get_rack();
    rack.add_instrument(Constant::new("A", 1.0)).unwrap();

    let id = rack.instrument_id("A").unwrap();
    assert_eq!(id, 1);
    assert_eq!(rack.instrument_by_id(id).unwrap().value, 1.0);
    assert!(rack.instrument_by_id(7).is_none());
    assert!(matches!(rack.instrument_id("Z"), Err(RackError::InstrumentNotFound(n)) if n == "Z"));
    assert!(matches!(rack.instrument("Z"), Err(RackError::InstrumentNotFound(n)) if n == "Z"));
    assert_eq!(rack.bitrate, 48000);
}

#[test]
fn instrument_ids_are_found_by_name() {
    let ids = keys(2);
    let mut sut = InstrumentIdMap::new();
    sut.insert("osc".to_string(), ids[0]);
    sut.insert("mixer".to_string(), ids[1]);

    assert_eq!(sut.get("osc"), Some(ids[0]));
    assert_eq!(sut.get("mixer"), Some(ids[1]));
    assert_eq!(sut.get("delay"), None);
    assert_eq!(sut.instrument_id("mixer").unwrap(), ids[1]);
    assert!(matches!(
        sut.instrument_id("delay"),
        Err(RackError::InstrumentNotFound(n)) if n == "delay"
    ));
}

#[test]
fn instrument_pair_checks_names() {
    let ids = keys(2);
    let mut sut = InstrumentIdMap::new();
    sut.insert("A".to_string(), ids[0]);
    sut.insert("B".to_string(), ids[1]);

    assert_eq!(sut.instrument_pair("A", "B").unwrap(), (ids[0], ids[1]));
    assert!(matches!(
        sut.instrument_pair("A", "A"),
        Err(RackError::CannotConnectInstrumentToItself(n)) if n == "A"
    ));
    assert!(matches!(
        sut.instrument_pair("X", "Y"),
        Err(RackError::InstrumentNotFound(n)) if n == "X"
    ));
    assert!(matches!(
        sut.instrument_pair("A", "Y"),
        Err(RackError::InstrumentNotFound(n)) if n == "Y"
    ));
}

#[test]
fn known_connections_are_recognised() {
    let wire = |s: &str, sp: usize, t: &str, tp: usize| Connection {
        source: EndPoint { instrument_name: s.to_string(), port: sp },
        target: EndPoint { instrument_name: t.to_string(), port: tp },
    };
    let connections = vec![wire("A", 0, "B", 1), wire("B", 0, "C", 0)];

    assert!(wire("A", 0, "B", 1).is_among(&connections));
    assert!(!wire("A", 0, "B", 0).is_among(&connections));
    assert!(!wire("A", 1, "B", 1).is_among(&connections));
    assert!(!wire("C", 0, "B", 0).is_among(&vec![]));
}

#[test]
fn port_errors_name_the_instrument() {
    let err = InstrumentError::from_port_error("generator", PortError::BufferFull);

    assert!(matches!(err, InstrumentError::PortError(n, PortError::BufferFull) if n == "generator"));
}

#[test]
fn connection_tuples_become_connections() {
    let tuples = vec![
        (
            "generator1".to_string(),
            "OUT_LEFT".to_string(),
            "mixer1".to_string(),
            "IN_LEFT_01".to_string(),
        ),
        ("a".to_string(), "b".to_string(), "c".to_string(), "d".to_string()),
    ];

    let connections = ConnectionConfig::from_connection_tuples(&tuples);

    assert_eq!(
        connections,
        vec![
            ConnectionConfig {
                source: EndPointConfig {
                    instrument: "generator1".to_string(),
                    port: "OUT_LEFT".to_string()
                },
                target: EndPointConfig {
                    instrument: "mixer1".to_string(),
                    port: "IN_LEFT_01".to_string()
                },
            },
            ConnectionConfig {
                source: EndPointConfig { instrument: "a".to_string(), port: "b".to_string() },
                target: EndPointConfig { instrument: "c".to_string(), port: "d".to_string() },
            },
        ]
    );
}

#[test]
fn sample_offset_from_value() {
    assert_eq!(SampleOffset::from_value(378).value, 378);
}

#[test]
fn disconnect_after_connect_frees_both_ports() {
    let mut rack = get_rack();
    rack.add_instrument(Constant::new("A", 1.0)).unwrap();
    rack.add_instrument(Constant::new("B", 1.0)).unwrap();

    rack.connect(wire("A", OUT, "B", IN_LEFT)).unwrap();
    rack.disconnect(wire("A", OUT, "B", IN_LEFT)).unwrap();

    assert!(!rack.instrument("A").unwrap().ports().output_port_mut(OUT).is_connected());
    assert!(!rack.instrument("B").unwrap().ports().input_port_mut(IN_LEFT).is_connected());
    // the freed ports can be wired again
    rack.connect(wire("A", OUT, "B", IN_LEFT)).unwrap();
}

#[test]
fn connecting_twice_is_refused() {
    let mut rack = get_rack();
    rack.add_instrument(Constant::new("A", 1.0)).unwrap();
    rack.add_instrument(Constant::new("B", 1.0)).unwrap();

    rack.connect(wire("A", OUT, "B", IN_LEFT)).unwrap();

    assert!(matches!(
        rack.connect(wire("A", OUT, "B", IN_LEFT)),
        Err(RackError::PortError(PortError::AlreadyConnected))
    ));
}

fn configured(source: &str, source_port: &str, target: &str, target_port: &str) -> ConnectionConfig {
    ConnectionConfig {
        source: EndPointConfig { instrument: source.to_string(), port: source_port.to_string() },
        target: EndPointConfig { instrument: target.to_string(), port: target_port.to_string() },
    }
}

#[test]
fn builder_connects_ports_by_name() {
    let mut rack = get_rack();
    rack.add_instrument(Constant::new("A", 0.5)).unwrap();
    rack.add_instrument(Constant::new("B", 0.75)).unwrap();
    rack.add_instrument(Constant::new("C", 0.0)).unwrap();

    let configs = vec![configured("A", "OUT", "C", "IN_LEFT"), configured("B", "OUT", "C", "IN_RIGHT")];
    RackBuilder::create_connections(&mut rack, &configs).expect("connections failed unexpectedly");

    rack.update(1_000_000, 1, &vec![]).unwrap();
    let c = rack.instrument("C").unwrap();
    assert_eq!(c.ports().input_port_mut(0).read().unwrap(), 0.5);
    assert_eq!(c.ports().input_port_mut(1).read().unwrap(), 0.75);
}

#[test]
fn builder_reports_unknown_ports_and_instruments() {
    let mut rack = get_rack();
    rack.add_instrument(Constant::new("A", 0.5)).unwrap();
    rack.add_instrument(Constant::new("B", 0.75)).unwrap();

    assert!(matches!(
        RackBuilder::create_connection(&mut rack, &configured("A", "NOPE", "B", "IN_LEFT")),
        Err(RackBuilderError::UnknownPort(i, p)) if i == "A" && p == "NOPE"
    ));
    assert!(matches!(
        RackBuilder::create_connection(&mut rack, &configured("A", "OUT", "B", "IN_MISSING")),
        Err(RackBuilderError::UnknownPort(i, p)) if i == "B" && p == "IN_MISSING"
    ));
    assert!(matches!(
        RackBuilder::create_connection(&mut rack, &configured("X", "OUT", "B", "IN_LEFT")),
        Err(RackBuilderError::RackError(RackError::InstrumentNotFound(n))) if n == "X"
    ));
    assert!(matches!(
        RackBuilder::create_connection(&mut rack, &configured("A", "OUT", "Y", "IN_LEFT")),
        Err(RackBuilderError::RackError(RackError::InstrumentNotFound(n))) if n == "Y"
    ));
    assert!(matches!(
        RackBuilder::create_connection(&mut rack, &configured("A", "OUT", "A", "IN_LEFT")),
        Err(RackBuilderError::RackError(RackError::CannotConnectInstrumentToItself(n))) if n == "A"
    ));
}

#[test]
fn builder_stops_at_the_first_failing_connection() {
    let mut rack = get_rack();
    rack.add_instrument(Constant::new("A", 0.5)).unwrap();
    rack.add_instrument(Constant::new("B", 0.75)).unwrap();

    let configs = vec![
        configured("A", "OUT", "B", "IN_LEFT"),
        configured("A", "OUT", "B", "IN_RIGHT"),
        configured("B", "OUT", "A", "IN_LEFT"),
    ];
    let result = RackBuilder::create_connections(&mut rack, &configs);

    assert!(matches!(result, Err(RackBuilderError::RackError(RackError::PortError(PortError::AlreadyConnected)))));
    // the third connection was never tried
    assert!(!rack.instrument("B").unwrap().ports().output_port_mut(OUT).is_connected());
}

#[test]
fn instrument_ids_are_replaced_by_name() {
    let mut sut = InstrumentIdMap::new();
    sut.insert("osc".to_string(), 3);
    sut.insert("mixer".to_string(), 4);
    sut.insert("osc".to_string(), 9);

    assert_eq!(sut.get("osc"), Some(9));
    assert_eq!(sut.get("mixer"), Some(4));
}

#[test]
fn dispatch_hands_commands_in_order_to_their_instruments() {
    let mut rack = get_rack();
    rack.add_instrument(Constant::new("A", 1.0)).unwrap();
    rack.add_instrument(Constant::new("B", 2.0)).unwrap();
    let a = rack.instrument_id("A").unwrap();
    let b = rack.instrument_id("B").unwrap();

    rack.dispatch(vec![(a, 3.0), (b, 4.0), (a, 5.0)]);

    assert_eq!(rack.instrument("A").unwrap().value, 5.0);
    assert_eq!(rack.instrument("B").unwrap().value, 4.0);
    rack.dispatch(vec![]);
    assert_eq!(rack.instrument("A").unwrap().value, 5.0);
}

#[test]
fn configured_instruments_are_found_by_name() {
    let names = vec!["mixer1".to_string(), "osc".to_string(), "mixer1".to_string()];
    assert_eq!(synth_rack::config::instrument_index_by_name(&names, "mixer1"), Some(0));
    assert_eq!(synth_rack::config::instrument_index_by_name(&names, "osc"), Some(1));
    assert_eq!(synth_rack::config::instrument_index_by_name(&names, "delay"), None);
}

#[test]
fn refused_connection_leaves_the_other_ports() {
    let mut rack = get_rack();
    rack.add_instrument(Constant::new("A", 1.0)).unwrap();
    rack.add_instrument(Constant::new("B", 1.0)).unwrap();
    rack.add_instrument(Constant::new("C", 1.0)).unwrap();
    rack.connect(wire("C", OUT, "B", IN_LEFT)).unwrap();

    // the input port is taken: refused, but the output port stays connected
    assert!(matches!(
        rack.connect(wire("A", OUT, "B", IN_LEFT)),
        Err(RackError::PortError(PortError::AlreadyConnected))
    ));
    assert!(rack.instrument("A").unwrap().ports().output_port_mut(OUT).is_connected());
    assert!(!rack.instrument("B").unwrap().ports().input_port_mut(1).is_connected());
}

#[test]
fn builder_connects_the_resolved_ports() {
    let mut rack = get_rack();
    rack.add_instrument(Constant::new("A", 0.5)).unwrap();
    rack.add_instrument(Constant::new("B", 0.75)).unwrap();
    let config = configured("A", "anything", "B", "else");

    assert!(matches!(
        RackBuilder::connect_resolved(&mut rack, &config, None, Some(0)),
        Err(RackBuilderError::UnknownPort(i, p)) if i == "A" && p == "anything"
    ));
    assert!(matches!(
        RackBuilder::connect_resolved(&mut rack, &config, Some(1), Some(0)),
        Err(RackBuilderError::UnknownPort(i, p)) if i == "A" && p == "anything"
    ));
    assert!(matches!(
        RackBuilder::connect_resolved(&mut rack, &config, Some(0), Some(2)),
        Err(RackBuilderError::UnknownPort(i, p)) if i == "B" && p == "else"
    ));
    RackBuilder::connect_resolved(&mut rack, &config, Some(0), Some(1)).unwrap();

    assert!(rack.instrument("A").unwrap().ports().output_port_mut(0).is_connected());
    assert!(rack.instrument("B").unwrap().ports().input_port_mut(1).is_connected());
    assert!(!rack.instrument("B").unwrap().ports().input_port_mut(0).is_connected());
}

#[test]
fn external_inputs_receive_what_an_instrument_writes() {
    let mut rack = get_rack();
    rack.add_instrument(Constant::new("A", 0.5)).unwrap();
    let mut outside: InputPort<f32> = InputPort::new();

    assert!(matches!(
        rack.connect_external("Z", OUT, &mut outside),
        Err(RackError::InstrumentNotFound(n)) if n == "Z"
    ));
    rack.connect_external("A", OUT, &mut outside).unwrap();
    rack.instrument("A").unwrap().ports().output_port_mut(OUT).write(7.0).unwrap();
    assert_eq!(outside.read().unwrap(), 7.0);

    let mut other: InputPort<f32> = InputPort::new();
    assert!(matches!(
        rack.connect_external("A", OUT, &mut other),
        Err(RackError::PortError(PortError::AlreadyConnected))
    ));
    assert!(!other.is_connected());
}

#[test]
fn connect_all_stops_at_the_first_refusal() {
    let mut rack = get_rack();
    rack.add_instrument(Constant::new("A", 1.0)).unwrap();
    rack.add_instrument(Constant::new("B", 1.0)).unwrap();

    rack.connect_all(vec![wire("A", OUT, "B", IN_LEFT), wire("B", OUT, "A", 1)]).unwrap();
    assert!(rack.instrument("A").unwrap().ports().input_port_mut(1).is_connected());

    let result = rack.connect_all(vec![wire("A", OUT, "B", 1), wire("B", OUT, "A", IN_LEFT)]);
    assert!(matches!(result, Err(RackError::PortError(PortError::AlreadyConnected))));
    assert!(!rack.instrument("A").unwrap().ports().input_port_mut(IN_LEFT).is_connected());
}

#[test]
fn building_from_the_configuration_connects_the_named_ports() {
    let mut rack = get_rack();
    rack.add_instrument(Constant::new("mixer1", 0.5)).unwrap();
    rack.add_instrument(Constant::new("mixer2", 0.5)).unwrap();

    RackBuilder::create_connections(&mut rack, &vec![configured("mixer1", "OUT", "mixer2", "IN_LEFT")]).unwrap();

    assert!(rack.connect(wire("mixer1", OUT, "mixer2", IN_LEFT)).is_err());
}
