use synth_rack::connection::{Connection, EndPoint};
use synth_rack::connection_order::ConnectionOrder;

fn wire(source: &str, source_port: usize, target: &str, target_port: usize) -> Connection {
    Connection {
        source: EndPoint { instrument_name: source.to_string(), port: source_port },
        target: EndPoint { instrument_name: target.to_string(), port: target_port },
    }
}

#[test]
fn connection_order_orders_two_dependent_instruments() {
    let connection_1 = Connection {
        source: EndPoint { instrument_name: "A".to_string(), port: 0 },
        target: EndPoint { instrument_name: "B".to_string(), port: 0 },
    };
    let connection_2 = Connection {
        source: EndPoint { instrument_name: "B".to_string(), port: 0 },
        target: EndPoint { instrument_name: "C".to_string(), port: 0 },
    };
    let connection_3 = Connection {
        source: EndPoint { instrument_name: "A".to_string(), port: 1 },
        target: EndPoint { instrument_name: "C".to_string(), port: 1 },
    };

    let sut = ConnectionOrder::new(&vec![connection_1, connection_2, connection_3]);

    assert_eq!(sut.is_partial, false);
    assert_eq!(sut.instruments, vec!["A".to_string(), "B".to_string(), "C".to_string()]);
}

#[test]
fn connection_order_of_no_connections_is_empty_and_complete() {
    let sut = ConnectionOrder::new(&vec![]);

    assert_eq!(sut.is_partial, false);
    assert!(sut.instruments.is_empty());
}

#[test]
fn connection_order_puts_sources_before_targets_in_a_chain() {
    let sut = ConnectionOrder::new(&vec![
        wire("C", 0, "D", 0),
        wire("B", 0, "C", 0),
        wire("A", 0, "B", 0),
    ]);

    assert_eq!(sut.is_partial, false);
    assert_eq!(
        sut.instruments,
        vec!["A".to_string(), "B".to_string(), "C".to_string(), "D".to_string()]
    );
}

#[test]
fn connection_order_leaves_out_a_cycle_and_what_waits_on_it() {
    // A feeds B, B and C feed each other, C feeds D
    let sut = ConnectionOrder::new(&vec![
        wire("A", 0, "B", 0),
        wire("B", 0, "C", 0),
        wire("C", 0, "B", 1),
        wire("C", 1, "D", 0),
    ]);

    assert_eq!(sut.is_partial, true);
    assert_eq!(sut.instruments, vec!["A".to_string()]);
}

#[test]
fn connection_order_ignores_an_instrument_feeding_itself() {
    let sut = ConnectionOrder::new(&vec![wire("A", 0, "A", 1), wire("A", 0, "B", 0)]);

    assert_eq!(sut.is_partial, false);
    assert_eq!(sut.instruments, vec!["A".to_string(), "B".to_string()]);
}

#[test]
fn get_dependencies_maps_targets_to_their_sources() {
    let deps = ConnectionOrder::get_dependencies(&vec![
        wire("A", 0, "C", 0),
        wire("B", 0, "C", 1),
        wire("A", 1, "C", 2),
    ]);

    let mut sorted: Vec<(String, Vec<String>)> = deps.clone();
    sorted.sort();
    assert_eq!(
        sorted,
        vec![
            ("A".to_string(), vec![]),
            ("B".to_string(), vec![]),
            (
                "C".to_string(),
                vec!["A".to_string(), "B".to_string(), "A".to_string()]
            ),
        ]
    );
}
