use rtrb::{Consumer, Producer, RingBuffer};
use synth_rack::instrument_ports::InstrumentPorts;
use synth_rack::port::{InputPort, OutputPort, PortError};

#[test]
fn set_producer_stores_producer_in_port() {
    let (producer, _): (Producer<f32>, Consumer<f32>) = RingBuffer::new(1);
    let mut sut = OutputPort::new();

    let _ = sut.set_producer(producer);

    assert!(sut.is_connected());
}

#[test]
fn remove_producer_removes_producer_in_port() {
    let (producer, _): (Producer<f32>, Consumer<f32>) = RingBuffer::new(1);
    let mut sut = OutputPort::new();

    let _ = sut.set_producer(producer);
    let _ = sut.remove_producer();

    assert!(!sut.is_connected());
}

#[test]
fn set_producer_returns_error_if_already_set() {
    let (producer1, _): (Producer<f32>, Consumer<f32>) = RingBuffer::new(1);
    let (producer2, _): (Producer<f32>, Consumer<f32>) = RingBuffer::new(1);
    let mut sut = OutputPort::new();

    let _ = sut.set_producer(producer1);
    let result = sut.set_producer(producer2);

    assert!(matches!(result, Err(PortError::AlreadyConnected)));
}

#[test]
fn write_to_unconnected_port_returns_error() {
    let mut sut: OutputPort<f32> = OutputPort::new();

    let result = sut.write(42.0);

    assert!(matches!(result, Err(PortError::NotConnected)));
}

#[test]
fn write_writes_to_buffer() {
    let (producer1, mut consumer): (Producer<f32>, Consumer<f32>) = RingBuffer::new(1);
    let mut sut = OutputPort::new();

    let _ = sut.set_producer(producer1);
    sut.write(42.0).expect("write failed unexpectedly");

    let consumed_data = consumer.pop().unwrap();

    assert_eq!(consumed_data, 42.0);
}

#[test]
fn write_to_full_buffer_returns_error() {
    let (producer1, _): (Producer<f32>, Consumer<f32>) = RingBuffer::new(1);
    let mut sut = OutputPort::new();

    sut.set_producer(producer1).expect("set_producer failed unexpectedly");
    sut.write(42.0).expect("write failed unexpectedly");

    assert!(matches!(sut.write(43.0), Err(PortError::BufferFull)));
}

#[test]
fn set_consumer_stores_consumer_in_port() {
    let (_, consumer): (Producer<f32>, Consumer<f32>) = RingBuffer::new(1);
    let mut sut = InputPort::new();

    let _ = sut.set_consumer(consumer);

    assert!(sut.is_connected());
}

#[test]
fn remove_consumer_removes_consumer_in_port() {
    let (_, consumer): (Producer<f32>, Consumer<f32>) = RingBuffer::new(1);
    let mut sut = InputPort::new();

    let _ = sut.set_consumer(consumer);
    let _ = sut.remove_consumer();

    assert!(!sut.is_connected());
}

#[test]
fn port_set_producer_returns_error_if_already_set() {
    let (_, consumer1): (Producer<f32>, Consumer<f32>) = RingBuffer::new(1);
    let (_, consumer2): (Producer<f32>, Consumer<f32>) = RingBuffer::new(1);
    let mut sut = InputPort::new();

    let _ = sut.set_consumer(consumer1);
    let result = sut.set_consumer(consumer2);

    assert!(matches!(result, Err(PortError::AlreadyConnected)));
}

#[test]
fn read_from_unconnected_port_returns_error() {
    let mut sut: InputPort<f32> = InputPort::new();

    let result = sut.read();

    assert!(matches!(result, Err(PortError::NotConnected)));
}

#[test]
fn read_reads_from_buffer() {
    let (mut producer, consumer): (Producer<f32>, Consumer<f32>) = RingBuffer::new(1);
    let mut sut = InputPort::new();

    sut.set_consumer(consumer).expect("set consumer failed unexpectedly");

    let _ = producer.push(42.0);
    let result = sut.read().expect("read failed unexpectedly");

    assert_eq!(42.0, result);
}

#[test]
fn read_from_empty_buffer_returns_error() {
    let (_, consumer): (Producer<f32>, Consumer<f32>) = RingBuffer::new(1);
    let mut sut = InputPort::new();

    sut.set_consumer(consumer).expect("set consumer failed unexpectedly");

    assert!(matches!(sut.read(), Err(PortError::BufferEmpty)));
}

#[test]
fn remove_producer_from_unconnected_port_returns_error() {
    let mut sut: OutputPort<f32> = OutputPort::new();

    assert!(matches!(sut.remove_producer(), Err(PortError::NotConnected)));
}

#[test]
fn remove_consumer_from_unconnected_port_returns_error() {
    let mut sut: InputPort<f32> = InputPort::new();

    assert!(matches!(sut.remove_consumer(), Err(PortError::NotConnected)));
}

#[test]
fn write_if_connected_skips_unconnected_port() {
    let mut sut: OutputPort<f32> = OutputPort::new();

    assert!(sut.write_if_connected(1.0).is_ok());
    assert!(!sut.is_connected());
}

#[test]
fn write_if_connected_writes_to_connected_port() {
    let (producer, mut consumer): (Producer<f32>, Consumer<f32>) = RingBuffer::new(2);
    let mut sut = OutputPort::new();
    sut.set_producer(producer).expect("set_producer failed unexpectedly");

    sut.write_if_connected(7.0).expect("write failed unexpectedly");

    assert_eq!(consumer.pop().unwrap(), 7.0);
}

#[test]
fn connected_ports_pass_values_in_order() {
    let (producer, consumer): (Producer<u32>, Consumer<u32>) = RingBuffer::new(3);
    let mut out = OutputPort::new();
    let mut input = InputPort::new();
    out.set_producer(producer).expect("set_producer failed unexpectedly");
    input.set_consumer(consumer).expect("set_consumer failed unexpectedly");

    out.write(1).unwrap();
    out.write(2).unwrap();

    assert_eq!(input.read().unwrap(), 1);
    assert_eq!(input.read().unwrap(), 2);
    assert!(matches!(input.read(), Err(PortError::BufferEmpty)));
}

#[test]
fn instrument_ports_start_unconnected() {
    let mut ports: InstrumentPorts<f32> = InstrumentPorts::new(2, 3);

    assert!(!ports.input_port_mut(0).is_connected());
    assert!(!ports.input_port_mut(1).is_connected());
    assert!(!ports.output_port_mut(2).is_connected());
}

#[test]
fn instrument_ports_give_access_to_one_port() {
    let (producer, mut consumer): (Producer<f32>, Consumer<f32>) = RingBuffer::new(1);
    let mut ports: InstrumentPorts<f32> = InstrumentPorts::new(0, 2);

    ports.output_port_mut(1).set_producer(producer).unwrap();

    assert!(!ports.output_port_mut(0).is_connected());
    assert!(ports.output_port_mut(1).is_connected());
    ports.output_port_mut(1).write(0.25).unwrap();
    assert_eq!(consumer.pop().unwrap(), 0.25);
}
