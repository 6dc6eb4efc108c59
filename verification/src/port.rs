use vstd::prelude::*;

use rtrb::{Consumer, Producer, PushError, RingBuffer};

verus! {

/// Why a port could not be connected, disconnected, written or read.
#[derive(Debug, Clone, Copy, PartialEq, Eq)]
pub enum PortError {
    NotConnected,
    AlreadyConnected,
    BufferFull,
    BufferEmpty,
}

#[verifier::external_type_specification]
#[verifier::external_body]
#[verifier::reject_recursive_types(T)]
pub struct ExProducer<T>(Producer<T>);

#[verifier::external_type_specification]
#[verifier::external_body]
#[verifier::reject_recursive_types(T)]
pub struct ExConsumer<T>(Consumer<T>);

/// `Producer::push`: moves `value` into the ring buffer, or hands it back
/// when the buffer is full.
///
/// Whether there is room depends on how far the consumer, which may live on
/// another thread, has read; the contract states only that a refused value is
/// the one that was pushed.
#[verifier::external_body]
fn producer_push<T>(producer: &mut Producer<T>, value: T) -> (r: Result<(), T>)
    ensures
        r matches Err(v) ==> v == value,
{
    match producer.push(value) {
        Ok(()) => Ok(()),
        Err(PushError::Full(v)) => Err(v),
    }
}

/// `Consumer::pop`: takes the oldest value out of the ring buffer, or reports
/// that it is empty.
///
/// Whether there is a value, and which, depends on what the producer, which
/// may live on another thread, has written; nothing is stated of it.
#[verifier::external_body]
fn consumer_pop<T>(consumer: &mut Consumer<T>) -> (r: Option<T>) {
    consumer.pop().ok()
}

/// `RingBuffer::new`: a ring buffer with room for `capacity` values, as its
/// writing and its reading end.
///
/// The crate panics when twice the capacity exceeds `usize`, and the
/// allocation fails when the capacity in bytes exceeds `isize::MAX`; both are
/// left out. Nothing is stated of the two ends: the buffer they share, and
/// its capacity, are hidden inside them.
#[verifier::external_body]
pub(crate) fn ring_buffer<T>(capacity: usize) -> (r: (Producer<T>, Consumer<T>))
    requires
        capacity <= usize::MAX / 2,
        capacity * vstd::layout::size_of::<T>() <= isize::MAX,
{
    RingBuffer::new(capacity)
}

/// The sending end of a connection: an instrument writes its samples to it.
#[verifier::reject_recursive_types(T)]
pub struct OutputPort<T> {
    producer: Option<Producer<T>>,
    /// Every value the port handed to an attached buffer, oldest first.
    sent: Ghost<Seq<T>>,
}

impl<T> OutputPort<T> {
    /// Whether a ring buffer is attached to the port.
    pub closed spec fn connected(&self) -> bool {
        self.producer is Some
    }

    /// The writing end of the ring buffer attached to the port, if any.
    pub closed spec fn producer_view(&self) -> Option<Producer<T>> {
        self.producer
    }

    /// Every value that the port handed to an attached ring buffer and the
    /// buffer took, oldest first.
    pub closed spec fn sent(&self) -> Seq<T> {
        self.sent@
    }

    /// What writing `value` to the port `before` does, giving `after` and the
    /// result `r`: without a buffer the write is refused with `NotConnected`
    /// and nothing changes; with one, either the buffer takes the value, which
    /// joins what the port has sent, and the result is `Ok`, or the buffer has
    /// no room, nothing is sent, and the result is `BufferFull`.
    pub open spec fn write_outcome(before: Self, after: Self, value: T, r: Result<(), PortError>) -> bool {
        &&& after.connected() == before.connected()
        &&& !before.connected() ==> r == Err::<(), PortError>(PortError::NotConnected) && after == before
        &&& before.connected() ==> {
            ||| r is Ok && after.sent() == before.sent().push(value)
            ||| r == Err::<(), PortError>(PortError::BufferFull) && after.sent() == before.sent()
        }
    }

    /// A port that is not connected and has sent nothing.
    pub fn new() -> (r: Self)
        ensures
            !r.connected(),
            r.sent() == Seq::<T>::empty(),
    {
        OutputPort { producer: None, sent: Ghost(Seq::empty()) }
    }

    /// Attaches the writing end of a ring buffer; refused when one is attached already.
    pub fn set_producer(&mut self, producer: Producer<T>) -> (r: Result<(), PortError>)
        ensures
            old(self).connected() ==> r == Err::<(), PortError>(PortError::AlreadyConnected)
                && *final(self) == *old(self),
            !old(self).connected() ==> r is Ok && final(self).connected() && final(self).producer_view() == Some(
                producer,
            ),
            final(self).sent() == old(self).sent(),
    {
        if self.producer.is_some() {
            return Err(PortError::AlreadyConnected);
        }
        self.producer = Some(producer);
        Ok(())
    }

    /// Detaches the ring buffer; refused when none is attached.
    pub fn remove_producer(&mut self) -> (r: Result<(), PortError>)
        ensures
            !old(self).connected() ==> r == Err::<(), PortError>(PortError::NotConnected)
                && *final(self) == *old(self),
            old(self).connected() ==> r is Ok,
            !final(self).connected(),
            final(self).sent() == old(self).sent(),
    {
        if self.producer.is_none() {
            return Err(PortError::NotConnected);
        }
        self.producer = None;
        Ok(())
    }

    /// Whether a ring buffer is attached.
    pub fn is_connected(&self) -> (r: bool)
        ensures
            r == self.connected(),
    {
        self.producer.is_some()
    }

    /// Writes `value` when the port is connected; does nothing, successfully,
    /// when it is not.
    pub fn write_if_connected(&mut self, value: T) -> (r: Result<(), PortError>)
        ensures
            final(self).connected() == old(self).connected(),
            !old(self).connected() ==> r is Ok,
            old(self).connected() ==> (r is Ok || r == Err::<(), PortError>(PortError::BufferFull)),
            !old(self).connected() ==> *final(self) == *old(self),
            old(self).connected() ==> Self::write_outcome(*old(self), *final(self), value, r),
    {
        if self.is_connected() {
            self.write(value)
        } else {
            Ok(())
        }
    }

    /// Writes `value` into the attached ring buffer.
    ///
    /// Fails with `NotConnected` when no buffer is attached, and with
    /// `BufferFull` when the buffer has no room.
    pub fn write(&mut self, value: T) -> (r: Result<(), PortError>)
        ensures
            final(self).connected() == old(self).connected(),
            !old(self).connected() ==> r == Err::<(), PortError>(PortError::NotConnected),
            old(self).connected() ==> (r is Ok || r == Err::<(), PortError>(PortError::BufferFull)),
            Self::write_outcome(*old(self), *final(self), value, r),
    {
        let ghost v = value;
        match self.producer.as_mut() {
            None => Err(PortError::NotConnected),
            Some(p) => match producer_push(p, value) {
                Ok(()) => {
                    self.sent = Ghost(self.sent@.push(v));
                    Ok(())
                },
                Err(_) => Err(PortError::BufferFull),
            },
        }
    }
}

/// On a connected port a write succeeds exactly when the buffer took the
/// value, and is refused with `BufferFull` exactly when it took nothing.
pub proof fn lemma_write_result_tells_what_was_sent<T>(
    before: OutputPort<T>,
    after: OutputPort<T>,
    value: T,
    r: Result<(), PortError>,
)
    requires
        OutputPort::write_outcome(before, after, value, r),
        before.connected(),
    ensures
        r is Ok <==> after.sent() == before.sent().push(value),
        r == Err::<(), PortError>(PortError::BufferFull) <==> after.sent() == before.sent(),
        r is Ok || r == Err::<(), PortError>(PortError::BufferFull),
{
    assert(before.sent().push(value).len() != before.sent().len());
}

/// The receiving end of a connection: an instrument reads its input samples from it.
#[verifier::reject_recursive_types(T)]
pub struct InputPort<T> {
    consumer: Option<Consumer<T>>,
}

impl<T> InputPort<T> {
    /// Whether a ring buffer is attached to the port.
    pub closed spec fn connected(&self) -> bool {
        self.consumer is Some
    }

    /// The reading end of the ring buffer attached to the port, if any.
    pub closed spec fn consumer_view(&self) -> Option<Consumer<T>> {
        self.consumer
    }

    /// A port that is not connected.
    pub fn new() -> (r: Self)
        ensures
            !r.connected(),
    {
        InputPort { consumer: None }
    }

    /// Attaches the reading end of a ring buffer; refused when one is attached already.
    pub fn set_consumer(&mut self, consumer: Consumer<T>) -> (r: Result<(), PortError>)
        ensures
            old(self).connected() ==> r == Err::<(), PortError>(PortError::AlreadyConnected)
                && *final(self) == *old(self),
            !old(self).connected() ==> r is Ok && final(self).connected() && final(self).consumer_view() == Some(
                consumer,
            ),
    {
        if self.consumer.is_some() {
            return Err(PortError::AlreadyConnected);
        }
        self.consumer = Some(consumer);
        Ok(())
    }

    /// Detaches the ring buffer; refused when none is attached.
    pub fn remove_consumer(&mut self) -> (r: Result<(), PortError>)
        ensures
            !old(self).connected() ==> r == Err::<(), PortError>(PortError::NotConnected)
                && *final(self) == *old(self),
            old(self).connected() ==> r is Ok,
            !final(self).connected(),
    {
        if self.consumer.is_none() {
            return Err(PortError::NotConnected);
        }
        self.consumer = None;
        Ok(())
    }

    /// Whether a ring buffer is attached.
    pub fn is_connected(&self) -> (r: bool)
        ensures
            r == self.connected(),
    {
        self.consumer.is_some()
    }

    /// Reads the oldest value from the attached ring buffer.
    ///
    /// Fails with `NotConnected` when no buffer is attached, and with
    /// `BufferEmpty` when the buffer holds no value.
    pub fn read(&mut self) -> (r: Result<T, PortError>)
        ensures
            final(self).connected() == old(self).connected(),
            !old(self).connected() ==> r == Err::<T, PortError>(PortError::NotConnected),
            old(self).connected() ==> (r is Ok || r == Err::<T, PortError>(PortError::BufferEmpty)),
    {
        match self.consumer.as_mut() {
            None => Err(PortError::NotConnected),
            Some(c) => match consumer_pop(c) {
                Some(v) => Ok(v),
                None => Err(PortError::BufferEmpty),
            },
        }
    }
}

} // verus!
