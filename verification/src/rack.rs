use vstd::prelude::*;

use crate::connection::{same_wire, Connection, PortId};
use crate::connection_order::{is_dependency_order, wiring_graph, ConnectionOrder};
use crate::instrument_error::InstrumentError;
use crate::instrument_ports::{InstrumentPorts, PortResolver};
use crate::names::str_eq;
use crate::port::{ring_buffer, InputPort, PortError};
use crate::rack_builder::RackBuilderError;

verus! {

/// The key of an instrument in a rack: its position among the rack's
/// instruments, which are never removed.
pub type InstrumentId = usize;

/// Why a rack refused an operation.
#[derive(Debug)]
pub enum RackError {
    InstrumentNameAlreadyExists,
    InstrumentError(InstrumentError),
    PortError(PortError),
    InstrumentNotFound(String),
    CannotConnectInstrumentToItself(String),
    UnknownConnection(Connection),
    InvalidInstrumentPair(InstrumentId, InstrumentId),
}

#[derive(Debug)]
pub enum LoadRackError {
    RackBuilder(RackBuilderError),
}

/// The names of the instruments in a rack and their keys; no name occurs twice.
pub struct InstrumentIdMap {
    entries: Vec<(String, InstrumentId)>,
}

/// The names of a list of entries, in order.
pub open spec fn entry_names(entries: Seq<(String, InstrumentId)>) -> Seq<Seq<char>> {
    entries.map_values(|e: (String, InstrumentId)| e.0@)
}

impl InstrumentIdMap {
    #[verifier::type_invariant]
    spec fn names_are_distinct(&self) -> bool {
        entry_names(self.entries@).no_duplicates()
    }

    /// The key registered under each name.
    pub closed spec fn view(&self) -> Map<Seq<char>, InstrumentId> {
        Map::new(
            |k: Seq<char>| entry_names(self.entries@).contains(k),
            |k: Seq<char>| self.entries@[entry_names(self.entries@).index_of(k)].1,
        )
    }

    /// A map without names.
    pub fn new() -> (r: Self)
        ensures
            r@ == Map::<Seq<char>, InstrumentId>::empty(),
    {
        let r = InstrumentIdMap { entries: Vec::new() };
        assert(r@ =~= Map::<Seq<char>, InstrumentId>::empty());
        r
    }

    /// The key registered under `name`, if any.
    pub fn get(&self, name: &str) -> (r: Option<InstrumentId>)
        ensures
            r == if self@.contains_key(name@) {
                Some(self@[name@])
            } else {
                None::<InstrumentId>
            },
    {
        proof {
            use_type_invariant(self);
        }
        let mut i: usize = 0;
        while i < self.entries.len()
            invariant
                i <= self.entries.len(),
                forall|j: int| 0 <= j < i ==> self.entries@[j].0@ != name@,
            decreases self.entries.len() - i,
        {
            if str_eq(self.entries[i].0.as_str(), name) {
                proof {
                    use_type_invariant(self);
                    let names = entry_names(self.entries@);
                    assert(names[i as int] == name@);
                    assert(names.contains(name@));
                    let k = names.index_of(name@);
                    assert(0 <= k < names.len() && names[k] == name@);
                    assert(k == i);
                }
                return Some(self.entries[i].1);
            }
            i = i + 1;
        }
        proof {
            let names = entry_names(self.entries@);
            if names.contains(name@) {
                let j = choose|j: int| 0 <= j < names.len() && names[j] == name@;
                assert(self.entries@[j].0@ == name@);
            }
        }
        None
    }

    /// The position of the entry for `name`, if there is one.
    fn position(&self, name: &str) -> (r: Option<usize>)
        ensures
            r matches Some(i) ==> i < self.entries.len() && entry_names(self.entries@)[i as int] == name@,
            r is None ==> !entry_names(self.entries@).contains(name@),
    {
        let mut i: usize = 0;
        while i < self.entries.len()
            invariant
                i <= self.entries.len(),
                forall|j: int| 0 <= j < i ==> self.entries@[j].0@ != name@,
            decreases self.entries.len() - i,
        {
            if str_eq(self.entries[i].0.as_str(), name) {
                return Some(i);
            }
            i = i + 1;
        }
        proof {
            let names = entry_names(self.entries@);
            if names.contains(name@) {
                let j = choose|j: int| 0 <= j < names.len() && names[j] == name@;
                assert(self.entries@[j].0@ == name@);
            }
        }
        None
    }

    /// Registers `id` under `name`, replacing the key registered under it before.
    pub fn insert(&mut self, name: String, id: InstrumentId)
        ensures
            final(self)@ == old(self)@.insert(name@, id),
    {
        proof {
            use_type_invariant(&*self);
        }
        match self.position(name.as_str()) {
            Some(i) => self.replace(i, name, id),
            None => self.push_new(name, id),
        }
    }

    /// Registers `id` under `name` in place of the entry at `i`, which has that name.
    fn replace(&mut self, i: usize, name: String, id: InstrumentId)
        requires
            i < old(self).entries.len(),
            entry_names(old(self).entries@)[i as int] == name@,
        ensures
            final(self)@ == old(self)@.insert(name@, id),
    {
        proof {
            use_type_invariant(&*self);
        }
        let ghost before = self.entries@;
        let ghost key = name@;
        let mut entries = Vec::new();
        std::mem::swap(&mut entries, &mut self.entries);
        entries.set(i, (name, id));
        proof {
            assert(entry_names(entries@) =~= entry_names(before));
        }
        self.entries = entries;
        proof {
            let names = entry_names(before);
            let old_map = Map::new(
                |k: Seq<char>| names.contains(k),
                |k: Seq<char>| before[names.index_of(k)].1,
            );
            assert(names[i as int] == key);
            assert forall|k: Seq<char>| #[trigger] self@.contains_key(k) implies self@[k] == old_map.insert(key, id)[k] by {
                let j = names.index_of(k);
                assert(names[j] == k);
                if k != key {
                    assert(j != i);
                }
            }
            assert(self@ =~= old_map.insert(key, id));
        }
    }

    /// Registers `id` under `name`, which is not registered yet.
    fn push_new(&mut self, name: String, id: InstrumentId)
        requires
            !entry_names(old(self).entries@).contains(name@),
        ensures
            final(self)@ == old(self)@.insert(name@, id),
    {
        proof {
            use_type_invariant(&*self);
        }
        let ghost before = self.entries@;
        let ghost key = name@;
        let mut entries = Vec::new();
        std::mem::swap(&mut entries, &mut self.entries);
        entries.push((name, id));
        proof {
            let names = entry_names(entries@);
            assert(names =~= entry_names(before).push(key));
            assert forall|k: Seq<char>| #[trigger] names.contains(k) == (entry_names(before).contains(k) || k == key) by {
                if names.contains(k) {
                    let j = choose|j: int| 0 <= j < names.len() && names[j] == k;
                    if j < before.len() {
                        assert(entry_names(before)[j] == k);
                    }
                }
                if entry_names(before).contains(k) {
                    let j = choose|j: int| 0 <= j < entry_names(before).len() && entry_names(before)[j] == k;
                    assert(names[j] == k);
                }
                if k == key {
                    assert(names[names.len() - 1] == k);
                }
            }
        }
        self.entries = entries;
        proof {
            let old_map = Map::new(
                |k: Seq<char>| entry_names(before).contains(k),
                |k: Seq<char>| before[entry_names(before).index_of(k)].1,
            );
            let names = entry_names(self.entries@);
            assert forall|k: Seq<char>| #[trigger] self@.contains_key(k) implies self@[k] == old_map.insert(key, id)[k] by {
                let j = names.index_of(k);
                assert(names[j] == k);
                if k == key {
                    assert(j == names.len() - 1);
                } else {
                    let i = entry_names(before).index_of(k);
                    assert(entry_names(before)[i] == k);
                    assert(names[i] == k);
                    assert(i == j);
                }
            }
            assert(self@ =~= old_map.insert(key, id));
        }
    }

    /// The key registered under `name`; `InstrumentNotFound` when there is none.
    pub fn instrument_id(&self, name: &str) -> (r: Result<InstrumentId, RackError>)
        ensures
            self@.contains_key(name@) ==> r == Ok::<InstrumentId, RackError>(self@[name@]),
            !self@.contains_key(name@) ==> (r matches Err(RackError::InstrumentNotFound(n)) && n@ == name@),
    {
        match self.get(name) {
            Some(id) => Ok(id),
            None => Err(RackError::InstrumentNotFound(name.to_owned())),
        }
    }

    /// The keys of the two instruments that a connection joins.
    ///
    /// An instrument cannot be connected to itself; otherwise the source is
    /// looked up first, then the target.
    pub fn instrument_pair(&self, source_name: &str, target_name: &str) -> (r: Result<
        (InstrumentId, InstrumentId),
        RackError,
    >)
        ensures
            source_name@ == target_name@ ==> (r matches Err(
                RackError::CannotConnectInstrumentToItself(n),
            ) && n@ == source_name@),
            source_name@ != target_name@ && !self@.contains_key(source_name@) ==> (r matches Err(
                RackError::InstrumentNotFound(n),
            ) && n@ == source_name@),
            source_name@ != target_name@ && self@.contains_key(source_name@) && !self@.contains_key(
                target_name@,
            ) ==> (r matches Err(RackError::InstrumentNotFound(n)) && n@ == target_name@),
            source_name@ != target_name@ && self@.contains_key(source_name@) && self@.contains_key(
                target_name@,
            ) ==> r == Ok::<(InstrumentId, InstrumentId), RackError>(
                (self@[source_name@], self@[target_name@]),
            ),
    {
        if str_eq(source_name, target_name) {
            return Err(RackError::CannotConnectInstrumentToItself(source_name.to_owned()));
        }
        let source = self.instrument_id(source_name)?;
        let target = self.instrument_id(target_name)?;
        Ok((source, target))
    }
}

/// What identifies an instrument: its name.
pub struct InstrumentInfo {
    name: String,
}

impl InstrumentInfo {
    pub closed spec fn name_view(&self) -> Seq<char> {
        self.name@
    }

    pub fn new(name: &str) -> (r: Self)
        ensures
            r.name_view() == name@,
    {
        InstrumentInfo { name: name.to_owned() }
    }

    pub fn name(&self) -> (r: &str)
        ensures
            r@ == self.name_view(),
    {
        self.name.as_str()
    }
}

/// An instrument of a rack: it has a name and ports, and produces its
/// samples when the rack updates it.
pub trait Instrument: PortResolver {
    /// The type of the samples that its ports carry.
    type Sample;

    /// What the instrument is told, on each update, of the events to handle.
    type Events;

    /// The instrument's name as `info` reports it. Each instrument has its
    /// own; what the library knows of it is only what `info` and `ports` say.
    closed spec fn info_view(&self) -> InstrumentInfo {
        arbitrary()
    }

    /// The instrument's ports as `ports` hands them out.
    closed spec fn ports_view(&self) -> InstrumentPorts<Self::Sample> {
        arbitrary()
    }

    fn info(&self) -> (r: &InstrumentInfo)
        ensures
            *r == self.info_view(),
    ;

    /// The instrument's ports; changing them changes the instrument's ports.
    fn ports(&mut self) -> (r: &mut InstrumentPorts<Self::Sample>)
        ensures
            *r == old(self).ports_view(),
            final(self).ports_view() == *final(r),
            final(self).info_view() == old(self).info_view(),
    ;

    /// What the instrument can be told to do, such as setting a parameter.
    type Command;

    /// Whether handling `command` may take the instrument from `self` to
    /// `after`. Each instrument has its own; what the library knows of it is
    /// only that `handle_command` behaves so.
    closed spec fn command_outcome(&self, after: &Self, command: &Self::Command) -> bool {
        arbitrary()
    }

    /// Carries out `command`.
    fn handle_command(&mut self, command: Self::Command)
        ensures
            old(self).command_outcome(final(self), &command),
    ;

    /// Whether updating the instrument `self` with these arguments may leave
    /// it as `after` with result `r`. Each instrument has its own; what the
    /// library knows of it is only that `update` behaves so.
    closed spec fn update_outcome(
        &self,
        after: &Self,
        time_window: u128,
        sample_count: u32,
        events: &Self::Events,
        r: Result<(), InstrumentError>,
    ) -> bool {
        arbitrary()
    }

    /// Generates `sample_count` samples covering `time_window` nanoseconds,
    /// handling `events` on the way.
    fn update(&mut self, time_window: u128, sample_count: u32, events: &Self::Events) -> (r: Result<
        (),
        InstrumentError,
    >)
        ensures
            old(self).update_outcome(final(self), time_window, sample_count, events, r),
    ;
}

/// A set of instruments wired together, updated in the order of the wiring.
pub struct Rack<I: Instrument> {
    instruments: Vec<I>,
    instrument_id_map: InstrumentIdMap,
    connections: Vec<Connection>,
    connection_order: ConnectionOrder,
    pub bitrate: u32,
    pub audio_out_name: String,
}

impl<I: Instrument> Rack<I> {
    pub closed spec fn bitrate_view(&self) -> u32 {
        self.bitrate
    }

    pub closed spec fn audio_out_name_view(&self) -> Seq<char> {
        self.audio_out_name@
    }

    /// The instruments, by key.
    pub closed spec fn instruments_view(&self) -> Seq<I> {
        self.instruments@
    }

    /// The key of each instrument, by name.
    pub closed spec fn ids(&self) -> Map<Seq<char>, InstrumentId> {
        self.instrument_id_map@
    }

    /// The connections made, in the order they were made.
    pub closed spec fn connections_view(&self) -> Seq<Connection> {
        self.connections@
    }

    /// The names of the instruments in the order they are updated.
    pub closed spec fn update_order(&self) -> Seq<Seq<char>> {
        self.connection_order.instruments.deep_view()
    }

    /// Whether the instrument with key `j` is in the update order.
    pub open spec fn in_update_order(&self, j: int) -> bool {
        exists|k: int|
            0 <= k < self.update_order().len() && self.ids().contains_key(#[trigger] self.update_order()[k])
                && self.ids()[self.update_order()[k]] == j
    }

    /// The key of the instrument at position `k` of the update order.
    pub open spec fn order_key(&self, k: int) -> int {
        self.ids()[self.update_order()[k]] as int
    }

    /// Whether the first `k` instruments of the update order of `before`
    /// were each updated successfully with these arguments, from their state
    /// in `before` to their state in `after`.
    pub open spec fn updated_through(
        before: Self,
        after: Self,
        k: int,
        time_window: u128,
        sample_count: u32,
        events: I::Events,
    ) -> bool {
        forall|j: int|
            0 <= j < k ==> #[trigger] before.instruments_view()[before.order_key(j)].update_outcome(
                &after.instruments_view()[before.order_key(j)],
                time_window,
                sample_count,
                &events,
                Ok(()),
            )
    }

    /// Whether the instruments of the update order of `before`, from position
    /// `k` on, are in `after` as they were.
    pub open spec fn untouched_from(before: Self, after: Self, k: int) -> bool {
        forall|j: int|
            k <= j < before.update_order().len() ==> #[trigger] after.instruments_view()[before.order_key(j)]
                == before.instruments_view()[before.order_key(j)]
    }

    /// Two positions of the update order hold instruments with different keys.
    proof fn lemma_order_keys_distinct(&self, a: int, b: int)
        requires
            self.wf(),
            0 <= a < b < self.update_order().len(),
        ensures
            self.order_key(a) != self.order_key(b),
            self.ids().contains_key(self.update_order()[a]),
            self.ids().contains_key(self.update_order()[b]),
    {
        let order = self.update_order();
        assert(wiring_graph(self.connections_view()).dom().contains(order[a]));
        assert(wiring_graph(self.connections_view()).dom().contains(order[b]));
        crate::connection_order::lemma_wired_is_registered(self.connections_view(), self.ids().dom(), order[a]);
        crate::connection_order::lemma_wired_is_registered(self.connections_view(), self.ids().dom(), order[b]);
        assert(order[a] != order[b]);
    }

    /// Whether `after` is `before` with `command` carried out by the
    /// instrument at key `command.0`, every other instrument as it was.
    pub open spec fn command_applied(before: Seq<I>, after: Seq<I>, command: (InstrumentId, I::Command)) -> bool {
        &&& command.0 < before.len()
        &&& after.len() == before.len()
        &&& before[command.0 as int].command_outcome(&after[command.0 as int], &command.1)
        &&& forall|j: int| 0 <= j < before.len() && j != command.0 ==> #[trigger] after[j] == before[j]
    }

    /// Whether `after` is `before` with the commands carried out one after
    /// the other, first to last, each by the instrument at its key.
    pub open spec fn dispatched(before: Seq<I>, after: Seq<I>, commands: Seq<(InstrumentId, I::Command)>) -> bool
        decreases commands.len(),
    {
        if commands.len() == 0 {
            after == before
        } else {
            exists|mid: Seq<I>|
                Self::dispatched(before, mid, commands.drop_last()) && #[trigger] Self::command_applied(
                    mid,
                    after,
                    commands.last(),
                )
        }
    }

    /// Whether a cycle in the wiring leaves instruments out of the update order.
    pub closed spec fn order_is_partial(&self) -> bool {
        self.connection_order.is_partial
    }

    /// The consistency of a rack: every name maps to its own instrument,
    /// every connection joins two different registered instruments, and the
    /// update order respects the wiring.
    pub open spec fn wf(&self) -> bool {
        &&& forall|k: Seq<char>| #[trigger] self.ids().contains_key(k) ==> self.ids()[k] < self.instruments_view().len()
        &&& forall|k1: Seq<char>, k2: Seq<char>|
            #[trigger] self.ids().contains_key(k1) && #[trigger] self.ids().contains_key(k2) && k1 != k2
                ==> self.ids()[k1] != self.ids()[k2]
        &&& forall|i: int|
            0 <= i < self.connections_view().len() ==> {
                let c = #[trigger] self.connections_view()[i];
                &&& self.ids().contains_key(c.source.instrument_name@)
                &&& self.ids().contains_key(c.target.instrument_name@)
                &&& c.source.instrument_name@ != c.target.instrument_name@
            }
        &&& self.connections_view().len() <= u32::MAX
        &&& is_dependency_order(wiring_graph(self.connections_view()), self.update_order(), self.order_is_partial())
    }

    /// The output port that a connection starts at, in the rack's current state.
    pub open spec fn source_port(&self, c: Connection) -> crate::port::OutputPort<I::Sample> {
        self.instruments_view()[self.ids()[c.source.instrument_name@] as int].ports_view().outputs()[c.source.port as int]
    }

    /// The input port that a connection ends at, in the rack's current state.
    pub open spec fn target_port(&self, c: Connection) -> crate::port::InputPort<I::Sample> {
        self.instruments_view()[self.ids()[c.target.instrument_name@] as int].ports_view().inputs()[c.target.port as int]
    }

    /// The ports of the instrument that a connection starts at.
    pub open spec fn source_ports(&self, c: Connection) -> InstrumentPorts<I::Sample> {
        self.instruments_view()[self.ids()[c.source.instrument_name@] as int].ports_view()
    }

    /// The ports of the instrument that a connection ends at.
    pub open spec fn target_ports(&self, c: Connection) -> InstrumentPorts<I::Sample> {
        self.instruments_view()[self.ids()[c.target.instrument_name@] as int].ports_view()
    }

    /// Whether, of the ports of the two instruments that `c` joins, at most
    /// the two that `c` names differ between `before` and `after`.
    pub open spec fn only_wire_ports_change(before: Self, after: Self, c: Connection) -> bool {
        &&& after.source_ports(c).inputs() == before.source_ports(c).inputs()
        &&& after.source_ports(c).outputs() == before.source_ports(c).outputs().update(
            c.source.port as int,
            after.source_port(c),
        )
        &&& after.target_ports(c).outputs() == before.target_ports(c).outputs()
        &&& after.target_ports(c).inputs() == before.target_ports(c).inputs().update(
            c.target.port as int,
            after.target_port(c),
        )
    }

    /// Whether both instruments of `c` are registered under different names
    /// and have the ports that `c` names.
    pub open spec fn has_ports_of(&self, c: Connection) -> bool {
        &&& c.source.instrument_name@ != c.target.instrument_name@
        &&& self.ids().contains_key(c.source.instrument_name@)
        &&& self.ids().contains_key(c.target.instrument_name@)
        &&& c.source.port < self.instruments_view()[self.ids()[c.source.instrument_name@] as int].ports_view().outputs().len()
        &&& c.target.port < self.instruments_view()[self.ids()[c.target.instrument_name@] as int].ports_view().inputs().len()
    }

    /// Whether `a` and `b` differ at most inside their instruments, and not
    /// in the instruments' ports.
    pub open spec fn same_wiring(a: Self, b: Self) -> bool {
        &&& a.ids() == b.ids()
        &&& a.bitrate_view() == b.bitrate_view()
        &&& a.connections_view() == b.connections_view()
        &&& a.update_order() == b.update_order()
        &&& a.order_is_partial() == b.order_is_partial()
        &&& a.instruments_view().len() == b.instruments_view().len()
        &&& forall|j: int|
            0 <= j < a.instruments_view().len() ==> (#[trigger] a.instruments_view()[j]).ports_view()
                == b.instruments_view()[j].ports_view()
    }

    /// What `connect` does to a rack `before`, giving `after` and the result `r`.
    ///
    /// A connection of an instrument to itself or to an instrument that is
    /// not in the rack is refused (the source is looked up first) and changes
    /// nothing. Otherwise the output port is connected first: when it is taken
    /// the result is `AlreadyConnected`; when only the input port is taken the
    /// result is `AlreadyConnected` too and the output port stays connected.
    /// When both were free, both are connected and the connection is recorded.
    /// No other instrument changes, and the ports that `c` names stay there.
    pub open spec fn connect_outcome(before: Self, after: Self, c: Connection, r: Result<(), RackError>) -> bool {
        &&& after.ids() == before.ids()
        &&& after.bitrate_view() == before.bitrate_view()
        &&& after.instruments_view().len() == before.instruments_view().len()
        &&& r is Err ==> {
            &&& after.update_order() == before.update_order()
            &&& after.order_is_partial() == before.order_is_partial()
        }
        &&& !before.has_ports_of(c) ==> {
            &&& after.instruments_view() == before.instruments_view()
            &&& after.connections_view() == before.connections_view()
            &&& r is Err
        }
        &&& c.source.instrument_name@ == c.target.instrument_name@ ==> (r matches Err(
            RackError::CannotConnectInstrumentToItself(n),
        ) && n@ == c.source.instrument_name@)
        &&& c.source.instrument_name@ != c.target.instrument_name@ && !before.ids().contains_key(
            c.source.instrument_name@,
        ) ==> (r matches Err(RackError::InstrumentNotFound(n)) && n@ == c.source.instrument_name@)
        &&& c.source.instrument_name@ != c.target.instrument_name@ && before.ids().contains_key(
            c.source.instrument_name@,
        ) && !before.ids().contains_key(c.target.instrument_name@) ==> (r matches Err(
            RackError::InstrumentNotFound(n),
        ) && n@ == c.target.instrument_name@)
        &&& before.has_ports_of(c) ==> {
            &&& after.has_ports_of(c)
            &&& after.source_port(c).connected()
            &&& Self::only_wire_ports_change(before, after, c)
            &&& forall|j: int|
                0 <= j < before.instruments_view().len() && j != before.ids()[c.source.instrument_name@] && j
                    != before.ids()[c.target.instrument_name@] ==> after.instruments_view()[j]
                    == before.instruments_view()[j]
            &&& before.source_port(c).connected() ==> {
                &&& r == Err::<(), RackError>(RackError::PortError(PortError::AlreadyConnected))
                &&& after.connections_view() == before.connections_view()
                &&& after.source_port(c) == before.source_port(c)
                &&& after.target_port(c) == before.target_port(c)
            }
            &&& !before.source_port(c).connected() && before.target_port(c).connected() ==> {
                &&& r == Err::<(), RackError>(RackError::PortError(PortError::AlreadyConnected))
                &&& after.connections_view() == before.connections_view()
                &&& after.target_port(c) == before.target_port(c)
            }
            &&& !before.source_port(c).connected() && !before.target_port(c).connected() ==> {
                &&& r is Ok
                &&& after.target_port(c).connected()
                &&& after.connections_view() == before.connections_view().push(c)
            }
        }
    }

    /// What `disconnect` does to a rack `before`, giving `after` and the result `r`.
    ///
    /// A connection that the rack never recorded is refused and changes
    /// nothing. Otherwise the output port is disconnected first: when it was
    /// free the result is `NotConnected`; when only the input port was free
    /// the result is `NotConnected` too and the output port stays
    /// disconnected. When both were connected, both are freed. The recorded
    /// connections stay as they were, and no other instrument changes.
    pub open spec fn disconnect_outcome(before: Self, after: Self, c: Connection, r: Result<(), RackError>) -> bool {
        &&& after.ids() == before.ids()
        &&& after.bitrate_view() == before.bitrate_view()
        &&& after.connections_view() == before.connections_view()
        &&& after.instruments_view().len() == before.instruments_view().len()
        &&& r is Err ==> {
            &&& after.update_order() == before.update_order()
            &&& after.order_is_partial() == before.order_is_partial()
        }
        &&& !before.knows(c) ==> {
            &&& r matches Err(RackError::UnknownConnection(x)) && x == c
            &&& after.instruments_view() == before.instruments_view()
        }
        &&& before.knows(c) ==> {
            &&& after.has_ports_of(c)
            &&& !after.source_port(c).connected()
            &&& Self::only_wire_ports_change(before, after, c)
            &&& forall|j: int|
                0 <= j < before.instruments_view().len() && j != before.ids()[c.source.instrument_name@] && j
                    != before.ids()[c.target.instrument_name@] ==> after.instruments_view()[j]
                    == before.instruments_view()[j]
            &&& !before.source_port(c).connected() ==> {
                &&& r == Err::<(), RackError>(RackError::PortError(PortError::NotConnected))
                &&& after.source_port(c) == before.source_port(c)
                &&& after.target_port(c) == before.target_port(c)
            }
            &&& before.source_port(c).connected() && !before.target_port(c).connected() ==> {
                &&& r == Err::<(), RackError>(RackError::PortError(PortError::NotConnected))
                &&& after.target_port(c) == before.target_port(c)
            }
            &&& before.source_port(c).connected() && before.target_port(c).connected() ==> {
                &&& r is Ok
                &&& !after.target_port(c).connected()
            }
        }
    }

    /// Disconnecting a connection that `connect` has just made succeeds and
    /// frees both of its ports again; every other instrument is as it was
    /// before the connection, and the connection stays recorded.
    pub proof fn lemma_disconnect_after_connect(
        r0: Self,
        r1: Self,
        r2: Self,
        c: Connection,
        connected: Result<(), RackError>,
        disconnected: Result<(), RackError>,
    )
        requires
            Self::connect_outcome(r0, r1, c, connected),
            connected is Ok,
            Self::disconnect_outcome(r1, r2, c, disconnected),
        ensures
            disconnected is Ok,
            !r2.source_port(c).connected(),
            !r2.target_port(c).connected(),
            r2.ids() == r0.ids(),
            r2.connections_view() == r0.connections_view().push(c),
            forall|j: int|
                0 <= j < r0.instruments_view().len() && j != r0.ids()[c.source.instrument_name@] && j
                    != r0.ids()[c.target.instrument_name@] ==> r2.instruments_view()[j] == r0.instruments_view()[j],
    {
        let n = r1.connections_view().len() - 1;
        assert(same_wire(r1.connections_view()[n], c));
        assert(r1.knows(c));
    }

    /// Making the same connection twice: the second attempt finds the output
    /// port taken, is refused with `AlreadyConnected`, and records nothing.
    pub proof fn lemma_connect_twice(
        r0: Self,
        r1: Self,
        r2: Self,
        c: Connection,
        first: Result<(), RackError>,
        second: Result<(), RackError>,
    )
        requires
            Self::connect_outcome(r0, r1, c, first),
            first is Ok,
            Self::connect_outcome(r1, r2, c, second),
        ensures
            second == Err::<(), RackError>(RackError::PortError(PortError::AlreadyConnected)),
            r2.connections_view() == r1.connections_view(),
    {
    }

    /// An empty rack for the given sample rate; its audio output goes by the
    /// name `__AUDIO_OUT`.
    pub fn new(bitrate: u32) -> (r: Self)
        ensures
            r.wf(),
            r.bitrate_view() == bitrate,
            r.audio_out_name_view() == "__AUDIO_OUT"@,
            r.instruments_view().len() == 0,
            r.ids() == Map::<Seq<char>, InstrumentId>::empty(),
            r.connections_view().len() == 0,
    {
        let connections: Vec<Connection> = Vec::new();
        let connection_order = ConnectionOrder::new(&connections);
        let r = Rack {
            instruments: Vec::new(),
            instrument_id_map: InstrumentIdMap::new(),
            connections,
            connection_order,
            bitrate,
            audio_out_name: "__AUDIO_OUT".to_string(),
        };
        proof {
            assert(r.connections_view() =~= Seq::<Connection>::empty());
        }
        r
    }

    /// Adds an instrument under its own name; refused when the name is in use.
    pub fn add_instrument(&mut self, instrument: I) -> (r: Result<(), RackError>)
        requires
            old(self).wf(),
        ensures
            final(self).wf(),
            final(self).connections_view() == old(self).connections_view(),
            final(self).update_order() == old(self).update_order(),
            final(self).order_is_partial() == old(self).order_is_partial(),
            final(self).bitrate_view() == old(self).bitrate_view(),
            old(self).ids().contains_key(instrument.info_view().name_view()) ==> {
                &&& r matches Err(RackError::InstrumentNameAlreadyExists)
                &&& final(self).ids() == old(self).ids()
                &&& final(self).instruments_view() == old(self).instruments_view()
            },
            !old(self).ids().contains_key(instrument.info_view().name_view()) ==> {
                &&& r is Ok
                &&& final(self).ids() == old(self).ids().insert(
                    instrument.info_view().name_view(),
                    old(self).instruments_view().len() as InstrumentId,
                )
                &&& final(self).instruments_view() == old(self).instruments_view().push(instrument)
            },
    {
        let instrument_name = instrument.info().name().to_owned();
        if self.instrument_id_map.get(instrument_name.as_str()).is_some() {
            return Err(RackError::InstrumentNameAlreadyExists);
        }
        let id = self.instruments.len();
        self.instruments.push(instrument);
        self.instrument_id_map.insert(instrument_name, id);
        proof {
            let name = instrument.info_view().name_view();
            assert forall|k: Seq<char>| #[trigger] self.ids().contains_key(k) implies self.ids()[k]
                < self.instruments_view().len() by {
                if k != name {
                    assert(old(self).ids().contains_key(k));
                }
            }
            assert forall|k1: Seq<char>, k2: Seq<char>|
                #[trigger] self.ids().contains_key(k1) && #[trigger] self.ids().contains_key(k2) && k1
                    != k2 implies self.ids()[k1] != self.ids()[k2] by {
                if k1 != name {
                    assert(old(self).ids().contains_key(k1));
                }
                if k2 != name {
                    assert(old(self).ids().contains_key(k2));
                }
            }
            assert forall|i: int| 0 <= i < self.connections_view().len() implies {
                let c = #[trigger] self.connections_view()[i];
                &&& self.ids().contains_key(c.source.instrument_name@)
                &&& self.ids().contains_key(c.target.instrument_name@)
                &&& c.source.instrument_name@ != c.target.instrument_name@
            } by {
                assert(old(self).connections_view()[i] == self.connections_view()[i]);
            }
        }
        Ok(())
    }

    /// The key of the instrument called `name`; `InstrumentNotFound` when there is none.
    pub fn instrument_id(&self, name: &str) -> (r: Result<InstrumentId, RackError>)
        ensures
            self.ids().contains_key(name@) ==> r == Ok::<InstrumentId, RackError>(self.ids()[name@]),
            !self.ids().contains_key(name@) ==> (r matches Err(RackError::InstrumentNotFound(n)) && n@
                == name@),
    {
        self.instrument_id_map.instrument_id(name)
    }

    /// The instrument called `name`, to read; `InstrumentNotFound` when there is none.
    pub fn instrument_ref(&self, name: &str) -> (r: Result<&I, RackError>)
        requires
            self.wf(),
        ensures
            self.ids().contains_key(name@) ==> (r matches Ok(i) && *i == self.instruments_view()[self.ids()[name@] as int]),
            !self.ids().contains_key(name@) ==> (r matches Err(RackError::InstrumentNotFound(n)) && n@ == name@),
    {
        let id = self.instrument_id_map.instrument_id(name)?;
        proof {
            assert(self.ids().contains_key(name@));
        }
        Ok(&self.instruments[id])
    }

    /// The instrument called `name`; `InstrumentNotFound` when there is none.
    pub fn instrument(&mut self, name: &str) -> (r: Result<&mut I, RackError>)
        requires
            old(self).wf(),
        ensures
            final(self).wf(),
            final(self).ids() == old(self).ids(),
            final(self).connections_view() == old(self).connections_view(),
            final(self).update_order() == old(self).update_order(),
            final(self).order_is_partial() == old(self).order_is_partial(),
            final(self).bitrate_view() == old(self).bitrate_view(),
            old(self).ids().contains_key(name@) ==> (r matches Ok(i) && *i == old(self).instruments_view()[old(self).ids()[name@] as int]
                && final(self).instruments_view() == old(self).instruments_view().update(
                old(self).ids()[name@] as int,
                *final(i),
            )),
            !old(self).ids().contains_key(name@) ==> (r matches Err(RackError::InstrumentNotFound(n))
                && n@ == name@ && final(self).instruments_view() == old(self).instruments_view()),
    {
        let id = self.instrument_id_map.instrument_id(name)?;
        proof {
            assert(self.ids().contains_key(name@));
        }
        Ok(&mut self.instruments[id])
    }

    /// The instrument with key `id`, if there is one.
    pub fn instrument_by_id(&mut self, id: InstrumentId) -> (r: Option<&mut I>)
        requires
            old(self).wf(),
        ensures
            final(self).ids() == old(self).ids(),
            final(self).connections_view() == old(self).connections_view(),
            final(self).update_order() == old(self).update_order(),
            final(self).order_is_partial() == old(self).order_is_partial(),
            final(self).bitrate_view() == old(self).bitrate_view(),
            final(self).instruments_view().len() == old(self).instruments_view().len(),
            final(self).wf(),
            id < old(self).instruments_view().len() ==> (r matches Some(i) && *i == old(self).instruments_view()[id as int]
                && final(self).instruments_view() == old(self).instruments_view().update(id as int, *final(i))),
            id >= old(self).instruments_view().len() ==> (r is None && final(self).instruments_view() == old(self).instruments_view()),
    {
        if id < self.instruments.len() {
            proof {
                assert(self.instruments_view().len() == old(self).instruments_view().len());
            }
            Some(&mut self.instruments[id])
        } else {
            None
        }
    }

    /// Connects the output port of one instrument to the input port of
    /// another through a new ring buffer holding two seconds of samples.
    ///
    /// Refused when the connection joins an instrument to itself, when an
    /// instrument is not in the rack (the source is looked up first), or when
    /// a port is connected already: the output port is tried first, and when
    /// only the input port is taken the output port stays connected. A made
    /// connection is recorded and the update order is recomputed.
    pub fn connect(&mut self, connection: Connection) -> (r: Result<(), RackError>)
        requires
            old(self).wf(),
            old(self).connections_view().len() < u32::MAX,
            old(self).bitrate_view() * 2 <= usize::MAX / 2,
            old(self).bitrate_view() * 2 * vstd::layout::size_of::<I::Sample>() <= isize::MAX,
            connection.source.instrument_name@ != connection.target.instrument_name@ && old(self).ids().contains_key(
                connection.source.instrument_name@,
            ) && old(self).ids().contains_key(connection.target.instrument_name@) ==> old(self).has_ports_of(
                connection,
            ),
        ensures
            final(self).wf(),
            Self::connect_outcome(*old(self), *final(self), connection, r),
    {
        let buffer_size = (self.bitrate as usize) * 2;
        let (source_id, target_id) = self.instrument_id_map.instrument_pair(
            connection.source.instrument_name.as_str(),
            connection.target.instrument_name.as_str(),
        )?;
        proof {
            assert(self.ids().contains_key(connection.source.instrument_name@));
            assert(self.ids().contains_key(connection.target.instrument_name@));
        }
        let (producer, consumer) = ring_buffer(buffer_size);
        let ghost before = self.instruments@;
        let attached = {
            let instrument = &mut self.instruments[source_id];
            let ports = instrument.ports();
            let output = ports.output_port_mut(connection.source.port);
            output.set_producer(producer)
        };
        if let Err(e) = attached {
            proof {
                assert(self.instruments@[target_id as int] == before[target_id as int]);
                assert(self.target_ports(connection).inputs() =~= old(self).target_ports(connection).inputs().update(
                    connection.target.port as int,
                    self.target_port(connection),
                ));
                assert(self.source_ports(connection).outputs() =~= old(self).source_ports(connection).outputs().update(
                    connection.source.port as int,
                    self.source_port(connection),
                ));
            }
            return Err(RackError::PortError(e));
        }
        let ghost middle = self.instruments@;
        proof {
            assert(middle[target_id as int] == before[target_id as int]);
        }
        {
            let instrument = &mut self.instruments[target_id];
            let ports = instrument.ports();
            let input = ports.input_port_mut(connection.target.port);
            if let Err(e) = input.set_consumer(consumer) {
                return Err(RackError::PortError(e));
            }
        }
        proof {
            assert(self.instruments@[source_id as int] == middle[source_id as int]);
        }
        let ghost added = connection;
        self.connections.push(connection);
        self.connection_order = ConnectionOrder::new(&self.connections);
        proof {
            assert forall|i: int| 0 <= i < self.connections_view().len() implies {
                let c = #[trigger] self.connections_view()[i];
                &&& self.ids().contains_key(c.source.instrument_name@)
                &&& self.ids().contains_key(c.target.instrument_name@)
                &&& c.source.instrument_name@ != c.target.instrument_name@
            } by {
                if i < old(self).connections_view().len() {
                    assert(old(self).connections_view()[i] == self.connections_view()[i]);
                } else {
                    assert(self.connections_view()[i] == added);
                }
            }
        }
        Ok(())
    }

    /// Connects output port `port` of the instrument called `name` to an
    /// input port outside the rack, through a new ring buffer holding two
    /// seconds of samples. Such a connection is not recorded and does not
    /// take part in the update order.
    ///
    /// Refused with `InstrumentNotFound` when there is no such instrument.
    /// Otherwise the output port is connected first: when it is taken the
    /// result is `AlreadyConnected`; when only `input` is taken the result is
    /// `AlreadyConnected` too and the output port stays connected.
    pub fn connect_external(&mut self, name: &str, port: PortId, input: &mut InputPort<I::Sample>) -> (r: Result<
        (),
        RackError,
    >)
        requires
            old(self).wf(),
            old(self).bitrate_view() * 2 <= usize::MAX / 2,
            old(self).bitrate_view() * 2 * vstd::layout::size_of::<I::Sample>() <= isize::MAX,
            old(self).ids().contains_key(name@) ==> port < old(self).instruments_view()[old(self).ids()[name@] as int].ports_view().outputs().len(),
        ensures
            final(self).wf(),
            final(self).ids() == old(self).ids(),
            final(self).connections_view() == old(self).connections_view(),
            final(self).update_order() == old(self).update_order(),
            final(self).order_is_partial() == old(self).order_is_partial(),
            final(self).bitrate_view() == old(self).bitrate_view(),
            final(self).instruments_view().len() == old(self).instruments_view().len(),
            !old(self).ids().contains_key(name@) ==> {
                &&& r matches Err(RackError::InstrumentNotFound(n)) && n@ == name@
                &&& final(self).instruments_view() == old(self).instruments_view()
                &&& *final(input) == *old(input)
            },
            old(self).ids().contains_key(name@) ==> ({
                let id = old(self).ids()[name@] as int;
                let before = old(self).instruments_view()[id].ports_view();
                let after = final(self).instruments_view()[id].ports_view();
                &&& forall|j: int|
                    0 <= j < old(self).instruments_view().len() && j != id ==> final(self).instruments_view()[j]
                        == old(self).instruments_view()[j]
                &&& after.inputs() == before.inputs()
                &&& after.outputs() == before.outputs().update(port as int, after.outputs()[port as int])
                &&& after.outputs()[port as int].connected()
                &&& before.outputs()[port as int].connected() ==> {
                    &&& r == Err::<(), RackError>(RackError::PortError(PortError::AlreadyConnected))
                    &&& after.outputs()[port as int] == before.outputs()[port as int]
                    &&& *final(input) == *old(input)
                }
                &&& !before.outputs()[port as int].connected() && old(input).connected() ==> {
                    &&& r == Err::<(), RackError>(RackError::PortError(PortError::AlreadyConnected))
                    &&& *final(input) == *old(input)
                }
                &&& !before.outputs()[port as int].connected() && !old(input).connected() ==> {
                    &&& r is Ok
                    &&& final(input).connected()
                }
            }),
    {
        let id = self.instrument_id_map.instrument_id(name)?;
        proof {
            assert(self.ids().contains_key(name@));
        }
        let buffer_size = (self.bitrate as usize) * 2;
        let (producer, consumer) = ring_buffer(buffer_size);
        let attached = {
            let instrument = &mut self.instruments[id];
            let ports = instrument.ports();
            let output = ports.output_port_mut(port);
            output.set_producer(producer)
        };
        if let Err(e) = attached {
            return Err(RackError::PortError(e));
        }
        match input.set_consumer(consumer) {
            Ok(()) => Ok(()),
            Err(e) => Err(RackError::PortError(e)),
        }
    }

    /// A connection keeps the port counts of every instrument, so the ports
    /// that any connection names are still there after it.
    pub proof fn lemma_connect_keeps_ports(before: Self, after: Self, c: Connection, r: Result<(), RackError>, d: Connection)
        requires
            before.wf(),
            Self::connect_outcome(before, after, c, r),
            before.has_ports_of(d),
        ensures
            after.has_ports_of(d),
    {
        if before.has_ports_of(c) {
            let s = before.ids()[c.source.instrument_name@] as int;
            let t = before.ids()[c.target.instrument_name@] as int;
            assert(s != t);
            let ds = before.ids()[d.source.instrument_name@] as int;
            let dt = before.ids()[d.target.instrument_name@] as int;
            assert(after.instruments_view()[ds].ports_view().outputs().len() == before.instruments_view()[ds].ports_view().outputs().len());
            assert(after.instruments_view()[dt].ports_view().inputs().len() == before.instruments_view()[dt].ports_view().inputs().len());
        }
    }

    /// Whether `states` runs from a rack through one successful `connect` of
    /// each of `connections`, in order.
    pub open spec fn connected_in_order(states: Seq<Self>, connections: Seq<Connection>) -> bool {
        &&& states.len() == connections.len() + 1
        &&& forall|i: int|
            0 <= i < connections.len() ==> #[trigger] Self::connect_outcome(
                states[i],
                states[i + 1],
                connections[i],
                Ok(()),
            )
    }

    /// Makes the connections one after the other, first to last, as `connect`
    /// makes each, stopping at the first that is refused.
    pub fn connect_all(&mut self, connections: Vec<Connection>) -> (r: Result<(), RackError>)
        requires
            old(self).wf(),
            old(self).connections_view().len() + connections.len() < u32::MAX,
            old(self).bitrate_view() * 2 <= usize::MAX / 2,
            old(self).bitrate_view() * 2 * vstd::layout::size_of::<I::Sample>() <= isize::MAX,
            forall|k: int|
                0 <= k < connections.len() ==> {
                    let c = #[trigger] connections[k];
                    c.source.instrument_name@ != c.target.instrument_name@ && old(self).ids().contains_key(
                        c.source.instrument_name@,
                    ) && old(self).ids().contains_key(c.target.instrument_name@) ==> old(self).has_ports_of(c)
                },
        ensures
            final(self).wf(),
            r is Ok ==> exists|states: Seq<Self>|
                states[0] == *old(self) && states.last() == *final(self) && #[trigger] Self::connected_in_order(
                    states,
                    connections@,
                ),
            r is Err ==> exists|states: Seq<Self>, k: int|
                0 <= k < connections.len() && states[0] == *old(self) && Self::connected_in_order(
                    states,
                    connections@.take(k),
                ) && #[trigger] Self::connect_outcome(states.last(), *final(self), connections@[k], r),
    {
        let ghost all = connections@;
        let n = connections.len();
        let mut rest = connections;
        let mut i: usize = 0;
        let ghost mut states = seq![*self];
        proof {
            assert(all.len() == n);
            assert(all.take(0) =~= Seq::<Connection>::empty());
            assert(rest@ =~= all.skip(0));
        }
        while rest.len() > 0
            invariant
                self.wf(),
                i + rest.len() == all.len(),
                all.len() <= usize::MAX,
                all == connections@,
                rest@ == all.skip(i as int),
                self.ids() == old(self).ids(),
                self.bitrate_view() == old(self).bitrate_view(),
                self.connections_view().len() == old(self).connections_view().len() + i,
                old(self).connections_view().len() + all.len() < u32::MAX,
                old(self).bitrate_view() * 2 <= usize::MAX / 2,
                old(self).bitrate_view() * 2 * vstd::layout::size_of::<I::Sample>() <= isize::MAX,
                forall|k: int|
                    i <= k < all.len() ==> {
                        let c = #[trigger] all[k];
                        c.source.instrument_name@ != c.target.instrument_name@ && self.ids().contains_key(
                            c.source.instrument_name@,
                        ) && self.ids().contains_key(c.target.instrument_name@) ==> self.has_ports_of(c)
                    },
                states.len() == i + 1,
                states[0] == *old(self),
                states.last() == *self,
                Self::connected_in_order(states, all.take(i as int)),
            decreases rest.len(),
        {
            let ghost before = *self;
            let connection = rest.remove(0);
            proof {
                assert(all[i as int] == connection);
                assert(rest@ =~= all.skip(i + 1));
            }
            let ghost c = connection;
            let made = self.connect(connection);
            let ghost made_g = made;
            match made {
                Ok(()) => {},
                Err(e) => {
                    proof {
                        assert(states.last() == before);
                        assert(all[i as int] == c);
                        assert(Self::connect_outcome(states.last(), *self, all[i as int], made_g));
                        assert(made_g == Err::<(), RackError>(e));
                        assert(all.take(i as int) == connections@.take(i as int));
                    }
                    return Err(e);
                },
            }
            proof {
                assert(made_g is Ok);
                assert(made_g == Ok::<(), RackError>(made_g->Ok_0));
                assert(made_g->Ok_0 == ());
                assert(made_g == Ok::<(), RackError>(()));
                assert forall|k: int| i + 1 <= k < all.len() implies {
                    let d = #[trigger] all[k];
                    d.source.instrument_name@ != d.target.instrument_name@ && self.ids().contains_key(
                        d.source.instrument_name@,
                    ) && self.ids().contains_key(d.target.instrument_name@) ==> self.has_ports_of(d)
                } by {
                    let d = all[k];
                    if d.source.instrument_name@ != d.target.instrument_name@ && self.ids().contains_key(
                        d.source.instrument_name@,
                    ) && self.ids().contains_key(d.target.instrument_name@) {
                        Self::lemma_connect_keeps_ports(before, *self, c, made_g, d);
                    }
                }
                let next = states.push(*self);
                let done = all.take(i + 1);
                assert forall|j: int| 0 <= j < done.len() implies #[trigger] Self::connect_outcome(
                    next[j],
                    next[j + 1],
                    done[j],
                    Ok(()),
                ) by {
                    if j < i {
                        assert(done[j] == all.take(i as int)[j]);
                        assert(next[j] == states[j]);
                        assert(next[j + 1] == states[j + 1]);
                    } else {
                        assert(done[j] == c);
                        assert(next[j] == before);
                    }
                }
                assert(Self::connected_in_order(next, done));
                states = next;
            }
            i = i + 1;
        }
        proof {
            assert(all.take(i as int) =~= all);
        }
        Ok(())
    }

    /// Whether the rack recorded a connection joining the same ports as `c`.
    pub open spec fn knows(&self, c: Connection) -> bool {
        exists|i: int| 0 <= i < self.connections_view().len() && same_wire(#[trigger] self.connections_view()[i], c)
    }

    /// Disconnects the ports that a recorded connection joins.
    ///
    /// Refused for a connection the rack never made, and when a port is not
    /// connected: the output port is tried first, and when only the input
    /// port is free the output port stays disconnected. The connection stays
    /// recorded; on success the update order is recomputed.
    pub fn disconnect(&mut self, connection: Connection) -> (r: Result<(), RackError>)
        requires
            old(self).wf(),
            old(self).knows(connection) ==> old(self).has_ports_of(connection),
        ensures
            final(self).wf(),
            Self::disconnect_outcome(*old(self), *final(self), connection, r),
    {
        if !connection.is_among(&self.connections) {
            return Err(RackError::UnknownConnection(connection));
        }
        proof {
            let i = choose|i: int| 0 <= i < self.connections_view().len() && same_wire(self.connections_view()[i], connection);
            let c = self.connections_view()[i];
            assert(self.ids().contains_key(c.source.instrument_name@));
        }
        let (source_id, target_id) = self.instrument_id_map.instrument_pair(
            connection.source.instrument_name.as_str(),
            connection.target.instrument_name.as_str(),
        )?;
        proof {
            assert(self.ids().contains_key(connection.source.instrument_name@));
            assert(self.ids().contains_key(connection.target.instrument_name@));
        }
        let ghost before = self.instruments@;
        let detached = {
            let instrument = &mut self.instruments[source_id];
            let ports = instrument.ports();
            let output = ports.output_port_mut(connection.source.port);
            output.remove_producer()
        };
        if let Err(e) = detached {
            proof {
                assert(self.instruments@[target_id as int] == before[target_id as int]);
                assert(self.target_ports(connection).inputs() =~= old(self).target_ports(connection).inputs().update(
                    connection.target.port as int,
                    self.target_port(connection),
                ));
                assert(self.source_ports(connection).outputs() =~= old(self).source_ports(connection).outputs().update(
                    connection.source.port as int,
                    self.source_port(connection),
                ));
            }
            return Err(RackError::PortError(e));
        }
        let ghost middle = self.instruments@;
        proof {
            assert(middle[target_id as int] == before[target_id as int]);
        }
        {
            let instrument = &mut self.instruments[target_id];
            let ports = instrument.ports();
            let input = ports.input_port_mut(connection.target.port);
            if let Err(e) = input.remove_consumer() {
                return Err(RackError::PortError(e));
            }
        }
        proof {
            assert(self.instruments@[source_id as int] == middle[source_id as int]);
        }
        self.connection_order = ConnectionOrder::new(&self.connections);
        Ok(())
    }

    /// Updates every instrument of the update order, in that order, for
    /// `time_window` nanoseconds and `sample_count` samples, stopping at the
    /// first instrument that fails.
    ///
    /// Every instrument in the order is in the rack, so the only failure is an
    /// instrument's own. An instrument that the order does not list (one that
    /// takes part in no connection, or that waits on a cycle) is left as it is.
    pub fn update(&mut self, time_window: u128, sample_count: u32, events: &I::Events) -> (r: Result<(), RackError>)
        requires
            old(self).wf(),
        ensures
            final(self).wf(),
            final(self).ids() == old(self).ids(),
            final(self).connections_view() == old(self).connections_view(),
            final(self).update_order() == old(self).update_order(),
            final(self).order_is_partial() == old(self).order_is_partial(),
            final(self).bitrate_view() == old(self).bitrate_view(),
            final(self).instruments_view().len() == old(self).instruments_view().len(),
            r is Ok || r matches Err(RackError::InstrumentError(_)),
            forall|j: int|
                0 <= j < old(self).instruments_view().len() && !old(self).in_update_order(j) ==> (
                #[trigger] final(self).instruments_view()[j]) == old(self).instruments_view()[j],
            r is Ok ==> Self::updated_through(
                *old(self),
                *final(self),
                old(self).update_order().len() as int,
                time_window,
                sample_count,
                *events,
            ),
            r matches Err(RackError::InstrumentError(e)) ==> exists|k: int|
                0 <= k < old(self).update_order().len() && #[trigger] Self::updated_through(
                    *old(self),
                    *final(self),
                    k,
                    time_window,
                    sample_count,
                    *events,
                ) && old(self).instruments_view()[old(self).order_key(k)].update_outcome(
                    &final(self).instruments_view()[old(self).order_key(k)],
                    time_window,
                    sample_count,
                    events,
                    Err(e),
                ) && Self::untouched_from(*old(self), *final(self), k + 1),
    {
        let mut i: usize = 0;
        let n = self.connection_order.instruments.len();
        while i < n
            invariant
                self.wf(),
                n == self.update_order().len(),
                i <= n,
                self.ids() == old(self).ids(),
                self.connections_view() == old(self).connections_view(),
                self.update_order() == old(self).update_order(),
                self.order_is_partial() == old(self).order_is_partial(),
                self.bitrate_view() == old(self).bitrate_view(),
                self.instruments_view().len() == old(self).instruments_view().len(),
                forall|j: int|
                    0 <= j < old(self).instruments_view().len() && !old(self).in_update_order(j) ==> (
                    #[trigger] self.instruments_view()[j]) == old(self).instruments_view()[j],
                Self::updated_through(*old(self), *self, i as int, time_window, sample_count, *events),
                Self::untouched_from(*old(self), *self, i as int),
            decreases n - i,
        {
            proof {
                let name = self.update_order()[i as int];
                assert(wiring_graph(self.connections_view()).dom().contains(name));
                crate::connection_order::lemma_wired_is_registered(self.connections_view(), self.ids().dom(), name);
            }
            let id = match self.instrument_id_map.instrument_id(self.connection_order.instruments[i].as_str()) {
                Ok(id) => id,
                Err(e) => return Err(e),
            };
            proof {
                assert(self.ids().contains_key(self.update_order()[i as int]));
            }
            proof {
                assert(old(self).in_update_order(id as int)) by {
                    assert(old(self).update_order()[i as int] == self.update_order()[i as int]);
                }
            }
            let ghost before = *self;
            proof {
                assert(old(self).order_key(i as int) == id);
                assert(before.instruments_view()[id as int] == old(self).instruments_view()[id as int]);
            }
            let instrument = &mut self.instruments[id];
            let result = instrument.update(time_window, sample_count, events);
            proof {
                assert forall|j: int| 0 <= j < n && j != i implies #[trigger] old(self).order_key(j) != id by {
                    if j < i {
                        self.lemma_order_keys_distinct(j, i as int);
                    } else {
                        self.lemma_order_keys_distinct(i as int, j);
                    }
                }
                assert forall|j: int| 0 <= j < i implies #[trigger] old(self).instruments_view()[old(self).order_key(j)].update_outcome(
                    &self.instruments_view()[old(self).order_key(j)],
                    time_window,
                    sample_count,
                    events,
                    Ok(()),
                ) by {
                    assert(old(self).order_key(j) != id);
                    assert(self.instruments_view()[old(self).order_key(j)] == before.instruments_view()[old(self).order_key(j)]);
                }
                assert forall|j: int| i < j < n implies #[trigger] self.instruments_view()[old(self).order_key(j)]
                    == old(self).instruments_view()[old(self).order_key(j)] by {
                    assert(old(self).order_key(j) != id);
                    assert(self.instruments_view()[old(self).order_key(j)] == before.instruments_view()[old(self).order_key(j)]);
                }
            }
            let ghost outcome = result;
            match result {
                Ok(()) => {},
                Err(e) => {
                    proof {
                        assert(Self::updated_through(*old(self), *self, i as int, time_window, sample_count, *events));
                    }
                    return Err(RackError::InstrumentError(e));
                },
            }
            proof {
                assert(outcome is Ok);
                assert(before.instruments_view()[id as int].update_outcome(
                    &self.instruments_view()[id as int],
                    time_window,
                    sample_count,
                    events,
                    outcome,
                ));
                assert(outcome == Ok::<(), InstrumentError>(outcome->Ok_0));
                assert(outcome->Ok_0 == ());
                assert(outcome == Ok::<(), InstrumentError>(()));
                assert(old(self).instruments_view()[old(self).order_key(i as int)].update_outcome(
                    &self.instruments_view()[old(self).order_key(i as int)],
                    time_window,
                    sample_count,
                    events,
                    Ok(()),
                ));
                assert forall|j: int| 0 <= j < i + 1 implies #[trigger] old(self).instruments_view()[old(self).order_key(j)].update_outcome(
                    &self.instruments_view()[old(self).order_key(j)],
                    time_window,
                    sample_count,
                    events,
                    Ok(()),
                ) by {}
            }
            i = i + 1;
        }
        Ok(())
    }

    /// Hands each command, first to last, to the instrument with its key.
    pub fn dispatch(&mut self, commands: Vec<(InstrumentId, I::Command)>)
        requires
            old(self).wf(),
            forall|k: int| 0 <= k < commands.len() ==> (#[trigger] commands[k]).0 < old(self).instruments_view().len(),
        ensures
            final(self).wf(),
            final(self).ids() == old(self).ids(),
            final(self).connections_view() == old(self).connections_view(),
            final(self).update_order() == old(self).update_order(),
            final(self).order_is_partial() == old(self).order_is_partial(),
            final(self).bitrate_view() == old(self).bitrate_view(),
            Self::dispatched(old(self).instruments_view(), final(self).instruments_view(), commands@),
    {
        let ghost all = commands@;
        let n = commands.len();
        let mut rest = commands;
        let mut i: usize = 0;
        proof {
            assert(all.len() == n);
            assert(all.take(0) =~= Seq::<(InstrumentId, I::Command)>::empty());
        }
        while rest.len() > 0
            invariant
                self.wf(),
                self.ids() == old(self).ids(),
                self.connections_view() == old(self).connections_view(),
                self.update_order() == old(self).update_order(),
                self.order_is_partial() == old(self).order_is_partial(),
                self.bitrate_view() == old(self).bitrate_view(),
                self.instruments_view().len() == old(self).instruments_view().len(),
                i + rest.len() == all.len(),
                all.len() <= usize::MAX,
                rest@ == all.skip(i as int),
                forall|k: int| 0 <= k < all.len() ==> (#[trigger] all[k]).0 < old(self).instruments_view().len(),
                Self::dispatched(old(self).instruments_view(), self.instruments_view(), all.take(i as int)),
            decreases rest.len(),
        {
            let ghost before = self.instruments_view();
            let (id, command) = rest.remove(0);
            proof {
                assert(all[i as int] == (id, command));
                assert(rest@ =~= all.skip(i + 1));
            }
            let ghost given = (id, command);
            let instrument = &mut self.instruments[id];
            instrument.handle_command(command);
            proof {
                assert(Self::command_applied(before, self.instruments_view(), given));
                assert(all.take(i + 1).drop_last() =~= all.take(i as int));
                assert(all.take(i + 1).last() == given);
            }
            i = i + 1;
        }
        proof {
            assert(all.take(i as int) =~= all);
        }
    }
}

} // verus!
