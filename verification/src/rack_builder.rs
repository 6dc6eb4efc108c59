use vstd::prelude::*;

use crate::config::ConnectionConfig;
use crate::connection::{Connection, EndPoint, PortId};
use crate::instrument_ports::PortResolver;
use crate::rack::{Instrument, Rack, RackError};

verus! {

/// Why a rack could not be built from a configuration.
#[derive(Debug)]
pub enum RackBuilderError {
    /// The named instrument has no port of the given name.
    UnknownPort(String, String),
    RackError(RackError),
}

/// Whether `c` joins the two instruments that `config` names.
pub open spec fn joins_configured(config: ConnectionConfig, c: Connection) -> bool {
    &&& c.source.instrument_name@ == config.source.instrument@
    &&& c.target.instrument_name@ == config.target.instrument@
}

/// What the builder reports for what `Rack::connect` returned.
pub open spec fn builder_result(made: Result<(), RackError>) -> Result<(), RackBuilderError> {
    match made {
        Ok(()) => Ok(()),
        Err(e) => Err(RackBuilderError::RackError(e)),
    }
}

/// Whether `after` is `before` followed by one connection for each of the
/// first `k` configured connections, in order, each joining the instruments
/// its configuration names.
pub open spec fn made_in_order(
    before: Seq<Connection>,
    after: Seq<Connection>,
    configs: Seq<ConnectionConfig>,
    k: int,
) -> bool {
    &&& after.len() == before.len() + k
    &&& after.take(before.len() as int) == before
    &&& forall|i: int| 0 <= i < k ==> joins_configured(#[trigger] configs[i], after[before.len() + i])
}

/// Whether `port` was resolved and is one of the first `count` ports.
pub open spec fn port_fits(count: int, port: Option<PortId>) -> bool {
    port matches Some(p) && p < count
}

/// The output port that the configured source port name resolves to on the
/// source instrument of `rack`; nothing when that instrument is not there.
pub open spec fn resolved_output<I: Instrument>(rack: Rack<I>, config: ConnectionConfig) -> Option<PortId> {
    if rack.ids().contains_key(config.source.instrument@) {
        rack.instruments_view()[rack.ids()[config.source.instrument@] as int].output_port_named(config.source.port@)
    } else {
        None
    }
}

/// The input port that the configured target port name resolves to on the
/// target instrument of `rack`; nothing when that instrument is not there.
pub open spec fn resolved_input<I: Instrument>(rack: Rack<I>, config: ConnectionConfig) -> Option<PortId> {
    if rack.ids().contains_key(config.target.instrument@) {
        rack.instruments_view()[rack.ids()[config.target.instrument@] as int].input_port_named(config.target.port@)
    } else {
        None
    }
}

/// What wiring the rack `before` as `config` says, with the resolved ports
/// `source_port` and `target_port`, gives: `after` and the result `r`.
///
/// The source comes first: `InstrumentNotFound` when it is not in the rack,
/// `UnknownPort` when its port is not one of its outputs. Then the target,
/// against its inputs. All these refusals leave the wiring as it was.
/// Otherwise the connection of the two ports is made as `Rack::connect`
/// makes it.
pub open spec fn connection_built<I: Instrument>(
    before: Rack<I>,
    after: Rack<I>,
    config: ConnectionConfig,
    source_port: Option<PortId>,
    target_port: Option<PortId>,
    r: Result<(), RackBuilderError>,
) -> bool {
    let source = config.source.instrument@;
    let target = config.target.instrument@;
    let source_fits = before.ids().contains_key(source) && port_fits(
        before.instruments_view()[before.ids()[source] as int].ports_view().outputs().len() as int,
        source_port,
    );
    let target_fits = before.ids().contains_key(target) && port_fits(
        before.instruments_view()[before.ids()[target] as int].ports_view().inputs().len() as int,
        target_port,
    );
    &&& after.ids() == before.ids()
    &&& after.bitrate_view() == before.bitrate_view()
    &&& after.instruments_view().len() == before.instruments_view().len()
    &&& !before.ids().contains_key(source) ==> (r matches Err(
        RackBuilderError::RackError(RackError::InstrumentNotFound(n)),
    ) && n@ == source)
    &&& before.ids().contains_key(source) && !source_fits ==> (r matches Err(RackBuilderError::UnknownPort(i, p))
        && i@ == source && p@ == config.source.port@)
    &&& source_fits && !before.ids().contains_key(target) ==> (r matches Err(
        RackBuilderError::RackError(RackError::InstrumentNotFound(n)),
    ) && n@ == target)
    &&& source_fits && before.ids().contains_key(target) && !target_fits ==> (r matches Err(
        RackBuilderError::UnknownPort(i, p),
    ) && i@ == target && p@ == config.target.port@)
    &&& !(source_fits && target_fits) ==> Rack::same_wiring(before, after)
    &&& source_fits && target_fits ==> exists|mid: Rack<I>, c: Connection, made: Result<(), RackError>|
        #![trigger Rack::connect_outcome(mid, after, c, made)]
        {
            &&& Rack::same_wiring(before, mid)
            &&& joins_configured(config, c)
            &&& source_port == Some(c.source.port)
            &&& target_port == Some(c.target.port)
            &&& Rack::connect_outcome(mid, after, c, made)
            &&& r == builder_result(made)
        }
}

/// Whether `states` runs from a rack through one successful wiring of each
/// of `configs`, in order: each configured connection is built, at the ports
/// its names resolve to in the state before it, into the next state.
pub open spec fn built_in_order<I: Instrument>(states: Seq<Rack<I>>, configs: Seq<ConnectionConfig>) -> bool {
    &&& states.len() == configs.len() + 1
    &&& forall|i: int|
        0 <= i < configs.len() ==> #[trigger] connection_built(
            states[i],
            states[i + 1],
            configs[i],
            resolved_output(states[i], configs[i]),
            resolved_input(states[i], configs[i]),
            Ok(()),
        )
}

/// Racks that differ at most inside their instruments, but not in their
/// ports, are related so in a chain too.
proof fn lemma_same_wiring_chains<I: Instrument>(a: Rack<I>, b: Rack<I>, c: Rack<I>)
    requires
        Rack::same_wiring(a, b),
        Rack::same_wiring(b, c),
    ensures
        Rack::same_wiring(a, c),
{
    assert forall|j: int| 0 <= j < a.instruments_view().len() implies (#[trigger] a.instruments_view()[j]).ports_view()
        == c.instruments_view()[j].ports_view() by {
        assert(b.instruments_view()[j].ports_view() == a.instruments_view()[j].ports_view());
    }
}

/// Builds the wiring of a rack from the connections of a configuration,
/// where ports go by name.
pub struct RackBuilder {}

impl RackBuilder {
    /// How many output ports (when `output` holds) or input ports the
    /// instrument called `name` has. Nothing in the rack changes but, at
    /// most, the insides of that instrument.
    fn port_count<I: Instrument>(rack: &mut Rack<I>, name: &String, output: bool) -> (r: usize)
        requires
            old(rack).wf(),
            old(rack).ids().contains_key(name@),
        ensures
            final(rack).wf(),
            Rack::same_wiring(*old(rack), *final(rack)),
            r == if output {
                old(rack).instruments_view()[old(rack).ids()[name@] as int].ports_view().outputs().len()
            } else {
                old(rack).instruments_view()[old(rack).ids()[name@] as int].ports_view().inputs().len()
            },
    {
        match rack.instrument(name.as_str()) {
            Ok(instrument) => {
                let ports = instrument.ports();
                if output {
                    ports.output_count()
                } else {
                    ports.input_count()
                }
            },
            Err(_) => 0,
        }
    }

    /// Wires the rack as `config` says, with the ports that its names were
    /// resolved to: `source_port` on the source, `target_port` on the target.
    ///
    /// The source is looked up first: `InstrumentNotFound` when it is not in
    /// the rack, `UnknownPort` when its port was not resolved or is past its
    /// output ports. The target is looked up next in the same way, against
    /// its input ports. Then the two ports are connected, and the result is
    /// what `Rack::connect` gives, its error wrapped.
    pub fn connect_resolved<I: Instrument>(
        rack: &mut Rack<I>,
        config: &ConnectionConfig,
        source_port: Option<PortId>,
        target_port: Option<PortId>,
    ) -> (r: Result<(), RackBuilderError>)
        requires
            old(rack).wf(),
            old(rack).connections_view().len() < u32::MAX,
            old(rack).bitrate_view() * 2 <= usize::MAX / 2,
            old(rack).bitrate_view() * 2 * vstd::layout::size_of::<I::Sample>() <= isize::MAX,
        ensures
            final(rack).wf(),
            connection_built(*old(rack), *final(rack), *config, source_port, target_port, r),
            r is Err ==> final(rack).connections_view() == old(rack).connections_view(),
            r is Ok ==> {
                &&& final(rack).connections_view().len() == old(rack).connections_view().len() + 1
                &&& final(rack).connections_view().drop_last() == old(rack).connections_view()
                &&& joins_configured(*config, final(rack).connections_view().last())
                &&& source_port == Some(final(rack).connections_view().last().source.port)
                &&& target_port == Some(final(rack).connections_view().last().target.port)
            },
    {
        let ghost start = *rack;
        let source = &config.source.instrument;
        let target = &config.target.instrument;
        if rack.instrument_id(source.as_str()).is_err() {
            return Err(RackBuilderError::RackError(RackError::InstrumentNotFound(source.clone())));
        }
        let sp = match source_port {
            Some(p) => p,
            None => return Err(RackBuilderError::UnknownPort(source.clone(), config.source.port.clone())),
        };
        let outputs = Self::port_count(rack, source, true);
        let ghost after_source = *rack;
        if sp >= outputs {
            return Err(RackBuilderError::UnknownPort(source.clone(), config.source.port.clone()));
        }
        if rack.instrument_id(target.as_str()).is_err() {
            return Err(RackBuilderError::RackError(RackError::InstrumentNotFound(target.clone())));
        }
        let tp = match target_port {
            Some(p) => p,
            None => return Err(RackBuilderError::UnknownPort(target.clone(), config.target.port.clone())),
        };
        let inputs = Self::port_count(rack, target, false);
        proof {
            lemma_same_wiring_chains(start, after_source, *rack);
        }
        if tp >= inputs {
            return Err(RackBuilderError::UnknownPort(target.clone(), config.target.port.clone()));
        }
        let connection = Connection {
            source: EndPoint { instrument_name: source.clone(), port: sp },
            target: EndPoint { instrument_name: target.clone(), port: tp },
        };
        let ghost mid = *rack;
        let ghost c = connection;
        let made = rack.connect(connection);
        let ghost made_g = made;
        let r = match made {
            Ok(()) => Ok(()),
            Err(e) => Err(RackBuilderError::RackError(e)),
        };
        proof {
            assert(r == builder_result(made_g));
            assert(Rack::connect_outcome(mid, *rack, c, made_g));
        }
        r
    }

    /// Wires the rack as `config` says: the source instrument resolves the
    /// configured name of its output port, the target instrument that of its
    /// input port (an instrument that is not in the rack resolves nothing),
    /// and `connect_resolved` does the rest.
    pub fn create_connection<I: Instrument>(rack: &mut Rack<I>, config: &ConnectionConfig) -> (r: Result<
        (),
        RackBuilderError,
    >)
        requires
            old(rack).wf(),
            old(rack).connections_view().len() < u32::MAX,
            old(rack).bitrate_view() * 2 <= usize::MAX / 2,
            old(rack).bitrate_view() * 2 * vstd::layout::size_of::<I::Sample>() <= isize::MAX,
        ensures
            final(rack).wf(),
            connection_built(
                *old(rack),
                *final(rack),
                *config,
                resolved_output(*old(rack), *config),
                resolved_input(*old(rack), *config),
                r,
            ),
            r is Err ==> final(rack).connections_view() == old(rack).connections_view(),
            r is Ok ==> {
                &&& final(rack).connections_view().len() == old(rack).connections_view().len() + 1
                &&& final(rack).connections_view().drop_last() == old(rack).connections_view()
                &&& joins_configured(*config, final(rack).connections_view().last())
                &&& resolved_output(*old(rack), *config) == Some(final(rack).connections_view().last().source.port)
                &&& resolved_input(*old(rack), *config) == Some(final(rack).connections_view().last().target.port)
            },
    {
        let source_port = match rack.instrument_ref(config.source.instrument.as_str()) {
            Ok(instrument) => instrument.output_port(config.source.port.as_str()),
            Err(_) => None,
        };
        let target_port = match rack.instrument_ref(config.target.instrument.as_str()) {
            Ok(instrument) => instrument.input_port(config.target.port.as_str()),
            Err(_) => None,
        };
        Self::connect_resolved(rack, config, source_port, target_port)
    }

    /// Makes the connections of a configuration in order, stopping at the
    /// first that fails.
    ///
    /// Each connection made is recorded after those before it: on success
    /// there is one for each configured connection, joining the instruments
    /// it names; on failure there is one for each configured connection
    /// before the one that failed, and the error is what wiring that
    /// configured connection gave. Each connection is built as
    /// `create_connection` builds it: at the ports that its names resolve to
    /// at that moment, both of them then connected.
    pub fn create_connections<I: Instrument>(rack: &mut Rack<I>, configs: &Vec<ConnectionConfig>) -> (r: Result<
        (),
        RackBuilderError,
    >)
        requires
            old(rack).wf(),
            old(rack).connections_view().len() + configs.len() < u32::MAX,
            old(rack).bitrate_view() * 2 <= usize::MAX / 2,
            old(rack).bitrate_view() * 2 * vstd::layout::size_of::<I::Sample>() <= isize::MAX,
        ensures
            final(rack).wf(),
            final(rack).ids() == old(rack).ids(),
            final(rack).bitrate_view() == old(rack).bitrate_view(),
            final(rack).instruments_view().len() == old(rack).instruments_view().len(),
            r is Ok ==> made_in_order(old(rack).connections_view(), final(rack).connections_view(), configs@, configs.len() as int),
            r is Err ==> exists|k: int| 0 <= k < configs.len() && #[trigger] made_in_order(
                old(rack).connections_view(),
                final(rack).connections_view(),
                configs@,
                k,
            ),
            r is Ok ==> exists|states: Seq<Rack<I>>|
                states[0] == *old(rack) && states.last() == *final(rack) && #[trigger] built_in_order(
                    states,
                    configs@,
                ),
            r is Err ==> exists|states: Seq<Rack<I>>, k: int|
                0 <= k < configs.len() && states[0] == *old(rack) && built_in_order(states, configs@.take(k))
                    && #[trigger] connection_built(
                    states.last(),
                    *final(rack),
                    configs@[k],
                    resolved_output(states.last(), configs@[k]),
                    resolved_input(states.last(), configs@[k]),
                    r,
                ),
    {
        let mut i: usize = 0;
        let ghost mut states = seq![*rack];
        proof {
            assert(configs@.take(0) =~= Seq::<ConnectionConfig>::empty());
            assert(rack.connections_view().take(rack.connections_view().len() as int) =~= rack.connections_view());
        }
        while i < configs.len()
            invariant
                i <= configs.len(),
                rack.wf(),
                rack.ids() == old(rack).ids(),
                rack.bitrate_view() == old(rack).bitrate_view(),
                rack.instruments_view().len() == old(rack).instruments_view().len(),
                old(rack).connections_view().len() + configs.len() < u32::MAX,
                old(rack).bitrate_view() * 2 <= usize::MAX / 2,
                old(rack).bitrate_view() * 2 * vstd::layout::size_of::<I::Sample>() <= isize::MAX,
                made_in_order(old(rack).connections_view(), rack.connections_view(), configs@, i as int),
                states.len() == i + 1,
                states[0] == *old(rack),
                states.last() == *rack,
                built_in_order(states, configs@.take(i as int)),
            decreases configs.len() - i,
        {
            let ghost before = rack.connections_view();
            let ghost state = *rack;
            let made = Self::create_connection(rack, &configs[i]);
            let ghost made_g = made;
            match made {
                Ok(()) => {},
                Err(e) => {
                    proof {
                        assert(made_in_order(old(rack).connections_view(), rack.connections_view(), configs@, i as int));
                        assert(configs@[i as int] == configs[i as int]);
                        assert(connection_built(
                            state,
                            *rack,
                            configs@[i as int],
                            resolved_output(state, configs@[i as int]),
                            resolved_input(state, configs@[i as int]),
                            made_g,
                        ));
                        assert(states.last() == state);
                    }
                    return Err(e);
                },
            }
            proof {
                let start = old(rack).connections_view();
                let cs = rack.connections_view();
                assert(cs.take(start.len() as int) =~= start) by {
                    assert forall|j: int| 0 <= j < start.len() implies cs[j] == start[j] by {
                        assert(cs.drop_last()[j] == before[j]);
                        assert(before.take(start.len() as int)[j] == start[j]);
                    }
                }
                assert forall|j: int| 0 <= j < i + 1 implies joins_configured(
                    #[trigger] configs@[j],
                    cs[start.len() + j],
                ) by {
                    if j < i {
                        assert(cs.drop_last()[start.len() + j] == before[start.len() + j]);
                    }
                }
            }
            proof {
                let next = states.push(*rack);
                let done = configs@.take(i + 1);
                assert(made_g == Ok::<(), RackBuilderError>(()));
                assert forall|j: int| 0 <= j < done.len() implies #[trigger] connection_built(
                    next[j],
                    next[j + 1],
                    done[j],
                    resolved_output(next[j], done[j]),
                    resolved_input(next[j], done[j]),
                    Ok(()),
                ) by {
                    if j < i {
                        assert(done[j] == configs@.take(i as int)[j]);
                        assert(next[j] == states[j]);
                        assert(next[j + 1] == states[j + 1]);
                    } else {
                        assert(done[j] == configs@[i as int]);
                        assert(next[j] == state);
                    }
                }
                assert(built_in_order(next, done));
                states = next;
            }
            i = i + 1;
        }
        proof {
            assert(configs@.take(i as int) =~= configs@);
        }
        Ok(())
    }
}

} // verus!
