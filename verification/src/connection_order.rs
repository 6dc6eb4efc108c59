use vstd::prelude::*;

use crate::connection::Connection;
use topo_sort::{SortResults, TopoSort};

verus! {

/// Whether some connection ends at the instrument named `name`.
pub open spec fn is_target(conns: Seq<Connection>, name: Seq<char>) -> bool {
    exists|i: int| 0 <= i < conns.len() && (#[trigger] conns[i]).target.instrument_name@ == name
}

/// Whether some connection starts at the instrument named `name`.
pub open spec fn is_source(conns: Seq<Connection>, name: Seq<char>) -> bool {
    exists|i: int| 0 <= i < conns.len() && (#[trigger] conns[i]).source.instrument_name@ == name
}

/// Whether the instrument named `name` takes part in some connection.
pub open spec fn is_wired(conns: Seq<Connection>, name: Seq<char>) -> bool {
    is_target(conns, name) || is_source(conns, name)
}

/// The instruments that feed `name`: the source of each connection that ends
/// at `name`, in the order of the connections (one entry per connection).
pub open spec fn sources_into(conns: Seq<Connection>, name: Seq<char>) -> Seq<Seq<char>>
    decreases conns.len(),
{
    if conns.len() == 0 {
        Seq::empty()
    } else {
        let earlier = sources_into(conns.drop_last(), name);
        if conns.last().target.instrument_name@ == name {
            earlier.push(conns.last().source.instrument_name@)
        } else {
            earlier
        }
    }
}

/// The names that a dependency list maps, in its order.
pub open spec fn dependency_keys(d: Seq<(String, Vec<String>)>) -> Seq<Seq<char>> {
    d.map_values(|e: (String, Vec<String>)| e.0@)
}

/// The dependency relation that a list of distinct entries describes: each
/// name maps to the set of names it depends on.
pub open spec fn dependency_map(d: Seq<(String, Vec<String>)>) -> Map<Seq<char>, Set<Seq<char>>> {
    Map::new(
        |k: Seq<char>| dependency_keys(d).contains(k),
        |k: Seq<char>| d[dependency_keys(d).index_of(k)].1.deep_view().to_set(),
    )
}

/// The dependency relation of a wiring: every wired instrument depends on the
/// instruments connected into it.
pub open spec fn wiring_graph(conns: Seq<Connection>) -> Map<Seq<char>, Set<Seq<char>>> {
    Map::new(|k: Seq<char>| is_wired(conns, k), |k: Seq<char>| sources_into(conns, k).to_set())
}

/// An instrument that no connection ends at has nothing feeding it.
proof fn lemma_sources_into_unfed(conns: Seq<Connection>, name: Seq<char>)
    requires
        !is_target(conns, name),
    ensures
        sources_into(conns, name) == Seq::<Seq<char>>::empty(),
    decreases conns.len(),
{
    if conns.len() > 0 {
        let prefix = conns.drop_last();
        assert forall|i: int| 0 <= i < prefix.len() implies (#[trigger] prefix[i]).target.instrument_name@
            != name by {
            assert(prefix[i] == conns[i]);
        }
        lemma_sources_into_unfed(prefix, name);
        assert(conns[conns.len() - 1] == conns.last());
    }
}

/// Taking one more connection adds its target to the targets, and its source to the sources.
proof fn lemma_take_one_more(conns: Seq<Connection>, i: int)
    requires
        0 <= i < conns.len(),
    ensures
        forall|k: Seq<char>|
            is_target(conns.take(i + 1), k) <==> (is_target(conns.take(i), k)
                || conns[i].target.instrument_name@ == k),
        forall|k: Seq<char>|
            is_source(conns.take(i + 1), k) <==> (is_source(conns.take(i), k)
                || conns[i].source.instrument_name@ == k),
{
    let done = conns.take(i);
    let next = conns.take(i + 1);
    assert forall|k: Seq<char>|
        is_target(next, k) <==> (is_target(done, k) || conns[i].target.instrument_name@ == k) by {
        if is_target(next, k) {
            let j = choose|j: int| 0 <= j < next.len() && (#[trigger] next[j]).target.instrument_name@ == k;
            if j < i {
                assert(done[j] == next[j]);
            }
        }
        if is_target(done, k) {
            let j = choose|j: int| 0 <= j < done.len() && (#[trigger] done[j]).target.instrument_name@ == k;
            assert(done[j] == next[j]);
        }
        if conns[i].target.instrument_name@ == k {
            assert(next[i] == conns[i]);
        }
    }
    assert forall|k: Seq<char>|
        is_source(next, k) <==> (is_source(done, k) || conns[i].source.instrument_name@ == k) by {
        if is_source(next, k) {
            let j = choose|j: int| 0 <= j < next.len() && (#[trigger] next[j]).source.instrument_name@ == k;
            if j < i {
                assert(done[j] == next[j]);
            }
        }
        if is_source(done, k) {
            let j = choose|j: int| 0 <= j < done.len() && (#[trigger] done[j]).source.instrument_name@ == k;
            assert(done[j] == next[j]);
        }
        if conns[i].source.instrument_name@ == k {
            assert(next[i] == conns[i]);
        }
    }
}

/// Whether `order` lists nodes of `graph` (each node mapped to the nodes it
/// depends on) in an order that respects the dependencies.
///
/// Every listed node is a node of the graph and is listed once, after every
/// other node of the graph that it depends on. When `partial` is false all
/// nodes are listed. When `partial` is true some node is missing, and every
/// missing node depends on another missing node: the missing nodes are those
/// that wait on a cycle.
pub open spec fn is_dependency_order(
    graph: Map<Seq<char>, Set<Seq<char>>>,
    order: Seq<Seq<char>>,
    partial: bool,
) -> bool {
    &&& order.no_duplicates()
    &&& forall|i: int| 0 <= i < order.len() ==> graph.dom().contains(#[trigger] order[i])
    &&& forall|i: int, d: Seq<char>|
        0 <= i < order.len() && #[trigger] graph[order[i]].contains(d) && d != order[i]
            && graph.dom().contains(d) ==> exists|j: int| 0 <= j < i && order[j] == d
    &&& (!partial <==> forall|k: Seq<char>| graph.dom().contains(k) ==> order.contains(k))
    &&& partial ==> forall|k: Seq<char>|
        #![trigger graph[k]]
        graph.dom().contains(k) && !order.contains(k) ==> exists|d: Seq<char>|
            graph[k].contains(d) && d != k && graph.dom().contains(d) && !order.contains(d)
}

#[verifier::external_type_specification]
#[verifier::external_body]
#[verifier::reject_recursive_types(T)]
pub struct ExTopoSort<T: Eq + core::hash::Hash>(TopoSort<T>);

/// What a sorter holds: each inserted node, mapped to the set of its dependencies.
pub uninterp spec fn sorter_contents(ts: TopoSort<String>) -> Map<Seq<char>, Set<Seq<char>>>;

/// `TopoSort::with_capacity`: a sorter that holds no node yet (the capacity
/// only reserves room).
#[verifier::external_body]
fn new_sorter(capacity: usize) -> (r: TopoSort<String>)
    ensures
        sorter_contents(r) =~= Map::empty(),
{
    TopoSort::with_capacity(capacity)
}

/// `TopoSort::insert`: maps `node` to the set of the names in `depends`,
/// replacing what an earlier insertion of `node` mapped it to.
#[verifier::external_body]
fn sorter_insert(ts: &mut TopoSort<String>, node: String, depends: Vec<String>)
    ensures
        sorter_contents(*final(ts)) == sorter_contents(*old(ts)).insert(
            node@,
            depends.deep_view().to_set(),
        ),
{
    ts.insert(node, depends)
}

/// `TopoSort::into_vec_nodes`: sorts the nodes so that each comes after the
/// nodes it depends on, and tells whether a cycle left some out (`Partial`).
///
/// The crate's source runs Kahn's algorithm over hash maps: a node is emitted
/// once every other inserted node it depends on was emitted; dependencies that
/// were never inserted, and a node's dependency on itself, are ignored; the
/// result is `Full` exactly when every node was emitted. Which of several
/// ready nodes comes first depends on the order of a hash map and is not
/// stated. Each node counts its dependencies in a `u32`, hence the bound.
#[verifier::external_body]
fn sorter_into_nodes(ts: TopoSort<String>) -> (r: (Vec<String>, bool))
    requires
        forall|k: Seq<char>|
            sorter_contents(ts).dom().contains(k) ==> (#[trigger] sorter_contents(ts)[k]).len()
                <= u32::MAX,
    ensures
        is_dependency_order(sorter_contents(ts), r.0.deep_view(), r.1),
{
    match ts.into_vec_nodes() {
        SortResults::Full(nodes) => (nodes, false),
        SortResults::Partial(nodes) => (nodes, true),
    }
}

/// Whether the dependencies of `graph` are ranked: every node depends only on
/// nodes of lower rank (its dependency on itself aside), so no dependency
/// cycle runs through two or more nodes.
pub open spec fn is_ranked_by(graph: Map<Seq<char>, Set<Seq<char>>>, rank: spec_fn(Seq<char>) -> nat) -> bool {
    forall|k: Seq<char>, d: Seq<char>|
        graph.dom().contains(k) && #[trigger] graph[k].contains(d) && d != k && graph.dom().contains(d)
            ==> rank(d) < rank(k)
}

/// Whether `cycle` is a dependency cycle of `graph` through two or more
/// distinct nodes: each node depends on the next, and the last on the first.
pub open spec fn is_cycle(graph: Map<Seq<char>, Set<Seq<char>>>, cycle: Seq<Seq<char>>) -> bool {
    &&& cycle.len() >= 2
    &&& cycle.no_duplicates()
    &&& forall|i: int| 0 <= i < cycle.len() ==> graph.dom().contains(#[trigger] cycle[i])
    &&& forall|i: int| 0 <= i < cycle.len() - 1 ==> graph[#[trigger] cycle[i]].contains(cycle[i + 1])
    &&& graph[cycle.last()].contains(cycle[0])
}

/// An instrument fed by a connection is updated after the instrument that
/// feeds it: when the target of a connection (other than a connection of an
/// instrument to itself) is in the order, its source is in the order before it.
pub proof fn lemma_source_updated_before_target(
    connections: Seq<Connection>,
    order: Seq<Seq<char>>,
    partial: bool,
    c: int,
    t: int,
)
    requires
        is_dependency_order(wiring_graph(connections), order, partial),
        0 <= c < connections.len(),
        0 <= t < order.len(),
        order[t] == connections[c].target.instrument_name@,
        connections[c].source.instrument_name@ != connections[c].target.instrument_name@,
    ensures
        exists|s: int| 0 <= s < t && order[s] == connections[c].source.instrument_name@,
{
    let name = connections[c].target.instrument_name@;
    let source = connections[c].source.instrument_name@;
    lemma_sources_into_contains(connections, name, c);
    assert(wiring_graph(connections)[order[t]].contains(source));
    assert(is_wired(connections, source));
}

/// The connection at index `c` puts its source among the instruments that feed its target.
proof fn lemma_sources_into_contains(conns: Seq<Connection>, name: Seq<char>, c: int)
    requires
        0 <= c < conns.len(),
        conns[c].target.instrument_name@ == name,
    ensures
        sources_into(conns, name).contains(conns[c].source.instrument_name@),
    decreases conns.len(),
{
    let last = conns.len() - 1;
    if c == last {
        let s = sources_into(conns, name);
        assert(s[s.len() - 1] == conns[c].source.instrument_name@);
    } else {
        assert(conns.drop_last()[c] == conns[c]);
        lemma_sources_into_contains(conns.drop_last(), name, c);
        let earlier = sources_into(conns.drop_last(), name);
        let j = choose|j: int| 0 <= j < earlier.len() && earlier[j] == conns[c].source.instrument_name@;
        if conns.last().target.instrument_name@ == name {
            assert(sources_into(conns, name)[j] == earlier[j]);
        }
    }
}

/// No node of rank at most `n` is missing from a dependency order.
proof fn lemma_ranked_nodes_listed(
    graph: Map<Seq<char>, Set<Seq<char>>>,
    order: Seq<Seq<char>>,
    partial: bool,
    rank: spec_fn(Seq<char>) -> nat,
    n: nat,
    k: Seq<char>,
)
    requires
        is_dependency_order(graph, order, partial),
        is_ranked_by(graph, rank),
        graph.dom().contains(k),
        rank(k) <= n,
    ensures
        order.contains(k),
    decreases n,
{
    if !order.contains(k) {
        assert(partial);
        let d = choose|d: Seq<char>|
            graph[k].contains(d) && d != k && graph.dom().contains(d) && !order.contains(d);
        assert(rank(d) < rank(k));
        if n > 0 {
            lemma_ranked_nodes_listed(graph, order, partial, rank, (n - 1) as nat, d);
        }
    }
}

/// When the dependencies can be ranked (the wiring has no cycle), the order
/// is complete: it lists every instrument and is not partial.
pub proof fn lemma_acyclic_order_is_complete(
    graph: Map<Seq<char>, Set<Seq<char>>>,
    order: Seq<Seq<char>>,
    partial: bool,
    rank: spec_fn(Seq<char>) -> nat,
)
    requires
        is_dependency_order(graph, order, partial),
        is_ranked_by(graph, rank),
    ensures
        !partial,
        forall|k: Seq<char>| graph.dom().contains(k) ==> order.contains(k),
{
    assert forall|k: Seq<char>| graph.dom().contains(k) implies order.contains(k) by {
        lemma_ranked_nodes_listed(graph, order, partial, rank, rank(k), k);
    }
}

/// No node of a dependency cycle is listed, so an order of a graph with a
/// cycle is partial.
pub proof fn lemma_cycle_is_left_out(
    graph: Map<Seq<char>, Set<Seq<char>>>,
    order: Seq<Seq<char>>,
    partial: bool,
    cycle: Seq<Seq<char>>,
)
    requires
        is_dependency_order(graph, order, partial),
        is_cycle(graph, cycle),
    ensures
        partial,
        forall|i: int| 0 <= i < cycle.len() ==> !order.contains(#[trigger] cycle[i]),
{
    assert forall|i: int| 0 <= i < cycle.len() implies !order.contains(#[trigger] cycle[i]) by {
        lemma_cycle_absent_below(graph, order, partial, cycle, order.len() as nat);
        if order.contains(cycle[i]) {
            let p = choose|p: int| 0 <= p < order.len() && order[p] == cycle[i];
            assert(order[p] != cycle[i]);
        }
    }
    assert(!order.contains(cycle[0]));
}

/// No position of the order below `bound` holds a node of the cycle: the
/// first such node would need its successor on the cycle listed earlier.
proof fn lemma_cycle_absent_below(
    graph: Map<Seq<char>, Set<Seq<char>>>,
    order: Seq<Seq<char>>,
    partial: bool,
    cycle: Seq<Seq<char>>,
    bound: nat,
)
    requires
        is_dependency_order(graph, order, partial),
        is_cycle(graph, cycle),
    ensures
        forall|p: int, i: int|
            0 <= p < bound && p < order.len() && 0 <= i < cycle.len() ==> order[p] != cycle[i],
    decreases bound,
{
    if bound > 0 {
        lemma_cycle_absent_below(graph, order, partial, cycle, (bound - 1) as nat);
        let p = bound - 1;
        assert forall|i: int| p < order.len() && 0 <= i < cycle.len() implies order[p] != cycle[i] by {
            if order[p] == cycle[i] {
                let n = cycle.len() as int;
                let next = if i + 1 < n { i + 1 } else { 0 };
                let d = cycle[next];
                assert(graph[cycle[i]].contains(d));
                assert(d != cycle[i]);
                assert(graph.dom().contains(d));
                assert(graph[order[p]].contains(d));
                let q = choose|q: int| 0 <= q < p && order[q] == d;
                assert(order[q] != cycle[next]);
            }
        }
    }
}

/// A dependency of `k` that is in the graph, is not `k` and is missing from
/// the order (meaningful when there is one).
spec fn missing_dependency(graph: Map<Seq<char>, Set<Seq<char>>>, order: Seq<Seq<char>>, k: Seq<char>) -> Seq<char> {
    choose|d: Seq<char>| graph[k].contains(d) && d != k && graph.dom().contains(d) && !order.contains(d)
}

/// Starting at `start`, `n` steps from each missing node to a missing node it depends on.
spec fn missing_walk(graph: Map<Seq<char>, Set<Seq<char>>>, order: Seq<Seq<char>>, start: Seq<char>, n: nat) -> Seq<
    Seq<char>,
>
    decreases n,
{
    if n == 0 {
        seq![start]
    } else {
        let w = missing_walk(graph, order, start, (n - 1) as nat);
        w.push(missing_dependency(graph, order, w.last()))
    }
}

/// In a partial order every step of the walk from a missing node stays on
/// missing nodes and follows a dependency to another node.
proof fn lemma_missing_walk(
    graph: Map<Seq<char>, Set<Seq<char>>>,
    order: Seq<Seq<char>>,
    start: Seq<char>,
    n: nat,
)
    requires
        is_dependency_order(graph, order, true),
        graph.dom().contains(start),
        !order.contains(start),
    ensures
        missing_walk(graph, order, start, n).len() == n + 1,
        forall|i: int|
            0 <= i <= n ==> graph.dom().contains(#[trigger] missing_walk(graph, order, start, n)[i])
                && !order.contains(missing_walk(graph, order, start, n)[i]),
        forall|i: int|
            0 <= i < n ==> graph[#[trigger] missing_walk(graph, order, start, n)[i]].contains(
                missing_walk(graph, order, start, n)[i + 1],
            ) && missing_walk(graph, order, start, n)[i] != missing_walk(graph, order, start, n)[i + 1],
    decreases n,
{
    if n > 0 {
        lemma_missing_walk(graph, order, start, (n - 1) as nat);
        let w = missing_walk(graph, order, start, (n - 1) as nat);
        let k = w.last();
        assert(graph.dom().contains(k) && !order.contains(k)) by {
            assert(graph.dom().contains(w[n - 1]));
        }
        assert(graph[k].contains(missing_dependency(graph, order, k)));
        let v = missing_walk(graph, order, start, n);
        assert forall|i: int| 0 <= i < n implies #[trigger] v[i] == w[i] by {}
        assert(v[n - 1] == k);
    }
}

/// A sequence with a repeated element has a first repetition: a position
/// `j` whose element occurs earlier, at `i`, with no repetition before `j`.
proof fn lemma_first_repetition(s: Seq<Seq<char>>) -> (r: (int, int))
    requires
        !s.no_duplicates(),
    ensures
        0 <= r.0 < r.1 < s.len(),
        s[r.0] == s[r.1],
        s.take(r.1).no_duplicates(),
    decreases s.len(),
{
    let p = s.drop_last();
    if !p.no_duplicates() {
        let (i, j) = lemma_first_repetition(p);
        assert(p.take(j) =~= s.take(j));
        (i, j)
    } else {
        let (a, b) = choose|a: int, b: int| 0 <= a < s.len() && 0 <= b < s.len() && a != b && s[a] == s[b];
        let j = s.len() - 1;
        assert(s.take(j) =~= p);
        if a < j && b < j {
            assert(p[a] == p[b]);
        }
        let i = if a < b { a } else { b };
        (i, j)
    }
}

/// A graph with no dependency cycle through two or more nodes is ordered
/// completely: the order is not partial and lists every node.
pub proof fn lemma_cycle_free_order_is_complete(
    graph: Map<Seq<char>, Set<Seq<char>>>,
    order: Seq<Seq<char>>,
    partial: bool,
)
    requires
        is_dependency_order(graph, order, partial),
        graph.dom().finite(),
        forall|cycle: Seq<Seq<char>>| !is_cycle(graph, cycle),
    ensures
        !partial,
        forall|k: Seq<char>| graph.dom().contains(k) ==> order.contains(k),
{
    if partial {
        let start = choose|k: Seq<char>| graph.dom().contains(k) && !order.contains(k);
        let missing = graph.dom().filter(|k: Seq<char>| !order.contains(k));
        graph.dom().lemma_len_filter(|k: Seq<char>| !order.contains(k));
        let n = missing.len();
        lemma_missing_walk(graph, order, start, n);
        let w = missing_walk(graph, order, start, n);
        assert(!w.no_duplicates()) by {
            if w.no_duplicates() {
                w.unique_seq_to_set();
                assert(w.to_set().subset_of(missing)) by {
                    assert forall|x: Seq<char>| w.to_set().contains(x) implies missing.contains(x) by {
                        let i = choose|i: int| 0 <= i < w.len() && w[i] == x;
                        assert(graph.dom().contains(w[i]));
                    }
                }
                vstd::set_lib::lemma_len_subset(w.to_set(), missing);
            }
        }
        let (i, j) = lemma_first_repetition(w);
        let cycle = w.subrange(i, j);
        assert(j - i >= 2) by {
            if j == i + 1 {
                assert(w[i] != w[i + 1]);
            }
        }
        assert(cycle.no_duplicates()) by {
            let t = w.take(j);
            assert forall|a: int, b: int| 0 <= a < cycle.len() && 0 <= b < cycle.len() && a != b implies cycle[a]
                != cycle[b] by {
                assert(cycle[a] == t[i + a]);
                assert(cycle[b] == t[i + b]);
            }
        }
        assert forall|t: int| 0 <= t < cycle.len() implies graph.dom().contains(#[trigger] cycle[t]) by {
            assert(cycle[t] == w[i + t]);
        }
        assert forall|t: int| 0 <= t < cycle.len() - 1 implies graph[#[trigger] cycle[t]].contains(cycle[t + 1]) by {
            assert(cycle[t] == w[i + t]);
            assert(cycle[t + 1] == w[i + t + 1]);
        }
        assert(graph[cycle.last()].contains(cycle[0])) by {
            assert(cycle.last() == w[j - 1]);
            assert(graph[w[j - 1]].contains(w[j]));
        }
        assert(is_cycle(graph, cycle));
    }
}

/// The instruments of a wiring are finitely many: each is named by some connection.
proof fn lemma_wiring_is_finite(conns: Seq<Connection>)
    ensures
        wiring_graph(conns).dom().finite(),
{
    let sources = conns.map_values(|c: Connection| c.source.instrument_name@).to_set();
    let targets = conns.map_values(|c: Connection| c.target.instrument_name@).to_set();
    vstd::seq_lib::seq_to_set_is_finite(conns.map_values(|c: Connection| c.source.instrument_name@));
    vstd::seq_lib::seq_to_set_is_finite(conns.map_values(|c: Connection| c.target.instrument_name@));
    let names = sources.union(targets);
    assert(wiring_graph(conns).dom().subset_of(names)) by {
        assert forall|k: Seq<char>| wiring_graph(conns).dom().contains(k) implies names.contains(k) by {
            if is_target(conns, k) {
                let i = choose|i: int| 0 <= i < conns.len() && (#[trigger] conns[i]).target.instrument_name@ == k;
                assert(conns.map_values(|c: Connection| c.target.instrument_name@)[i] == k);
            } else {
                let i = choose|i: int| 0 <= i < conns.len() && (#[trigger] conns[i]).source.instrument_name@ == k;
                assert(conns.map_values(|c: Connection| c.source.instrument_name@)[i] == k);
            }
        }
    }
    vstd::set_lib::lemma_len_subset(wiring_graph(conns).dom(), names);
}

/// A wiring with no cycle through two or more instruments is ordered
/// completely: the order is not partial and every wired instrument is in it.
pub proof fn lemma_cycle_free_wiring_is_ordered_completely(connections: Seq<Connection>, order: ConnectionOrder)
    requires
        is_dependency_order(wiring_graph(connections), order.instruments.deep_view(), order.is_partial),
        forall|cycle: Seq<Seq<char>>| !is_cycle(wiring_graph(connections), cycle),
    ensures
        !order.is_partial,
        forall|k: Seq<char>| is_wired(connections, k) ==> order.instruments.deep_view().contains(k),
{
    lemma_wiring_is_finite(connections);
    lemma_cycle_free_order_is_complete(wiring_graph(connections), order.instruments.deep_view(), order.is_partial);
}

/// When every connection joins registered instruments, every wired instrument is registered.
pub proof fn lemma_wired_is_registered(conns: Seq<Connection>, registered: Set<Seq<char>>, name: Seq<char>)
    requires
        forall|i: int|
            0 <= i < conns.len() ==> registered.contains((#[trigger] conns[i]).source.instrument_name@)
                && registered.contains(conns[i].target.instrument_name@),
        is_wired(conns, name),
    ensures
        registered.contains(name),
{
    if is_target(conns, name) {
        let i = choose|i: int| 0 <= i < conns.len() && (#[trigger] conns[i]).target.instrument_name@ == name;
    } else {
        let i = choose|i: int| 0 <= i < conns.len() && (#[trigger] conns[i]).source.instrument_name@ == name;
    }
}

/// The position of the entry for `name` in a dependency list, if there is one.
fn find_entry(deps: &Vec<(String, Vec<String>)>, name: &String) -> (r: Option<usize>)
    ensures
        match r {
            Some(p) => p < deps.len() && deps[p as int].0@ == name@,
            None => !dependency_keys(deps@).contains(name@),
        },
{
    let mut i: usize = 0;
    while i < deps.len()
        invariant
            i <= deps.len(),
            forall|j: int| 0 <= j < i ==> deps[j].0@ != name@,
        decreases deps.len() - i,
    {
        if deps[i].0 == *name {
            return Some(i);
        }
        i = i + 1;
    }
    proof {
        if dependency_keys(deps@).contains(name@) {
            let j = choose|j: int| 0 <= j < dependency_keys(deps@).len() && dependency_keys(deps@)[j] == name@;
            assert(deps[j].0@ == name@);
        }
    }
    None
}


/// The order in which the instruments of a wiring are updated: every
/// instrument comes after the instruments connected into it.
pub struct ConnectionOrder {
    pub instruments: Vec<String>,
    /// True when a cycle in the wiring left some instruments out of `instruments`.
    pub is_partial: bool,
}

/// Every connection into an instrument adds at most one dependency.
proof fn lemma_sources_into_len(conns: Seq<Connection>, name: Seq<char>)
    ensures
        sources_into(conns, name).len() <= conns.len(),
    decreases conns.len(),
{
    if conns.len() > 0 {
        lemma_sources_into_len(conns.drop_last(), name);
    }
}

impl ConnectionOrder {
    /// Orders the instruments of a wiring so that each instrument is updated
    /// after every instrument connected into it.
    ///
    /// When the wiring has a cycle, the instruments that wait on it are left
    /// out and `is_partial` is set.
    pub fn new(connections: &Vec<Connection>) -> (r: Self)
        requires
            connections.len() <= u32::MAX,
        ensures
            is_dependency_order(wiring_graph(connections@), r.instruments.deep_view(), r.is_partial),
    {
        let dependencies = Self::get_dependencies(connections);
        let ghost deps = dependencies@;
        let topo_sort = Self::get_topo_sort(dependencies);
        proof {
            let g = wiring_graph(connections@);
            let m = sorter_contents(topo_sort);
            assert forall|k: Seq<char>| #[trigger] m.dom().contains(k) == g.dom().contains(k) by {}
            assert forall|k: Seq<char>| g.dom().contains(k) implies #[trigger] m[k] == g[k] by {
                let j = dependency_keys(deps).index_of(k);
                assert(dependency_keys(deps)[j] == k);
                assert(deps[j].0@ == k);
            }
            assert(m =~= g);
            assert forall|k: Seq<char>| g.dom().contains(k) implies (#[trigger] g[k]).finite()
                && g[k].len() <= u32::MAX by {
                lemma_sources_into_len(connections@, k);
                sources_into(connections@, k).lemma_cardinality_of_set();
                vstd::seq_lib::seq_to_set_is_finite(sources_into(connections@, k));
            }
        }
        let (instruments, is_partial) = sorter_into_nodes(topo_sort);
        ConnectionOrder { instruments, is_partial }
    }

    /// A sorter that holds the given dependencies, each name mapped to the set
    /// of names it depends on.
    pub fn get_topo_sort(dependencies: Vec<(String, Vec<String>)>) -> (ts: TopoSort<String>)
        requires
            dependency_keys(dependencies@).no_duplicates(),
        ensures
            sorter_contents(ts) == dependency_map(dependencies@),
    {
        let ghost all = dependencies@;
        let ghost keys = dependency_keys(all);
        let mut topo_sort = new_sorter(dependencies.len());
        let mut rest = dependencies;
        while rest.len() > 0
            invariant
                rest@ == all.take(rest.len() as int),
                rest.len() <= all.len(),
                keys == dependency_keys(all),
                keys.no_duplicates(),
                forall|k: Seq<char>|
                    #[trigger] sorter_contents(topo_sort).dom().contains(k) <==> exists|j: int|
                        rest.len() <= j < all.len() && keys[j] == k,
                forall|j: int|
                    rest.len() <= j < all.len() ==> sorter_contents(topo_sort)[#[trigger] keys[j]]
                        == all[j].1.deep_view().to_set(),
            decreases rest.len(),
        {
            let ghost before = sorter_contents(topo_sort);
            let ghost n = rest.len() - 1;
            let (key, value) = rest.pop().unwrap();
            proof {
                assert(rest@ =~= all.take(n));
                assert(all[n] == (key, value));
                assert(keys[n] == key@);
            }
            sorter_insert(&mut topo_sort, key, value);
            proof {
                assert forall|j: int| n < j < all.len() implies sorter_contents(topo_sort)[#[trigger] keys[j]]
                    == all[j].1.deep_view().to_set() by {
                    assert(keys[j] != keys[n]);
                }
            }
        }
        proof {
            let m = sorter_contents(topo_sort);
            let d = dependency_map(all);
            assert forall|k: Seq<char>| #[trigger] m.dom().contains(k) == d.dom().contains(k) by {
                if m.dom().contains(k) {
                    let j = choose|j: int| 0 <= j < all.len() && keys[j] == k;
                    assert(keys.contains(k));
                }
                if d.dom().contains(k) {
                    let j = choose|j: int| 0 <= j < keys.len() && keys[j] == k;
                    assert(m.dom().contains(keys[j]));
                }
            }
            assert forall|k: Seq<char>| d.dom().contains(k) implies #[trigger] m[k] == d[k] by {
                let j = keys.index_of(k);
                assert(keys[j] == k);
            }
            assert(m =~= d);
        }
        topo_sort
    }

    /// The dependencies of a wiring, one entry per wired instrument: the
    /// instrument's name and the names of the instruments connected into it.
    ///
    /// A target depends on the sources of the connections that end at it; an
    /// instrument that is only ever a source gets an entry without dependencies.
    pub fn get_dependencies(connections: &Vec<Connection>) -> (d: Vec<(String, Vec<String>)>)
        ensures
            dependency_keys(d@).no_duplicates(),
            forall|k: Seq<char>| dependency_keys(d@).contains(k) <==> is_wired(connections@, k),
            forall|i: int|
                0 <= i < d.len() ==> (#[trigger] d[i]).1.deep_view() == sources_into(connections@, d[i].0@),
    {
        let mut deps: Vec<(String, Vec<String>)> = Vec::new();
        let mut i: usize = 0;
        // every target depends on the sources connected into it
        while i < connections.len()
            invariant
                i <= connections.len(),
                dependency_keys(deps@).no_duplicates(),
                forall|k: Seq<char>|
                    dependency_keys(deps@).contains(k) <==> is_target(connections@.take(i as int), k),
                forall|j: int|
                    0 <= j < deps.len() ==> (#[trigger] deps[j]).1.deep_view() == sources_into(
                        connections@.take(i as int),
                        deps[j].0@,
                    ),
            decreases connections.len() - i,
        {
            let ghost before = deps@;
            let ghost done = connections@.take(i as int);
            let ghost next = connections@.take(i + 1);
            let c = &connections[i];
            proof {
                assert(next.drop_last() =~= done);
                assert(next.last() == connections@[i as int]);
                lemma_take_one_more(connections@, i as int);
            }
            match find_entry(&deps, &c.target.instrument_name) {
                Some(p) => {
                    let mut sources = deps[p].1.clone();
                    sources.push(c.source.instrument_name.clone());
                    let key = deps[p].0.clone();
                    deps.set(p, (key, sources));
                    proof {
                        assert(dependency_keys(deps@) =~= dependency_keys(before));
                        assert(dependency_keys(before)[p as int] == c.target.instrument_name@);
                        assert(deps[p as int].1.deep_view() =~= before[p as int].1.deep_view().push(
                            c.source.instrument_name@,
                        ));
                        assert forall|j: int| 0 <= j < deps.len() implies (#[trigger] deps[j]).1.deep_view()
                            == sources_into(next, deps[j].0@) by {
                            if j != p {
                                assert(dependency_keys(before)[j] != dependency_keys(before)[p as int]);
                                assert(deps[j] == before[j]);
                            }
                        }
                    }
                },
                None => {
                    let mut sources: Vec<String> = Vec::new();
                    sources.push(c.source.instrument_name.clone());
                    deps.push((c.target.instrument_name.clone(), sources));
                    proof {
                        assert(dependency_keys(deps@) =~= dependency_keys(before).push(c.target.instrument_name@));
                        assert(!is_target(done, c.target.instrument_name@));
                        lemma_sources_into_unfed(done, c.target.instrument_name@);
                        assert(deps[deps.len() - 1].1.deep_view() =~= seq![c.source.instrument_name@]);
                        let keys = dependency_keys(deps@);
                        assert(keys[keys.len() - 1] == c.target.instrument_name@);
                        assert forall|k: Seq<char>| keys.contains(k) <==> is_target(next, k) by {
                            if keys.contains(k) {
                                let j = choose|j: int| 0 <= j < keys.len() && keys[j] == k;
                                if j < before.len() {
                                    assert(dependency_keys(before)[j] == k);
                                }
                            }
                            if dependency_keys(before).contains(k) {
                                let j = choose|j: int|
                                    0 <= j < dependency_keys(before).len() && dependency_keys(before)[j] == k;
                                assert(keys[j] == k);
                            }
                        }
                        assert forall|j: int| 0 <= j < deps.len() implies (#[trigger] deps[j]).1.deep_view()
                            == sources_into(next, deps[j].0@) by {
                            if j < before.len() {
                                assert(dependency_keys(before)[j] == deps[j].0@);
                                assert(deps[j] == before[j]);
                            }
                        }
                    }
                },
            }
            i = i + 1;
        }
        proof {
            assert(connections@.take(connections.len() as int) =~= connections@);
        }
        // instruments that only feed others depend on nothing
        let mut i: usize = 0;
        while i < connections.len()
            invariant
                i <= connections.len(),
                dependency_keys(deps@).no_duplicates(),
                forall|k: Seq<char>|
                    #![trigger dependency_keys(deps@).contains(k)]
                    #![trigger is_target(connections@, k)]
                    #![trigger is_source(connections@.take(i as int), k)]
                    dependency_keys(deps@).contains(k) <==> (is_target(connections@, k) || is_source(
                        connections@.take(i as int),
                        k,
                    )),
                forall|j: int|
                    0 <= j < deps.len() ==> (#[trigger] deps[j]).1.deep_view() == sources_into(
                        connections@,
                        deps[j].0@,
                    ),
            decreases connections.len() - i,
        {
            let ghost before = deps@;
            let c = &connections[i];
            proof {
                lemma_take_one_more(connections@, i as int);
            }
            let found = find_entry(&deps, &c.source.instrument_name);
            if found.is_none() {
                deps.push((c.source.instrument_name.clone(), Vec::new()));
                proof {
                    let name = c.source.instrument_name@;
                    assert(connections@[i as int] == *c);
                    lemma_sources_into_unfed(connections@, name);
                    let keys = dependency_keys(deps@);
                    assert(keys =~= dependency_keys(before).push(name));
                    assert(keys[keys.len() - 1] == name);
                    assert(deps[deps.len() - 1].1.deep_view() =~= Seq::<Seq<char>>::empty());
                    assert forall|k: Seq<char>|
                        keys.contains(k) <==> (is_target(connections@, k) || is_source(
                            connections@.take(i + 1),
                            k,
                        )) by {
                        if keys.contains(k) {
                            let j = choose|j: int| 0 <= j < keys.len() && keys[j] == k;
                            if j < before.len() {
                                assert(dependency_keys(before)[j] == k);
                            }
                        }
                        if dependency_keys(before).contains(k) {
                            let j = choose|j: int|
                                0 <= j < dependency_keys(before).len() && dependency_keys(before)[j] == k;
                            assert(keys[j] == k);
                        }
                    }
                    assert forall|j: int| 0 <= j < deps.len() implies (#[trigger] deps[j]).1.deep_view()
                        == sources_into(connections@, deps[j].0@) by {
                        if j < before.len() {
                            assert(deps[j] == before[j]);
                        }
                    }
                }
            } else {
                proof {
                    let p = found.unwrap() as int;
                    assert(dependency_keys(deps@)[p] == c.source.instrument_name@);
                    assert(connections@[i as int] == *c);
                    assert forall|k: Seq<char>|
                        dependency_keys(deps@).contains(k) <==> (is_target(connections@, k) || is_source(
                            connections@.take(i + 1),
                            k,
                        )) by {
                        assert(is_source(connections@.take(i + 1), k) <==> (is_source(
                            connections@.take(i as int),
                            k,
                        ) || connections@[i as int].source.instrument_name@ == k));
                        assert(dependency_keys(deps@).contains(c.source.instrument_name@));
                        if is_source(connections@.take(i as int), k) {
                            assert(dependency_keys(deps@).contains(k));
                        }
                        if dependency_keys(deps@).contains(k) {
                            assert(is_target(connections@, k) || is_source(connections@.take(i as int), k));
                        }
                    }
                }
            }
            i = i + 1;
        }
        proof {
            assert(connections@.take(connections.len() as int) =~= connections@);
        }
        deps
    }

}

} // verus!
