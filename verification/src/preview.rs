//! What the inspector previews for a part: the projector outputs that the
//! part feeds and the sources that feed the part.
use crate::graph::{
    find_part, find_part_index, has_part, is_first_index, lemma_first_index_unique,
    MapFlowModule, ModuleGraph, ModulePart, ModulePartId, OutputKind, PartKind,
};
use crate::canvas::contains_id;
use vstd::prelude::*;

verus! {

/// The outputs and sources shown next to a part in the inspector.
#[derive(Debug)]
pub struct InspectorPreviewContext {
    pub output_ids: Vec<u64>,
    pub upstream_source_part_ids: Vec<ModulePartId>,
}

/// Some connection leads from part `u` to part `v`, and `v` is a part of the graph.
pub open spec fn downstream_step<P>(g: ModuleGraph<P>, u: u64, v: u64) -> bool {
    &&& exists|k: int|
        0 <= k < g.connections.len() && (#[trigger] g.connections[k]).from_part == u
            && g.connections[k].to_part == v
    &&& has_part(g.parts, v)
}

/// The output id of the projector that part `v` is, if it is one.
pub open spec fn projector_id<P>(parts: Seq<ModulePart<P>>, v: u64) -> Option<u64> {
    match find_part(parts, v) {
        Some(p) => match p.kind {
            PartKind::Output(OutputKind::Projector { id }) => Some(id),
            _ => None,
        },
        None => None,
    }
}

/// The parts that the downstream walk from `start` enters within `n` steps;
/// the walk stops at projectors.
pub open spec fn downstream_within<P>(g: ModuleGraph<P>, start: u64, n: nat) -> Set<u64>
    decreases n,
{
    if n == 0 {
        set![start]
    } else {
        let prev = downstream_within(g, start, (n - 1) as nat);
        prev.union(
            Set::new(
                |v: u64|
                    exists|u: u64|
                        prev.contains(u) && downstream_step(g, u, v) && projector_id(g.parts, v)
                            is None,
            ),
        )
    }
}

/// The downstream walk from `start` enters part `v`.
pub open spec fn reaches_downstream<P>(g: ModuleGraph<P>, start: u64, v: u64) -> bool {
    exists|n: nat| downstream_within(g, start, n).contains(v)
}

/// `o` is the output id of a projector one step past the downstream walk from `start`.
pub open spec fn is_downstream_output<P>(g: ModuleGraph<P>, start: u64, o: u64) -> bool {
    exists|u: u64, v: u64|
        #![trigger reaches_downstream(g, start, u), downstream_step(g, u, v)]
        reaches_downstream(g, start, u) && downstream_step(g, u, v) && projector_id(g.parts, v)
            == Some(o)
}

/// Part `u` is a source.
pub open spec fn is_source_part<P>(parts: Seq<ModulePart<P>>, u: u64) -> bool {
    match find_part(parts, u) {
        Some(p) => p.kind is Source,
        None => false,
    }
}

/// The parts that the upstream walk from `start` enters within `n` steps;
/// the walk stops at sources.
pub open spec fn upstream_within<P>(g: ModuleGraph<P>, start: u64, n: nat) -> Set<u64>
    decreases n,
{
    if n == 0 {
        set![start]
    } else {
        let prev = upstream_within(g, start, (n - 1) as nat);
        prev.union(
            Set::new(
                |v: u64|
                    exists|k: int|
                        0 <= k < g.connections.len() && prev.contains(
                            #[trigger] g.connections[k].to_part,
                        ) && !is_source_part(g.parts, g.connections[k].to_part)
                            && g.connections[k].from_part == v,
            ),
        )
    }
}

/// `s` is a source that the upstream walk from `start` enters.
pub open spec fn is_upstream_source<P>(g: ModuleGraph<P>, start: u64, s: u64) -> bool {
    &&& exists|n: nat| upstream_within(g, start, n).contains(s)
    &&& is_source_part(g.parts, s)
}

/// A strictly increasing sequence.
pub open spec fn strictly_sorted(s: Seq<u64>) -> bool {
    forall|i: int, j: int| 0 <= i < j < s.len() ==> s[i] < s[j]
}

/// Number of parts whose id is not in `vis`.
pub open spec fn unvisited_parts<P>(parts: Seq<ModulePart<P>>, vis: Seq<u64>) -> nat
    decreases parts.len(),
{
    if parts.len() == 0 {
        0
    } else {
        unvisited_parts(parts.drop_last(), vis) + if vis.contains(parts.last().id) {
            0nat
        } else {
            1nat
        }
    }
}

/// Visiting one more id never adds unvisited parts, and removes one when a part has that id.
proof fn lemma_unvisited_parts_push<P>(parts: Seq<ModulePart<P>>, vis: Seq<u64>, v: u64)
    ensures
        unvisited_parts(parts, vis.push(v)) <= unvisited_parts(parts, vis),
        has_part(parts, v) && !vis.contains(v) ==> unvisited_parts(parts, vis.push(v))
            < unvisited_parts(parts, vis),
    decreases parts.len(),
{
    if parts.len() > 0 {
        let front = parts.drop_last();
        lemma_unvisited_parts_push(front, vis, v);
        let x = parts.last().id;
        if vis.contains(x) {
            assert(vis.push(v).contains(x)) by {
                let j = choose|j: int| 0 <= j < vis.len() && vis[j] == x;
                assert(vis.push(v)[j] == x);
            }
        }
        if x == v {
            assert(vis.push(v)[vis.len() as int] == v);
        }
        if has_part(parts, v) && !has_part(front, v) {
            let k = choose|k: int| 0 <= k < parts.len() && parts[k].id == v;
            if k < front.len() {
                assert(front[k] == parts[k]);
            }
        }
        if has_part(front, v) {
            let k = choose|k: int| 0 <= k < front.len() && front[k].id == v;
            assert(parts[k] == front[k]);
        }
    }
}

/// Number of connections whose source part is not in `vis`.
pub open spec fn unvisited_sources(
    conns: Seq<crate::graph::ModuleConnection>,
    vis: Seq<u64>,
) -> nat
    decreases conns.len(),
{
    if conns.len() == 0 {
        0
    } else {
        unvisited_sources(conns.drop_last(), vis) + if vis.contains(conns.last().from_part) {
            0nat
        } else {
            1nat
        }
    }
}

/// Visiting one more id never adds unvisited connection sources, and removes
/// one when a connection starts at that id.
proof fn lemma_unvisited_sources_push(
    conns: Seq<crate::graph::ModuleConnection>,
    vis: Seq<u64>,
    v: u64,
    k: int,
)
    ensures
        unvisited_sources(conns, vis.push(v)) <= unvisited_sources(conns, vis),
        0 <= k < conns.len() && conns[k].from_part == v && !vis.contains(v) ==> unvisited_sources(
            conns,
            vis.push(v),
        ) < unvisited_sources(conns, vis),
    decreases conns.len(),
{
    if conns.len() > 0 {
        let front = conns.drop_last();
        let x = conns.last().from_part;
        if 0 <= k < front.len() {
            assert(front[k] == conns[k]);
        }
        lemma_unvisited_sources_push(front, vis, v, k);
        if vis.contains(x) {
            assert(vis.push(v).contains(x)) by {
                let j = choose|j: int| 0 <= j < vis.len() && vis[j] == x;
                assert(vis.push(v)[j] == x);
            }
        }
        if x == v {
            assert(vis.push(v)[vis.len() as int] == v);
        }
    }
}

/// The walk sets grow with the number of steps.
proof fn lemma_downstream_within_mono<P>(g: ModuleGraph<P>, start: u64, m: nat, n: nat, x: u64)
    requires
        m <= n,
        downstream_within(g, start, m).contains(x),
    ensures
        downstream_within(g, start, n).contains(x),
    decreases n,
{
    if m < n {
        lemma_downstream_within_mono(g, start, m, (n - 1) as nat, x);
    }
}

/// Every part that the downstream walk enters is in a set that holds the
/// start and is closed under the walk's steps.
proof fn lemma_downstream_walk_covered<P>(g: ModuleGraph<P>, start: u64, vis: Seq<u64>, n: nat, x: u64)
    requires
        vis.contains(start),
        forall|i: int, v: u64|
            0 <= i < vis.len() && #[trigger] downstream_step(g, vis[i], v) && projector_id(g.parts, v)
                is None ==> vis.contains(v),
        downstream_within(g, start, n).contains(x),
    ensures
        vis.contains(x),
    decreases n,
{
    if n > 0 {
        let prev = downstream_within(g, start, (n - 1) as nat);
        if !prev.contains(x) {
            let u = choose|u: u64|
                prev.contains(u) && downstream_step(g, u, x) && projector_id(g.parts, x) is None;
            lemma_downstream_walk_covered(g, start, vis, (n - 1) as nat, u);
            let i = choose|i: int| 0 <= i < vis.len() && vis[i] == u;
            assert(downstream_step(g, vis[i], x));
        } else {
            lemma_downstream_walk_covered(g, start, vis, (n - 1) as nat, x);
        }
    }
}

/// The projector output ids that part `part_id` feeds, in any order.
fn collect_downstream_output_ids<P>(module: &MapFlowModule<P>, part_id: ModulePartId) -> (outs: Vec<
    u64,
>)
    ensures
        forall|o: u64| outs@.contains(o) <==> is_downstream_output(module@, part_id, o),
{
    let ghost g = module@;
    let mut visited: Vec<u64> = Vec::new();
    visited.push(part_id);
    let mut outs: Vec<u64> = Vec::new();
    let mut head: usize = 0;
    proof {
        assert(downstream_within(g, part_id, 0).contains(part_id));
    }
    while head < visited.len()
        invariant
            module@ == g,
            visited@.len() >= 1,
            visited@[0] == part_id,
            head <= visited@.len(),
            forall|i: int|
                0 <= i < visited@.len() ==> reaches_downstream(g, part_id, #[trigger] visited@[i]),
            forall|i: int, v: u64|
                0 <= i < head && #[trigger] downstream_step(g, visited@[i], v) && projector_id(
                    g.parts,
                    v,
                ) is None ==> visited@.contains(v),
            forall|i: int, v: u64|
                0 <= i < head && #[trigger] downstream_step(g, visited@[i], v) && projector_id(
                    g.parts,
                    v,
                ) is Some ==> outs@.contains(projector_id(g.parts, v).unwrap()),
            forall|o: u64| outs@.contains(o) ==> is_downstream_output(g, part_id, o),
        decreases unvisited_parts(g.parts, visited@), visited@.len() - head,
    {
        let u = visited[head];
        let ghost c0 = unvisited_parts(g.parts, visited@);
        let ghost l0 = visited@.len();
        let mut k: usize = 0;
        while k < module.connections.len()
            invariant
                module@ == g,
                u == visited@[head as int],
                visited@.len() >= l0,
                visited@[0] == part_id,
                head < l0,
                k <= g.connections.len(),
                unvisited_parts(g.parts, visited@) <= c0,
                visited@.len() > l0 ==> unvisited_parts(g.parts, visited@) < c0,
                forall|i: int|
                    0 <= i < visited@.len() ==> reaches_downstream(
                        g,
                        part_id,
                        #[trigger] visited@[i],
                    ),
                forall|i: int, v: u64|
                    0 <= i < head && #[trigger] downstream_step(g, visited@[i], v) && projector_id(
                        g.parts,
                        v,
                    ) is None ==> visited@.contains(v),
                forall|i: int, v: u64|
                    0 <= i < head && #[trigger] downstream_step(g, visited@[i], v) && projector_id(
                        g.parts,
                        v,
                    ) is Some ==> outs@.contains(projector_id(g.parts, v).unwrap()),
                forall|j: int|
                    0 <= j < k && (#[trigger] g.connections[j]).from_part == u && has_part(
                        g.parts,
                        g.connections[j].to_part,
                    ) ==> match projector_id(g.parts, g.connections[j].to_part) {
                        Some(o) => outs@.contains(o),
                        None => visited@.contains(g.connections[j].to_part),
                    },
                forall|o: u64| outs@.contains(o) ==> is_downstream_output(g, part_id, o),
            decreases g.connections.len() - k,
        {
            let conn = module.connections[k];
            let ghost old_outs = outs@;
            let ghost old_vis = visited@;
            if conn.from_part == u {
                match find_part_index(&module.parts, conn.to_part) {
                    Some(idx) => {
                        let v = conn.to_part;
                        proof {
                            let f = choose|f: int| is_first_index(g.parts, v, f);
                            lemma_first_index_unique(g.parts, v, idx as int, f);
                            assert(g.connections[k as int].from_part == u);
                            assert(downstream_step(g, u, v));
                            assert(reaches_downstream(g, part_id, u));
                        }
                        match module.parts[idx].kind {
                            PartKind::Output(OutputKind::Projector { id }) => {
                                outs.push(id);
                                proof {
                                    assert(projector_id(g.parts, v) == Some(id));
                                    assert(reaches_downstream(g, part_id, u) && downstream_step(
                                        g,
                                        u,
                                        v,
                                    ) && projector_id(g.parts, v) == Some(id));
                                    assert(is_downstream_output(g, part_id, id));
                                    assert forall|o: u64| old_outs.contains(o) implies outs@.contains(
                                        o,
                                    ) by {
                                        let j = choose|j: int|
                                            0 <= j < old_outs.len() && old_outs[j] == o;
                                        assert(outs@[j] == o);
                                    }
                                    assert(outs@[old_outs.len() as int] == id);
                                    assert forall|o: u64|
                                        outs@.contains(o) implies is_downstream_output(
                                        g,
                                        part_id,
                                        o,
                                    ) by {
                                        if o != id {
                                            let j = choose|j: int|
                                                0 <= j < outs@.len() && outs@[j] == o;
                                            assert(old_outs[j] == o);
                                            assert(old_outs.contains(o));
                                        }
                                    }
                                }
                            },
                            _ => {
                                proof {
                                    assert(projector_id(g.parts, v) is None);
                                }
                                if !contains_id(&visited, v) {
                                    proof {
                                        lemma_unvisited_parts_push(g.parts, visited@, v);
                                        let n = choose|n: nat|
                                            downstream_within(g, part_id, n).contains(u);
                                        assert(downstream_within(g, part_id, n + 1).contains(v));
                                    }
                                    visited.push(v);
                                    proof {
                                        assert forall|x: u64| old_vis.contains(x) implies visited@.contains(
                                            x,
                                        ) by {
                                            let j = choose|j: int|
                                                0 <= j < old_vis.len() && old_vis[j] == x;
                                            assert(visited@[j] == x);
                                        }
                                        assert(visited@[old_vis.len() as int] == v);
                                        assert forall|i: int| 0 <= i < visited@.len() implies reaches_downstream(
                                            g,
                                            part_id,
                                            #[trigger] visited@[i],
                                        ) by {
                                            if i < old_vis.len() {
                                                assert(visited@[i] == old_vis[i]);
                                            }
                                        }
                                    }
                                }
                            },
                        }
                    },
                    None => {},
                }
            }
            k = k + 1;
        }
        proof {
            assert forall|v: u64|
                #[trigger] downstream_step(g, u, v) && projector_id(g.parts, v)
                    is None implies visited@.contains(v) by {
                let j = choose|j: int|
                    0 <= j < g.connections.len() && (#[trigger] g.connections[j]).from_part == u
                        && g.connections[j].to_part == v;
            }
            assert forall|v: u64|
                #[trigger] downstream_step(g, u, v) && projector_id(g.parts, v)
                    is Some implies outs@.contains(projector_id(g.parts, v).unwrap()) by {
                let j = choose|j: int|
                    0 <= j < g.connections.len() && (#[trigger] g.connections[j]).from_part == u
                        && g.connections[j].to_part == v;
            }
        }
        head = head + 1;
    }
    proof {
        assert(visited@.contains(part_id)) by {
            assert(visited@[0] == part_id);
        }
        assert forall|o: u64| is_downstream_output(g, part_id, o) implies outs@.contains(o) by {
            let (u, v) = choose|u: u64, v: u64|
                reaches_downstream(g, part_id, u) && downstream_step(g, u, v) && projector_id(
                    g.parts,
                    v,
                ) == Some(o);
            let n = choose|n: nat| downstream_within(g, part_id, n).contains(u);
            lemma_downstream_walk_covered(g, part_id, visited@, n, u);
            let i = choose|i: int| 0 <= i < visited@.len() && visited@[i] == u;
            assert(downstream_step(g, visited@[i], v));
        }
    }
    outs
}

/// Every part that the upstream walk enters is in a set that holds the start
/// and is closed under the walk's steps.
proof fn lemma_upstream_walk_covered<P>(g: ModuleGraph<P>, start: u64, vis: Seq<u64>, n: nat, x: u64)
    requires
        vis.contains(start),
        forall|k: int|
            0 <= k < g.connections.len() && vis.contains((#[trigger] g.connections[k]).to_part)
                && !is_source_part(g.parts, g.connections[k].to_part) ==> vis.contains(
                g.connections[k].from_part,
            ),
        upstream_within(g, start, n).contains(x),
    ensures
        vis.contains(x),
    decreases n,
{
    if n > 0 {
        let prev = upstream_within(g, start, (n - 1) as nat);
        if !prev.contains(x) {
            let k = choose|k: int|
                0 <= k < g.connections.len() && prev.contains(
                    #[trigger] g.connections[k].to_part,
                ) && !is_source_part(g.parts, g.connections[k].to_part)
                    && g.connections[k].from_part == x;
            lemma_upstream_walk_covered(g, start, vis, (n - 1) as nat, g.connections[k].to_part);
        } else {
            lemma_upstream_walk_covered(g, start, vis, (n - 1) as nat, x);
        }
    }
}

/// The source parts that feed part `part_id`, in any order.
fn collect_upstream_source_ids<P>(module: &MapFlowModule<P>, part_id: ModulePartId) -> (outs: Vec<
    u64,
>)
    ensures
        forall|s: u64| outs@.contains(s) <==> is_upstream_source(module@, part_id, s),
{
    let ghost g = module@;
    let mut visited: Vec<u64> = Vec::new();
    visited.push(part_id);
    let mut outs: Vec<u64> = Vec::new();
    let mut head: usize = 0;
    proof {
        assert(upstream_within(g, part_id, 0).contains(part_id));
    }
    while head < visited.len()
        invariant
            module@ == g,
            visited@.len() >= 1,
            visited@[0] == part_id,
            head <= visited@.len(),
            forall|i: int|
                0 <= i < visited@.len() ==> exists|n: nat|
                    upstream_within(g, part_id, n).contains(#[trigger] visited@[i]),
            forall|i: int, k: int|
                0 <= i < head && 0 <= k < g.connections.len() && (#[trigger] g.connections[k]).to_part
                    == #[trigger] visited@[i] && !is_source_part(g.parts, visited@[i])
                    ==> visited@.contains(g.connections[k].from_part),
            forall|i: int|
                0 <= i < head && is_source_part(g.parts, #[trigger] visited@[i]) ==> outs@.contains(
                    visited@[i],
                ),
            forall|s: u64| outs@.contains(s) ==> is_upstream_source(g, part_id, s),
        decreases unvisited_sources(g.connections, visited@), visited@.len() - head,
    {
        let u = visited[head];
        let ghost c0 = unvisited_sources(g.connections, visited@);
        let ghost l0 = visited@.len();
        let ghost n_u = choose|n: nat| upstream_within(g, part_id, n).contains(u);
        let is_source: bool;
        match find_part_index(&module.parts, u) {
            Some(idx) => {
                proof {
                    let f = choose|f: int| is_first_index(g.parts, u, f);
                    lemma_first_index_unique(g.parts, u, idx as int, f);
                }
                is_source = matches!(module.parts[idx].kind, PartKind::Source(_));
            },
            None => {
                is_source = false;
            },
        }
        assert(is_source == is_source_part(g.parts, u));
        if is_source {
            let ghost old_outs = outs@;
            outs.push(u);
            proof {
                assert(upstream_within(g, part_id, n_u).contains(u));
                assert(is_upstream_source(g, part_id, u));
                assert(outs@[old_outs.len() as int] == u);
                assert forall|x: u64| old_outs.contains(x) implies outs@.contains(x) by {
                    let j = choose|j: int| 0 <= j < old_outs.len() && old_outs[j] == x;
                    assert(outs@[j] == x);
                }
                assert forall|x: u64| outs@.contains(x) implies is_upstream_source(g, part_id, x) by {
                    if x != u {
                        let j = choose|j: int| 0 <= j < outs@.len() && outs@[j] == x;
                        assert(old_outs[j] == x);
                        assert(old_outs.contains(x));
                    }
                }
            }
        } else {
            let mut k: usize = 0;
            while k < module.connections.len()
                invariant
                    module@ == g,
                    u == visited@[head as int],
                    !is_source_part(g.parts, u),
                    upstream_within(g, part_id, n_u).contains(u),
                    visited@.len() >= l0,
                    visited@[0] == part_id,
                    head < l0,
                    k <= g.connections.len(),
                    unvisited_sources(g.connections, visited@) <= c0,
                    visited@.len() > l0 ==> unvisited_sources(g.connections, visited@) < c0,
                    forall|i: int|
                        0 <= i < visited@.len() ==> exists|n: nat|
                            upstream_within(g, part_id, n).contains(#[trigger] visited@[i]),
                    forall|i: int, j: int|
                        0 <= i < head && 0 <= j < g.connections.len() && (
                        #[trigger] g.connections[j]).to_part == #[trigger] visited@[i]
                            && !is_source_part(g.parts, visited@[i]) ==> visited@.contains(
                            g.connections[j].from_part,
                        ),
                    forall|i: int|
                        0 <= i < head && is_source_part(g.parts, #[trigger] visited@[i])
                            ==> outs@.contains(visited@[i]),
                    forall|j: int|
                        0 <= j < k && (#[trigger] g.connections[j]).to_part == u
                            ==> visited@.contains(g.connections[j].from_part),
                decreases g.connections.len() - k,
            {
                let conn = module.connections[k];
                if conn.to_part == u {
                    let v = conn.from_part;
                    if !contains_id(&visited, v) {
                        let ghost old_vis = visited@;
                        proof {
                            lemma_unvisited_sources_push(g.connections, visited@, v, k as int);
                            assert(g.connections[k as int].to_part == u);
                            assert(upstream_within(g, part_id, n_u + 1).contains(v));
                        }
                        visited.push(v);
                        proof {
                            assert forall|x: u64| old_vis.contains(x) implies visited@.contains(
                                x,
                            ) by {
                                let j = choose|j: int| 0 <= j < old_vis.len() && old_vis[j] == x;
                                assert(visited@[j] == x);
                            }
                            assert(visited@[old_vis.len() as int] == v);
                            assert forall|i: int| 0 <= i < visited@.len() implies exists|n: nat|
                                upstream_within(g, part_id, n).contains(
                                    #[trigger] visited@[i],
                                ) by {
                                if i < old_vis.len() {
                                    assert(visited@[i] == old_vis[i]);
                                } else {
                                    assert(upstream_within(g, part_id, n_u + 1).contains(
                                        visited@[i],
                                    ));
                                }
                            }
                        }
                    }
                }
                k = k + 1;
            }
        }
        head = head + 1;
    }
    proof {
        assert(visited@.contains(part_id)) by {
            assert(visited@[0] == part_id);
        }
        assert forall|k: int|
            0 <= k < g.connections.len() && visited@.contains((#[trigger] g.connections[k]).to_part)
                && !is_source_part(g.parts, g.connections[k].to_part) implies visited@.contains(
            g.connections[k].from_part,
        ) by {
            let i = choose|i: int| 0 <= i < visited@.len() && visited@[i] == g.connections[k].to_part;
            assert(g.connections[k].to_part == visited@[i]);
        }
        assert forall|x: u64| is_upstream_source(g, part_id, x) implies outs@.contains(x) by {
            let n = choose|n: nat| upstream_within(g, part_id, n).contains(x);
            lemma_upstream_walk_covered(g, part_id, visited@, n, x);
            let i = choose|i: int| 0 <= i < visited@.len() && visited@[i] == x;
            assert(is_source_part(g.parts, visited@[i]));
        }
    }
    outs
}

/// Puts `x` into the strictly increasing `r` unless it is there already.
fn insert_sorted(r: &mut Vec<u64>, x: u64)
    requires
        strictly_sorted(old(r)@),
    ensures
        strictly_sorted(final(r)@),
        forall|y: u64| final(r)@.contains(y) <==> (old(r)@.contains(y) || y == x),
{
    let mut p: usize = 0;
    while p < r.len() && r[p] < x
        invariant
            r@ == old(r)@,
            p <= r@.len(),
            forall|i: int| 0 <= i < p ==> r@[i] < x,
        decreases r@.len() - p,
    {
        p = p + 1;
    }
    if p < r.len() && r[p] == x {
        assert(r@[p as int] == x);
        return;
    }
    let ghost old_r = r@;
    assert(old_r == old(r)@);
    r.insert(p, x);
    proof {
        assert forall|i: int, j: int| 0 <= i < j < r@.len() implies r@[i] < r@[j] by {
            if j < p {
                assert(r@[i] == old_r[i] && r@[j] == old_r[j]);
            } else if j == p {
                assert(r@[i] == old_r[i]);
            } else if i < p {
                assert(r@[i] == old_r[i] && r@[j] == old_r[j - 1]);
                assert(old_r[p as int] > x);
                assert(old_r[p as int] <= old_r[j - 1]);
            } else if i == p {
                assert(r@[j] == old_r[j - 1]);
                assert(old_r[p as int] <= old_r[j - 1]);
            } else {
                assert(r@[i] == old_r[i - 1] && r@[j] == old_r[j - 1]);
            }
        }
        assert forall|y: u64| r@.contains(y) <==> (old_r.contains(y) || y == x) by {
            if r@.contains(y) {
                let i = choose|i: int| 0 <= i < r@.len() && r@[i] == y;
                if i < p {
                    assert(old_r[i] == y);
                } else if i > p {
                    assert(old_r[i - 1] == y);
                }
            }
            if old_r.contains(y) {
                let i = choose|i: int| 0 <= i < old_r.len() && old_r[i] == y;
                if i < p {
                    assert(r@[i] == y);
                } else {
                    assert(r@[i + 1] == y);
                }
            }
            if y == x {
                assert(r@[p as int] == x);
            }
        }
        assert(forall|y: u64| r@.contains(y) <==> (old(r)@.contains(y) || y == x));
    }
}

/// Sorts `v` in increasing order and drops repeated values.
pub fn sort_dedup(v: &mut Vec<u64>)
    ensures
        strictly_sorted(final(v)@),
        forall|y: u64| final(v)@.contains(y) <==> old(v)@.contains(y),
{
    let mut r: Vec<u64> = Vec::new();
    let mut i: usize = 0;
    while i < v.len()
        invariant
            v@ == old(v)@,
            i <= v@.len(),
            strictly_sorted(r@),
            forall|y: u64| r@.contains(y) <==> exists|j: int| 0 <= j < i && v@[j] == y,
        decreases v@.len() - i,
    {
        insert_sorted(&mut r, v[i]);
        proof {
            assert forall|y: u64| r@.contains(y) <==> exists|j: int| 0 <= j < i + 1 && v@[j] == y by {
                if y == v@[i as int] {
                    assert(exists|j: int| 0 <= j < i + 1 && v@[j] == y);
                }
            }
        }
        i = i + 1;
    }
    proof {
        assert forall|y: u64| r@.contains(y) <==> old(v)@.contains(y) by {
            if old(v)@.contains(y) {
                let j = choose|j: int| 0 <= j < old(v)@.len() && old(v)@[j] == y;
                assert(exists|j: int| 0 <= j < i && v@[j] == y);
            }
        }
    }
    *v = r;
}

/// The projector outputs that part `part_id` feeds and the sources that feed
/// it, each list in increasing order without repeats.
pub fn build_preview_context<P>(module: &MapFlowModule<P>, part_id: ModulePartId) -> (r:
    InspectorPreviewContext)
    ensures
        strictly_sorted(r.output_ids@),
        forall|o: u64| r.output_ids@.contains(o) <==> is_downstream_output(module@, part_id, o),
        strictly_sorted(r.upstream_source_part_ids@),
        forall|s: u64|
            r.upstream_source_part_ids@.contains(s) <==> is_upstream_source(module@, part_id, s),
{
    let mut output_ids = collect_downstream_output_ids(module, part_id);
    let mut source_ids = collect_upstream_source_ids(module, part_id);
    sort_dedup(&mut output_ids);
    sort_dedup(&mut source_ids);
    InspectorPreviewContext { output_ids, upstream_source_part_ids: source_ids }
}

} // verus!
