//! What the canvas operations keep: a graph without dangling connections,
//! unique part ids, a selection without repeats, and learned MIDI bindings.
use crate::canvas::{
    deletion_result, not_selected, not_touching, oriented_connection, untouched_by,
    with_midi_binding, without_part, SocketRef,
};
use crate::graph::{
    connections_closed, has_part, id_differs, ids_unique, is_first_index,
    lemma_first_index_exists, lemma_first_index_unique, lemma_max_part_id_bound, max_part_id,
    with_position, ModuleGraph, ModulePart, PartKind, TriggerKind,
};
use crate::layout::{preset_connection, preset_graph, preset_link_in_range, ModulePreset};
use crate::selection::{
    clicked_selection, other_than, part_ids, pasted_part, toggled_selection, with_added,
};
use vstd::prelude::*;

verus! {

/// An element of a filtered sequence is an element of the sequence.
proof fn lemma_filter_member<A>(s: Seq<A>, p: spec_fn(A) -> bool, i: int)
    requires
        0 <= i < s.filter(p).len(),
    ensures
        s.contains(s.filter(p)[i]),
        p(s.filter(p)[i]),
{
    s.lemma_filter_pred(p, i);
    assert(s.filter(p).contains(s.filter(p)[i]));
    s.lemma_filter_contains_rev(p, s.filter(p)[i]);
}

/// A part that passes the filter is still found in the filtered parts.
proof fn lemma_filter_keeps_part<P>(parts: Seq<ModulePart<P>>, p: spec_fn(ModulePart<P>) -> bool, id: u64)
    requires
        has_part(parts, id),
        forall|q: ModulePart<P>| q.id == id ==> #[trigger] p(q),
    ensures
        has_part(parts.filter(p), id),
{
    let i = choose|i: int| 0 <= i < parts.len() && parts[i].id == id;
    broadcast use vstd::seq_lib::group_filter_ensures;

    assert(parts.filter(p).contains(parts[i]));
    let j = choose|j: int| 0 <= j < parts.filter(p).len() && parts.filter(p)[j] == parts[i];
    assert(parts.filter(p)[j].id == id);
}

/// Filtering keeps ids unique.
proof fn lemma_filter_ids_unique<P>(parts: Seq<ModulePart<P>>, p: spec_fn(ModulePart<P>) -> bool)
    requires
        ids_unique(parts),
    ensures
        ids_unique(parts.filter(p)),
    decreases parts.len(),
{
    reveal_with_fuel(Seq::filter, 1);
    if parts.len() > 0 {
        let front = parts.drop_last();
        assert forall|i: int, j: int| 0 <= i < j < front.len() implies front[i].id
            != front[j].id by {
            assert(front[i] == parts[i] && front[j] == parts[j]);
        }
        lemma_filter_ids_unique(front, p);
        assert(parts =~= front.push(parts.last()));
        front.lemma_filter_push(parts.last(), p);
        if p(parts.last()) {
            let f = front.filter(p);
            assert forall|i: int| 0 <= i < f.len() implies f[i].id != parts.last().id by {
                lemma_filter_member(front, p, i);
                let k = choose|k: int| 0 <= k < front.len() && front[k] == f[i];
                assert(front[k] == parts[k]);
            }
        }
    }
}

/// Deleting the selection keeps every connection between parts that exist,
/// and keeps unique part ids unique.
pub proof fn lemma_deletion_keeps_graph_valid<P>(g: ModuleGraph<P>, sel: Seq<u64>)
    requires
        connections_closed(g),
    ensures
        connections_closed(deletion_result(g, sel)),
        ids_unique(g.parts) ==> ids_unique(deletion_result(g, sel).parts),
{
    let r = deletion_result(g, sel);
    if ids_unique(g.parts) {
        lemma_filter_ids_unique(g.parts, not_selected::<P>(sel));
    }
    assert forall|k: int| 0 <= k < r.connections.len() implies has_part(
        r.parts,
        #[trigger] r.connections[k].from_part,
    ) && has_part(r.parts, r.connections[k].to_part) by {
        lemma_filter_member(g.connections, untouched_by(sel), k);
        let c = r.connections[k];
        let m = choose|m: int| 0 <= m < g.connections.len() && g.connections[m] == c;
        assert(has_part(g.parts, g.connections[m].from_part));
        lemma_filter_keeps_part(g.parts, not_selected::<P>(sel), c.from_part);
        lemma_filter_keeps_part(g.parts, not_selected::<P>(sel), c.to_part);
    }
}

/// Deleting one part keeps every connection between parts that exist, and
/// keeps unique part ids unique.
pub proof fn lemma_part_deletion_keeps_graph_valid<P>(g: ModuleGraph<P>, id: u64)
    requires
        connections_closed(g),
    ensures
        connections_closed(without_part(g, id)),
        ids_unique(g.parts) ==> ids_unique(without_part(g, id).parts),
{
    let r = without_part(g, id);
    if ids_unique(g.parts) {
        lemma_filter_ids_unique(g.parts, id_differs::<P>(id));
    }
    assert forall|k: int| 0 <= k < r.connections.len() implies has_part(
        r.parts,
        #[trigger] r.connections[k].from_part,
    ) && has_part(r.parts, r.connections[k].to_part) by {
        lemma_filter_member(g.connections, not_touching(id), k);
        let c = r.connections[k];
        let m = choose|m: int| 0 <= m < g.connections.len() && g.connections[m] == c;
        assert(has_part(g.parts, g.connections[m].from_part));
        lemma_filter_keeps_part(g.parts, id_differs::<P>(id), c.from_part);
        lemma_filter_keeps_part(g.parts, id_differs::<P>(id), c.to_part);
    }
}

/// Adding the ids of `hits` one by one, skipping those present, never
/// repeats an id.
proof fn lemma_with_added_distinct(sel: Seq<u64>, hits: Seq<u64>)
    requires
        sel.no_duplicates(),
    ensures
        with_added(sel, hits).no_duplicates(),
    decreases hits.len(),
{
    if hits.len() > 0 {
        lemma_with_added_distinct(sel, hits.drop_last());
        let s = with_added(sel, hits.drop_last());
        if !s.contains(hits.last()) {
            assert forall|i: int, j: int| 0 <= i < j < s.push(hits.last()).len() implies s.push(
                hits.last(),
            )[i] != s.push(hits.last())[j] by {
                if j == s.len() {
                    assert(s[i] == s.push(hits.last())[i]);
                }
            }
        }
    }
}

/// Clicks, shift-clicks and box selections never select a part twice.
pub proof fn lemma_selection_stays_distinct(sel: Seq<u64>, id: u64, shift: bool, hits: Seq<u64>)
    requires
        sel.no_duplicates(),
    ensures
        clicked_selection(sel, id, shift).no_duplicates(),
        toggled_selection(sel, id).no_duplicates(),
        with_added(sel, hits).no_duplicates(),
        with_added(Seq::empty(), hits).no_duplicates(),
{
    lemma_with_added_distinct(sel, seq![id]);
    assert(seq![id].drop_last() =~= Seq::<u64>::empty());
    reveal_with_fuel(with_added, 2);
    assert(with_added(sel, seq![id]) == (if sel.contains(id) { sel } else { sel.push(id) }));
    if !shift {
        assert(seq![id].no_duplicates());
    }
    if sel.contains(id) {
        crate::history_laws::lemma_filter_no_duplicates(sel, other_than(id));
    }
    lemma_with_added_distinct(sel, hits);
    lemma_with_added_distinct(Seq::empty(), hits);
}

/// Selecting all parts of a graph with unique ids selects no part twice.
pub proof fn lemma_select_all_distinct<P>(parts: Seq<ModulePart<P>>)
    requires
        ids_unique(parts),
    ensures
        part_ids(parts).no_duplicates(),
{
}

/// A learned MIDI binding, once applied, is the channel and note of the MIDI
/// trigger that was learned; every other part stays as it was.
pub proof fn lemma_learned_binding_applied<P>(
    parts: Seq<ModulePart<P>>,
    id: u64,
    channel: u8,
    number: u8,
    i: int,
)
    requires
        is_first_index(parts, id, i),
        parts[i].kind matches PartKind::Trigger(TriggerKind::Midi { .. }),
    ensures
        with_midi_binding(parts, id, channel, number).len() == parts.len(),
        with_midi_binding(parts, id, channel, number)[i] == (ModulePart {
            id,
            kind: PartKind::Trigger(TriggerKind::Midi { channel, note: number }),
            position: parts[i].position,
        }),
        forall|j: int|
            0 <= j < parts.len() && j != i ==> #[trigger] with_midi_binding(
                parts,
                id,
                channel,
                number,
            )[j] == parts[j],
{
    assert(has_part(parts, id));
    let k = choose|k: int| is_first_index(parts, id, k);
    lemma_first_index_exists(parts, id);
    lemma_first_index_unique(parts, id, i, k);
}

/// A cable between sockets of two parts of the graph keeps every connection
/// between parts that exist.
pub proof fn lemma_connection_keeps_graph_closed<P>(g: ModuleGraph<P>, from: SocketRef, to: SocketRef)
    requires
        connections_closed(g),
        has_part(g.parts, from.part_id),
        has_part(g.parts, to.part_id),
    ensures
        connections_closed(
            ModuleGraph {
                parts: g.parts,
                connections: g.connections.push(oriented_connection(from, to)),
            },
        ),
{
    let h = ModuleGraph { parts: g.parts, connections: g.connections.push(oriented_connection(from, to)) };
    assert forall|k: int| 0 <= k < h.connections.len() implies has_part(
        h.parts,
        #[trigger] h.connections[k].from_part,
    ) && has_part(h.parts, h.connections[k].to_part) by {
        if k < g.connections.len() {
            assert(h.connections[k] == g.connections[k]);
        }
    }
}

/// A new part with the next id keeps part ids unique and every connection
/// between parts that exist.
pub proof fn lemma_new_part_keeps_graph_valid<P>(g: ModuleGraph<P>, kind: PartKind, position: P)
    requires
        connections_closed(g),
        ids_unique(g.parts),
        max_part_id(g.parts) < u64::MAX,
    ensures
        ({
            let part = ModulePart { id: (max_part_id(g.parts) + 1) as u64, kind, position };
            let h = ModuleGraph { parts: g.parts.push(part), connections: g.connections };
            connections_closed(h) && ids_unique(h.parts)
        }),
{
    let part = ModulePart { id: (max_part_id(g.parts) + 1) as u64, kind, position };
    let h = ModuleGraph { parts: g.parts.push(part), connections: g.connections };
    assert forall|i: int, j: int| 0 <= i < j < h.parts.len() implies h.parts[i].id != h.parts[j].id by {
        if j == g.parts.len() {
            lemma_max_part_id_bound(g.parts, i);
        } else {
            assert(h.parts[i] == g.parts[i] && h.parts[j] == g.parts[j]);
        }
    }
    assert forall|k: int| 0 <= k < h.connections.len() implies has_part(
        h.parts,
        #[trigger] h.connections[k].from_part,
    ) && has_part(h.parts, h.connections[k].to_part) by {
        let c = h.connections[k];
        assert(c == g.connections[k]);
        assert(has_part(g.parts, g.connections[k].from_part));
        assert(has_part(g.parts, c.from_part) && has_part(g.parts, c.to_part));
        let a = choose|a: int| 0 <= a < g.parts.len() && g.parts[a].id == c.from_part;
        let b = choose|b: int| 0 <= b < g.parts.len() && g.parts[b].id == c.to_part;
        assert(h.parts[a] == g.parts[a] && h.parts[b] == g.parts[b]);
    }
}

/// The parts of `h` are those of `g`, in the same places with the same ids;
/// only their kinds or positions may differ.
pub open spec fn same_part_ids<P>(g: Seq<ModulePart<P>>, h: Seq<ModulePart<P>>) -> bool {
    &&& h.len() == g.len()
    &&& forall|i: int| 0 <= i < g.len() ==> (#[trigger] h[i]).id == g[i].id
}

/// One edit that the canvas makes to a module's graph: nothing, deleting the
/// selection (with or without an undo record), deleting one part with its
/// connections, removing a connection by index, a cable between two parts of
/// the graph, new parts (added or pasted), changing the kind or position of
/// parts, or loading a preset.
pub open spec fn canvas_edit<P>(g: ModuleGraph<P>, h: ModuleGraph<P>) -> bool {
    ||| h == g
    ||| exists|sel: Seq<u64>| h == #[trigger] deletion_result(g, sel)
    ||| exists|id: u64| h == #[trigger] without_part(g, id)
    ||| exists|k: int|
        0 <= k < g.connections.len() && h == (ModuleGraph {
            parts: g.parts,
            connections: #[trigger] g.connections.remove(k),
        })
    ||| exists|from: SocketRef, to: SocketRef|
        has_part(g.parts, from.part_id) && has_part(g.parts, to.part_id) && h == (ModuleGraph {
            parts: g.parts,
            connections: g.connections.push(#[trigger] oriented_connection(from, to)),
        })
    ||| exists|extra: Seq<ModulePart<P>>|
        h == (ModuleGraph { parts: #[trigger] (g.parts + extra), connections: g.connections })
    ||| (same_part_ids(g.parts, h.parts) && h.connections == g.connections)
    ||| exists|preset: ModulePreset<P>| h == #[trigger] preset_graph(preset)
}

/// Moving a part keeps the ids at every index.
pub proof fn lemma_with_position_ids<P>(parts: Seq<ModulePart<P>>, id: u64, pos: P)
    ensures
        same_part_ids(parts, with_position(parts, id, pos)),
{
    if has_part(parts, id) {
        lemma_first_index_exists(parts, id);
    }
}

/// Applying a learned MIDI binding keeps the ids at every index.
pub proof fn lemma_midi_binding_ids<P>(parts: Seq<ModulePart<P>>, id: u64, channel: u8, number: u8)
    ensures
        same_part_ids(parts, with_midi_binding(parts, id, channel, number)),
{
    if has_part(parts, id) {
        lemma_first_index_exists(parts, id);
    }
}

/// A loaded preset joins only parts that it holds.
pub proof fn lemma_preset_graph_closed<P>(preset: ModulePreset<P>)
    ensures
        connections_closed(preset_graph(preset)),
{
    let g = preset_graph(preset);
    let n = preset.parts@.len() as int;
    let kept = preset.connections@.filter(preset_link_in_range(n));
    assert forall|c: int| 0 <= c < g.connections.len() implies has_part(
        g.parts,
        #[trigger] g.connections[c].from_part,
    ) && has_part(g.parts, g.connections[c].to_part) by {
        preset.connections@.lemma_filter_pred(preset_link_in_range(n), c);
        let t = kept[c];
        assert(g.connections[c] == preset_connection(t));
        assert(g.parts[t.0 as int].id == g.connections[c].from_part);
        assert(g.parts[t.2 as int].id == g.connections[c].to_part);
    }
}

/// Every edit that the canvas makes keeps every connection between parts
/// that exist.
pub proof fn lemma_canvas_edit_keeps_graph_closed<P>(g: ModuleGraph<P>, h: ModuleGraph<P>)
    requires
        connections_closed(g),
        canvas_edit(g, h),
    ensures
        connections_closed(h),
{
    if h == g {
    } else if exists|sel: Seq<u64>| h == #[trigger] deletion_result(g, sel) {
        let sel = choose|sel: Seq<u64>| h == #[trigger] deletion_result(g, sel);
        lemma_deletion_keeps_graph_valid(g, sel);
    } else if exists|id: u64| h == #[trigger] without_part(g, id) {
        let id = choose|id: u64| h == #[trigger] without_part(g, id);
        lemma_part_deletion_keeps_graph_valid(g, id);
    } else if exists|k: int|
        0 <= k < g.connections.len() && h == (ModuleGraph {
            parts: g.parts,
            connections: #[trigger] g.connections.remove(k),
        }) {
        let k = choose|k: int|
            0 <= k < g.connections.len() && h == (ModuleGraph {
                parts: g.parts,
                connections: #[trigger] g.connections.remove(k),
            });
        assert forall|c: int| 0 <= c < h.connections.len() implies has_part(
            h.parts,
            #[trigger] h.connections[c].from_part,
        ) && has_part(h.parts, h.connections[c].to_part) by {
            if c < k {
                assert(h.connections[c] == g.connections[c]);
            } else {
                assert(h.connections[c] == g.connections[c + 1]);
            }
        }
    } else if exists|from: SocketRef, to: SocketRef|
        has_part(g.parts, from.part_id) && has_part(g.parts, to.part_id) && h == (ModuleGraph {
            parts: g.parts,
            connections: g.connections.push(#[trigger] oriented_connection(from, to)),
        }) {
        let (from, to) = choose|from: SocketRef, to: SocketRef|
            has_part(g.parts, from.part_id) && has_part(g.parts, to.part_id) && h == (ModuleGraph {
                parts: g.parts,
                connections: g.connections.push(#[trigger] oriented_connection(from, to)),
            });
        lemma_connection_keeps_graph_closed(g, from, to);
    } else if exists|extra: Seq<ModulePart<P>>|
        h == (ModuleGraph { parts: #[trigger] (g.parts + extra), connections: g.connections }) {
        let extra = choose|extra: Seq<ModulePart<P>>|
            h == (ModuleGraph { parts: #[trigger] (g.parts + extra), connections: g.connections });
        assert forall|c: int| 0 <= c < h.connections.len() implies has_part(
            h.parts,
            #[trigger] h.connections[c].from_part,
        ) && has_part(h.parts, h.connections[c].to_part) by {
            let x = h.connections[c];
            assert(x == g.connections[c]);
            assert(has_part(g.parts, g.connections[c].from_part));
            assert(has_part(g.parts, x.from_part) && has_part(g.parts, x.to_part));
            let a = choose|a: int| 0 <= a < g.parts.len() && g.parts[a].id == x.from_part;
            let b = choose|b: int| 0 <= b < g.parts.len() && g.parts[b].id == x.to_part;
            assert(h.parts[a] == g.parts[a] && h.parts[b] == g.parts[b]);
        }
    } else if same_part_ids(g.parts, h.parts) && h.connections == g.connections {
        assert forall|c: int| 0 <= c < h.connections.len() implies has_part(
            h.parts,
            #[trigger] h.connections[c].from_part,
        ) && has_part(h.parts, h.connections[c].to_part) by {
            let x = h.connections[c];
            assert(x == g.connections[c]);
            assert(has_part(g.parts, g.connections[c].from_part));
            assert(has_part(g.parts, x.from_part) && has_part(g.parts, x.to_part));
            let a = choose|a: int| 0 <= a < g.parts.len() && g.parts[a].id == x.from_part;
            let b = choose|b: int| 0 <= b < g.parts.len() && g.parts[b].id == x.to_part;
            assert(h.parts[a].id == g.parts[a].id && h.parts[b].id == g.parts[b].id);
        }
    } else {
        let preset = choose|preset: ModulePreset<P>| h == #[trigger] preset_graph(preset);
        lemma_preset_graph_closed(preset);
    }
}

/// Pasted parts get ids that no part had and that differ from each other,
/// so unique ids stay unique.
pub proof fn lemma_paste_keeps_ids_unique<P>(parts: Seq<ModulePart<P>>, items: Seq<(PartKind, P)>)
    requires
        ids_unique(parts),
        max_part_id(parts) + items.len() <= u64::MAX,
    ensures
        ids_unique(
            parts + Seq::new(
                items.len(),
                |j: int| pasted_part(items, max_part_id(parts) as int, j),
            ),
        ),
{
    let m = max_part_id(parts) as int;
    let all = parts + Seq::new(items.len(), |j: int| pasted_part(items, m, j));
    assert forall|i: int, j: int| 0 <= i < j < all.len() implies all[i].id != all[j].id by {
        if j >= parts.len() {
            assert(all[j].id == m + 1 + (j - parts.len()));
            if i < parts.len() {
                lemma_max_part_id_bound(parts, i);
                assert(all[i] == parts[i]);
            } else {
                assert(all[i].id == m + 1 + (i - parts.len()));
            }
        } else {
            assert(all[i] == parts[i] && all[j] == parts[j]);
        }
    }
}

} // verus!
