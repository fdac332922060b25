//! Placing parts on the canvas: automatic layout, new parts and presets.
use crate::graph::{
    connections_closed, has_part, ids_unique, kind_type, lemma_max_part_id_bound, max_part_id,
    next_part_id, type_rank, EffectKind, LayerKind, MapFlowModule, MaskKind, MaskShape,
    ModuleConnection, ModuleGraph, ModulePart, ModulizerKind, OutputKind, PartKind, PartType, SourceKind,
    TriggerKind,
};
use crate::canvas_laws::canvas_edit;
use vstd::prelude::*;

verus! {

broadcast use vstd::string::group_string_axioms;

/// Layout column of a part kind (left to right: trigger, source, mask,
/// modulator, mesh, layer, output, hue).
pub open spec fn part_rank<P>(p: ModulePart<P>) -> nat {
    type_rank(kind_type(p.kind))
}

/// Number of parts in `parts` whose column is `r`.
pub open spec fn count_rank<P>(parts: Seq<ModulePart<P>>, r: nat) -> nat
    decreases parts.len(),
{
    if parts.len() == 0 {
        0
    } else {
        count_rank(parts.drop_last(), r) + if part_rank(parts.last()) == r {
            1nat
        } else {
            0nat
        }
    }
}

/// Number of columns before column `r` that hold at least one part.
pub open spec fn occupied_before<P>(parts: Seq<ModulePart<P>>, r: nat) -> nat
    decreases r,
{
    if r == 0 {
        0
    } else {
        occupied_before(parts, (r - 1) as nat) + if count_rank(parts, (r - 1) as nat) > 0 {
            1nat
        } else {
            0nat
        }
    }
}

/// Where the automatic layout puts part `i`: columns by kind, skipping empty
/// columns, 300 apart from x = 50; within a column in list order, 180 apart from y = 50.
pub open spec fn layout_position<P>(parts: Seq<ModulePart<P>>, i: int) -> (u64, u64) {
    let r = part_rank(parts[i]);
    (
        (50 + 300 * occupied_before(parts, r)) as u64,
        (50 + 180 * count_rank(parts.take(i), r)) as u64,
    )
}

/// Column of a part kind.
fn rank_of(kind: &PartKind) -> (r: usize)
    ensures
        r == type_rank(kind_type(*kind)),
        r < 8,
{
    match kind {
        PartKind::Trigger(_) => 0,
        PartKind::Source(_) => 1,
        PartKind::Mask(_) => 2,
        PartKind::Modulizer(_) => 3,
        PartKind::Mesh => 4,
        PartKind::Layer(_) => 5,
        PartKind::Output(_) => 6,
        PartKind::Hue(_) => 7,
    }
}

proof fn lemma_count_rank_bound<P>(parts: Seq<ModulePart<P>>, r: nat)
    ensures
        count_rank(parts, r) <= parts.len(),
    decreases parts.len(),
{
    if parts.len() > 0 {
        lemma_count_rank_bound(parts.drop_last(), r);
    }
}

proof fn lemma_occupied_before_bound<P>(parts: Seq<ModulePart<P>>, r: nat)
    ensures
        occupied_before(parts, r) <= r,
    decreases r,
{
    if r > 0 {
        lemma_occupied_before_bound(parts, (r - 1) as nat);
    }
}

/// A longer prefix holds at least as many parts of a column, and one more
/// once it holds part `i` of that column.
proof fn lemma_count_rank_prefix<P>(parts: Seq<ModulePart<P>>, r: nat, i: int, j: int)
    requires
        0 <= i < j <= parts.len(),
    ensures
        count_rank(parts.take(j), r) >= count_rank(parts.take(i), r),
        part_rank(parts[i]) == r ==> count_rank(parts.take(j), r) >= count_rank(parts.take(i), r)
            + 1,
    decreases j - i,
{
    assert(parts.take(i + 1).drop_last() =~= parts.take(i));
    assert(parts.take(i + 1).last() == parts[i]);
    if j > i + 1 {
        lemma_count_rank_prefix(parts, r, i + 1, j);
    }
}

/// A column with a part counts as occupied for every later column.
proof fn lemma_occupied_before_grows<P>(parts: Seq<ModulePart<P>>, r: nat, s: nat)
    requires
        r < s,
        count_rank(parts, r) > 0,
    ensures
        occupied_before(parts, s) >= occupied_before(parts, r) + 1,
    decreases s - r,
{
    if s > r + 1 {
        lemma_occupied_before_grows(parts, r, (s - 1) as nat);
    }
}

/// The columns of the automatic layout, left to right, following the flow
/// of the signal.
pub open spec fn column_order() -> Seq<PartType> {
    seq![
        PartType::Trigger,
        PartType::Source,
        PartType::Mask,
        PartType::Modulator,
        PartType::Mesh,
        PartType::Layer,
        PartType::Output,
        PartType::Hue,
    ]
}

/// The automatic layout puts a part strictly left of every part whose
/// category comes later in the signal flow trigger, source, mask,
/// modulator, mesh, layer, output, Hue.
pub proof fn lemma_layout_follows_signal_flow<P>(parts: Seq<ModulePart<P>>, i: int, j: int, a: int, b: int)
    requires
        0 <= i < parts.len(),
        0 <= j < parts.len(),
        0 <= a < b < column_order().len(),
        kind_type(parts[i].kind) == column_order()[a],
        kind_type(parts[j].kind) == column_order()[b],
    ensures
        layout_position(parts, i).0 < layout_position(parts, j).0,
{
    let order = column_order();
    assert(type_rank(order[0]) == 0 && type_rank(order[1]) == 1 && type_rank(order[2]) == 2
        && type_rank(order[3]) == 3 && type_rank(order[4]) == 4 && type_rank(order[5]) == 5
        && type_rank(order[6]) == 6 && type_rank(order[7]) == 7);
    let ri = part_rank(parts[i]);
    let rj = part_rank(parts[j]);
    assert(ri == a && rj == b);
    lemma_count_rank_prefix(parts, ri, i, parts.len() as int);
    assert(parts.take(parts.len() as int) =~= parts);
    lemma_occupied_before_grows(parts, ri, rj);
    lemma_occupied_before_bound(parts, ri);
    lemma_occupied_before_bound(parts, rj);
}

/// No two parts get the same place from the automatic layout.
pub proof fn lemma_layout_positions_distinct<P>(parts: Seq<ModulePart<P>>, i: int, j: int)
    requires
        0 <= i < j < parts.len(),
        50 + 180 * parts.len() <= u64::MAX,
    ensures
        layout_position(parts, i) != layout_position(parts, j),
{
    let ri = part_rank(parts[i]);
    let rj = part_rank(parts[j]);
    lemma_count_rank_bound(parts.take(i), ri);
    lemma_count_rank_bound(parts.take(j), rj);
    lemma_occupied_before_bound(parts, ri);
    lemma_occupied_before_bound(parts, rj);
    assert(ri < 8 && rj < 8);
    if ri == rj {
        lemma_count_rank_prefix(parts, ri, i, j);
        assert(layout_position(parts, i).1 != layout_position(parts, j).1);
    } else {
        assert(parts.take(parts.len() as int) =~= parts);
        lemma_count_rank_prefix(parts, ri, i, parts.len() as int);
        lemma_count_rank_prefix(parts, rj, j, parts.len() as int);
        if ri < rj {
            lemma_occupied_before_grows(parts, ri, rj);
        } else {
            lemma_occupied_before_grows(parts, rj, ri);
        }
        assert(layout_position(parts, i).0 != layout_position(parts, j).0);
    }
}

/// Positions of an automatic layout of `parts`: entry `i` is where part `i` goes.
pub fn auto_layout_parts<P>(parts: &Vec<ModulePart<P>>) -> (positions: Vec<(u64, u64)>)
    requires
        50 + 180 * parts@.len() <= u64::MAX,
    ensures
        positions@.len() == parts@.len(),
        forall|i: int| 0 <= i < parts@.len() ==> positions@[i] == layout_position(parts@, i),
{
    let n = parts.len();
    // How many parts each column holds.
    let mut counts: Vec<u64> = Vec::new();
    let mut c: usize = 0;
    while c < 8
        invariant
            c <= 8,
            counts@.len() == c,
            forall|r: int| 0 <= r < c ==> counts@[r] == 0,
        decreases 8 - c,
    {
        counts.push(0);
        c = c + 1;
    }
    let mut i: usize = 0;
    assert(parts@.take(0) =~= Seq::<ModulePart<P>>::empty());
    while i < n
        invariant
            n == parts@.len(),
            50 + 180 * n <= u64::MAX,
            i <= n,
            counts@.len() == 8,
            forall|r: int| 0 <= r < 8 ==> counts@[r] == count_rank(parts@.take(i as int), r as nat),
        decreases n - i,
    {
        let r = rank_of(&parts[i].kind);
        proof {
            assert(parts@.take(i + 1).drop_last() =~= parts@.take(i as int));
            lemma_count_rank_bound(parts@.take(i as int), r as nat);
        }
        let v = counts[r];
        counts.set(r, v + 1);
        i = i + 1;
    }
    assert(parts@.take(n as int) =~= parts@);
    // The x of each column.
    let mut xs: Vec<u64> = Vec::new();
    let mut x: u64 = 50;
    let mut c: usize = 0;
    while c < 8
        invariant
            c <= 8,
            counts@.len() == 8,
            forall|r: int| 0 <= r < 8 ==> counts@[r] == count_rank(parts@, r as nat),
            xs@.len() == c,
            x == 50 + 300 * occupied_before(parts@, c as nat),
            occupied_before(parts@, c as nat) <= c,
            forall|r: int| 0 <= r < c ==> xs@[r] == 50 + 300 * occupied_before(parts@, r as nat),
        decreases 8 - c,
    {
        xs.push(x);
        if counts[c] > 0 {
            x = x + 300;
        }
        c = c + 1;
    }
    // Each part in its column, in list order.
    let mut seen: Vec<u64> = Vec::new();
    let mut c: usize = 0;
    while c < 8
        invariant
            c <= 8,
            seen@.len() == c,
            forall|r: int| 0 <= r < c ==> seen@[r] == 0,
        decreases 8 - c,
    {
        seen.push(0);
        c = c + 1;
    }
    let mut positions: Vec<(u64, u64)> = Vec::new();
    let mut i: usize = 0;
    while i < n
        invariant
            n == parts@.len(),
            50 + 180 * n <= u64::MAX,
            i <= n,
            seen@.len() == 8,
            xs@.len() == 8,
            forall|r: int| 0 <= r < 8 ==> xs@[r] == 50 + 300 * occupied_before(parts@, r as nat),
            forall|r: int| 0 <= r < 8 ==> seen@[r] == count_rank(parts@.take(i as int), r as nat),
            positions@.len() == i,
            forall|j: int| 0 <= j < i ==> positions@[j] == layout_position(parts@, j),
        decreases n - i,
    {
        let r = rank_of(&parts[i].kind);
        let k = seen[r];
        proof {
            assert(parts@.take(i + 1).drop_last() =~= parts@.take(i as int));
            lemma_count_rank_bound(parts@.take(i as int), r as nat);
            lemma_occupied_before_bound(parts@, r as nat);
        }
        positions.push((xs[r], 50 + 180 * k));
        seen.set(r, k + 1);
        i = i + 1;
    }
    positions
}

/// The largest id of a single layer among `parts`, or 0 when there is none.
pub open spec fn max_layer_id<P>(parts: Seq<ModulePart<P>>) -> u64
    decreases parts.len(),
{
    if parts.len() == 0 {
        0
    } else {
        let m = max_layer_id(parts.drop_last());
        match parts.last().kind {
            PartKind::Layer(LayerKind::Single { id }) => if id > m {
                id
            } else {
                m
            },
            _ => m,
        }
    }
}

/// A layer id that no single layer of the module uses yet: one more than the
/// largest, or 1 when there is no module.
pub fn generate_unique_layer_id<P>(module: Option<&MapFlowModule<P>>) -> (r: u64)
    requires
        module matches Some(m) ==> max_layer_id(m.parts@) < u64::MAX,
    ensures
        r == match module {
            Some(m) => max_layer_id(m.parts@) + 1,
            None => 1,
        },
        module matches Some(m) ==> forall|i: int|
            0 <= i < m.parts@.len() ==> ((#[trigger] m.parts@[i]).kind matches PartKind::Layer(
                LayerKind::Single { id },
            ) ==> id < r),
{
    match module {
        None => 1,
        Some(m) => {
            let mut best: u64 = 0;
            let mut i: usize = 0;
            assert(m.parts@.take(0) =~= Seq::<ModulePart<P>>::empty());
            while i < m.parts.len()
                invariant
                    i <= m.parts@.len(),
                    best == max_layer_id(m.parts@.take(i as int)),
                    forall|j: int|
                        0 <= j < i ==> ((#[trigger] m.parts@[j]).kind matches PartKind::Layer(
                            LayerKind::Single { id },
                        ) ==> id <= best),
                decreases m.parts@.len() - i,
            {
                assert(m.parts@.take(i + 1).drop_last() =~= m.parts@.take(i as int));
                match m.parts[i].kind {
                    PartKind::Layer(LayerKind::Single { id }) => {
                        if id > best {
                            best = id;
                        }
                    },
                    _ => {},
                }
                i = i + 1;
            }
            assert(m.parts@.take(m.parts@.len() as int) =~= m.parts@);
            best + 1
        },
    }
}

/// Adds a part of kind `kind` at `position` with the next free part id and
/// returns that id.
pub fn add_module_node<P: Copy>(module: &mut MapFlowModule<P>, kind: PartKind, position: P) -> (id:
    u64)
    requires
        max_part_id(old(module).parts@) < u64::MAX,
    ensures
        id == max_part_id(old(module).parts@) + 1,
        forall|i: int| 0 <= i < old(module).parts@.len() ==> old(module).parts@[i].id != id,
        final(module).parts@ == old(module).parts@.push(
            ModulePart { id, kind, position },
        ),
        final(module).connections@ == old(module).connections@,
        final(module).id == old(module).id,
    canvas_edit(old(module)@, final(module)@),
{
    let id = next_part_id(&module.parts);
    proof {
        assert forall|i: int| 0 <= i < old(module).parts@.len() implies old(module).parts@[i].id
            != id by {
            lemma_max_part_id_bound(old(module).parts@, i);
        }
    }
    module.parts.push(ModulePart { id, kind, position });
    proof {
        let g = old(module)@;
        assert(module.parts@ =~= g.parts + seq![ModulePart { id, kind, position }]);
        assert(module@ == (ModuleGraph {
            parts: g.parts + seq![ModulePart { id, kind, position }],
            connections: g.connections,
        }));
    }
    id
}

/// Where a new part of a category is placed when no position is given (the
/// canvas then looks for a free place from there); meshes and outputs have none.
pub open spec fn preferred_position(t: PartType) -> Option<(u32, u32)> {
    match t {
        PartType::Trigger => Some((100, 100)),
        PartType::Source => Some((200, 100)),
        PartType::Mask => Some((300, 100)),
        PartType::Modulator => Some((400, 100)),
        PartType::Hue => Some((500, 100)),
        PartType::Layer => Some((400, 200)),
        _ => None,
    }
}

/// The default place of a new part of category `t`.
pub fn default_node_position(t: PartType) -> (r: Option<(u32, u32)>)
    ensures
        r == preferred_position(t),
{
    match t {
        PartType::Trigger => Some((100, 100)),
        PartType::Source => Some((200, 100)),
        PartType::Mask => Some((300, 100)),
        PartType::Modulator => Some((400, 100)),
        PartType::Hue => Some((500, 100)),
        PartType::Layer => Some((400, 200)),
        _ => None,
    }
}

/// A saved module template: its parts (kind and position) and connections
/// given as (from part index, from socket, to part index, to socket).
pub struct ModulePreset<P> {
    pub name: String,
    pub parts: Vec<(PartKind, P)>,
    pub connections: Vec<(usize, usize, usize, usize)>,
}

/// The part that a preset entry becomes when loaded: it receives id `i + 1`.
pub open spec fn preset_part<P>(entry: (PartKind, P), i: int) -> ModulePart<P> {
    ModulePart { id: (i + 1) as u64, kind: entry.0, position: entry.1 }
}

/// The graph that loading `preset` produces: part `i` gets id `i + 1`, and
/// links that name a missing part are dropped.
pub open spec fn preset_graph<P>(preset: ModulePreset<P>) -> ModuleGraph<P> {
    ModuleGraph {
        parts: Seq::new(preset.parts@.len(), |i: int| preset_part(preset.parts@[i], i)),
        connections: preset.connections@.filter(
            preset_link_in_range(preset.parts@.len() as int),
        ).map_values(|t: (usize, usize, usize, usize)| preset_connection(t)),
    }
}

/// Holds of a preset connection whose two part indices are below `n`.
pub open spec fn preset_link_in_range(n: int) -> spec_fn((usize, usize, usize, usize)) -> bool {
    |t: (usize, usize, usize, usize)| t.0 < n && t.2 < n
}

/// The connection that a preset link becomes when loaded.
pub open spec fn preset_connection(t: (usize, usize, usize, usize)) -> ModuleConnection {
    ModuleConnection {
        from_part: (t.0 + 1) as u64,
        from_socket: t.1,
        to_part: (t.2 + 1) as u64,
        to_socket: t.3,
    }
}

/// Replaces the module's parts and connections by those of `preset`: part `i`
/// of the preset gets id `i + 1`; links that name a missing part are dropped.
pub fn load_preset<P: Copy>(module: &mut MapFlowModule<P>, preset: &ModulePreset<P>)
    ensures
        final(module).id == old(module).id,
        final(module).parts@.len() == preset.parts@.len(),
        forall|i: int|
            0 <= i < preset.parts@.len() ==> final(module).parts@[i] == preset_part(
                preset.parts@[i],
                i,
            ),
        final(module).connections@ == preset.connections@.filter(
            preset_link_in_range(preset.parts@.len() as int),
        ).map_values(|t: (usize, usize, usize, usize)| preset_connection(t)),
        ids_unique(final(module).parts@),
        connections_closed(final(module)@),
        final(module)@ == preset_graph(*preset),
    canvas_edit(old(module)@, final(module)@),
{
    module.parts.clear();
    module.connections.clear();
    let mut part_ids: Vec<u64> = Vec::new();
    let n = preset.parts.len();
    let mut parts: Vec<ModulePart<P>> = Vec::new();
    let mut i: usize = 0;
    while i < n
        invariant
            n == preset.parts@.len(),
            i <= n,
            parts@.len() == i,
            part_ids@.len() == i,
            forall|j: int| 0 <= j < i ==> parts@[j] == preset_part(preset.parts@[j], j),
            forall|j: int| 0 <= j < i ==> part_ids@[j] == j + 1,
        decreases n - i,
    {
        let entry = preset.parts[i];
        let id = i as u64 + 1;
        parts.push(ModulePart { id, kind: entry.0, position: entry.1 });
        part_ids.push(id);
        i = i + 1;
    }
    let ghost links = preset.connections@;
    let ghost keep = preset_link_in_range(n as int);
    let mut conns: Vec<ModuleConnection> = Vec::new();
    let mut k: usize = 0;
    reveal_with_fuel(Seq::filter, 1);
    assert(links.take(0) =~= Seq::<(usize, usize, usize, usize)>::empty());
    while k < preset.connections.len()
        invariant
            links == preset.connections@,
            keep == preset_link_in_range(n as int),
            n == part_ids@.len(),
            forall|j: int| 0 <= j < n ==> part_ids@[j] == j + 1,
            k <= links.len(),
            conns@ == links.take(k as int).filter(keep).map_values(
                |t: (usize, usize, usize, usize)| preset_connection(t),
            ),
        decreases links.len() - k,
    {
        let t = preset.connections[k];
        proof {
            assert(links.take(k + 1) =~= links.take(k as int).push(t));
            links.take(k as int).lemma_filter_push(t, keep);
        }
        if t.0 < part_ids.len() && t.2 < part_ids.len() {
            conns.push(
                ModuleConnection {
                    from_part: part_ids[t.0],
                    from_socket: t.1,
                    to_part: part_ids[t.2],
                    to_socket: t.3,
                },
            );
            proof {
                assert(conns@ =~= links.take(k + 1).filter(keep).map_values(
                    |t: (usize, usize, usize, usize)| preset_connection(t),
                ));
            }
        }
        k = k + 1;
    }
    assert(links.take(links.len() as int) =~= links);
    assert(parts@ =~= preset_graph(*preset).parts);
    module.parts = parts;
    module.connections = conns;
    proof {
        let kept = links.filter(keep);
        assert forall|c: int| 0 <= c < module.connections@.len() implies has_part(
            module.parts@,
            (#[trigger] module.connections@[c]).from_part,
        ) && has_part(module.parts@, module.connections@[c].to_part) by {
            links.lemma_filter_pred(keep, c);
            let t = kept[c];
            assert(module.connections@[c] == preset_connection(t));
            assert(module.parts@[t.0 as int].id == t.0 + 1);
            assert(module.parts@[t.2 as int].id == t.2 + 1);
        }
    }
}

/// Where the built-in presets put their `i`-th part: in a row from x = 50,
/// 300 apart, at y = 100.
pub open spec fn chain_position(i: int) -> (u32, u32) {
    ((50 + 300 * i) as u32, 100u32)
}

/// `p` is named `name`, holds parts of kinds `kinds` in a row, and links the
/// first output of each part to the first input of the next.
pub open spec fn is_chain_preset(
    p: ModulePreset<(u32, u32)>,
    name: Seq<char>,
    kinds: Seq<PartKind>,
) -> bool {
    &&& p.name@ == name
    &&& p.parts@.len() == kinds.len()
    &&& forall|i: int| 0 <= i < kinds.len() ==> #[trigger] p.parts@[i] == (kinds[i], chain_position(i))
    &&& p.connections@.len() + 1 == kinds.len()
    &&& forall|i: int|
        0 <= i < p.connections@.len() ==> #[trigger] p.connections@[i] == (
            i as usize,
            0usize,
            (i + 1) as usize,
            0usize,
        )
}

fn chain_preset(name: &str, kinds: Vec<PartKind>) -> (p: ModulePreset<(u32, u32)>)
    requires
        1 <= kinds@.len() <= 8,
    ensures
        is_chain_preset(p, name@, kinds@),
{
    let mut parts: Vec<(PartKind, (u32, u32))> = Vec::new();
    let mut connections: Vec<(usize, usize, usize, usize)> = Vec::new();
    let mut i: usize = 0;
    while i < kinds.len()
        invariant
            i <= kinds@.len() <= 8,
            parts@.len() == i,
            forall|j: int| 0 <= j < i ==> #[trigger] parts@[j] == (kinds@[j], chain_position(j)),
            connections@.len() + 1 == (if i == 0 { 1 } else { i as int }),
            forall|j: int|
                0 <= j < connections@.len() ==> #[trigger] connections@[j] == (
                    j as usize,
                    0usize,
                    (j + 1) as usize,
                    0usize,
                ),
        decreases kinds@.len() - i,
    {
        let x: u32 = 50 + 300 * (i as u32);
        parts.push((kinds[i], (x, 100)));
        if i > 0 {
            connections.push((i - 1, 0, i, 0));
        }
        i = i + 1;
    }
    ModulePreset { name: name.to_string(), parts, connections }
}

/// The built-in presets; the two Spout presets are offered only where Spout
/// exists (`with_spout`).
pub fn default_presets(with_spout: bool) -> (r: Vec<ModulePreset<(u32, u32)>>)
    ensures
        r@.len() == if with_spout { 8int } else { 6int },
        is_chain_preset(
            r@[0],
            "Simple Media Chain"@,
            seq![
                PartKind::Trigger(TriggerKind::Beat),
                PartKind::Source(SourceKind::MediaFile),
                PartKind::Output(OutputKind::Projector { id: 1 }),
            ],
        ),
        is_chain_preset(
            r@[1],
            "Effect Chain"@,
            seq![
                PartKind::Trigger(TriggerKind::Beat),
                PartKind::Source(SourceKind::MediaFile),
                PartKind::Modulizer(ModulizerKind::Effect(EffectKind::Blur)),
                PartKind::Output(OutputKind::Projector { id: 1 }),
            ],
        ),
        is_chain_preset(
            r@[2],
            "Audio Reactive"@,
            seq![
                PartKind::Trigger(TriggerKind::AudioFft),
                PartKind::Source(SourceKind::MediaFile),
                PartKind::Modulizer(ModulizerKind::Effect(EffectKind::Glitch)),
                PartKind::Layer(LayerKind::All),
                PartKind::Output(OutputKind::Projector { id: 1 }),
            ],
        ),
        is_chain_preset(
            r@[3],
            "Masked Media"@,
            seq![
                PartKind::Trigger(TriggerKind::Beat),
                PartKind::Source(SourceKind::MediaFile),
                PartKind::Mask(MaskKind::Shape(MaskShape::Circle)),
                PartKind::Output(OutputKind::Projector { id: 1 }),
            ],
        ),
        is_chain_preset(
            r@[4],
            "NDI Source"@,
            seq![
                PartKind::Trigger(TriggerKind::Beat),
                PartKind::Source(SourceKind::NdiInput),
                PartKind::Output(OutputKind::Projector { id: 1 }),
            ],
        ),
        is_chain_preset(
            r@[5],
            "NDI Output"@,
            seq![
                PartKind::Trigger(TriggerKind::Beat),
                PartKind::Source(SourceKind::MediaFile),
                PartKind::Output(OutputKind::NdiOutput),
            ],
        ),
        with_spout ==> is_chain_preset(
            r@[6],
            "Spout Source"@,
            seq![
                PartKind::Trigger(TriggerKind::Beat),
                PartKind::Source(SourceKind::SpoutInput),
                PartKind::Output(OutputKind::Projector { id: 1 }),
            ],
        ),
        with_spout ==> is_chain_preset(
            r@[7],
            "Spout Output"@,
            seq![
                PartKind::Trigger(TriggerKind::Beat),
                PartKind::Source(SourceKind::MediaFile),
                PartKind::Output(OutputKind::Spout),
            ],
        ),
{
    let beat = PartKind::Trigger(TriggerKind::Beat);
    let media = PartKind::Source(SourceKind::MediaFile);
    let projector = PartKind::Output(OutputKind::Projector { id: 1 });
    let mut r: Vec<ModulePreset<(u32, u32)>> = Vec::new();
    r.push(chain_preset("Simple Media Chain", vec![beat, media, projector]));
    r.push(
        chain_preset(
            "Effect Chain",
            vec![beat, media, PartKind::Modulizer(ModulizerKind::Effect(EffectKind::Blur)), projector],
        ),
    );
    r.push(
        chain_preset(
            "Audio Reactive",
            vec![
                PartKind::Trigger(TriggerKind::AudioFft),
                media,
                PartKind::Modulizer(ModulizerKind::Effect(EffectKind::Glitch)),
                PartKind::Layer(LayerKind::All),
                projector,
            ],
        ),
    );
    r.push(
        chain_preset(
            "Masked Media",
            vec![beat, media, PartKind::Mask(MaskKind::Shape(MaskShape::Circle)), projector],
        ),
    );
    r.push(chain_preset("NDI Source", vec![beat, PartKind::Source(SourceKind::NdiInput), projector]));
    r.push(chain_preset("NDI Output", vec![beat, media, PartKind::Output(OutputKind::NdiOutput)]));
    if with_spout {
        r.push(
            chain_preset("Spout Source", vec![beat, PartKind::Source(SourceKind::SpoutInput), projector]),
        );
        r.push(chain_preset("Spout Output", vec![beat, media, PartKind::Output(OutputKind::Spout)]));
    }
    r
}

} // verus!
