//! The node graph that the module canvas edits: parts (nodes) and the
//! connections between their sockets.
//!
//! A part is held here with what the canvas logic reads of it: its id, its
//! kind (with the few settings that the canvas decides on) and its position.
//! The position type `P` is chosen by the caller; the library only moves
//! positions around and never computes with them.
use vstd::prelude::*;

verus! {

/// Identifier of a part inside a module.
pub type ModulePartId = u64;

/// Identifier of a module.
pub type ModuleId = u64;

/// Type of a socket; a connection joins an output and an input socket.
#[derive(Clone, Copy, PartialEq, Eq, Structural, Debug)]
pub enum ModuleSocketType {
    Trigger,
    Media,
    Effect,
    Layer,
    Output,
    Link,
}

/// A named socket of a part.
#[derive(Debug)]
pub struct ModuleSocket {
    pub name: String,
    pub socket_type: ModuleSocketType,
}

/// The trigger variants of a trigger part; a MIDI trigger carries the
/// channel and note that MIDI learn writes.
#[derive(Clone, Copy, PartialEq, Eq, Structural, Debug)]
pub enum TriggerKind {
    AudioFft,
    Beat,
    Midi { channel: u8, note: u8 },
    Osc,
    Shortcut,
    Random,
    Fixed,
}

/// The source variants.
#[derive(Clone, Copy, PartialEq, Eq, Structural, Debug)]
pub enum SourceKind {
    /// A media file; the space key toggles its playback.
    MediaFile,
    Shader,
    LiveInput,
    NdiInput,
    SpoutInput,
    VideoUni,
    ImageUni,
    VideoMulti,
    ImageMulti,
    Bevy,
    BevyAtmosphere,
    BevyHexGrid,
    BevyParticles,
    Bevy3DText,
    BevyCamera,
    Bevy3DShape,
    Bevy3DModel,
}

/// The shapes of a shape mask.
#[derive(Clone, Copy, PartialEq, Eq, Structural, Debug)]
pub enum MaskShape {
    Circle,
    Rectangle,
    Triangle,
    Star,
    Ellipse,
}

/// The mask variants.
#[derive(Clone, Copy, PartialEq, Eq, Structural, Debug)]
pub enum MaskKind {
    File,
    Shape(MaskShape),
    Gradient,
}

/// The effects of an effect modulator.
#[derive(Clone, Copy, PartialEq, Eq, Structural, Debug)]
pub enum EffectKind {
    Blur,
    Sharpen,
    Invert,
    Threshold,
    Brightness,
    Contrast,
    Saturation,
    HueShift,
    Colorize,
    Wave,
    Spiral,
    Pinch,
    Mirror,
    Kaleidoscope,
    Pixelate,
    Halftone,
    EdgeDetect,
    Posterize,
    Glitch,
    RgbSplit,
    ChromaticAberration,
    VHS,
    FilmGrain,
    Vignette,
    ShaderGraph,
}

/// The blend modes of a blend modulator.
#[derive(Clone, Copy, PartialEq, Eq, Structural, Debug)]
pub enum BlendModeKind {
    Normal,
    Add,
    Multiply,
    Screen,
    Overlay,
    Difference,
    Exclusion,
}

/// The modulator variants.
#[derive(Clone, Copy, PartialEq, Eq, Structural, Debug)]
pub enum ModulizerKind {
    Effect(EffectKind),
    BlendMode(BlendModeKind),
    AudioReactive,
}

/// The Hue lamp node variants.
#[derive(Clone, Copy, PartialEq, Eq, Structural, Debug)]
pub enum HueKind {
    SingleLamp,
    MultiLamp,
    EntertainmentGroup,
}

/// The layer variants; a single layer carries its layer id.
#[derive(Clone, Copy, PartialEq, Eq, Structural, Debug)]
pub enum LayerKind {
    Single { id: u64 },
    Group,
    All,
}

/// The output variants; a projector carries its output id.
#[derive(Clone, Copy, PartialEq, Eq, Structural, Debug)]
pub enum OutputKind {
    Projector { id: u64 },
    NdiOutput,
    Spout,
    Hue,
}

/// What a part is.
#[derive(Clone, Copy, PartialEq, Eq, Structural, Debug)]
pub enum PartKind {
    Trigger(TriggerKind),
    Source(SourceKind),
    Mask(MaskKind),
    Modulizer(ModulizerKind),
    Mesh,
    Layer(LayerKind),
    Output(OutputKind),
    Hue(HueKind),
}

/// The category of a part, without its settings.
#[derive(Clone, Copy, PartialEq, Eq, Structural, Debug)]
pub enum PartType {
    Trigger,
    Source,
    Mask,
    Modulator,
    Mesh,
    Layer,
    Output,
    Hue,
}

/// A node of the graph.
#[derive(Debug)]
pub struct ModulePart<P> {
    pub id: ModulePartId,
    pub kind: PartKind,
    pub position: P,
}

impl<P: Copy> Clone for ModulePart<P> {
    fn clone(&self) -> (r: Self)
        ensures
            r == *self,
    {
        *self
    }
}

impl<P: Copy> Copy for ModulePart<P> {

}

/// A directed edge from an output socket of one part to an input socket of another.
#[derive(Clone, Copy, PartialEq, Eq, Structural, Debug)]
pub struct ModuleConnection {
    pub from_part: ModulePartId,
    pub from_socket: usize,
    pub to_part: ModulePartId,
    pub to_socket: usize,
}

/// A module: its parts and connections.
pub struct MapFlowModule<P> {
    pub id: ModuleId,
    pub parts: Vec<ModulePart<P>>,
    pub connections: Vec<ModuleConnection>,
}

/// The mathematical content of a module's graph.
pub struct ModuleGraph<P> {
    pub parts: Seq<ModulePart<P>>,
    pub connections: Seq<ModuleConnection>,
}

impl<P> View for MapFlowModule<P> {
    type V = ModuleGraph<P>;

    open spec fn view(&self) -> ModuleGraph<P> {
        ModuleGraph { parts: self.parts@, connections: self.connections@ }
    }
}

/// The category of a part kind.
pub open spec fn kind_type(k: PartKind) -> PartType {
    match k {
        PartKind::Trigger(_) => PartType::Trigger,
        PartKind::Source(_) => PartType::Source,
        PartKind::Mask(_) => PartType::Mask,
        PartKind::Modulizer(_) => PartType::Modulator,
        PartKind::Mesh => PartType::Mesh,
        PartKind::Layer(_) => PartType::Layer,
        PartKind::Output(_) => PartType::Output,
        PartKind::Hue(_) => PartType::Hue,
    }
}

/// Left-to-right rank of a category on the canvas.
pub open spec fn type_rank(t: PartType) -> nat {
    match t {
        PartType::Trigger => 0,
        PartType::Source => 1,
        PartType::Mask => 2,
        PartType::Modulator => 3,
        PartType::Mesh => 4,
        PartType::Layer => 5,
        PartType::Output => 6,
        PartType::Hue => 7,
    }
}

/// `i` is the first index of a part with id `id`.
pub open spec fn is_first_index<P>(parts: Seq<ModulePart<P>>, id: u64, i: int) -> bool {
    &&& 0 <= i < parts.len()
    &&& parts[i].id == id
    &&& forall|j: int| 0 <= j < i ==> parts[j].id != id
}

/// Some part has id `id`.
pub open spec fn has_part<P>(parts: Seq<ModulePart<P>>, id: u64) -> bool {
    exists|i: int| 0 <= i < parts.len() && parts[i].id == id
}

/// The first part with id `id`, as a lookup by id finds it.
pub open spec fn find_part<P>(parts: Seq<ModulePart<P>>, id: u64) -> Option<ModulePart<P>> {
    if has_part(parts, id) {
        Some(parts[choose|i: int| is_first_index(parts, id, i)])
    } else {
        None
    }
}

/// Holds of a part whose id is not `id`.
pub open spec fn id_differs<P>(id: u64) -> spec_fn(ModulePart<P>) -> bool {
    |p: ModulePart<P>| p.id != id
}

/// The parts without those that have id `id`.
pub open spec fn without_id<P>(parts: Seq<ModulePart<P>>, id: u64) -> Seq<ModulePart<P>> {
    parts.filter(id_differs(id))
}

/// The parts with the first part of id `id` moved to `pos`.
pub open spec fn with_position<P>(parts: Seq<ModulePart<P>>, id: u64, pos: P) -> Seq<
    ModulePart<P>,
> {
    if has_part(parts, id) {
        let i = choose|i: int| is_first_index(parts, id, i);
        parts.update(i, ModulePart { id: parts[i].id, kind: parts[i].kind, position: pos })
    } else {
        parts
    }
}

/// Holds of a connection that is not `c`.
pub open spec fn connection_differs(c: ModuleConnection) -> spec_fn(ModuleConnection) -> bool {
    |x: ModuleConnection| x != c
}

/// The connections without those equal to `c`.
pub open spec fn without_connection(
    conns: Seq<ModuleConnection>,
    c: ModuleConnection,
) -> Seq<ModuleConnection> {
    conns.filter(connection_differs(c))
}

/// A connection touches part `id` at either end.
pub open spec fn touches(c: ModuleConnection, id: u64) -> bool {
    c.from_part == id || c.to_part == id
}

/// The largest part id, or 0 when there is no part.
pub open spec fn max_part_id<P>(parts: Seq<ModulePart<P>>) -> u64
    decreases parts.len(),
{
    if parts.len() == 0 {
        0
    } else {
        let m = max_part_id(parts.drop_last());
        if parts.last().id > m {
            parts.last().id
        } else {
            m
        }
    }
}

/// No two parts share an id.
pub open spec fn ids_unique<P>(parts: Seq<ModulePart<P>>) -> bool {
    forall|i: int, j: int| 0 <= i < j < parts.len() ==> parts[i].id != parts[j].id
}

/// Every connection joins two parts of the graph.
pub open spec fn connections_closed<P>(g: ModuleGraph<P>) -> bool {
    forall|k: int|
        0 <= k < g.connections.len() ==> has_part(g.parts, #[trigger] g.connections[k].from_part)
            && has_part(g.parts, g.connections[k].to_part)
}

/// The two ends of the first index of `id` agree.
pub proof fn lemma_first_index_unique<P>(parts: Seq<ModulePart<P>>, id: u64, i: int, j: int)
    requires
        is_first_index(parts, id, i),
        is_first_index(parts, id, j),
    ensures
        i == j,
{
}

/// A part with `id` has a first index.
pub proof fn lemma_first_index_exists<P>(parts: Seq<ModulePart<P>>, id: u64)
    requires
        has_part(parts, id),
    ensures
        exists|i: int| is_first_index(parts, id, i),
    decreases parts.len(),
{
    let front = parts.drop_last();
    if has_part(front, id) {
        lemma_first_index_exists(front, id);
        let i = choose|i: int| is_first_index(front, id, i);
        assert forall|j: int| 0 <= j < i implies parts[j].id != id by {
            assert(front[j] == parts[j]);
        }
        assert(is_first_index(parts, id, i));
    } else {
        let k = choose|k: int| 0 <= k < parts.len() && parts[k].id == id;
        if k < parts.len() - 1 {
            assert(front[k] == parts[k]);
        }
        assert forall|j: int| 0 <= j < parts.len() - 1 implies parts[j].id != id by {
            assert(front[j] == parts[j]);
        }
        assert(is_first_index(parts, id, parts.len() - 1));
    }
}

/// The category of a part kind.
pub fn part_type_from_module_part_type(kind: &PartKind) -> (t: PartType)
    ensures
        t == kind_type(*kind),
{
    match kind {
        PartKind::Trigger(_) => PartType::Trigger,
        PartKind::Source(_) => PartType::Source,
        PartKind::Mask(_) => PartType::Mask,
        PartKind::Modulizer(_) => PartType::Modulator,
        PartKind::Mesh => PartType::Mesh,
        PartKind::Layer(_) => PartType::Layer,
        PartKind::Output(_) => PartType::Output,
        PartKind::Hue(_) => PartType::Hue,
    }
}

/// The kinds that the inspector's type list offers a part of kind
/// `current`: each variant of its own category with the settings a new pick
/// starts from. NDI variants show only with NDI support, Spout ones only on
/// Windows; meshes and Hue nodes have no type list.
pub open spec fn inspector_kinds(current: PartKind, ndi: bool, windows: bool) -> Seq<PartKind> {
    match current {
        PartKind::Trigger(_) => seq![
            PartKind::Trigger(TriggerKind::Beat),
            PartKind::Trigger(TriggerKind::AudioFft),
            PartKind::Trigger(TriggerKind::Random),
            PartKind::Trigger(TriggerKind::Fixed),
        ],
        PartKind::Source(_) => {
            let base = seq![
                PartKind::Source(SourceKind::MediaFile),
                PartKind::Source(SourceKind::Shader),
                PartKind::Source(SourceKind::LiveInput),
            ];
            let with_ndi = if ndi {
                base.push(PartKind::Source(SourceKind::NdiInput))
            } else {
                base
            };
            if windows {
                with_ndi.push(PartKind::Source(SourceKind::SpoutInput))
            } else {
                with_ndi
            }
        },
        PartKind::Mask(_) => seq![
            PartKind::Mask(MaskKind::File),
            PartKind::Mask(MaskKind::Shape(MaskShape::Rectangle)),
            PartKind::Mask(MaskKind::Gradient),
        ],
        PartKind::Modulizer(_) => seq![
            PartKind::Modulizer(ModulizerKind::Effect(EffectKind::Blur)),
            PartKind::Modulizer(ModulizerKind::BlendMode(BlendModeKind::Normal)),
        ],
        PartKind::Mesh => Seq::empty(),
        PartKind::Layer(_) => seq![
            PartKind::Layer(LayerKind::Single { id: 0 }),
            PartKind::Layer(LayerKind::Group),
            PartKind::Layer(LayerKind::All),
        ],
        PartKind::Output(_) => {
            let base = seq![PartKind::Output(OutputKind::Projector { id: 1 })];
            let with_ndi = if ndi {
                base.push(PartKind::Output(OutputKind::NdiOutput))
            } else {
                base
            };
            let with_spout = if windows {
                with_ndi.push(PartKind::Output(OutputKind::Spout))
            } else {
                with_ndi
            };
            with_spout.push(PartKind::Output(OutputKind::Hue))
        },
        PartKind::Hue(_) => Seq::empty(),
    }
}

/// Every kind that the inspector offers a part is of the part's own category.
pub proof fn lemma_inspector_kinds_same_category(current: PartKind, ndi: bool, windows: bool)
    ensures
        forall|i: int|
            0 <= i < inspector_kinds(current, ndi, windows).len() ==> kind_type(
                #[trigger] inspector_kinds(current, ndi, windows)[i],
            ) == kind_type(current),
{
}

/// The kinds that the inspector's type list offers a part of kind `current`.
pub fn inspector_type_choices(current: &PartKind, ndi: bool, windows: bool) -> (r: Vec<PartKind>)
    ensures
        r@ == inspector_kinds(*current, ndi, windows),
{
    match current {
        PartKind::Trigger(_) => {
            let r = vec![
                PartKind::Trigger(TriggerKind::Beat),
                PartKind::Trigger(TriggerKind::AudioFft),
                PartKind::Trigger(TriggerKind::Random),
                PartKind::Trigger(TriggerKind::Fixed),
            ];
            assert(r@ =~= inspector_kinds(*current, ndi, windows));
            r
        },
        PartKind::Source(_) => {
            let mut r = vec![
                PartKind::Source(SourceKind::MediaFile),
                PartKind::Source(SourceKind::Shader),
                PartKind::Source(SourceKind::LiveInput),
            ];
            if ndi {
                r.push(PartKind::Source(SourceKind::NdiInput));
            }
            if windows {
                r.push(PartKind::Source(SourceKind::SpoutInput));
            }
            assert(r@ =~= inspector_kinds(*current, ndi, windows));
            r
        },
        PartKind::Mask(_) => {
            let r = vec![
                PartKind::Mask(MaskKind::File),
                PartKind::Mask(MaskKind::Shape(MaskShape::Rectangle)),
                PartKind::Mask(MaskKind::Gradient),
            ];
            assert(r@ =~= inspector_kinds(*current, ndi, windows));
            r
        },
        PartKind::Modulizer(_) => {
            let r = vec![
                PartKind::Modulizer(ModulizerKind::Effect(EffectKind::Blur)),
                PartKind::Modulizer(ModulizerKind::BlendMode(BlendModeKind::Normal)),
            ];
            assert(r@ =~= inspector_kinds(*current, ndi, windows));
            r
        },
        PartKind::Mesh => {
            let r: Vec<PartKind> = Vec::new();
            assert(r@ =~= inspector_kinds(*current, ndi, windows));
            r
        },
        PartKind::Layer(_) => {
            let r = vec![
                PartKind::Layer(LayerKind::Single { id: 0 }),
                PartKind::Layer(LayerKind::Group),
                PartKind::Layer(LayerKind::All),
            ];
            assert(r@ =~= inspector_kinds(*current, ndi, windows));
            r
        },
        PartKind::Output(_) => {
            let mut r = vec![PartKind::Output(OutputKind::Projector { id: 1 })];
            if ndi {
                r.push(PartKind::Output(OutputKind::NdiOutput));
            }
            if windows {
                r.push(PartKind::Output(OutputKind::Spout));
            }
            r.push(PartKind::Output(OutputKind::Hue));
            assert(r@ =~= inspector_kinds(*current, ndi, windows));
            r
        },
        PartKind::Hue(_) => {
            let r: Vec<PartKind> = Vec::new();
            assert(r@ =~= inspector_kinds(*current, ndi, windows));
            r
        },
    }
}

/// The kind that picking `choice` in the inspector gives a part of kind
/// `current`: the choice when it is of the part's own category, since the
/// inspector only switches a part within its category; else the part keeps
/// its kind.
pub fn switch_kind(current: &PartKind, choice: PartKind) -> (r: PartKind)
    ensures
        r == (if kind_type(choice) == kind_type(*current) {
            choice
        } else {
            *current
        }),
        kind_type(r) == kind_type(*current),
{
    if part_type_from_module_part_type(&choice) == part_type_from_module_part_type(current) {
        choice
    } else {
        *current
    }
}

/// Index of the first part with id `id`, if any.
pub fn find_part_index<P>(parts: &Vec<ModulePart<P>>, id: u64) -> (r: Option<usize>)
    ensures
        match r {
            Some(i) => is_first_index(parts@, id, i as int),
            None => !has_part(parts@, id),
        },
{
    let mut i: usize = 0;
    while i < parts.len()
        invariant
            i <= parts@.len(),
            forall|j: int| 0 <= j < i ==> parts@[j].id != id,
        decreases parts@.len() - i,
    {
        if parts[i].id == id {
            return Some(i);
        }
        i = i + 1;
    }
    None
}

/// Removes every part with id `id`, keeping the order of the others.
pub fn remove_parts_with_id<P>(parts: &mut Vec<ModulePart<P>>, id: u64)
    ensures
        final(parts)@ == without_id(old(parts)@, id),
{
    let ghost pred = id_differs::<P>(id);
    let ghost orig = parts@;
    let ghost mut k: int = 0;
    let mut i: usize = 0;
    assert(orig.take(0) =~= Seq::<ModulePart<P>>::empty());
    assert(orig.skip(0) =~= orig);
    reveal_with_fuel(Seq::filter, 1);
    while i < parts.len()
        invariant
            0 <= k <= orig.len(),
            pred == id_differs::<P>(id),
            i as int == orig.take(k).filter(pred).len(),
            parts@ == orig.take(k).filter(pred) + orig.skip(k),
        decreases parts@.len() - i,
    {
        proof {
            assert(orig.take(k + 1) =~= orig.take(k).push(orig[k]));
            orig.take(k).lemma_filter_push(orig[k], pred);
            assert(parts@[i as int] == orig[k]) by {
                assert(orig.skip(k)[0] == orig[k]);
            }
        }
        let ghost before = parts@;
        assert(orig.skip(k) =~= seq![orig[k]] + orig.skip(k + 1));
        if parts[i].id == id {
            parts.remove(i);
            proof {
                assert(orig[k].id == id);
                assert(!pred(orig[k]));
                assert(orig.take(k + 1).filter(pred) == orig.take(k).filter(pred));
                assert(parts@ =~= orig.take(k + 1).filter(pred) + orig.skip(k + 1));
                k = k + 1;
            }
        } else {
            i = i + 1;
            proof {
                assert(orig.take(k + 1).filter(pred) == orig.take(k).filter(pred).push(orig[k]));
                assert(parts@ =~= orig.take(k + 1).filter(pred) + orig.skip(k + 1));
                k = k + 1;
            }
        }
    }
    proof {
        assert(k == orig.len());
        assert(orig.take(k) =~= orig);
        assert(parts@ =~= orig.filter(pred));
    }
}

/// Removes every connection equal to `target`, keeping the order of the others.
pub fn remove_connection(conns: &mut Vec<ModuleConnection>, target: ModuleConnection)
    ensures
        final(conns)@ == without_connection(old(conns)@, target),
{
    let ghost pred = connection_differs(target);
    let ghost orig = conns@;
    let mut out: Vec<ModuleConnection> = Vec::new();
    let mut i: usize = 0;
    reveal_with_fuel(Seq::filter, 1);
    assert(orig.take(0) =~= Seq::<ModuleConnection>::empty());
    while i < conns.len()
        invariant
            conns@ == orig,
            pred == connection_differs(target),
            i <= orig.len(),
            out@ == orig.take(i as int).filter(pred),
        decreases orig.len() - i,
    {
        let c = conns[i];
        proof {
            assert(orig.take(i + 1) =~= orig.take(i as int).push(c));
            orig.take(i as int).lemma_filter_push(c, pred);
        }
        if c != target {
            out.push(c);
        }
        i = i + 1;
    }
    assert(orig.take(orig.len() as int) =~= orig);
    *conns = out;
}

/// Moves the first part with id `id` to `pos`; nothing happens when there is none.
pub fn set_part_position<P: Copy>(parts: &mut Vec<ModulePart<P>>, id: u64, pos: P)
    ensures
        final(parts)@ == with_position(old(parts)@, id, pos),
{
    match find_part_index(parts, id) {
        Some(i) => {
            let old_part = parts[i];
            parts.set(i, ModulePart { id: old_part.id, kind: old_part.kind, position: pos });
            proof {
                let j = choose|j: int| is_first_index(old(parts)@, id, j);
                lemma_first_index_unique(old(parts)@, id, i as int, j);
            }
        },
        None => {},
    }
}

/// The largest part id plus one: the id that a new part receives.
pub fn next_part_id<P>(parts: &Vec<ModulePart<P>>) -> (r: u64)
    requires
        max_part_id(parts@) < u64::MAX,
    ensures
        r == max_part_id(parts@) + 1,
{
    let mut m: u64 = 0;
    let mut i: usize = 0;
    assert(parts@.take(0) =~= Seq::<ModulePart<P>>::empty());
    while i < parts.len()
        invariant
            i <= parts@.len(),
            m == max_part_id(parts@.take(i as int)),
        decreases parts@.len() - i,
    {
        assert(parts@.take(i + 1).drop_last() =~= parts@.take(i as int));
        if parts[i].id > m {
            m = parts[i].id;
        }
        i = i + 1;
    }
    assert(parts@.take(parts@.len() as int) =~= parts@);
    m + 1
}

/// Every part id is at most the maximum.
pub proof fn lemma_max_part_id_bound<P>(parts: Seq<ModulePart<P>>, i: int)
    requires
        0 <= i < parts.len(),
    ensures
        parts[i].id <= max_part_id(parts),
    decreases parts.len(),
{
    if i < parts.len() - 1 {
        lemma_max_part_id_bound(parts.drop_last(), i);
    }
}

} // verus!
