//! State and editing decisions of the module canvas: selection, deletion
//! with undo, undo and redo, playback toggling and MIDI learn.
use crate::graph::{
    set_part_position, with_position, has_part, find_part, find_part_index, is_first_index, lemma_first_index_unique, remove_parts_with_id,
    without_id, MapFlowModule, ModuleConnection, ModuleGraph, ModulePart, ModulePartId,
    ModuleSocketType, PartKind, SourceKind, TriggerKind,
};
use crate::layout::{load_preset, preset_graph, ModulePreset};
use crate::midi::MidiMessage;
use crate::history::{apply_redo_action, apply_undo_action, redo_effect, undo_effect, CanvasAction};
use crate::canvas_laws::canvas_edit;
use crate::history_laws::{canvas_step, safe_redo, safe_undo};
use vstd::prelude::*;

verus! {

broadcast use vstd::string::group_string_axioms;

/// Playback commands for media players. `S` is the speed type and `T` the
/// time type of the player.
pub enum MediaPlaybackCommand<S, T> {
    Play,
    Pause,
    Stop,
    /// Reload the media from disk (used when path changes)
    Reload,
    /// Set playback speed (1 = normal)
    SetSpeed(S),
    /// Set loop mode
    SetLoop(bool),
    /// Seek to position (seconds from start)
    Seek(T),
    /// Set reverse playback
    SetReverse(bool),
}

/// Editing state of the module canvas.
pub struct ModuleCanvas<P, S, T> {
    /// The ID of the currently active/edited module
    pub active_module_id: Option<u64>,
    /// Part ID pending deletion (set when X button clicked)
    pub pending_delete: Option<ModulePartId>,
    /// Selected parts for multi-select and copy/paste
    pub selected_parts: Vec<ModulePartId>,
    /// Search filter text
    pub search_filter: String,
    /// Whether search popup is visible
    pub show_search: bool,
    /// Undo history stack
    pub undo_stack: Vec<CanvasAction<P>>,
    /// Redo history stack
    pub redo_stack: Vec<CanvasAction<P>>,
    /// Whether preset panel is visible
    pub show_presets: bool,
    /// New preset name input
    pub new_preset_name: String,
    /// Context menu target (connection index or None)
    pub context_menu_connection: Option<usize>,
    /// Context menu target (part ID or None)
    pub context_menu_part: Option<ModulePartId>,
    /// MIDI Learn mode - which part is waiting for MIDI input
    pub midi_learn_part_id: Option<ModulePartId>,
    /// Learned MIDI mapping: (part_id, channel, cc_or_note, is_note)
    pub learned_midi: Option<(ModulePartId, u8, u8, bool)>,
    /// Available outputs (id, name) for output node selection
    pub available_outputs: Vec<(u64, String)>,
    /// ID of the part being edited in a popup
    pub editing_part_id: Option<ModulePartId>,
    /// Pending playback commands (Part ID, Command)
    pub pending_playback_commands: Vec<(ModulePartId, MediaPlaybackCommand<S, T>)>,
    /// Whether diagnostic popup is shown
    pub show_diagnostics: bool,
    /// Status message for Hue operations
    pub hue_status_message: Option<String>,
    /// ID of the part currently being edited in the mesh editor
    pub last_mesh_edit_id: Option<ModulePartId>,
}

/// Holds of a part that is not selected.
pub open spec fn not_selected<P>(sel: Seq<u64>) -> spec_fn(ModulePart<P>) -> bool {
    |p: ModulePart<P>| !sel.contains(p.id)
}

/// Holds of a connection with no end at a selected part.
pub open spec fn untouched_by(sel: Seq<u64>) -> spec_fn(ModuleConnection) -> bool {
    |c: ModuleConnection| !sel.contains(c.from_part) && !sel.contains(c.to_part)
}

/// Holds of a connection with an end at a selected part.
pub open spec fn touched_by(sel: Seq<u64>) -> spec_fn(ModuleConnection) -> bool {
    |c: ModuleConnection| sel.contains(c.from_part) || sel.contains(c.to_part)
}

/// For each selected id in selection order, the first part with that id.
pub open spec fn deleted_parts<P>(parts: Seq<ModulePart<P>>, sel: Seq<u64>) -> Seq<ModulePart<P>>
    decreases sel.len(),
{
    if sel.len() == 0 {
        Seq::empty()
    } else {
        let rest = deleted_parts(parts, sel.drop_last());
        match find_part(parts, sel.last()) {
            Some(p) => rest.push(p),
            None => rest,
        }
    }
}

/// The edit that records a connection deletion.
pub open spec fn delete_connection_action<P>(c: ModuleConnection) -> CanvasAction<P> {
    CanvasAction::DeleteConnection { connection: c }
}

/// The edit that records a part deletion.
pub open spec fn delete_part_action<P>(p: ModulePart<P>) -> CanvasAction<P> {
    CanvasAction::DeletePart { part_data: p }
}

/// The graph after deleting the selected parts and every connection at them.
pub open spec fn deletion_result<P>(g: ModuleGraph<P>, sel: Seq<u64>) -> ModuleGraph<P> {
    ModuleGraph {
        parts: g.parts.filter(not_selected(sel)),
        connections: g.connections.filter(untouched_by(sel)),
    }
}

/// The edits that a deletion of the selection records, in order: first the
/// removed connections, then the removed parts.
pub open spec fn deletion_batch<P>(g: ModuleGraph<P>, sel: Seq<u64>) -> Seq<CanvasAction<P>> {
    g.connections.filter(touched_by(sel)).map_values(|c: ModuleConnection| delete_connection_action(c))
        + deleted_parts(g.parts, sel).map_values(|p: ModulePart<P>| delete_part_action(p))
}

/// A canvas with nothing selected, no history, no module, no popup or menu
/// open, no MIDI learn, no pending command and no status.
pub open spec fn is_initial_canvas<P, S, T>(r: ModuleCanvas<P, S, T>) -> bool {
    &&& r.active_module_id is None
    &&& r.pending_delete is None
    &&& r.selected_parts@.len() == 0
    &&& r.search_filter@.len() == 0
    &&& !r.show_search
    &&& r.undo_stack@.len() == 0
    &&& r.redo_stack@.len() == 0
    &&& !r.show_presets
    &&& r.new_preset_name@.len() == 0
    &&& r.context_menu_connection is None
    &&& r.context_menu_part is None
    &&& r.midi_learn_part_id is None
    &&& r.learned_midi is None
    &&& r.available_outputs@.len() == 0
    &&& r.editing_part_id is None
    &&& r.pending_playback_commands@.len() == 0
    &&& !r.show_diagnostics
    &&& r.hue_status_message is None
    &&& r.last_mesh_edit_id is None
}

/// Whether `id` occurs in `ids`.
pub fn contains_id(ids: &Vec<u64>, id: u64) -> (r: bool)
    ensures
        r == ids@.contains(id),
{
    let mut i: usize = 0;
    while i < ids.len()
        invariant
            i <= ids@.len(),
            forall|j: int| 0 <= j < i ==> ids@[j] != id,
        decreases ids@.len() - i,
    {
        if ids[i] == id {
            return true;
        }
        i = i + 1;
    }
    false
}

impl<P: Copy, S, T> ModuleCanvas<P, S, T> {
    /// A canvas with nothing selected, no history and no module.
    pub fn new() -> (r: Self)
        ensures
            is_initial_canvas(r),
    {
        ModuleCanvas {
            active_module_id: None,
            pending_delete: None,
            selected_parts: Vec::new(),
            search_filter: String::new(),
            show_search: false,
            undo_stack: Vec::new(),
            redo_stack: Vec::new(),
            show_presets: false,
            new_preset_name: String::new(),
            context_menu_connection: None,
            context_menu_part: None,
            midi_learn_part_id: None,
            learned_midi: None,
            available_outputs: Vec::new(),
            editing_part_id: None,
            pending_playback_commands: Vec::new(),
            show_diagnostics: false,
            hue_status_message: None,
            last_mesh_edit_id: None,
        }
    }

    /// Deletes the selected parts together with every connection at them,
    /// records the deletion as one undoable edit, clears the redo history and
    /// the selection. Nothing happens when nothing is selected.
    pub fn safe_delete_selection(&mut self, module: &mut MapFlowModule<P>)
        ensures
            old(self).selected_parts@.len() == 0 ==> *final(self) == *old(self) && *final(module)
                == *old(module),
            old(self).selected_parts@.len() > 0 ==> {
                &&& final(module)@ == deletion_result(old(module)@, old(self).selected_parts@)
                &&& final(module).id == old(module).id
                &&& final(self).undo_stack@.len() == old(self).undo_stack@.len() + 1
                &&& final(self).undo_stack@.take(old(self).undo_stack@.len() as int)
                    == old(self).undo_stack@
                &&& final(self).undo_stack@.last() matches CanvasAction::Batch(v) && v@
                    == deletion_batch(old(module)@, old(self).selected_parts@)
                &&& final(self).redo_stack@.len() == 0
                &&& final(self).selected_parts@.len() == 0
                &&& *final(self) == (ModuleCanvas {
                    undo_stack: final(self).undo_stack,
                    redo_stack: final(self).redo_stack,
                    selected_parts: final(self).selected_parts,
                    ..*old(self)
                })
            },
        canvas_edit(old(module)@, final(module)@),
    {
        if self.selected_parts.is_empty() {
            return;
        }
        let ghost sel = self.selected_parts@;
        let ghost g = module@;
        let mut actions: Vec<CanvasAction<P>> = Vec::new();
        // The removed connections, captured for undo.
        let mut i: usize = 0;
        reveal_with_fuel(Seq::filter, 1);
        assert(g.connections.take(0) =~= Seq::<ModuleConnection>::empty());
        while i < module.connections.len()
            invariant
                module@ == g,
                self.selected_parts@ == sel,
                i <= g.connections.len(),
                actions@ == g.connections.take(i as int).filter(touched_by(sel)).map_values(
                    |c: ModuleConnection| delete_connection_action::<P>(c),
                ),
            decreases g.connections.len() - i,
        {
            let c = module.connections[i];
            proof {
                assert(g.connections.take(i + 1) =~= g.connections.take(i as int).push(c));
                g.connections.take(i as int).lemma_filter_push(c, touched_by(sel));
            }
            if contains_id(&self.selected_parts, c.from_part) || contains_id(
                &self.selected_parts,
                c.to_part,
            ) {
                actions.push(CanvasAction::DeleteConnection { connection: c });
                proof {
                    assert(actions@ =~= g.connections.take(i + 1).filter(touched_by(sel)).map_values(
                        |c: ModuleConnection| delete_connection_action::<P>(c),
                    ));
                }
            }
            i = i + 1;
        }
        assert(g.connections.take(g.connections.len() as int) =~= g.connections);
        let ghost conn_actions = actions@;
        // The removed parts, captured for undo.
        let mut k: usize = 0;
        assert(sel.take(0) =~= Seq::<u64>::empty());
        while k < self.selected_parts.len()
            invariant
                module@ == g,
                self.selected_parts@ == sel,
                k <= sel.len(),
                actions@ == conn_actions + deleted_parts(g.parts, sel.take(k as int)).map_values(
                    |p: ModulePart<P>| delete_part_action(p),
                ),
            decreases sel.len() - k,
        {
            let id = self.selected_parts[k];
            proof {
                assert(sel.take(k + 1).drop_last() =~= sel.take(k as int));
            }
            match find_part_index(&module.parts, id) {
                Some(idx) => {
                    actions.push(CanvasAction::DeletePart { part_data: module.parts[idx] });
                    proof {
                        let j = choose|j: int| crate::graph::is_first_index(g.parts, id, j);
                        crate::graph::lemma_first_index_unique(g.parts, id, idx as int, j);
                        assert(actions@ =~= conn_actions + deleted_parts(
                            g.parts,
                            sel.take(k + 1),
                        ).map_values(|p: ModulePart<P>| delete_part_action(p)));
                    }
                },
                None => {
                    proof {
                        assert(deleted_parts(g.parts, sel.take(k + 1)) == deleted_parts(
                            g.parts,
                            sel.take(k as int),
                        ));
                    }
                },
            }
            k = k + 1;
        }
        assert(sel.take(sel.len() as int) =~= sel);
        assert(actions@ =~= deletion_batch(g, sel));
        // Remove the connections.
        let mut kept_conns: Vec<ModuleConnection> = Vec::new();
        let mut i: usize = 0;
        while i < module.connections.len()
            invariant
                module@ == g,
                self.selected_parts@ == sel,
                i <= g.connections.len(),
                kept_conns@ == g.connections.take(i as int).filter(untouched_by(sel)),
            decreases g.connections.len() - i,
        {
            let c = module.connections[i];
            proof {
                assert(g.connections.take(i + 1) =~= g.connections.take(i as int).push(c));
                g.connections.take(i as int).lemma_filter_push(c, untouched_by(sel));
            }
            if !contains_id(&self.selected_parts, c.from_part) && !contains_id(
                &self.selected_parts,
                c.to_part,
            ) {
                kept_conns.push(c);
            }
            i = i + 1;
        }
        // Remove the parts.
        let mut kept_parts: Vec<ModulePart<P>> = Vec::new();
        let mut i: usize = 0;
        assert(g.parts.take(0) =~= Seq::<ModulePart<P>>::empty());
        while i < module.parts.len()
            invariant
                module@ == g,
                self.selected_parts@ == sel,
                i <= g.parts.len(),
                kept_parts@ == g.parts.take(i as int).filter(not_selected::<P>(sel)),
            decreases g.parts.len() - i,
        {
            let p = module.parts[i];
            proof {
                assert(g.parts.take(i + 1) =~= g.parts.take(i as int).push(p));
                g.parts.take(i as int).lemma_filter_push(p, not_selected::<P>(sel));
            }
            if !contains_id(&self.selected_parts, p.id) {
                kept_parts.push(p);
            }
            i = i + 1;
        }
        assert(g.parts.take(g.parts.len() as int) =~= g.parts);
        module.connections = kept_conns;
        module.parts = kept_parts;
        self.undo_stack.push(CanvasAction::Batch(actions));
        self.redo_stack.clear();
        self.selected_parts.clear();
        assert(self.undo_stack@.take(old(self).undo_stack@.len() as int) =~= old(
            self,
        ).undo_stack@);
        assert(module@ == deletion_result(g, sel));
    }

    /// Undoes the most recent edit and moves it to the redo history; returns
    /// whether there was an edit to undo.
    pub fn undo(&mut self, module: &mut MapFlowModule<P>) -> (done: bool)
        ensures
            done == (old(self).undo_stack@.len() > 0),
            !done ==> *final(self) == *old(self) && *final(module) == *old(module),
            done ==> {
                &&& final(module)@ == undo_effect(old(module)@, old(self).undo_stack@.last())
                &&& final(module).id == old(module).id
                &&& final(self).undo_stack@ == old(self).undo_stack@.drop_last()
                &&& final(self).redo_stack@ == old(self).redo_stack@.push(
                    old(self).undo_stack@.last(),
                )
                &&& *final(self) == (ModuleCanvas {
                    undo_stack: final(self).undo_stack,
                    redo_stack: final(self).redo_stack,
                    ..*old(self)
                })
            },
            (done ==> safe_undo(old(module)@, old(self).undo_stack@.last())) ==> canvas_step(
                old(module)@,
                final(module)@,
            ),
    {
        let ghost g = module@;
        if self.undo_stack.len() == 0 {
            assert(canvas_edit(g, g));
            return false;
        }
        match self.undo_stack.pop() {
            Some(action) => {
                apply_undo_action(module, &action);
                proof {
                    if safe_undo(g, action) {
                        assert(module@ == undo_effect(g, action));
                    }
                }
                self.redo_stack.push(action);
                true
            },
            None => false,
        }
    }

    /// Redoes the most recently undone edit and moves it back to the undo
    /// history; returns whether there was an edit to redo.
    pub fn redo(&mut self, module: &mut MapFlowModule<P>) -> (done: bool)
        ensures
            done == (old(self).redo_stack@.len() > 0),
            !done ==> *final(self) == *old(self) && *final(module) == *old(module),
            done ==> {
                &&& final(module)@ == redo_effect(old(module)@, old(self).redo_stack@.last())
                &&& final(module).id == old(module).id
                &&& final(self).redo_stack@ == old(self).redo_stack@.drop_last()
                &&& final(self).undo_stack@ == old(self).undo_stack@.push(
                    old(self).redo_stack@.last(),
                )
                &&& *final(self) == (ModuleCanvas {
                    undo_stack: final(self).undo_stack,
                    redo_stack: final(self).redo_stack,
                    ..*old(self)
                })
            },
            (done ==> safe_redo(old(module)@, old(self).redo_stack@.last())) ==> canvas_step(
                old(module)@,
                final(module)@,
            ),
    {
        let ghost g = module@;
        if self.redo_stack.len() == 0 {
            assert(canvas_edit(g, g));
            return false;
        }
        match self.redo_stack.pop() {
            Some(action) => {
                apply_redo_action(module, &action);
                proof {
                    if safe_redo(g, action) {
                        assert(module@ == redo_effect(g, action));
                    }
                }
                self.undo_stack.push(action);
                true
            },
            None => false,
        }
    }
}

/// The command that the space key issues for each selected media file part,
/// in selection order: pause if it is playing, else play.
pub open spec fn playback_toggles<P, S, T>(
    parts: Seq<ModulePart<P>>,
    sel: Seq<u64>,
    playing: Seq<u64>,
) -> Seq<(u64, MediaPlaybackCommand<S, T>)>
    decreases sel.len(),
{
    if sel.len() == 0 {
        Seq::empty()
    } else {
        let rest = playback_toggles(parts, sel.drop_last(), playing);
        let id = sel.last();
        match find_part(parts, id) {
            Some(p) => if p.kind == PartKind::Source(SourceKind::MediaFile) {
                rest.push(
                    (
                        id,
                        if playing.contains(id) {
                            MediaPlaybackCommand::Pause
                        } else {
                            MediaPlaybackCommand::Play
                        },
                    ),
                )
            } else {
                rest
            },
            None => rest,
        }
    }
}

/// The parts after a learned MIDI binding (`channel`, `number`) is applied to
/// part `id`: a MIDI trigger takes the channel and the note; any other part,
/// or a missing one, is left as it is.
pub open spec fn with_midi_binding<P>(
    parts: Seq<ModulePart<P>>,
    id: u64,
    channel: u8,
    number: u8,
) -> Seq<ModulePart<P>> {
    match find_part(parts, id) {
        Some(p) => if p.kind is Trigger && p.kind->Trigger_0 is Midi {
            let i = choose|i: int| is_first_index(parts, id, i);
            parts.update(
                i,
                ModulePart {
                    id: p.id,
                    kind: PartKind::Trigger(TriggerKind::Midi { channel, note: number }),
                    position: p.position,
                },
            )
        } else {
            parts
        },
        None => parts,
    }
}

/// Holds of a connection with no end at part `id`.
pub open spec fn not_touching(id: u64) -> spec_fn(ModuleConnection) -> bool {
    |c: ModuleConnection| c.from_part != id && c.to_part != id
}

/// The graph after part `id` is removed with every connection at it.
pub open spec fn without_part<P>(g: ModuleGraph<P>, id: u64) -> ModuleGraph<P> {
    ModuleGraph { parts: without_id(g.parts, id), connections: g.connections.filter(not_touching(id)) }
}

/// A socket on the canvas: its part, index, side and type.
#[derive(Clone, Copy, PartialEq, Eq, Structural, Debug)]
pub struct SocketRef {
    pub part_id: u64,
    pub socket_idx: usize,
    pub is_output: bool,
    pub socket_type: ModuleSocketType,
}

/// A cable dragged from socket `from` may end at socket `to`: another part,
/// the opposite side, and the same socket type.
pub open spec fn compatible_sockets(from: SocketRef, to: SocketRef) -> bool {
    from.part_id != to.part_id && from.is_output != to.is_output && from.socket_type
        == to.socket_type
}

/// The connection that a cable between `from` and `to` makes, from the
/// output side to the input side.
pub open spec fn oriented_connection(from: SocketRef, to: SocketRef) -> ModuleConnection {
    if from.is_output {
        ModuleConnection {
            from_part: from.part_id,
            from_socket: from.socket_idx,
            to_part: to.part_id,
            to_socket: to.socket_idx,
        }
    } else {
        ModuleConnection {
            from_part: to.part_id,
            from_socket: to.socket_idx,
            to_part: from.part_id,
            to_socket: from.socket_idx,
        }
    }
}

/// Whether a cable dragged from `from` may end at `to`.
pub fn is_valid_connection_target(from: &SocketRef, to: &SocketRef) -> (r: bool)
    ensures
        r == compatible_sockets(*from, *to),
{
    from.part_id != to.part_id && from.is_output != to.is_output && from.socket_type
        == to.socket_type
}

/// Ends a cable dragged from `from` on socket `to`: when the two sockets are
/// on different parts and on opposite sides, the connection from the output
/// to the input is added; returns whether it was.
pub fn connect_sockets<P>(module: &mut MapFlowModule<P>, from: &SocketRef, to: &SocketRef) -> (added: bool)
    ensures
        added == (from.part_id != to.part_id && from.is_output != to.is_output),
        final(module).id == old(module).id,
        final(module).parts == old(module).parts,
        added ==> final(module).connections@ == old(module).connections@.push(
            oriented_connection(*from, *to),
        ),
        !added ==> final(module).connections == old(module).connections,
        added && from.is_output ==> final(module).connections@.last() == (ModuleConnection {
            from_part: from.part_id,
            from_socket: from.socket_idx,
            to_part: to.part_id,
            to_socket: to.socket_idx,
        }),
        added && to.is_output ==> final(module).connections@.last() == (ModuleConnection {
            from_part: to.part_id,
            from_socket: to.socket_idx,
            to_part: from.part_id,
            to_socket: from.socket_idx,
        }),
        added ==> has_part(old(module).parts@, from.part_id) && has_part(old(module).parts@, to.part_id) ==> canvas_edit(old(module)@, final(module)@),
        !added ==> canvas_edit(old(module)@, final(module)@),
{
    if from.part_id != to.part_id && from.is_output != to.is_output {
        if from.is_output {
            module.connections.push(
                ModuleConnection {
                    from_part: from.part_id,
                    from_socket: from.socket_idx,
                    to_part: to.part_id,
                    to_socket: to.socket_idx,
                },
            );
        } else {
            module.connections.push(
                ModuleConnection {
                    from_part: to.part_id,
                    from_socket: to.socket_idx,
                    to_part: from.part_id,
                    to_socket: from.socket_idx,
                },
            );
        }
        proof {
            let g = old(module)@;
            assert(module@ == (ModuleGraph {
                parts: g.parts,
                connections: g.connections.push(oriented_connection(*from, *to)),
            }));
        }
        true
    } else {
        false
    }
}

/// A cable always runs from the output socket to the input socket, whichever
/// end the drag starts at: with `from` the output, the connection leaves
/// `from`'s part and socket and enters `to`'s; with `to` the output, the
/// other way round; and dragging from either end makes the same connection.
pub proof fn lemma_cable_runs_output_to_input(from: SocketRef, to: SocketRef)
    requires
        from.is_output != to.is_output,
    ensures
        from.is_output ==> oriented_connection(from, to) == (ModuleConnection {
            from_part: from.part_id,
            from_socket: from.socket_idx,
            to_part: to.part_id,
            to_socket: to.socket_idx,
        }),
        to.is_output ==> oriented_connection(from, to) == (ModuleConnection {
            from_part: to.part_id,
            from_socket: to.socket_idx,
            to_part: from.part_id,
            to_socket: from.socket_idx,
        }),
        oriented_connection(from, to) == oriented_connection(to, from),
{
}

/// Removes part `id` and every connection at it.
pub fn delete_part<P>(module: &mut MapFlowModule<P>, id: u64)
    ensures
        final(module)@ == without_part(old(module)@, id),
        final(module).id == old(module).id,
        canvas_edit(old(module)@, final(module)@),
{
    let ghost orig = module.connections@;
    let ghost pred = not_touching(id);
    let mut kept: Vec<ModuleConnection> = Vec::new();
    let mut i: usize = 0;
    reveal_with_fuel(Seq::filter, 1);
    assert(orig.take(0) =~= Seq::<ModuleConnection>::empty());
    while i < module.connections.len()
        invariant
            module.connections@ == orig,
            pred == not_touching(id),
            i <= orig.len(),
            kept@ == orig.take(i as int).filter(pred),
        decreases orig.len() - i,
    {
        let c = module.connections[i];
        proof {
            assert(orig.take(i + 1) =~= orig.take(i as int).push(c));
            orig.take(i as int).lemma_filter_push(c, pred);
        }
        if c.from_part != id && c.to_part != id {
            kept.push(c);
        }
        i = i + 1;
    }
    assert(orig.take(orig.len() as int) =~= orig);
    module.connections = kept;
    remove_parts_with_id(&mut module.parts, id);
    assert(module@ == without_part(old(module)@, id));
}

/// Removes the connection at index `idx`, if there is one.
pub fn remove_connection_at<P>(module: &mut MapFlowModule<P>, idx: usize)
    ensures
        final(module).id == old(module).id,
        final(module).parts == old(module).parts,
        idx < old(module).connections@.len() ==> final(module).connections@ == old(
            module,
        ).connections@.remove(idx as int),
        idx >= old(module).connections@.len() ==> final(module).connections == old(
            module,
        ).connections,
        canvas_edit(old(module)@, final(module)@),
{
    if idx < module.connections.len() {
        module.connections.remove(idx);
    }
}

impl<P: Copy, S, T> ModuleCanvas<P, S, T> {
    /// Makes `module_id` the edited module.
    pub fn set_active_module(&mut self, module_id: Option<u64>)
        ensures
            *final(self) == (ModuleCanvas { active_module_id: module_id, ..*old(self) }),
    {
        self.active_module_id = module_id;
    }

    /// The edited module.
    pub fn active_module_id(&self) -> (r: Option<u64>)
        ensures
            r == self.active_module_id,
    {
        self.active_module_id
    }

    /// Hands out the playback commands issued so far and forgets them.
    pub fn take_playback_commands(&mut self) -> (r: Vec<(ModulePartId, MediaPlaybackCommand<S, T>)>)
        ensures
            r@ == old(self).pending_playback_commands@,
            final(self).pending_playback_commands@.len() == 0,
            *final(self) == (ModuleCanvas {
                pending_playback_commands: final(self).pending_playback_commands,
                ..*old(self)
            }),
    {
        let mut out: Vec<(ModulePartId, MediaPlaybackCommand<S, T>)> = Vec::new();
        std::mem::swap(&mut out, &mut self.pending_playback_commands);
        out
    }

    /// Space on the canvas: for each selected media file part, in selection
    /// order, issues pause if it is playing (`playing` lists the playing
    /// parts) and play otherwise.
    pub fn toggle_playback_of_selection(&mut self, module: &MapFlowModule<P>, playing: &Vec<u64>)
        ensures
            final(self).pending_playback_commands@ == old(self).pending_playback_commands@
                + playback_toggles(module.parts@, old(self).selected_parts@, playing@),
            *final(self) == (ModuleCanvas {
                pending_playback_commands: final(self).pending_playback_commands,
                ..*old(self)
            }),
    {
        let ghost start = self.pending_playback_commands@;
        let ghost sel = self.selected_parts@;
        let mut k: usize = 0;
        assert(sel.take(0) =~= Seq::<u64>::empty());
        assert(start + Seq::<(u64, MediaPlaybackCommand<S, T>)>::empty() =~= start);
        while k < self.selected_parts.len()
            invariant
                self.selected_parts@ == sel,
                k <= sel.len(),
                self.pending_playback_commands@ == start + playback_toggles::<P, S, T>(
                    module.parts@,
                    sel.take(k as int),
                    playing@,
                ),
                *self == (ModuleCanvas {
                    pending_playback_commands: self.pending_playback_commands,
                    ..*old(self)
                }),
            decreases sel.len() - k,
        {
            let id = self.selected_parts[k];
            assert(sel.take(k + 1).drop_last() =~= sel.take(k as int));
            assert(sel.take(k + 1).last() == id);
            match find_part_index(&module.parts, id) {
                Some(idx) => {
                    proof {
                        let j = choose|j: int| is_first_index(module.parts@, id, j);
                        lemma_first_index_unique(module.parts@, id, idx as int, j);
                    }
                    match module.parts[idx].kind {
                        PartKind::Source(SourceKind::MediaFile) => {
                            let cmd = if contains_id(playing, id) {
                                MediaPlaybackCommand::Pause
                            } else {
                                MediaPlaybackCommand::Play
                            };
                            self.pending_playback_commands.push((id, cmd));
                        },
                        _ => {},
                    }
                },
                None => {},
            }
            proof {
                assert(self.pending_playback_commands@ =~= start + playback_toggles::<P, S, T>(
                    module.parts@,
                    sel.take(k + 1),
                    playing@,
                ));
            }
            k = k + 1;
        }
        assert(sel.take(sel.len() as int) =~= sel);
    }

    /// The MIDI learn button of part `id`: starts learning for it, or stops
    /// when it is already the part being learned.
    pub fn toggle_midi_learn(&mut self, id: u64)
        ensures
            *final(self) == (ModuleCanvas {
                midi_learn_part_id: if old(self).midi_learn_part_id == Some(id) {
                    None
                } else {
                    Some(id)
                },
                ..*old(self)
            }),
    {
        self.midi_learn_part_id = if self.midi_learn_part_id == Some(id) {
            None
        } else {
            Some(id)
        };
    }

    /// A MIDI message while a part waits for MIDI learn: a control change is
    /// learned as (part, channel, controller, not a note), a note-on as
    /// (part, channel, note, a note), and learning ends; other messages, or
    /// no part waiting, change nothing.
    pub fn process_midi_message(&mut self, message: &MidiMessage)
        ensures
            *final(self) == match (old(self).midi_learn_part_id, *message) {
                (Some(id), MidiMessage::ControlChange { channel, controller, .. }) => ModuleCanvas {
                    learned_midi: Some((id, channel, controller, false)),
                    midi_learn_part_id: None,
                    ..*old(self)
                },
                (Some(id), MidiMessage::NoteOn { channel, note, .. }) => ModuleCanvas {
                    learned_midi: Some((id, channel, note, true)),
                    midi_learn_part_id: None,
                    ..*old(self)
                },
                _ => *old(self),
            },
    {
        match self.midi_learn_part_id {
            Some(part_id) => match *message {
                MidiMessage::ControlChange { channel, controller, .. } => {
                    self.learned_midi = Some((part_id, channel, controller, false));
                    self.midi_learn_part_id = None;
                },
                MidiMessage::NoteOn { channel, note, .. } => {
                    self.learned_midi = Some((part_id, channel, note, true));
                    self.midi_learn_part_id = None;
                },
                _ => {},
            },
            None => {},
        }
    }

    /// Applies the learned MIDI binding, if any, to the edited module and
    /// forgets it: the learned part, when it is a MIDI trigger, takes the
    /// learned channel and number as its channel and note.
    pub fn apply_learned_midi(&mut self, module: &mut MapFlowModule<P>)
        ensures
            *final(self) == (ModuleCanvas { learned_midi: None, ..*old(self) }),
            final(module).id == old(module).id,
            final(module).connections == old(module).connections,
            match old(self).learned_midi {
                Some((id, channel, number, _)) => final(module).parts@ == with_midi_binding(
                    old(module).parts@,
                    id,
                    channel,
                    number,
                ),
                None => final(module).parts == old(module).parts,
            },
        canvas_edit(old(module)@, final(module)@),
    {
        let learned = self.learned_midi;
        self.learned_midi = None;
        match learned {
            Some((part_id, channel, number, _)) => {
                match find_part_index(&module.parts, part_id) {
                    Some(idx) => {
                        proof {
                            let j = choose|j: int| is_first_index(module.parts@, part_id, j);
                            lemma_first_index_unique(module.parts@, part_id, idx as int, j);
                        }
                        let p = module.parts[idx];
                        match p.kind {
                            PartKind::Trigger(TriggerKind::Midi { .. }) => {
                                module.parts.set(
                                    idx,
                                    ModulePart {
                                        id: p.id,
                                        kind: PartKind::Trigger(
                                            TriggerKind::Midi { channel, note: number },
                                        ),
                                        position: p.position,
                                    },
                                );
                            },
                            _ => {},
                        }
                    },
                    None => {},
                }
            },
            None => {},
        }
    }

    /// The Delete key: removes the selected parts and every connection at
    /// them, without recording an undo step, and clears the selection.
    pub fn delete_selected_parts(&mut self, module: &mut MapFlowModule<P>)
        ensures
            final(module)@ == deletion_result(old(module)@, old(self).selected_parts@),
            final(module).id == old(module).id,
            final(self).selected_parts@.len() == 0,
            *final(self) == (ModuleCanvas {
                selected_parts: final(self).selected_parts,
                ..*old(self)
            }),
        canvas_edit(old(module)@, final(module)@),
    {
        let ghost sel = self.selected_parts@;
        let ghost g = module@;
        let ghost mid = module.id;
        let mut k: usize = 0;
        assert(sel.take(0) =~= Seq::<u64>::empty());
        assert(g.parts.filter(not_selected::<P>(sel.take(0))) =~= g.parts) by {
            reveal_with_fuel(Seq::filter, 1);
            crate::history_laws::lemma_filter_all_pass(g.parts, not_selected::<P>(sel.take(0)));
        }
        assert(g.connections.filter(untouched_by(sel.take(0))) =~= g.connections) by {
            crate::history_laws::lemma_filter_all_pass(g.connections, untouched_by(sel.take(0)));
        }
        while k < self.selected_parts.len()
            invariant
                self.selected_parts@ == sel,
                k <= sel.len(),
                module@ == deletion_result(g, sel.take(k as int)),
                module.id == mid,
            decreases sel.len() - k,
        {
            let id = self.selected_parts[k];
            proof {
                crate::history_laws::lemma_deletion_step(g, sel, k as int);
            }
            delete_part(module, id);
            k = k + 1;
        }
        assert(sel.take(sel.len() as int) =~= sel);
        self.selected_parts.clear();
    }
}

impl<P: Copy, S, T> Default for ModuleCanvas<P, S, T> {
    /// The same canvas as `new`.
    fn default() -> (r: Self)
        ensures
            is_initial_canvas(r),
    {
        Self::new()
    }
}

/// Parts whose mesh the mesh editor edits: single layers, layer groups and meshes.
pub open spec fn has_mesh(k: PartKind) -> bool {
    k matches PartKind::Layer(crate::graph::LayerKind::Single { .. }) || k == PartKind::Layer(
        crate::graph::LayerKind::Group,
    ) || k == PartKind::Mesh
}

impl<P: Copy, S, T> ModuleCanvas<P, S, T> {
    /// Whether the mesh editor must load the mesh of part `id` of kind
    /// `kind`: when the part has a mesh and is not the part already being
    /// edited; that part then becomes the one being edited.
    pub fn begin_mesh_edit(&mut self, id: u64, kind: &PartKind) -> (load: bool)
        ensures
            load == (has_mesh(*kind) && old(self).last_mesh_edit_id != Some(id)),
            load ==> *final(self) == (ModuleCanvas { last_mesh_edit_id: Some(id), ..*old(self) }),
            !load ==> *final(self) == *old(self),
    {
        let mesh_part = match kind {
            PartKind::Layer(crate::graph::LayerKind::Single { .. }) => true,
            PartKind::Layer(crate::graph::LayerKind::Group) => true,
            PartKind::Mesh => true,
            _ => false,
        };
        if !mesh_part {
            return false;
        }
        if self.last_mesh_edit_id == Some(id) {
            return false;
        }
        self.last_mesh_edit_id = Some(id);
        true
    }
}

impl<P: Copy, S, T> ModuleCanvas<P, S, T> {
    /// Picking a preset in the presets popup: the module's graph becomes the
    /// preset's and the popup closes.
    pub fn choose_preset(&mut self, module: &mut MapFlowModule<P>, preset: &ModulePreset<P>)
        ensures
            final(module)@ == preset_graph(*preset),
            final(module).id == old(module).id,
            *final(self) == (ModuleCanvas { show_presets: false, ..*old(self) }),
        canvas_edit(old(module)@, final(module)@),
    {
        load_preset(module, preset);
        self.show_presets = false;
    }
}

impl<P: Copy, S, T> ModuleCanvas<P, S, T> {
    /// The presets button: shows or hides the presets popup.
    pub fn toggle_presets(&mut self)
        ensures
            *final(self) == (ModuleCanvas { show_presets: !old(self).show_presets, ..*old(self) }),
    {
        self.show_presets = !self.show_presets;
    }

    /// A media control of part `part_id` (play, pause, stop, loop, seek,
    /// speed, reload) issues `command` for the player.
    pub fn queue_playback_command(&mut self, part_id: u64, command: MediaPlaybackCommand<S, T>)
        ensures
            final(self).pending_playback_commands@ == old(self).pending_playback_commands@.push(
                (part_id, command),
            ),
            *final(self) == (ModuleCanvas {
                pending_playback_commands: final(self).pending_playback_commands,
                ..*old(self)
            }),
    {
        self.pending_playback_commands.push((part_id, command));
    }
}

impl<P: Copy, S, T> ModuleCanvas<P, S, T> {
    /// The bridge discovery button of the Hue editor: the status says the
    /// search runs, or that no async runtime can run it.
    pub fn begin_hue_discovery(&mut self, runtime_available: bool)
        ensures
            final(self).hue_status_message matches Some(m) && m@ == (if runtime_available {
                "Searching..."@
            } else {
                "Async runtime not available"@
            }),
            *final(self) == (ModuleCanvas {
                hue_status_message: final(self).hue_status_message,
                ..*old(self)
            }),
    {
        let message = if runtime_available {
            "Searching..."
        } else {
            "Async runtime not available"
        };
        self.hue_status_message = Some(message.to_string());
    }
}

impl<P: Copy, S, T> ModuleCanvas<P, S, T> {
    /// The properties window of part `editing_part_id`: returns the index of
    /// the part it edits; when that part is gone the window closes and nothing
    /// is returned.
    pub fn edited_part(&mut self, module: &MapFlowModule<P>) -> (r: Option<usize>)
        ensures
            match old(self).editing_part_id {
                Some(id) => match r {
                    Some(i) => is_first_index(module.parts@, id, i as int) && *final(self)
                        == *old(self),
                    None => !crate::graph::has_part(module.parts@, id) && *final(self) == (
                    ModuleCanvas { editing_part_id: None, ..*old(self) }),
                },
                None => r is None && *final(self) == *old(self),
            },
    {
        match self.editing_part_id {
            Some(id) => {
                let found = find_part_index(&module.parts, id);
                if found.is_none() {
                    self.editing_part_id = None;
                }
                found
            },
            None => None,
        }
    }

    /// A right click on part `id` opens its context menu and closes that of
    /// any connection.
    pub fn open_part_menu(&mut self, id: u64)
        ensures
            *final(self) == (ModuleCanvas {
                context_menu_part: Some(id),
                context_menu_connection: None,
                ..*old(self)
            }),
    {
        self.context_menu_part = Some(id);
        self.context_menu_connection = None;
    }

    /// A right click on connection `idx` opens its context menu and closes
    /// that of any part.
    pub fn open_connection_menu(&mut self, idx: usize)
        ensures
            *final(self) == (ModuleCanvas {
                context_menu_connection: Some(idx),
                context_menu_part: None,
                ..*old(self)
            }),
    {
        self.context_menu_connection = Some(idx);
        self.context_menu_part = None;
    }

    /// Closes the context menus.
    pub fn close_menus(&mut self)
        ensures
            *final(self) == (ModuleCanvas {
                context_menu_connection: None,
                context_menu_part: None,
                ..*old(self)
            }),
    {
        self.context_menu_connection = None;
        self.context_menu_part = None;
    }
}

/// Drags part `id` to `pos`: the first part with that id moves there.
pub fn move_part<P: Copy>(module: &mut MapFlowModule<P>, id: u64, pos: P)
    ensures
        final(module).parts@ == with_position(old(module).parts@, id, pos),
        final(module).connections == old(module).connections,
        final(module).id == old(module).id,
        canvas_edit(old(module)@, final(module)@),
{
    set_part_position(&mut module.parts, id, pos);
    proof {
        crate::canvas_laws::lemma_with_position_ids(old(module).parts@, id, pos);
    }
}

} // verus!
