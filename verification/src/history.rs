//! Undo and redo of canvas edits.
use crate::graph::{
    remove_connection, remove_parts_with_id, set_part_position, with_position, without_connection,
    without_id, MapFlowModule, ModuleConnection, ModuleGraph, ModulePart, ModulePartId,
};
use vstd::prelude::*;

verus! {

/// An edit of a module that can be undone and redone.
pub enum CanvasAction<P> {
    AddPart { part_id: ModulePartId, part_data: ModulePart<P> },
    DeletePart { part_data: ModulePart<P> },
    MovePart { part_id: ModulePartId, old_pos: P, new_pos: P },
    AddConnection { connection: ModuleConnection },
    DeleteConnection { connection: ModuleConnection },
    /// Several edits made as one; undone in reverse order.
    Batch(Vec<CanvasAction<P>>),
}

/// The graph after undoing `a`.
pub open spec fn undo_effect<P>(g: ModuleGraph<P>, a: CanvasAction<P>) -> ModuleGraph<P>
    decreases a, 0int,
{
    match a {
        CanvasAction::AddPart { part_id, .. } => ModuleGraph {
            parts: without_id(g.parts, part_id),
            connections: g.connections,
        },
        CanvasAction::DeletePart { part_data } => ModuleGraph {
            parts: g.parts.push(part_data),
            connections: g.connections,
        },
        CanvasAction::MovePart { part_id, old_pos, .. } => ModuleGraph {
            parts: with_position(g.parts, part_id, old_pos),
            connections: g.connections,
        },
        CanvasAction::AddConnection { connection } => ModuleGraph {
            parts: g.parts,
            connections: without_connection(g.connections, connection),
        },
        CanvasAction::DeleteConnection { connection } => ModuleGraph {
            parts: g.parts,
            connections: g.connections.push(connection),
        },
        CanvasAction::Batch(actions) => undo_effect_seq(g, actions@, actions@.len() as int),
    }
}

/// The graph after undoing `s[n - 1]`, then `s[n - 2]`, down to `s[0]`.
pub open spec fn undo_effect_seq<P>(g: ModuleGraph<P>, s: Seq<CanvasAction<P>>, n: int) -> ModuleGraph<P>
    decreases s, n,
{
    if n <= 0 || n > s.len() {
        g
    } else {
        undo_effect_seq(undo_effect(g, s[n - 1]), s, n - 1)
    }
}

/// The graph after redoing `a`.
pub open spec fn redo_effect<P>(g: ModuleGraph<P>, a: CanvasAction<P>) -> ModuleGraph<P>
    decreases a, 0int,
{
    match a {
        CanvasAction::AddPart { part_data, .. } => ModuleGraph {
            parts: g.parts.push(part_data),
            connections: g.connections,
        },
        CanvasAction::DeletePart { part_data } => ModuleGraph {
            parts: without_id(g.parts, part_data.id),
            connections: g.connections,
        },
        CanvasAction::MovePart { part_id, new_pos, .. } => ModuleGraph {
            parts: with_position(g.parts, part_id, new_pos),
            connections: g.connections,
        },
        CanvasAction::AddConnection { connection } => ModuleGraph {
            parts: g.parts,
            connections: g.connections.push(connection),
        },
        CanvasAction::DeleteConnection { connection } => ModuleGraph {
            parts: g.parts,
            connections: without_connection(g.connections, connection),
        },
        CanvasAction::Batch(actions) => redo_effect_seq(g, actions@, actions@.len() as int),
    }
}

/// The graph after redoing `s[0]`, then `s[1]`, up to `s[n - 1]`.
pub open spec fn redo_effect_seq<P>(g: ModuleGraph<P>, s: Seq<CanvasAction<P>>, n: int) -> ModuleGraph<P>
    decreases s, n,
{
    if n <= 0 || n > s.len() {
        g
    } else {
        redo_effect(redo_effect_seq(g, s, n - 1), s[n - 1])
    }
}

/// Undoes `action` on `module`.
pub fn apply_undo_action<P: Copy>(module: &mut MapFlowModule<P>, action: &CanvasAction<P>)
    ensures
        final(module)@ == undo_effect(old(module)@, *action),
        final(module).id == old(module).id,
    decreases action,
{
    match action {
        CanvasAction::AddPart { part_id, .. } => {
            remove_parts_with_id(&mut module.parts, *part_id);
        },
        CanvasAction::DeletePart { part_data } => {
            module.parts.push(*part_data);
        },
        CanvasAction::MovePart { part_id, old_pos, .. } => {
            set_part_position(&mut module.parts, *part_id, *old_pos);
        },
        CanvasAction::AddConnection { connection } => {
            remove_connection(&mut module.connections, *connection);
        },
        CanvasAction::DeleteConnection { connection } => {
            module.connections.push(*connection);
        },
        CanvasAction::Batch(actions) => {
            let ghost start = module@;
            let mut j: usize = actions.len();
            while j > 0
                invariant
                    j <= actions@.len(),
                    undo_effect_seq(start, actions@, actions@.len() as int) == undo_effect_seq(
                        module@,
                        actions@,
                        j as int,
                    ),
                    module.id == old(module).id,
                    *action == CanvasAction::Batch(*actions),
                decreases j,
            {
                proof {
                    assert(decreases_to!(*action => (*action)->Batch_0));
                    vstd::std_specs::vec::axiom_vec_index_decreases(*actions, j - 1);
                    assert(decreases_to!(*action => actions[j - 1]));
                }
                apply_undo_action(module, &actions[j - 1]);
                j = j - 1;
            }
        },
    }
}

/// Redoes `action` on `module`.
pub fn apply_redo_action<P: Copy>(module: &mut MapFlowModule<P>, action: &CanvasAction<P>)
    ensures
        final(module)@ == redo_effect(old(module)@, *action),
        final(module).id == old(module).id,
    decreases action,
{
    match action {
        CanvasAction::AddPart { part_data, .. } => {
            module.parts.push(*part_data);
        },
        CanvasAction::DeletePart { part_data } => {
            remove_parts_with_id(&mut module.parts, part_data.id);
        },
        CanvasAction::MovePart { part_id, new_pos, .. } => {
            set_part_position(&mut module.parts, *part_id, *new_pos);
        },
        CanvasAction::AddConnection { connection } => {
            module.connections.push(*connection);
        },
        CanvasAction::DeleteConnection { connection } => {
            remove_connection(&mut module.connections, *connection);
        },
        CanvasAction::Batch(actions) => {
            let ghost start = module@;
            let mut j: usize = 0;
            while j < actions.len()
                invariant
                    j <= actions@.len(),
                    module@ == redo_effect_seq(start, actions@, j as int),
                    module.id == old(module).id,
                    *action == CanvasAction::Batch(*actions),
                decreases actions@.len() - j,
            {
                proof {
                    assert(decreases_to!(*action => (*action)->Batch_0));
                    vstd::std_specs::vec::axiom_vec_index_decreases(*actions, j as int);
                    assert(decreases_to!(*action => actions[j as int]));
                }
                apply_redo_action(module, &actions[j]);
                j = j + 1;
            }
        },
    }
}

} // verus!
