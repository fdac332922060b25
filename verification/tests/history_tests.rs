use mapmap_ui::canvas::ModuleCanvas;
use mapmap_ui::graph::{MapFlowModule, ModuleConnection, ModulePart, PartKind, SourceKind, TriggerKind};
use mapmap_ui::history::{apply_redo_action, apply_undo_action, CanvasAction};

type Canvas = ModuleCanvas<(f32, f32), f32, f64>;

fn part(id: u64, x: f32) -> ModulePart<(f32, f32)> {
    ModulePart { id, kind: PartKind::Trigger(TriggerKind::Beat), position: (x, 0.0) }
}

fn conn(a: u64, b: u64) -> ModuleConnection {
    ModuleConnection { from_part: a, from_socket: 0, to_part: b, to_socket: 0 }
}

fn module() -> MapFlowModule<(f32, f32)> {
    MapFlowModule {
        id: 7,
        parts: vec![part(1, 10.0), part(2, 20.0), part(3, 30.0)],
        connections: vec![conn(1, 2), conn(2, 3)],
    }
}

fn ids(m: &MapFlowModule<(f32, f32)>) -> Vec<u64> {
    m.parts.iter().map(|p| p.id).collect()
}

#[test]
fn undo_and_redo_of_add_part() {
    let mut m = module();
    let a = CanvasAction::AddPart { part_id: 4, part_data: part(4, 40.0) };
    apply_redo_action(&mut m, &a);
    assert_eq!(ids(&m), vec![1, 2, 3, 4]);
    apply_undo_action(&mut m, &a);
    assert_eq!(ids(&m), vec![1, 2, 3]);
}

#[test]
fn undo_and_redo_of_delete_part() {
    let mut m = module();
    let a = CanvasAction::DeletePart { part_data: part(2, 20.0) };
    apply_redo_action(&mut m, &a);
    assert_eq!(ids(&m), vec![1, 3]);
    apply_undo_action(&mut m, &a);
    assert_eq!(ids(&m), vec![1, 3, 2]);
}

#[test]
fn undo_and_redo_of_move() {
    let mut m = module();
    let a = CanvasAction::MovePart { part_id: 2, old_pos: (20.0, 0.0), new_pos: (99.0, 5.0) };
    apply_redo_action(&mut m, &a);
    assert_eq!(m.parts[1].position, (99.0, 5.0));
    apply_undo_action(&mut m, &a);
    assert_eq!(m.parts[1].position, (20.0, 0.0));
}

#[test]
fn undo_and_redo_of_connections() {
    let mut m = module();
    let add = CanvasAction::AddConnection { connection: conn(1, 3) };
    apply_redo_action(&mut m, &add);
    assert_eq!(m.connections, vec![conn(1, 2), conn(2, 3), conn(1, 3)]);
    apply_undo_action(&mut m, &add);
    assert_eq!(m.connections, vec![conn(1, 2), conn(2, 3)]);
    let del = CanvasAction::DeleteConnection { connection: conn(1, 2) };
    apply_redo_action(&mut m, &del);
    assert_eq!(m.connections, vec![conn(2, 3)]);
    apply_undo_action(&mut m, &del);
    assert_eq!(m.connections, vec![conn(2, 3), conn(1, 2)]);
}

#[test]
fn batch_is_undone_in_reverse_order() {
    let mut m = module();
    let batch = CanvasAction::Batch(vec![
        CanvasAction::AddPart { part_id: 4, part_data: part(4, 40.0) },
        CanvasAction::AddConnection { connection: conn(3, 4) },
    ]);
    apply_redo_action(&mut m, &batch);
    assert_eq!(ids(&m), vec![1, 2, 3, 4]);
    assert_eq!(m.connections.len(), 3);
    apply_undo_action(&mut m, &batch);
    assert_eq!(ids(&m), vec![1, 2, 3]);
    assert_eq!(m.connections, vec![conn(1, 2), conn(2, 3)]);
}

#[test]
fn safe_delete_then_undo_then_redo() {
    let mut m = module();
    let mut c = Canvas::new();
    c.selected_parts = vec![2];
    c.redo_stack.push(CanvasAction::AddConnection { connection: conn(9, 9) });
    c.safe_delete_selection(&mut m);
    assert_eq!(ids(&m), vec![1, 3]);
    assert!(m.connections.is_empty());
    assert!(c.selected_parts.is_empty());
    assert!(c.redo_stack.is_empty());
    assert_eq!(c.undo_stack.len(), 1);
    match &c.undo_stack[0] {
        CanvasAction::Batch(v) => {
            assert_eq!(v.len(), 3);
            assert!(matches!(v[0], CanvasAction::DeleteConnection { connection } if connection == conn(1, 2)));
            assert!(matches!(v[1], CanvasAction::DeleteConnection { connection } if connection == conn(2, 3)));
            assert!(matches!(&v[2], CanvasAction::DeletePart { part_data } if part_data.id == 2));
        }
        _ => panic!("expected a batch"),
    }
    assert!(c.undo(&mut m));
    assert_eq!(ids(&m), vec![1, 3, 2]);
    assert_eq!(m.connections, vec![conn(2, 3), conn(1, 2)]);
    assert_eq!(c.undo_stack.len(), 0);
    assert_eq!(c.redo_stack.len(), 1);
    assert!(c.redo(&mut m));
    assert_eq!(ids(&m), vec![1, 3]);
    assert!(m.connections.is_empty());
    assert!(!c.redo(&mut m));
}

#[test]
fn safe_delete_with_nothing_selected_does_nothing() {
    let mut m = module();
    let mut c = Canvas::new();
    c.safe_delete_selection(&mut m);
    assert_eq!(ids(&m), vec![1, 2, 3]);
    assert!(c.undo_stack.is_empty());
    assert!(!c.undo(&mut m));
}

#[test]
fn source_parts_survive_unrelated_delete() {
    let mut m = module();
    m.parts.push(ModulePart { id: 5, kind: PartKind::Source(SourceKind::MediaFile), position: (0.0, 0.0) });
    let mut c = Canvas::new();
    c.selected_parts = vec![1, 3];
    c.safe_delete_selection(&mut m);
    assert_eq!(ids(&m), vec![2, 5]);
    assert!(m.connections.is_empty());
}

#[test]
fn redo_after_undo_of_delete_part_and_connection() {
    let mut m = module();
    let a = CanvasAction::DeletePart { part_data: part(9, 90.0) };
    apply_undo_action(&mut m, &a);
    assert_eq!(ids(&m), vec![1, 2, 3, 9]);
    apply_redo_action(&mut m, &a);
    assert_eq!(ids(&m), vec![1, 2, 3]);
    let c = CanvasAction::DeleteConnection { connection: conn(3, 1) };
    apply_undo_action(&mut m, &c);
    apply_redo_action(&mut m, &c);
    assert_eq!(m.connections, vec![conn(1, 2), conn(2, 3)]);
}

#[test]
fn deletion_leaves_no_dangling_connection() {
    let mut m = module();
    m.connections.push(conn(3, 1));
    let mut c = Canvas::new();
    c.selected_parts = vec![3];
    c.safe_delete_selection(&mut m);
    for k in &m.connections {
        assert!(m.parts.iter().any(|p| p.id == k.from_part));
        assert!(m.parts.iter().any(|p| p.id == k.to_part));
    }
    assert_eq!(m.connections, vec![conn(1, 2)]);
}

#[test]
fn redoing_recorded_batch_on_original_reproduces_deletion() {
    let mut m1 = module();
    m1.parts.push(part(2, 25.0));
    m1.connections.push(conn(3, 1));
    let mut m0 = MapFlowModule { id: m1.id, parts: m1.parts.clone(), connections: m1.connections.clone() };
    let mut c = Canvas::new();
    c.selected_parts = vec![2, 9];
    c.safe_delete_selection(&mut m1);
    let batch = c.undo_stack.last().unwrap();
    apply_redo_action(&mut m0, batch);
    assert_eq!(ids(&m0), ids(&m1));
    assert_eq!(m0.connections, m1.connections);
    assert_eq!(ids(&m1), vec![1, 3]);
    assert_eq!(m1.connections, vec![conn(3, 1)]);
}
