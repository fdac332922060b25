use mapmap_ui::canvas::{
    connect_sockets, delete_part, is_valid_connection_target, move_part, remove_connection_at,
    MediaPlaybackCommand, ModuleCanvas, SocketRef,
};
use mapmap_ui::graph::{
    LayerKind, MapFlowModule, ModuleConnection, ModulePart, ModuleSocketType, PartKind, SourceKind,
    TriggerKind,
};
use mapmap_ui::layout::ModulePreset;
use mapmap_ui::midi::MidiMessage;

type Canvas = ModuleCanvas<(f32, f32), f32, f64>;

fn part(id: u64, kind: PartKind) -> ModulePart<(f32, f32)> {
    ModulePart { id, kind, position: (0.0, 0.0) }
}

fn conn(a: u64, b: u64) -> ModuleConnection {
    ModuleConnection { from_part: a, from_socket: 0, to_part: b, to_socket: 0 }
}

fn module() -> MapFlowModule<(f32, f32)> {
    MapFlowModule {
        id: 1,
        parts: vec![
            part(1, PartKind::Trigger(TriggerKind::Midi { channel: 0, note: 0 })),
            part(2, PartKind::Source(SourceKind::MediaFile)),
            part(3, PartKind::Source(SourceKind::Shader)),
            part(4, PartKind::Source(SourceKind::MediaFile)),
        ],
        connections: vec![conn(1, 2), conn(2, 3), conn(3, 4)],
    }
}

fn ids(m: &MapFlowModule<(f32, f32)>) -> Vec<u64> {
    m.parts.iter().map(|p| p.id).collect()
}

#[test]
fn new_canvas_is_empty() {
    let c = Canvas::new();
    assert!(c.selected_parts.is_empty());
    assert!(c.undo_stack.is_empty() && c.redo_stack.is_empty());
    assert_eq!(c.active_module_id(), None);
    assert_eq!(c.get_selected_part_id(), None);
    let d = Canvas::default();
    assert!(d.pending_playback_commands.is_empty());
}

#[test]
fn active_module_round_trip() {
    let mut c = Canvas::new();
    c.set_active_module(Some(12));
    assert_eq!(c.active_module_id(), Some(12));
    c.set_active_module(None);
    assert_eq!(c.active_module_id(), None);
}

#[test]
fn click_selection() {
    let mut c = Canvas::new();
    c.click_part(2, false);
    assert_eq!(c.selected_parts, vec![2]);
    c.click_part(3, true);
    assert_eq!(c.selected_parts, vec![2, 3]);
    c.click_part(2, true);
    assert_eq!(c.selected_parts, vec![2, 3]);
    c.click_part(4, false);
    assert_eq!(c.selected_parts, vec![4]);
    assert_eq!(c.get_selected_part_id(), Some(4));
}

#[test]
fn shift_click_toggles() {
    let mut c = Canvas::new();
    c.toggle_part_selection(1);
    c.toggle_part_selection(2);
    assert_eq!(c.selected_parts, vec![1, 2]);
    c.toggle_part_selection(1);
    assert_eq!(c.selected_parts, vec![2]);
}

#[test]
fn box_select_replaces_or_extends() {
    let mut c = Canvas::new();
    c.selected_parts = vec![9];
    c.box_select(&vec![1, 2, 1], false);
    assert_eq!(c.selected_parts, vec![1, 2]);
    c.box_select(&vec![2, 3], true);
    assert_eq!(c.selected_parts, vec![1, 2, 3]);
}

#[test]
fn select_all_and_escape() {
    let m = module();
    let mut c = Canvas::new();
    c.select_all(&m);
    assert_eq!(c.selected_parts, vec![1, 2, 3, 4]);
    c.show_search = true;
    c.escape_pressed();
    assert!(!c.show_search);
    assert_eq!(c.selected_parts.len(), 4);
    c.escape_pressed();
    assert!(c.selected_parts.is_empty());
}

#[test]
fn toggle_search_clears_text_when_opening() {
    let mut c = Canvas::new();
    c.search_filter = "abc".to_string();
    c.toggle_search();
    assert!(c.show_search);
    assert_eq!(c.search_filter, "");
    c.search_filter = "x".to_string();
    c.toggle_search();
    assert!(!c.show_search);
    assert_eq!(c.search_filter, "x");
}

#[test]
fn select_only_and_moving_parts() {
    let mut c = Canvas::new();
    c.selected_parts = vec![1, 2];
    assert_eq!(c.moving_part_ids(2), vec![1, 2]);
    assert_eq!(c.moving_part_ids(3), vec![3]);
    c.select_only(3);
    assert_eq!(c.selected_parts, vec![3]);
}

#[test]
fn space_toggles_selected_media_files() {
    let m = module();
    let mut c = Canvas::new();
    c.selected_parts = vec![4, 3, 2, 1, 8];
    c.toggle_playback_of_selection(&m, &vec![2]);
    let cmds = c.take_playback_commands();
    assert_eq!(cmds.len(), 2);
    assert_eq!(cmds[0].0, 4);
    assert!(matches!(cmds[0].1, MediaPlaybackCommand::Play));
    assert_eq!(cmds[1].0, 2);
    assert!(matches!(cmds[1].1, MediaPlaybackCommand::Pause));
    assert!(c.take_playback_commands().is_empty());
}

#[test]
fn midi_learn_control_change() {
    let mut m = module();
    let mut c = Canvas::new();
    c.toggle_midi_learn(1);
    assert_eq!(c.midi_learn_part_id, Some(1));
    c.process_midi_message(&MidiMessage::Other);
    assert_eq!(c.midi_learn_part_id, Some(1));
    c.process_midi_message(&MidiMessage::ControlChange { channel: 3, controller: 17, value: 100 });
    assert_eq!(c.midi_learn_part_id, None);
    assert_eq!(c.learned_midi, Some((1, 3, 17, false)));
    c.apply_learned_midi(&mut m);
    assert_eq!(c.learned_midi, None);
    assert_eq!(m.parts[0].kind, PartKind::Trigger(TriggerKind::Midi { channel: 3, note: 17 }));
}

#[test]
fn midi_learn_note_on_and_toggle_off() {
    let mut c = Canvas::new();
    c.toggle_midi_learn(5);
    c.toggle_midi_learn(5);
    assert_eq!(c.midi_learn_part_id, None);
    c.process_midi_message(&MidiMessage::NoteOn { channel: 1, note: 60, velocity: 90 });
    assert_eq!(c.learned_midi, None);
    c.toggle_midi_learn(5);
    c.process_midi_message(&MidiMessage::NoteOff { channel: 1, note: 60 });
    assert_eq!(c.midi_learn_part_id, Some(5));
    c.process_midi_message(&MidiMessage::NoteOn { channel: 1, note: 60, velocity: 90 });
    assert_eq!(c.learned_midi, Some((5, 1, 60, true)));
}

#[test]
fn learned_midi_ignores_other_parts() {
    let mut m = module();
    let mut c = Canvas::new();
    c.learned_midi = Some((2, 4, 5, true));
    c.apply_learned_midi(&mut m);
    assert_eq!(m.parts[1].kind, PartKind::Source(SourceKind::MediaFile));
    assert_eq!(c.learned_midi, None);
}

#[test]
fn delete_key_removes_selection_without_undo() {
    let mut m = module();
    let mut c = Canvas::new();
    c.selected_parts = vec![2, 4];
    c.delete_selected_parts(&mut m);
    assert_eq!(ids(&m), vec![1, 3]);
    assert!(m.connections.is_empty());
    assert!(c.selected_parts.is_empty());
    assert!(c.undo_stack.is_empty());
}

#[test]
fn delete_part_removes_its_connections() {
    let mut m = module();
    delete_part(&mut m, 3);
    assert_eq!(ids(&m), vec![1, 2, 4]);
    assert_eq!(m.connections, vec![conn(1, 2)]);
    for k in &m.connections {
        assert!(m.parts.iter().any(|p| p.id == k.from_part) && m.parts.iter().any(|p| p.id == k.to_part));
    }
}

#[test]
fn remove_connection_by_index() {
    let mut m = module();
    remove_connection_at(&mut m, 1);
    assert_eq!(m.connections, vec![conn(1, 2), conn(3, 4)]);
    remove_connection_at(&mut m, 5);
    assert_eq!(m.connections.len(), 2);
}

#[test]
fn connecting_sockets_orients_output_to_input() {
    let mut m = module();
    m.connections.clear();
    let out = SocketRef { part_id: 2, socket_idx: 0, is_output: true, socket_type: ModuleSocketType::Media };
    let inp = SocketRef { part_id: 3, socket_idx: 1, is_output: false, socket_type: ModuleSocketType::Media };
    assert!(is_valid_connection_target(&out, &inp));
    assert!(connect_sockets(&mut m, &inp, &out));
    assert_eq!(m.connections, vec![ModuleConnection { from_part: 2, from_socket: 0, to_part: 3, to_socket: 1 }]);
    let same_side = SocketRef { part_id: 4, socket_idx: 0, is_output: true, socket_type: ModuleSocketType::Media };
    assert!(!is_valid_connection_target(&out, &same_side));
    assert!(!connect_sockets(&mut m, &out, &same_side));
    let trig = SocketRef { part_id: 4, socket_idx: 0, is_output: false, socket_type: ModuleSocketType::Trigger };
    assert!(!is_valid_connection_target(&out, &trig));
    assert_eq!(m.connections.len(), 1);
}

#[test]
fn mesh_editor_loads_once_per_part() {
    let mut c = Canvas::new();
    assert!(c.begin_mesh_edit(4, &PartKind::Layer(LayerKind::Single { id: 1 })));
    assert_eq!(c.last_mesh_edit_id, Some(4));
    assert!(!c.begin_mesh_edit(4, &PartKind::Layer(LayerKind::Single { id: 1 })));
    assert!(!c.begin_mesh_edit(5, &PartKind::Layer(LayerKind::All)));
    assert!(c.begin_mesh_edit(6, &PartKind::Mesh));
    assert_eq!(c.last_mesh_edit_id, Some(6));
}

#[test]
fn presets_popup_and_media_controls() {
    let mut c = Canvas::new();
    c.toggle_presets();
    assert!(c.show_presets);
    c.toggle_presets();
    assert!(!c.show_presets);
    c.queue_playback_command(3, MediaPlaybackCommand::Seek(12.5));
    c.queue_playback_command(3, MediaPlaybackCommand::SetSpeed(2.0));
    let cmds = c.take_playback_commands();
    assert!(matches!(cmds[0], (3, MediaPlaybackCommand::Seek(t)) if t == 12.5));
    assert!(matches!(cmds[1], (3, MediaPlaybackCommand::SetSpeed(s)) if s == 2.0));
}

#[test]
fn choosing_a_preset_loads_it_and_closes_popup() {
    let mut m = module();
    let mut c = Canvas::new();
    c.show_presets = true;
    let p = ModulePreset {
        name: "two".to_string(),
        parts: vec![(PartKind::Mesh, (1.0, 1.0)), (PartKind::Mesh, (2.0, 2.0))],
        connections: vec![(0, 0, 1, 0)],
    };
    c.choose_preset(&mut m, &p);
    assert!(!c.show_presets);
    assert_eq!(ids(&m), vec![1, 2]);
    assert_eq!(m.connections, vec![conn(1, 2)]);
}

#[test]
fn hue_discovery_status() {
    let mut c = Canvas::new();
    c.begin_hue_discovery(true);
    assert_eq!(c.hue_status_message.as_deref(), Some("Searching..."));
    c.begin_hue_discovery(false);
    assert_eq!(c.hue_status_message.as_deref(), Some("Async runtime not available"));
}

#[test]
fn default_canvas_is_new_canvas() {
    let d = Canvas::default();
    assert!(!d.show_search && !d.show_presets && !d.show_diagnostics);
    assert!(d.search_filter.is_empty() && d.new_preset_name.is_empty());
    assert!(d.pending_delete.is_none() && d.editing_part_id.is_none());
    assert!(d.context_menu_part.is_none() && d.context_menu_connection.is_none());
    assert!(d.available_outputs.is_empty() && d.hue_status_message.is_none());
}

#[test]
fn copy_and_paste() {
    let mut m = module();
    let mut c = Canvas::new();
    c.selected_parts = vec![4, 2];
    let copied = c.copy_selection(&m);
    let copied_ids: Vec<u64> = copied.iter().map(|p| p.id).collect();
    assert_eq!(copied_ids, vec![2, 4]);
    let items: Vec<(PartKind, (f32, f32))> = copied.iter().map(|p| (p.kind, (p.position.0 + 50.0, p.position.1))).collect();
    c.paste_parts(&mut m, &items);
    assert_eq!(ids(&m), vec![1, 2, 3, 4, 5, 6]);
    assert_eq!(c.selected_parts, vec![5, 6]);
    assert_eq!(m.parts[4].kind, PartKind::Source(SourceKind::MediaFile));
    assert_eq!(m.parts[5].position, (50.0, 0.0));
    assert_eq!(m.connections.len(), 3);
}

#[test]
fn properties_window_closes_for_missing_part() {
    let m = module();
    let mut c = Canvas::new();
    assert_eq!(c.edited_part(&m), None);
    c.editing_part_id = Some(3);
    assert_eq!(c.edited_part(&m), Some(2));
    assert_eq!(c.editing_part_id, Some(3));
    c.editing_part_id = Some(42);
    assert_eq!(c.edited_part(&m), None);
    assert_eq!(c.editing_part_id, None);
}

#[test]
fn context_menus() {
    let mut c = Canvas::new();
    c.open_connection_menu(2);
    c.open_part_menu(7);
    assert_eq!(c.context_menu_part, Some(7));
    assert_eq!(c.context_menu_connection, None);
    c.open_connection_menu(1);
    assert_eq!(c.context_menu_part, None);
    assert_eq!(c.context_menu_connection, Some(1));
    c.close_menus();
    assert!(c.context_menu_part.is_none() && c.context_menu_connection.is_none());
}

fn closed(m: &MapFlowModule<(f32, f32)>) -> bool {
    m.connections.iter().all(|c| {
        m.parts.iter().any(|p| p.id == c.from_part) && m.parts.iter().any(|p| p.id == c.to_part)
    })
}

#[test]
fn dragging_moves_only_the_first_part_with_the_id() {
    let mut m = module();
    move_part(&mut m, 3, (12.5, -4.0));
    assert_eq!(m.parts[2].position, (12.5, -4.0));
    assert_eq!(m.parts[1].position, (0.0, 0.0));
    assert_eq!(ids(&m), vec![1, 2, 3, 4]);
    assert_eq!(m.connections.len(), 3);
    move_part(&mut m, 99, (1.0, 1.0));
    assert!(m.parts.iter().all(|p| p.position != (1.0, 1.0)));
}

#[test]
fn connections_stay_between_existing_parts_over_a_session() {
    let mut m = module();
    let mut c = Canvas::new();
    assert!(closed(&m));
    c.selected_parts = vec![2];
    c.safe_delete_selection(&mut m);
    assert!(closed(&m));
    assert!(c.undo(&mut m));
    assert!(closed(&m));
    assert_eq!(m.connections.len(), 3);
    assert!(c.redo(&mut m));
    assert!(closed(&m));
    let from = SocketRef { part_id: 1, socket_idx: 0, is_output: true, socket_type: ModuleSocketType::Trigger };
    let to = SocketRef { part_id: 3, socket_idx: 0, is_output: false, socket_type: ModuleSocketType::Trigger };
    connect_sockets(&mut m, &from, &to);
    delete_part(&mut m, 4);
    assert!(closed(&m));
}

#[test]
fn undo_after_an_unrecorded_deletion_can_leave_a_dangling_cable() {
    let mut m = module();
    let mut c = Canvas::new();
    c.selected_parts = vec![2];
    c.safe_delete_selection(&mut m);
    delete_part(&mut m, 1);
    assert!(closed(&m));
    assert!(c.undo(&mut m));
    assert!(!closed(&m));
}
