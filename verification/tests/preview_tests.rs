use mapmap_ui::graph::{LayerKind, MapFlowModule, MaskKind, ModuleConnection, ModulePart, OutputKind, PartKind, SourceKind, TriggerKind};
use mapmap_ui::preview::{build_preview_context, sort_dedup};

fn part(id: u64, kind: PartKind) -> ModulePart<(f32, f32)> {
    ModulePart { id, kind, position: (0.0, 0.0) }
}

fn conn(a: u64, b: u64) -> ModuleConnection {
    ModuleConnection { from_part: a, from_socket: 0, to_part: b, to_socket: 0 }
}

fn module() -> MapFlowModule<(f32, f32)> {
    MapFlowModule {
        id: 1,
        parts: vec![
            part(1, PartKind::Source(SourceKind::MediaFile)),
            part(2, PartKind::Mask(MaskKind::File)),
            part(3, PartKind::Layer(LayerKind::All)),
            part(4, PartKind::Output(OutputKind::Projector { id: 11 })),
            part(5, PartKind::Output(OutputKind::Projector { id: 5 })),
            part(6, PartKind::Trigger(TriggerKind::Beat)),
        ],
        connections: vec![conn(6, 1), conn(1, 2), conn(2, 3), conn(3, 4), conn(3, 5), conn(2, 3)],
    }
}

#[test]
fn preview_of_mask() {
    let ctx = build_preview_context(&module(), 2);
    assert_eq!(ctx.output_ids, vec![5, 11]);
    assert_eq!(ctx.upstream_source_part_ids, vec![1]);
}

#[test]
fn preview_of_source_stops_at_itself() {
    let ctx = build_preview_context(&module(), 1);
    assert_eq!(ctx.upstream_source_part_ids, vec![1]);
    assert_eq!(ctx.output_ids, vec![5, 11]);
}

#[test]
fn preview_of_trigger_and_output() {
    let ctx = build_preview_context(&module(), 6);
    assert_eq!(ctx.output_ids, vec![5, 11]);
    assert!(ctx.upstream_source_part_ids.is_empty());
    let out = build_preview_context(&module(), 4);
    assert!(out.output_ids.is_empty());
    assert_eq!(out.upstream_source_part_ids, vec![1]);
}

#[test]
fn preview_with_cycle_terminates() {
    let mut m = module();
    m.connections.push(conn(3, 2));
    let ctx = build_preview_context(&m, 3);
    assert_eq!(ctx.output_ids, vec![5, 11]);
    assert_eq!(ctx.upstream_source_part_ids, vec![1]);
}

#[test]
fn sort_dedup_sorts_and_removes_repeats() {
    let mut v = vec![5, 1, 5, 3, 1];
    sort_dedup(&mut v);
    assert_eq!(v, vec![1, 3, 5]);
}
