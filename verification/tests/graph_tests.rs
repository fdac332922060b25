use mapmap_ui::graph::{
    find_part_index, next_part_id, part_type_from_module_part_type, remove_connection,
    remove_parts_with_id, set_part_position, LayerKind, MaskKind, ModuleConnection, ModulePart,
    ModulizerKind, OutputKind, PartKind, PartType, SourceKind, TriggerKind, HueKind,
};

fn part(id: u64, kind: PartKind, x: f32, y: f32) -> ModulePart<(f32, f32)> {
    ModulePart { id, kind, position: (x, y) }
}

fn conn(a: u64, b: u64) -> ModuleConnection {
    ModuleConnection { from_part: a, from_socket: 0, to_part: b, to_socket: 0 }
}

#[test]
fn category_of_each_kind() {
    assert_eq!(part_type_from_module_part_type(&PartKind::Trigger(TriggerKind::Beat)), PartType::Trigger);
    assert_eq!(part_type_from_module_part_type(&PartKind::Source(SourceKind::Shader)), PartType::Source);
    assert_eq!(part_type_from_module_part_type(&PartKind::Mask(MaskKind::File)), PartType::Mask);
    assert_eq!(
        part_type_from_module_part_type(&PartKind::Modulizer(ModulizerKind::AudioReactive)),
        PartType::Modulator
    );
    assert_eq!(part_type_from_module_part_type(&PartKind::Mesh), PartType::Mesh);
    assert_eq!(part_type_from_module_part_type(&PartKind::Layer(LayerKind::All)), PartType::Layer);
    assert_eq!(part_type_from_module_part_type(&PartKind::Output(OutputKind::Hue)), PartType::Output);
    assert_eq!(part_type_from_module_part_type(&PartKind::Hue(HueKind::MultiLamp)), PartType::Hue);
}

#[test]
fn find_part_index_finds_first() {
    let parts = vec![
        part(3, PartKind::Mesh, 0.0, 0.0),
        part(5, PartKind::Mesh, 1.0, 0.0),
        part(5, PartKind::Mesh, 2.0, 0.0),
    ];
    assert_eq!(find_part_index(&parts, 5), Some(1));
    assert_eq!(find_part_index(&parts, 3), Some(0));
    assert_eq!(find_part_index(&parts, 9), None);
    assert_eq!(find_part_index::<(f32, f32)>(&Vec::new(), 1), None);
}

#[test]
fn remove_parts_with_id_keeps_order_of_others() {
    let mut parts = vec![
        part(1, PartKind::Mesh, 0.0, 0.0),
        part(2, PartKind::Mesh, 1.0, 0.0),
        part(1, PartKind::Mesh, 2.0, 0.0),
        part(3, PartKind::Mesh, 3.0, 0.0),
    ];
    remove_parts_with_id(&mut parts, 1);
    let ids: Vec<u64> = parts.iter().map(|p| p.id).collect();
    assert_eq!(ids, vec![2, 3]);
    remove_parts_with_id(&mut parts, 7);
    assert_eq!(parts.len(), 2);
}

#[test]
fn remove_connection_removes_all_equal() {
    let mut conns = vec![conn(1, 2), conn(2, 3), conn(1, 2)];
    remove_connection(&mut conns, conn(1, 2));
    assert_eq!(conns, vec![conn(2, 3)]);
    remove_connection(&mut conns, conn(5, 6));
    assert_eq!(conns, vec![conn(2, 3)]);
}

#[test]
fn set_part_position_moves_first_match_only() {
    let mut parts = vec![part(4, PartKind::Mesh, 0.0, 0.0), part(4, PartKind::Mesh, 1.0, 1.0)];
    set_part_position(&mut parts, 4, (9.0, 8.0));
    assert_eq!(parts[0].position, (9.0, 8.0));
    assert_eq!(parts[1].position, (1.0, 1.0));
    set_part_position(&mut parts, 5, (0.0, 0.0));
    assert_eq!(parts[0].position, (9.0, 8.0));
}

#[test]
fn next_part_id_is_max_plus_one() {
    let parts = vec![part(4, PartKind::Mesh, 0.0, 0.0), part(9, PartKind::Mesh, 0.0, 0.0), part(2, PartKind::Mesh, 0.0, 0.0)];
    assert_eq!(next_part_id(&parts), 10);
    assert_eq!(next_part_id::<(f32, f32)>(&Vec::new()), 1);
}
