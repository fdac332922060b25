use mapmap_ui::graph::{
    EffectKind, LayerKind, MapFlowModule, MaskKind, MaskShape, ModuleConnection, ModulePart,
    ModulizerKind, OutputKind, PartKind, PartType, SourceKind, TriggerKind,
};
use mapmap_ui::layout::{
    add_module_node, auto_layout_parts, default_node_position, default_presets,
    generate_unique_layer_id, load_preset, ModulePreset,
};

fn part(id: u64, kind: PartKind) -> ModulePart<(f32, f32)> {
    ModulePart { id, kind, position: (0.0, 0.0) }
}

#[test]
fn auto_layout_columns_by_kind() {
    let parts = vec![
        part(1, PartKind::Output(OutputKind::Projector { id: 1 })),
        part(2, PartKind::Trigger(TriggerKind::Beat)),
        part(3, PartKind::Source(SourceKind::MediaFile)),
        part(4, PartKind::Trigger(TriggerKind::Random)),
    ];
    let pos = auto_layout_parts(&parts);
    assert_eq!(pos, vec![(650, 50), (50, 50), (350, 50), (50, 230)]);
}

#[test]
fn auto_layout_places_no_two_parts_together() {
    let parts = vec![
        part(1, PartKind::Mesh),
        part(2, PartKind::Mesh),
        part(3, PartKind::Hue(mapmap_ui::graph::HueKind::SingleLamp)),
        part(4, PartKind::Layer(LayerKind::Group)),
        part(5, PartKind::Mesh),
    ];
    let pos = auto_layout_parts(&parts);
    for i in 0..pos.len() {
        for j in (i + 1)..pos.len() {
            assert_ne!(pos[i], pos[j]);
        }
    }
    assert_eq!(pos[0], (50, 50));
    assert_eq!(pos[4], (50, 410));
    assert_eq!(pos[2], (650, 50));
}

#[test]
fn auto_layout_of_nothing() {
    assert!(auto_layout_parts::<(f32, f32)>(&Vec::new()).is_empty());
}

#[test]
fn unique_layer_id() {
    assert_eq!(generate_unique_layer_id::<(f32, f32)>(None), 1);
    let m = MapFlowModule {
        id: 1,
        parts: vec![
            part(1, PartKind::Layer(LayerKind::Single { id: 3 })),
            part(2, PartKind::Layer(LayerKind::Single { id: 7 })),
            part(3, PartKind::Layer(LayerKind::Group)),
        ],
        connections: vec![],
    };
    assert_eq!(generate_unique_layer_id(Some(&m)), 8);
    let empty: MapFlowModule<(f32, f32)> = MapFlowModule { id: 2, parts: vec![part(1, PartKind::Mesh)], connections: vec![] };
    assert_eq!(generate_unique_layer_id(Some(&empty)), 1);
}

#[test]
fn add_node_takes_next_id() {
    let mut m = MapFlowModule { id: 1, parts: vec![part(1, PartKind::Mesh), part(5, PartKind::Mesh)], connections: vec![] };
    let id = add_module_node(&mut m, PartKind::Trigger(TriggerKind::Beat), (3.0, 4.0));
    assert_eq!(id, 6);
    assert_eq!(m.parts.len(), 3);
    assert_eq!(m.parts[2].id, 6);
    assert_eq!(m.parts[2].position, (3.0, 4.0));
    let id2 = add_module_node(&mut m, PartKind::Mesh, (0.0, 0.0));
    assert_eq!(id2, 7);
    let mut all: Vec<u64> = m.parts.iter().map(|p| p.id).collect();
    all.sort();
    all.dedup();
    assert_eq!(all.len(), m.parts.len());
}

#[test]
fn load_preset_renumbers_and_drops_bad_links() {
    let mut m = MapFlowModule { id: 9, parts: vec![part(40, PartKind::Mesh)], connections: vec![] };
    let preset = ModulePreset {
        name: "p".to_string(),
        parts: vec![(PartKind::Trigger(TriggerKind::Beat), (1.0, 2.0)), (PartKind::Mesh, (3.0, 4.0))],
        connections: vec![(0, 0, 1, 0), (1, 0, 5, 0)],
    };
    load_preset(&mut m, &preset);
    assert_eq!(m.id, 9);
    assert_eq!(m.parts.len(), 2);
    assert_eq!(m.parts[0].id, 1);
    assert_eq!(m.parts[1].id, 2);
    assert_eq!(m.parts[1].position, (3.0, 4.0));
    assert_eq!(m.connections, vec![ModuleConnection { from_part: 1, from_socket: 0, to_part: 2, to_socket: 0 }]);
}

#[test]
fn built_in_presets() {
    let p = default_presets(false);
    assert_eq!(p.len(), 6);
    let names: Vec<&str> = p.iter().map(|x| x.name.as_str()).collect();
    assert_eq!(names, vec!["Simple Media Chain", "Effect Chain", "Audio Reactive", "Masked Media", "NDI Source", "NDI Output"]);
    assert_eq!(p[0].parts[0], (PartKind::Trigger(TriggerKind::Beat), (50, 100)));
    assert_eq!(p[0].parts[2], (PartKind::Output(OutputKind::Projector { id: 1 }), (650, 100)));
    assert_eq!(p[0].connections, vec![(0, 0, 1, 0), (1, 0, 2, 0)]);
    assert_eq!(p[1].parts[2].0, PartKind::Modulizer(ModulizerKind::Effect(EffectKind::Blur)));
    assert_eq!(p[2].parts.len(), 5);
    assert_eq!(p[2].parts[4].1, (1250, 100));
    assert_eq!(p[2].connections.len(), 4);
    assert_eq!(p[3].parts[2].0, PartKind::Mask(MaskKind::Shape(MaskShape::Circle)));
    assert_eq!(p[4].parts[1].0, PartKind::Source(SourceKind::NdiInput));
    assert_eq!(p[5].parts[2].0, PartKind::Output(OutputKind::NdiOutput));
    let w = default_presets(true);
    assert_eq!(w.len(), 8);
    assert_eq!(w[6].name, "Spout Source");
    assert_eq!(w[7].parts[2].0, PartKind::Output(OutputKind::Spout));
}

#[test]
fn default_places_of_new_nodes() {
    assert_eq!(default_node_position(PartType::Trigger), Some((100, 100)));
    assert_eq!(default_node_position(PartType::Layer), Some((400, 200)));
    assert_eq!(default_node_position(PartType::Hue), Some((500, 100)));
    assert_eq!(default_node_position(PartType::Mesh), None);
}
