use mapmap_ui::graph::{
    BlendModeKind, EffectKind, HueKind, LayerKind, MaskKind, MaskShape, ModuleSocketType,
    ModulizerKind, OutputKind, PartKind, SourceKind, TriggerKind,
};
use mapmap_ui::style::{
    get_cable_socket_type, get_part_category, get_part_style, get_plug_icon, get_socket_color,
    get_sockets_for_part_type, Rgb,
};

#[test]
fn trigger_style() {
    let s = get_part_style(&PartKind::Trigger(TriggerKind::Fixed));
    assert_eq!(s.background, Rgb { r: 60, g: 50, b: 70 });
    assert_eq!(s.title, Rgb { r: 130, g: 80, b: 180 });
    assert_eq!(s.icon, "\u{26A1}");
    assert_eq!(s.name, "Fixed Timer");
    assert_eq!(get_part_style(&PartKind::Trigger(TriggerKind::Midi { channel: 1, note: 2 })).name, "MIDI");
}

#[test]
fn source_styles() {
    let media = get_part_style(&PartKind::Source(SourceKind::MediaFile));
    assert_eq!(media.name, "Media File");
    assert_eq!(media.title, Rgb { r: 80, g: 140, b: 180 });
    let text = get_part_style(&PartKind::Source(SourceKind::Bevy3DText));
    assert_eq!(text.icon, "T");
    assert_eq!(text.title, Rgb { r: 100, g: 220, b: 180 });
    assert_eq!(text.background, Rgb { r: 40, g: 60, b: 80 });
    let cam = get_part_style(&PartKind::Source(SourceKind::BevyCamera));
    assert_eq!(cam.title, Rgb { r: 180, g: 100, b: 220 });
    assert_eq!(get_part_style(&PartKind::Source(SourceKind::Bevy3DModel)).name, "3D Model");
    assert_eq!(get_part_style(&PartKind::Source(SourceKind::VideoMulti)).name, "Video (Multi)");
}

#[test]
fn other_styles() {
    assert_eq!(get_part_style(&PartKind::Mask(MaskKind::Shape(MaskShape::Star))).name, "Star");
    assert_eq!(get_part_style(&PartKind::Mask(MaskKind::File)).name, "File Mask");
    assert_eq!(
        get_part_style(&PartKind::Modulizer(ModulizerKind::Effect(EffectKind::ChromaticAberration))).name,
        "Chromatic"
    );
    assert_eq!(get_part_style(&PartKind::Modulizer(ModulizerKind::BlendMode(BlendModeKind::Screen))).name, "Screen");
    let mesh = get_part_style(&PartKind::Mesh);
    assert_eq!(mesh.name, "Mesh");
    assert_eq!(mesh.background, Rgb { r: 60, g: 60, b: 80 });
    assert_eq!(get_part_style(&PartKind::Layer(LayerKind::Group)).name, "Layer Group");
    assert_eq!(get_part_style(&PartKind::Output(OutputKind::Hue)).name, "Philips Hue");
    let hue = get_part_style(&PartKind::Hue(HueKind::EntertainmentGroup));
    assert_eq!(hue.name, "Entertainment Group");
    assert_eq!(hue.icon, "\u{1F4A1}");
}

#[test]
fn categories() {
    assert_eq!(get_part_category(&PartKind::Modulizer(ModulizerKind::AudioReactive)), "Modulator");
    assert_eq!(get_part_category(&PartKind::Output(OutputKind::Spout)), "Output");
    assert_eq!(get_part_category(&PartKind::Hue(HueKind::SingleLamp)), "Hue");
}

#[test]
fn socket_colors_and_plugs() {
    assert_eq!(get_socket_color(&ModuleSocketType::Trigger), Rgb { r: 180, g: 100, b: 220 });
    assert_eq!(get_socket_color(&ModuleSocketType::Link), Rgb { r: 200, g: 200, b: 200 });
    assert_eq!(get_socket_color(&ModuleSocketType::Output), Rgb { r: 220, g: 100, b: 100 });
    assert_eq!(get_plug_icon(&ModuleSocketType::Trigger), "audio-jack.svg");
    assert_eq!(get_plug_icon(&ModuleSocketType::Effect), "usb-cable.svg");
    assert_eq!(get_plug_icon(&ModuleSocketType::Link), "power-plug.svg");
}

#[test]
fn sockets_of_new_parts() {
    let (i, o) = get_sockets_for_part_type(&PartKind::Hue(HueKind::MultiLamp));
    let names: Vec<&str> = i.iter().map(|s| s.name.as_str()).collect();
    assert_eq!(names, vec!["Brightness", "Color (RGB)", "Strobe"]);
    assert_eq!(i[1].socket_type, ModuleSocketType::Media);
    assert!(o.is_empty());
    let (i, o) = get_sockets_for_part_type(&PartKind::Trigger(TriggerKind::Beat));
    assert!(i.is_empty());
    assert_eq!(o.len(), 1);
    assert_eq!(o[0].name, "Trigger Out");
    let (i, o) = get_sockets_for_part_type(&PartKind::Mask(MaskKind::Gradient));
    assert_eq!(i.len(), 2);
    assert_eq!(i[1].name, "Mask In");
    assert_eq!(o[0].name, "Media Out");
    let (i, o) = get_sockets_for_part_type(&PartKind::Mesh);
    assert!(i.is_empty() && o.is_empty());
    let (i, o) = get_sockets_for_part_type(&PartKind::Output(OutputKind::NdiOutput));
    assert_eq!(i[0].name, "Layer In");
    assert_eq!(i[0].socket_type, ModuleSocketType::Layer);
    assert!(o.is_empty());
}

#[test]
fn cable_color_type() {
    let outs = vec![ModuleSocketType::Trigger];
    let ins = vec![ModuleSocketType::Layer, ModuleSocketType::Effect];
    assert_eq!(get_cable_socket_type(&outs, 0, &ins, 1), ModuleSocketType::Trigger);
    assert_eq!(get_cable_socket_type(&outs, 3, &ins, 1), ModuleSocketType::Effect);
    assert_eq!(get_cable_socket_type(&outs, 3, &ins, 4), ModuleSocketType::Media);
}
