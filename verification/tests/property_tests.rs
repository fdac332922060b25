use mapmap_ui::graph::{
    BlendModeKind, EffectKind, HueKind, LayerKind, MapFlowModule, MaskKind, MaskShape, ModulePart,
    ModulizerKind, OutputKind, PartKind, SourceKind, TriggerKind,
};
use mapmap_ui::property::{
    decimal_text, get_part_property_text, property_texts, signed_decimal_text, CameraMode,
    PartDetails,
};
use mapmap_ui::search::{search_parts, search_parts_by_details};

fn details() -> PartDetails {
    PartDetails {
        path: String::new(),
        name: String::new(),
        address: String::new(),
        key_code: String::new(),
        band: String::new(),
        interval_ms: 0,
        device_id: 0,
        source_name: None,
        shared_id: String::new(),
        text: String::new(),
        camera: CameraMode::Orbit,
        shape: String::new(),
        angle_degrees: 0,
        audio_source: String::new(),
        bridge_ip: String::new(),
    }
}

fn text(kind: PartKind, d: &PartDetails) -> String {
    get_part_property_text(&kind, d)
}

#[test]
fn decimal_numbers() {
    assert_eq!(decimal_text(0), "0");
    assert_eq!(decimal_text(7), "7");
    assert_eq!(decimal_text(1250), "1250");
    assert_eq!(decimal_text(u64::MAX), u64::MAX.to_string());
    assert_eq!(signed_decimal_text(-45), "-45");
    assert_eq!(signed_decimal_text(i32::MIN), i32::MIN.to_string());
    assert_eq!(signed_decimal_text(90), "90");
}

#[test]
fn trigger_lines() {
    let mut d = details();
    assert_eq!(
        text(PartKind::Trigger(TriggerKind::Midi { channel: 1, note: 64 }), &d),
        "\u{1F3B9} Ch1 N64"
    );
    d.interval_ms = 500;
    assert_eq!(text(PartKind::Trigger(TriggerKind::Fixed), &d), "\u{23F1}\u{FE0F}\u{EF}\u{B8}  500ms");
    d.address = "/beat".to_string();
    assert_eq!(text(PartKind::Trigger(TriggerKind::Osc), &d), "\u{1F4E1} /beat");
    d.band = "Bass".to_string();
    assert_eq!(text(PartKind::Trigger(TriggerKind::AudioFft), &d), "\u{1F50A} Audio: Bass");
    assert_eq!(text(PartKind::Trigger(TriggerKind::Beat), &d), "\u{1F941} Beat");
    assert_eq!(text(PartKind::Trigger(TriggerKind::Random), &d), "\u{1F3B2} Random");
}

#[test]
fn file_lines_show_the_file_name() {
    let mut d = details();
    assert_eq!(text(PartKind::Source(SourceKind::MediaFile), &d), "\u{1F4C1} Select file...");
    assert_eq!(text(PartKind::Source(SourceKind::VideoUni), &d), "\u{1F4C1} Select video...");
    assert_eq!(text(PartKind::Source(SourceKind::ImageUni), &d), "\u{1F5BC} Select image...");
    assert_eq!(text(PartKind::Mask(MaskKind::File), &d), "\u{1F4C1} Select mask...");
    d.path = "C:\\clips/intro.mp4".to_string();
    assert_eq!(text(PartKind::Source(SourceKind::MediaFile), &d), "\u{1F4C1} intro.mp4");
    assert_eq!(text(PartKind::Source(SourceKind::VideoUni), &d), "\u{1F4F9} intro.mp4");
    assert_eq!(
        text(PartKind::Source(SourceKind::Bevy3DModel), &d),
        "\u{1F3AE} Model: C:\\clips/intro.mp4"
    );
}

#[test]
fn source_lines() {
    let mut d = details();
    assert_eq!(text(PartKind::Source(SourceKind::NdiInput), &d), "\u{1F4E1} None");
    d.source_name = Some("Studio".to_string());
    assert_eq!(text(PartKind::Source(SourceKind::NdiInput), &d), "\u{1F4E1} Studio");
    d.device_id = 2;
    assert_eq!(text(PartKind::Source(SourceKind::LiveInput), &d), "\u{1F4F9} Device 2");
    d.text = "Hello wide world".to_string();
    assert_eq!(text(PartKind::Source(SourceKind::Bevy3DText), &d), "T: Hello wide");
    d.text = "Hi".to_string();
    assert_eq!(text(PartKind::Source(SourceKind::Bevy3DText), &d), "T: Hi");
    d.camera = CameraMode::Fly;
    assert_eq!(text(PartKind::Source(SourceKind::BevyCamera), &d), "\u{1F3A5} Fly");
    d.shared_id = "wall".to_string();
    assert_eq!(text(PartKind::Source(SourceKind::VideoMulti), &d), "\u{1F4F9} Shared: wall");
}

#[test]
fn mask_modulator_and_output_lines() {
    let mut d = details();
    assert_eq!(text(PartKind::Mask(MaskKind::Shape(MaskShape::Star)), &d), "\u{1F537} Star");
    d.angle_degrees = -45;
    assert_eq!(text(PartKind::Mask(MaskKind::Gradient), &d), "\u{1F308} Gradient -45\u{C2}\u{B0}");
    assert_eq!(
        text(PartKind::Modulizer(ModulizerKind::Effect(EffectKind::HueShift)), &d),
        "\u{2728} Hue Shift"
    );
    assert_eq!(
        text(PartKind::Modulizer(ModulizerKind::BlendMode(BlendModeKind::Multiply)), &d),
        "\u{1F504} Multiply"
    );
    assert_eq!(text(PartKind::Mesh, &d), "\u{1F578}\u{FE0F}\u{EF}\u{B8}  Mesh");
    assert_eq!(text(PartKind::Output(OutputKind::Hue), &d), "\u{1F4A1} Not Connected");
    d.bridge_ip = "10.0.0.2".to_string();
    assert_eq!(text(PartKind::Output(OutputKind::Hue), &d), "\u{1F4A1} 10.0.0.2");
    d.name = "Beamer".to_string();
    assert_eq!(
        text(PartKind::Output(OutputKind::Projector { id: 1 }), &d),
        "\u{1F4FA} Beamer"
    );
    assert_eq!(text(PartKind::Layer(LayerKind::All), &d), "\u{1F4D1} All Layers");
    assert_eq!(text(PartKind::Hue(HueKind::MultiLamp), &d), "\u{1F4A1}\u{1F4A1} Beamer");
}

#[test]
fn search_finds_parts_by_property_line() {
    let module = MapFlowModule {
        id: 1,
        parts: vec![
            ModulePart { id: 1, kind: PartKind::Source(SourceKind::MediaFile), position: (0.0f32, 0.0f32) },
            ModulePart { id: 2, kind: PartKind::Source(SourceKind::Shader), position: (0.0, 0.0) },
        ],
        connections: vec![],
    };
    let mut a = details();
    a.path = "/media/Sunset.MOV".to_string();
    let mut b = details();
    b.name = "plasma".to_string();
    let details = vec![a, b];
    let texts = property_texts(&module.parts, &details);
    assert_eq!(texts, vec!["\u{1F4C1} Sunset.MOV".to_string(), "\u{1F3A8} plasma".to_string()]);
    assert_eq!(search_parts("sunset", &module.parts, &texts), vec![0]);
    assert_eq!(search_parts("PLASMA", &module.parts, &texts), vec![1]);
    assert_eq!(search_parts_by_details("sunset", &module.parts, &details), vec![0]);
    assert_eq!(search_parts_by_details("shader", &module.parts, &details), vec![1]);
    assert_eq!(search_parts_by_details("", &module.parts, &details), vec![0, 1]);
    assert!(search_parts_by_details("nowhere", &module.parts, &details).is_empty());
}
