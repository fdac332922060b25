use mapmap_ui::graph::{
    inspector_type_choices, switch_kind, BlendModeKind, EffectKind, HueKind, LayerKind, MaskKind,
    MaskShape, ModulizerKind, OutputKind, PartKind, SourceKind, TriggerKind,
};
use mapmap_ui::midi::{learn_takes, MidiMessage};

#[test]
fn switching_stays_within_the_category() {
    let media = PartKind::Source(SourceKind::MediaFile);
    assert_eq!(switch_kind(&media, PartKind::Source(SourceKind::Shader)), PartKind::Source(SourceKind::Shader));
    assert_eq!(switch_kind(&media, PartKind::Trigger(TriggerKind::Beat)), media);
    assert_eq!(switch_kind(&PartKind::Mesh, PartKind::Mesh), PartKind::Mesh);
}

#[test]
fn type_lists_of_the_inspector() {
    assert_eq!(
        inspector_type_choices(&PartKind::Trigger(TriggerKind::Midi { channel: 1, note: 2 }), false, false),
        vec![
            PartKind::Trigger(TriggerKind::Beat),
            PartKind::Trigger(TriggerKind::AudioFft),
            PartKind::Trigger(TriggerKind::Random),
            PartKind::Trigger(TriggerKind::Fixed),
        ]
    );
    assert_eq!(
        inspector_type_choices(&PartKind::Source(SourceKind::Bevy), true, true),
        vec![
            PartKind::Source(SourceKind::MediaFile),
            PartKind::Source(SourceKind::Shader),
            PartKind::Source(SourceKind::LiveInput),
            PartKind::Source(SourceKind::NdiInput),
            PartKind::Source(SourceKind::SpoutInput),
        ]
    );
    assert_eq!(
        inspector_type_choices(&PartKind::Output(OutputKind::Hue), false, false),
        vec![PartKind::Output(OutputKind::Projector { id: 1 }), PartKind::Output(OutputKind::Hue)]
    );
    assert_eq!(
        inspector_type_choices(&PartKind::Mask(MaskKind::Gradient), false, false)[1],
        PartKind::Mask(MaskKind::Shape(MaskShape::Rectangle))
    );
    assert_eq!(
        inspector_type_choices(&PartKind::Modulizer(ModulizerKind::AudioReactive), false, false),
        vec![
            PartKind::Modulizer(ModulizerKind::Effect(EffectKind::Blur)),
            PartKind::Modulizer(ModulizerKind::BlendMode(BlendModeKind::Normal)),
        ]
    );
    assert_eq!(
        inspector_type_choices(&PartKind::Layer(LayerKind::All), false, false)[0],
        PartKind::Layer(LayerKind::Single { id: 0 })
    );
    assert!(inspector_type_choices(&PartKind::Mesh, true, true).is_empty());
    assert!(inspector_type_choices(&PartKind::Hue(HueKind::SingleLamp), true, true).is_empty());
}

#[test]
fn learn_takes_control_changes_and_notes_while_learning() {
    let cc = MidiMessage::ControlChange { channel: 0, controller: 7, value: 1 };
    let on = MidiMessage::NoteOn { channel: 0, note: 60, velocity: 100 };
    let off = MidiMessage::NoteOff { channel: 0, note: 60 };
    assert!(learn_takes(true, &cc));
    assert!(learn_takes(true, &on));
    assert!(!learn_takes(true, &off));
    assert!(!learn_takes(true, &MidiMessage::Other));
    assert!(!learn_takes(false, &cc));
    assert!(!learn_takes(false, &on));
}
