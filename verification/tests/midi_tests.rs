use mapmap_ui::midi::{
    compute_element_updates, find_assignment, frame_color, message_matches_config,
    AssignmentKind, ControllerElement, ControllerOverlayPanel, ElementFilter, ElementUpdate,
    FrameColor, MidiAssignment, MidiConfig, MidiLearnTarget, MidiMessage,
};
use mapmap_ui::style::Rgb;

fn element(id: &str, midi: Option<MidiConfig>) -> ControllerElement {
    ControllerElement { id: id.to_string(), label: id.to_uppercase(), midi }
}

fn elements() -> Vec<ControllerElement> {
    vec![
        element("fader1", Some(MidiConfig::Cc { channel: 0, controller: 7 })),
        element("knob1", Some(MidiConfig::CcRelative { channel: 0, controller: 7 })),
        element("pad1", Some(MidiConfig::Note { channel: 1, note: 36 })),
        element("led", None),
        element("fader2", Some(MidiConfig::Cc { channel: 1, controller: 7 })),
    ]
}

#[test]
fn matching_rules() {
    let cc = MidiMessage::ControlChange { channel: 0, controller: 7, value: 64 };
    assert!(message_matches_config(&cc, &MidiConfig::Cc { channel: 0, controller: 7 }));
    assert!(message_matches_config(&cc, &MidiConfig::CcRelative { channel: 0, controller: 7 }));
    assert!(!message_matches_config(&cc, &MidiConfig::Cc { channel: 1, controller: 7 }));
    assert!(!message_matches_config(&cc, &MidiConfig::Note { channel: 0, note: 7 }));
    let on = MidiMessage::NoteOn { channel: 1, note: 36, velocity: 100 };
    let off = MidiMessage::NoteOff { channel: 1, note: 36 };
    assert!(message_matches_config(&on, &MidiConfig::Note { channel: 1, note: 36 }));
    assert!(message_matches_config(&off, &MidiConfig::Note { channel: 1, note: 36 }));
    assert!(!message_matches_config(&on, &MidiConfig::Note { channel: 1, note: 37 }));
    assert!(!message_matches_config(&MidiMessage::Other, &MidiConfig::Other));
}

#[test]
fn updates_for_each_driven_element() {
    let e = elements();
    let u = compute_element_updates(&e, &MidiMessage::ControlChange { channel: 0, controller: 7, value: 99 });
    assert_eq!(u, vec![(0, ElementUpdate::Cc(99)), (1, ElementUpdate::Cc(99))]);
    let on = compute_element_updates(&e, &MidiMessage::NoteOn { channel: 1, note: 36, velocity: 12 });
    assert_eq!(on, vec![(2, ElementUpdate::NoteOn(12))]);
    let off = compute_element_updates(&e, &MidiMessage::NoteOff { channel: 1, note: 36 });
    assert_eq!(off, vec![(2, ElementUpdate::NoteOff)]);
    assert!(compute_element_updates(&e, &MidiMessage::Other).is_empty());
}

#[test]
fn panel_routes_midi() {
    let mut p = ControllerOverlayPanel::new();
    let cc = MidiMessage::ControlChange { channel: 1, controller: 7, value: 3 };
    assert!(p.process_midi(&cc, false).is_empty());
    p.load_elements(elements());
    assert_eq!(p.process_midi(&cc, false), vec![(4, ElementUpdate::Cc(3))]);
    assert!(p.process_midi(&cc, true).is_empty());
}

#[test]
fn new_panel_defaults() {
    let p = ControllerOverlayPanel::new();
    assert!(p.show_labels && p.show_values && p.show_midi_info && p.is_expanded);
    assert!(!p.show_element_list && !p.show_assignment_colors);
    assert_eq!(p.element_filter, ElementFilter::All);
    assert!(p.learn_target.is_none() && p.elements.is_none());
    let d = ControllerOverlayPanel::default();
    assert!(d.selected_element.is_none());
}

#[test]
fn learn_buttons() {
    let mut p = ControllerOverlayPanel::new();
    p.request_streamerbot_learn(false);
    assert!(p.learn_target.is_none());
    p.streamerbot_function = "Scene1".to_string();
    p.request_streamerbot_learn(true);
    assert!(p.learn_target.is_none());
    p.request_streamerbot_learn(false);
    assert!(matches!(&p.learn_target, Some(MidiLearnTarget::StreamerBot(f)) if f == "Scene1"));
    p.mixxx_function = "play".to_string();
    p.request_mixxx_learn(false);
    assert!(matches!(&p.learn_target, Some(MidiLearnTarget::Mixxx(f)) if f == "play"));
    p.request_mapflow_learn(true);
    assert!(matches!(&p.learn_target, Some(MidiLearnTarget::Mixxx(_))));
    p.request_mapflow_learn(false);
    assert!(matches!(p.learn_target, Some(MidiLearnTarget::MapFlow)));
    p.cancel_learn();
    assert!(p.learn_target.is_none());
    p.start_learn(MidiLearnTarget::Mixxx("cue".to_string()));
    assert!(matches!(&p.learn_target, Some(MidiLearnTarget::Mixxx(f)) if f == "cue"));
    let c = p.learn_target.clone();
    assert!(matches!(&c, Some(MidiLearnTarget::Mixxx(f)) if f == "cue"));
}

#[test]
fn clicking_elements() {
    let mut p = ControllerOverlayPanel::new();
    assert!(!p.element_clicked(&"pad1".to_string()));
    assert_eq!(p.selected_element, Some("pad1".to_string()));
    p.start_learn(MidiLearnTarget::MapFlow);
    assert!(p.element_clicked(&"fader1".to_string()));
    assert_eq!(p.selected_element, Some("pad1".to_string()));
}

#[test]
fn element_filters() {
    let a = Some(AssignmentKind::StreamerBot);
    assert!(ElementFilter::All.shows(a));
    assert!(ElementFilter::StreamerBot.shows(a));
    assert!(!ElementFilter::MapFlow.shows(a));
    assert!(!ElementFilter::Unassigned.shows(a));
    assert!(ElementFilter::Unassigned.shows(None));
    assert!(!ElementFilter::Mixxx.shows(None));
    assert_eq!(ElementFilter::default(), ElementFilter::All);
}

#[test]
fn filters_partition_every_assignment() {
    let kinds = [None, Some(AssignmentKind::MapFlow), Some(AssignmentKind::StreamerBot), Some(AssignmentKind::Mixxx)];
    let filters = [ElementFilter::MapFlow, ElementFilter::StreamerBot, ElementFilter::Mixxx, ElementFilter::Unassigned];
    for a in kinds {
        assert!(ElementFilter::All.shows(a));
        assert_eq!(filters.iter().filter(|f| f.shows(a)).count(), 1);
    }
}

#[test]
fn assignment_lookup_takes_first() {
    let a = vec![
        MidiAssignment { element_id: "x".to_string(), target: AssignmentKind::Mixxx },
        MidiAssignment { element_id: "y".to_string(), target: AssignmentKind::MapFlow },
        MidiAssignment { element_id: "x".to_string(), target: AssignmentKind::MapFlow },
    ];
    assert_eq!(find_assignment(&a, &"x".to_string()), Some(AssignmentKind::Mixxx));
    assert_eq!(find_assignment(&a, &"y".to_string()), Some(AssignmentKind::MapFlow));
    assert_eq!(find_assignment(&a, &"z".to_string()), None);
}

#[test]
fn frame_colors() {
    assert_eq!(frame_color(true, true, true, true, false, None), FrameColor::LearnPulse);
    assert_eq!(frame_color(false, true, true, true, false, None), FrameColor::Solid(Rgb { r: 0, g: 255, b: 0 }));
    assert_eq!(frame_color(false, false, true, true, false, None), FrameColor::Solid(Rgb { r: 100, g: 149, b: 237 }));
    assert_eq!(frame_color(false, false, false, true, false, None), FrameColor::Solid(Rgb { r: 255, g: 255, b: 255 }));
    assert_eq!(frame_color(false, false, false, false, false, None), FrameColor::Transparent);
    assert_eq!(frame_color(true, false, false, false, true, Some(AssignmentKind::MapFlow)), FrameColor::Solid(Rgb { r: 0, g: 150, b: 255 }));
    assert_eq!(frame_color(false, false, false, false, true, Some(AssignmentKind::StreamerBot)), FrameColor::Solid(Rgb { r: 180, g: 0, b: 255 }));
    assert_eq!(frame_color(false, false, false, false, true, Some(AssignmentKind::Mixxx)), FrameColor::Solid(Rgb { r: 255, g: 128, b: 0 }));
    assert_eq!(frame_color(false, false, false, false, true, None), FrameColor::Solid(Rgb { r: 0, g: 255, b: 0 }));
}

#[test]
fn note_off_reaches_what_note_on_pressed() {
    let e = elements();
    let on = compute_element_updates(&e, &MidiMessage::NoteOn { channel: 1, note: 36, velocity: 5 });
    let off = compute_element_updates(&e, &MidiMessage::NoteOff { channel: 1, note: 36 });
    let a: Vec<usize> = on.iter().map(|x| x.0).collect();
    let b: Vec<usize> = off.iter().map(|x| x.0).collect();
    assert_eq!(a, b);
}

#[test]
fn learn_targets_compare_by_function_name() {
    assert_eq!(MidiLearnTarget::MapFlow, MidiLearnTarget::MapFlow);
    assert_eq!(MidiLearnTarget::Mixxx("a".to_string()), MidiLearnTarget::Mixxx("a".to_string()));
    assert_ne!(MidiLearnTarget::Mixxx("a".to_string()), MidiLearnTarget::Mixxx("b".to_string()));
    assert_ne!(MidiLearnTarget::Mixxx("a".to_string()), MidiLearnTarget::StreamerBot("a".to_string()));
    assert_ne!(MidiLearnTarget::MapFlow, MidiLearnTarget::StreamerBot(String::new()));
}

#[test]
fn default_panel_is_new_panel() {
    let d = ControllerOverlayPanel::default();
    assert!(d.show_labels && d.show_values && d.show_midi_info && d.is_expanded);
    assert!(!d.show_element_list && !d.show_assignment_colors);
    assert!(d.hovered_element.is_none());
    assert!(d.streamerbot_function.is_empty() && d.mixxx_function.is_empty());
}
