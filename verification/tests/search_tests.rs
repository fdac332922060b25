use mapmap_ui::canvas::ModuleCanvas;
use mapmap_ui::graph::{ModulePart, OutputKind, PartKind, SourceKind, TriggerKind};
use mapmap_ui::search::{contains_text, find_lowered_matches, search_parts};

fn part(id: u64, kind: PartKind) -> ModulePart<(f32, f32)> {
    ModulePart { id, kind, position: (0.0, 0.0) }
}

#[test]
fn substring_search() {
    assert!(contains_text("Media File", "ia F"));
    assert!(contains_text("abc", ""));
    assert!(contains_text("abc", "abc"));
    assert!(!contains_text("abc", "abcd"));
    assert!(!contains_text("abc", "B"));
    assert!(contains_text("äöü", "öü"));
}

#[test]
fn search_ignores_case_of_text_and_names() {
    let parts = vec![
        part(1, PartKind::Trigger(TriggerKind::Beat)),
        part(2, PartKind::Source(SourceKind::MediaFile)),
        part(3, PartKind::Output(OutputKind::Projector { id: 1 })),
    ];
    let texts = vec!["Beat".to_string(), "clip.MP4".to_string(), "Projector 1".to_string()];
    assert_eq!(search_parts("MEDIA", &parts, &texts), vec![1]);
    assert_eq!(search_parts("mp4", &parts, &texts), vec![1]);
    assert_eq!(search_parts("e", &parts, &texts), vec![0, 1, 2]);
    assert_eq!(search_parts("", &parts, &texts), vec![0, 1, 2]);
    assert!(search_parts("zzz", &parts, &texts).is_empty());
}

#[test]
fn search_lists_at_most_six() {
    let parts: Vec<ModulePart<(f32, f32)>> = (1..=9).map(|i| part(i, PartKind::Mesh)).collect();
    let texts: Vec<String> = (1..=9).map(|i| format!("mesh {}", i)).collect();
    assert_eq!(search_parts("MESH", &parts, &texts), vec![0, 1, 2, 3, 4, 5]);
    assert_eq!(search_parts("9", &parts, &texts), vec![8]);
}

#[test]
fn picking_a_result_selects_it_and_closes() {
    let mut c: ModuleCanvas<(f32, f32), f32, f64> = ModuleCanvas::new();
    c.selected_parts = vec![1, 2];
    c.show_search = true;
    c.pick_search_result(5);
    assert_eq!(c.selected_parts, vec![5]);
    assert!(!c.show_search);
}

#[test]
fn lowered_matching() {
    use_lowered();
}

fn use_lowered() {
    let texts = vec!["clip.mp4".to_string(), "beat".to_string(), "".to_string()];
    let labels = vec!["media file".to_string(), "beat".to_string(), "mesh".to_string()];
    assert_eq!(find_lowered_matches("e", &texts, &labels), vec![0, 1, 2]);
    assert_eq!(find_lowered_matches("mp", &texts, &labels), vec![0]);
    assert_eq!(find_lowered_matches("MP", &texts, &labels), Vec::<usize>::new());
    assert_eq!(find_lowered_matches("", &texts, &labels), vec![0, 1, 2]);
    let many: Vec<String> = (0..8).map(|_| "x".to_string()).collect();
    assert_eq!(find_lowered_matches("x", &many, &many), vec![0, 1, 2, 3, 4, 5]);
}
