use mapmap_ui::panels::{CuePanel, LayerPanel, MappingPanel};

#[test]
fn panels_start_hidden() {
    assert!(!CuePanel::default().visible);
    assert!(!LayerPanel::default().visible);
    let m: MappingPanel<u32> = MappingPanel::default();
    assert!(!m.visible);
    assert!(m.selected_mapping_id.is_none());
}

#[test]
fn mapping_action_is_taken_once() {
    let mut m: MappingPanel<String> = MappingPanel::default();
    m.visible = true;
    assert_eq!(m.take_action(), None);
    m.record_action("add".to_string());
    m.record_action("remove".to_string());
    assert_eq!(m.take_action(), Some("remove".to_string()));
    assert_eq!(m.take_action(), None);
    assert!(m.visible);
}

#[test]
fn mapping_selection_and_removal() {
    let mut m: MappingPanel<&str> = MappingPanel::default();
    m.select_mapping(4, "select 4");
    assert_eq!(m.selected_mapping_id, Some(4));
    m.forget_missing_selection(true);
    assert_eq!(m.selected_mapping_id, Some(4));
    m.forget_missing_selection(false);
    assert_eq!(m.selected_mapping_id, None);
    m.select_mapping(2, "select 2");
    m.remove_selected_mapping("remove 2");
    assert_eq!(m.selected_mapping_id, None);
    assert_eq!(m.take_action(), Some("remove 2"));
}

#[test]
fn layer_reorder_buttons() {
    assert_eq!(LayerPanel::reorder_buttons(0, 3), (false, true));
    assert_eq!(LayerPanel::reorder_buttons(1, 3), (true, true));
    assert_eq!(LayerPanel::reorder_buttons(2, 3), (true, false));
    assert_eq!(LayerPanel::reorder_buttons(0, 1), (false, false));
}
