//! Editing logic of the MapFlow user interface: the module canvas graph,
//! its undo history, selection, inspector previews, layout, presets, part
//! styles, MIDI learn, the controller overlay and the panel states.
pub mod graph;
pub mod history;
pub mod history_laws;
pub mod canvas;
pub mod canvas_laws;
pub mod selection;
pub mod search;
pub mod module_list;
pub mod paths;
pub mod property;
pub mod picture;
pub mod preview;
pub mod layout;
pub mod style;
pub mod midi;
pub mod panels;
