//! State of the cue, layer and mapping panels.
use vstd::prelude::*;

verus! {

/// The cue system panel.
pub struct CuePanel {
    /// Whether the panel window is shown.
    pub visible: bool,
}

impl Default for CuePanel {
    fn default() -> (r: Self)
        ensures
            !r.visible,
    {
        CuePanel { visible: false }
    }
}

/// The layer management panel.
pub struct LayerPanel {
    /// Whether the panel window is shown.
    pub visible: bool,
}

impl Default for LayerPanel {
    fn default() -> (r: Self)
        ensures
            !r.visible,
    {
        LayerPanel { visible: false }
    }
}

impl LayerPanel {
    /// Which reorder buttons the layer at `index` of `total` layers offers:
    /// up unless it is the first, down unless it is the last.
    pub fn reorder_buttons(index: usize, total: usize) -> (r: (bool, bool))
        requires
            index < total,
        ensures
            r == (index != 0, index != total - 1),
    {
        (index != 0, index != total - 1)
    }
}

/// The mapping manager panel; `A` is the type of the actions it reports.
pub struct MappingPanel<A> {
    /// Whether the panel window is shown.
    pub visible: bool,
    /// The mapping selected in the list.
    pub selected_mapping_id: Option<u64>,
    /// The last action the user took, not handed out yet.
    pub last_action: Option<A>,
}

impl<A> Default for MappingPanel<A> {
    fn default() -> (r: Self)
        ensures
            !r.visible,
            r.selected_mapping_id is None,
            r.last_action is None,
    {
        MappingPanel { visible: false, selected_mapping_id: None, last_action: None }
    }
}

impl<A> MappingPanel<A> {
    /// Hands out the last action performed in the panel and forgets it.
    pub fn take_action(&mut self) -> (r: Option<A>)
        ensures
            r == old(self).last_action,
            final(self).last_action is None,
            final(self).visible == old(self).visible,
            final(self).selected_mapping_id == old(self).selected_mapping_id,
    {
        self.last_action.take()
    }

    /// Records an action of the user, replacing one not handed out yet.
    pub fn record_action(&mut self, action: A)
        ensures
            final(self).last_action == Some(action),
            final(self).visible == old(self).visible,
            final(self).selected_mapping_id == old(self).selected_mapping_id,
    {
        self.last_action = Some(action);
    }
    /// The user picks mapping `id` in the list: it becomes the selected one
    /// and `action` (its selection) is recorded.
    pub fn select_mapping(&mut self, id: u64, action: A)
        ensures
            final(self).selected_mapping_id == Some(id),
            final(self).last_action == Some(action),
            final(self).visible == old(self).visible,
    {
        self.selected_mapping_id = Some(id);
        self.last_action = Some(action);
    }

    /// The user removes the selected mapping: `action` (its removal) is
    /// recorded and nothing stays selected.
    pub fn remove_selected_mapping(&mut self, action: A)
        ensures
            final(self).selected_mapping_id is None,
            final(self).last_action == Some(action),
            final(self).visible == old(self).visible,
    {
        self.selected_mapping_id = None;
        self.last_action = Some(action);
    }

    /// Drops the selection when the selected mapping no longer exists.
    pub fn forget_missing_selection(&mut self, selected_exists: bool)
        ensures
            final(self).selected_mapping_id == if selected_exists {
                old(self).selected_mapping_id
            } else {
                None
            },
            final(self).last_action == old(self).last_action,
            final(self).visible == old(self).visible,
    {
        if !selected_exists {
            self.selected_mapping_id = None;
        }
    }
}

} // verus!
