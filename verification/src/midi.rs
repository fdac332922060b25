//! MIDI controller overlay: which controller elements a MIDI message drives,
//! MIDI learn targets, element filtering and the frame drawn round each element.
use crate::style::Rgb;
use vstd::std_specs::cmp::PartialEqSpecImpl;
use vstd::prelude::*;

verus! {

/// An incoming MIDI message, with the fields that the panels read.
#[derive(Clone, Copy, PartialEq, Eq, Structural, Debug)]
pub enum MidiMessage {
    NoteOn { channel: u8, note: u8, velocity: u8 },
    NoteOff { channel: u8, note: u8 },
    ControlChange { channel: u8, controller: u8, value: u8 },
    /// Any other message (program change, pitch bend, clock, ...).
    Other,
}

/// Whether MIDI learn takes `message` for itself: while an element is being
/// learned, a control change or a note-on teaches it and drives nothing
/// else; every other message passes on.
pub fn learn_takes(learning: bool, message: &MidiMessage) -> (r: bool)
    ensures
        r == (learning && (message is ControlChange || message is NoteOn)),
{
    if !learning {
        return false;
    }
    match message {
        MidiMessage::ControlChange { .. } => true,
        MidiMessage::NoteOn { .. } => true,
        _ => false,
    }
}

/// The MIDI binding of a controller element.
#[derive(Clone, Copy, PartialEq, Eq, Structural, Debug)]
pub enum MidiConfig {
    Cc { channel: u8, controller: u8 },
    CcRelative { channel: u8, controller: u8 },
    Note { channel: u8, note: u8 },
    /// Any other binding; no message drives it here.
    Other,
}

/// What a message does to the state of an element that it drives.
#[derive(Clone, Copy, PartialEq, Eq, Structural, Debug)]
pub enum ElementUpdate {
    /// A control change sets the value.
    Cc(u8),
    /// A note-on presses the element with a velocity.
    NoteOn(u8),
    /// A note-off releases it.
    NoteOff,
}

/// An element of a controller (fader, knob, button, ...) and its binding.
#[derive(Debug)]
pub struct ControllerElement {
    pub id: String,
    pub label: String,
    pub midi: Option<MidiConfig>,
}

/// A control change drives a CC or relative-CC binding of the same channel and
/// controller; a note-on or note-off drives a note binding of the same channel and note.
pub open spec fn matches_config(m: MidiMessage, c: MidiConfig) -> bool {
    match (m, c) {
        (
            MidiMessage::ControlChange { channel, controller, .. },
            MidiConfig::Cc { channel: cc, controller: ccc },
        ) => channel == cc && controller == ccc,
        (
            MidiMessage::ControlChange { channel, controller, .. },
            MidiConfig::CcRelative { channel: cc, controller: ccc },
        ) => channel == cc && controller == ccc,
        (MidiMessage::NoteOn { channel, note, .. }, MidiConfig::Note { channel: cc, note: cn }) =>
            channel == cc && note == cn,
        (MidiMessage::NoteOff { channel, note }, MidiConfig::Note { channel: cc, note: cn }) =>
            channel == cc && note == cn,
        _ => false,
    }
}

/// The update that a message makes to an element it drives.
pub open spec fn message_update(m: MidiMessage) -> Option<ElementUpdate> {
    match m {
        MidiMessage::ControlChange { value, .. } => Some(ElementUpdate::Cc(value)),
        MidiMessage::NoteOn { velocity, .. } => Some(ElementUpdate::NoteOn(velocity)),
        MidiMessage::NoteOff { .. } => Some(ElementUpdate::NoteOff),
        MidiMessage::Other => None,
    }
}

/// Element `e` is bound to a configuration that `m` drives.
pub open spec fn drives(m: MidiMessage, e: ControllerElement) -> bool {
    e.midi matches Some(c) && matches_config(m, c)
}

/// For the elements in order, the index and update of each one that `m` drives.
pub open spec fn element_updates(elems: Seq<ControllerElement>, m: MidiMessage) -> Seq<
    (usize, ElementUpdate),
>
    decreases elems.len(),
{
    if elems.len() == 0 {
        Seq::empty()
    } else {
        let rest = element_updates(elems.drop_last(), m);
        if drives(m, elems.last()) && message_update(m) is Some {
            rest.push(((elems.len() - 1) as usize, message_update(m).unwrap()))
        } else {
            rest
        }
    }
}

/// What a message addresses: whether it is a note (else a control change),
/// its channel, and its note or controller number; nothing for other messages.
pub open spec fn message_address(m: MidiMessage) -> Option<(bool, u8, u8)> {
    match m {
        MidiMessage::ControlChange { channel, controller, .. } => Some((false, channel, controller)),
        MidiMessage::NoteOn { channel, note, .. } => Some((true, channel, note)),
        MidiMessage::NoteOff { channel, note } => Some((true, channel, note)),
        MidiMessage::Other => None,
    }
}

/// What a binding listens to: whether it is a note (else a control change,
/// plain or relative), its channel, and its note or controller number.
pub open spec fn binding_address(c: MidiConfig) -> Option<(bool, u8, u8)> {
    match c {
        MidiConfig::Cc { channel, controller } => Some((false, channel, controller)),
        MidiConfig::CcRelative { channel, controller } => Some((false, channel, controller)),
        MidiConfig::Note { channel, note } => Some((true, channel, note)),
        MidiConfig::Other => None,
    }
}

/// A message drives a binding exactly when both address the same thing: a
/// control change a CC binding (plain or relative) with its channel and
/// controller number, a note on or off a note binding with its channel and
/// note number.
pub proof fn lemma_message_drives_its_address(m: MidiMessage, c: MidiConfig)
    ensures
        matches_config(m, c) <==> (message_address(m) is Some && message_address(m)
            == binding_address(c)),
{
}

/// Every update that a message makes goes to an element whose binding has
/// the message's kind, channel and number.
pub proof fn lemma_updates_reach_only_bound_elements(elems: Seq<ControllerElement>, m: MidiMessage)
    requires
        elems.len() <= usize::MAX,
    ensures
        forall|k: int|
            0 <= k < element_updates(elems, m).len() ==> {
                let i = (#[trigger] element_updates(elems, m)[k]).0 as int;
                &&& 0 <= i < elems.len()
                &&& elems[i].midi matches Some(c) && message_address(m) is Some
                    && binding_address(c) == message_address(m)
            },
    decreases elems.len(),
{
    if elems.len() > 0 {
        let front = elems.drop_last();
        lemma_updates_reach_only_bound_elements(front, m);
        let rest = element_updates(front, m);
        let all = element_updates(elems, m);
        assert forall|k: int| 0 <= k < all.len() implies {
            let i = (#[trigger] all[k]).0 as int;
            &&& 0 <= i < elems.len()
            &&& elems[i].midi matches Some(c) && message_address(m) is Some
                && binding_address(c) == message_address(m)
        } by {
            let pushed = drives(m, elems.last()) && message_update(m) is Some;
            if pushed {
                assert(all == rest.push(((elems.len() - 1) as usize, message_update(m).unwrap())));
            } else {
                assert(all == rest);
            }
            if k < rest.len() {
                assert(all[k] == rest[k]);
                let i = rest[k].0 as int;
                assert(0 <= i < front.len());
                assert(front[i] == elems[i]);
            } else {
                assert(pushed);
                let c = elems.last().midi.unwrap();
                lemma_message_drives_its_address(m, c);
                assert(all[k].0 as int == elems.len() - 1);
                assert(elems[elems.len() - 1] == elems.last());
            }
        }
    }
}

/// Whether `message` drives an element bound to `config`.
pub fn message_matches_config(message: &MidiMessage, config: &MidiConfig) -> (r: bool)
    ensures
        r == matches_config(*message, *config),
{
    match (message, config) {
        (
            MidiMessage::ControlChange { channel, controller, .. },
            MidiConfig::Cc { channel: cfg_ch, controller: cfg_cc },
        ) => *channel == *cfg_ch && *controller == *cfg_cc,
        (
            MidiMessage::ControlChange { channel, controller, .. },
            MidiConfig::CcRelative { channel: cfg_ch, controller: cfg_cc },
        ) => *channel == *cfg_ch && *controller == *cfg_cc,
        (
            MidiMessage::NoteOn { channel, note, .. },
            MidiConfig::Note { channel: cfg_ch, note: cfg_note },
        ) => *channel == *cfg_ch && *note == *cfg_note,
        (
            MidiMessage::NoteOff { channel, note },
            MidiConfig::Note { channel: cfg_ch, note: cfg_note },
        ) => *channel == *cfg_ch && *note == *cfg_note,
        _ => false,
    }
}

/// The updates that `message` makes to `elements`: for each element that it
/// drives, in order, the element's index and the update.
pub fn compute_element_updates(elements: &Vec<ControllerElement>, message: &MidiMessage) -> (r: Vec<
    (usize, ElementUpdate),
>)
    ensures
        r@ == element_updates(elements@, *message),
{
    let mut r: Vec<(usize, ElementUpdate)> = Vec::new();
    let mut i: usize = 0;
    assert(elements@.take(0) =~= Seq::<ControllerElement>::empty());
    while i < elements.len()
        invariant
            i <= elements@.len(),
            r@ == element_updates(elements@.take(i as int), *message),
        decreases elements@.len() - i,
    {
        assert(elements@.take(i + 1).drop_last() =~= elements@.take(i as int));
        let e = &elements[i];
        match e.midi {
            Some(cfg) => {
                if message_matches_config(message, &cfg) {
                    match *message {
                        MidiMessage::ControlChange { value, .. } => {
                            r.push((i, ElementUpdate::Cc(value)));
                        },
                        MidiMessage::NoteOn { velocity, .. } => {
                            r.push((i, ElementUpdate::NoteOn(velocity)));
                        },
                        MidiMessage::NoteOff { .. } => {
                            r.push((i, ElementUpdate::NoteOff));
                        },
                        MidiMessage::Other => {},
                    }
                }
            },
            None => {},
        }
        i = i + 1;
    }
    assert(elements@.take(elements@.len() as int) =~= elements@);
    r
}

/// Where a MIDI learn sends the learned control.
#[derive(Debug)]
pub enum MidiLearnTarget {
    MapFlow,
    /// A Streamer.bot function, by name.
    StreamerBot(String),
    /// A Mixxx function, by name.
    Mixxx(String),
}

impl Clone for MidiLearnTarget {
    fn clone(&self) -> (r: Self)
        ensures
            r == *self,
    {
        match self {
            MidiLearnTarget::MapFlow => MidiLearnTarget::MapFlow,
            MidiLearnTarget::StreamerBot(f) => MidiLearnTarget::StreamerBot(f.clone()),
            MidiLearnTarget::Mixxx(f) => MidiLearnTarget::Mixxx(f.clone()),
        }
    }
}

impl PartialEq for MidiLearnTarget {
    fn eq(&self, other: &Self) -> (r: bool) {
        match (self, other) {
            (MidiLearnTarget::MapFlow, MidiLearnTarget::MapFlow) => true,
            (MidiLearnTarget::StreamerBot(a), MidiLearnTarget::StreamerBot(b)) => a.eq(b),
            (MidiLearnTarget::Mixxx(a), MidiLearnTarget::Mixxx(b)) => a.eq(b),
            _ => false,
        }
    }
}

impl PartialEqSpecImpl for MidiLearnTarget {
    open spec fn obeys_eq_spec() -> bool {
        true
    }

    open spec fn eq_spec(&self, other: &Self) -> bool {
        match (self, other) {
            (MidiLearnTarget::MapFlow, MidiLearnTarget::MapFlow) => true,
            (MidiLearnTarget::StreamerBot(a), MidiLearnTarget::StreamerBot(b)) => a@ == b@,
            (MidiLearnTarget::Mixxx(a), MidiLearnTarget::Mixxx(b)) => a@ == b@,
            _ => false,
        }
    }
}

/// The kind of an element's assignment.
#[derive(Clone, Copy, PartialEq, Eq, Structural, Debug)]
pub enum AssignmentKind {
    MapFlow,
    StreamerBot,
    Mixxx,
}

/// A saved assignment of a controller element.
#[derive(Debug)]
pub struct MidiAssignment {
    pub element_id: String,
    pub target: AssignmentKind,
}

/// Filter for the element list view.
#[derive(Clone, Copy, PartialEq, Eq, Structural, Debug)]
pub enum ElementFilter {
    All,
    MapFlow,
    StreamerBot,
    Mixxx,
    Unassigned,
}

impl Default for ElementFilter {
    fn default() -> (r: Self)
        ensures
            r == ElementFilter::All,
    {
        ElementFilter::All
    }
}

/// Whether the filter lists an element with assignment `a`.
pub open spec fn filter_shows(f: ElementFilter, a: Option<AssignmentKind>) -> bool {
    match f {
        ElementFilter::All => true,
        ElementFilter::MapFlow => a == Some(AssignmentKind::MapFlow),
        ElementFilter::StreamerBot => a == Some(AssignmentKind::StreamerBot),
        ElementFilter::Mixxx => a == Some(AssignmentKind::Mixxx),
        ElementFilter::Unassigned => a is None,
    }
}

impl ElementFilter {
    /// Whether the filter lists an element whose assignment is `assignment`.
    pub fn shows(&self, assignment: Option<AssignmentKind>) -> (r: bool)
        ensures
            r == filter_shows(*self, assignment),
    {
        match self {
            ElementFilter::All => true,
            ElementFilter::MapFlow => match assignment {
                Some(AssignmentKind::MapFlow) => true,
                _ => false,
            },
            ElementFilter::StreamerBot => match assignment {
                Some(AssignmentKind::StreamerBot) => true,
                _ => false,
            },
            ElementFilter::Mixxx => match assignment {
                Some(AssignmentKind::Mixxx) => true,
                _ => false,
            },
            ElementFilter::Unassigned => assignment.is_none(),
        }
    }
}

/// The assignment kind of the first assignment of element `id`, if any.
pub open spec fn assignment_of(assignments: Seq<MidiAssignment>, id: Seq<char>) -> Option<
    AssignmentKind,
>
    decreases assignments.len(),
{
    if assignments.len() == 0 {
        None
    } else if assignments[0].element_id@ == id {
        Some(assignments[0].target)
    } else {
        assignment_of(assignments.drop_first(), id)
    }
}

/// The kind of the first assignment of the element with id `element_id`.
pub fn find_assignment(assignments: &Vec<MidiAssignment>, element_id: &String) -> (r: Option<
    AssignmentKind,
>)
    ensures
        r == assignment_of(assignments@, element_id@),
{
    let mut i: usize = 0;
    assert(assignments@.skip(0) =~= assignments@);
    while i < assignments.len()
        invariant
            i <= assignments@.len(),
            assignment_of(assignments@, element_id@) == assignment_of(
                assignments@.skip(i as int),
                element_id@,
            ),
        decreases assignments@.len() - i,
    {
        let a = &assignments[i];
        assert(assignments@.skip(i as int)[0] == assignments@[i as int]);
        if a.element_id == *element_id {
            return Some(a.target);
        }
        assert(assignments@.skip(i as int).drop_first() =~= assignments@.skip(i + 1));
        i = i + 1;
    }
    None
}

/// The frame drawn round a controller element.
#[derive(Clone, Copy, PartialEq, Eq, Structural, Debug)]
pub enum FrameColor {
    /// Pulsing yellow while the element is being learned.
    LearnPulse,
    Solid(Rgb),
    /// No frame.
    Transparent,
}

pub open spec fn solid(r: u8, g: u8, b: u8) -> FrameColor {
    FrameColor::Solid(Rgb { r, g, b })
}

/// The frame of an element: with assignment colours shown, the colour of its
/// assignment (green when free); else, by priority, learning, recently
/// active (green), selected (cornflower blue), hovered (white), or none.
pub open spec fn frame_color_spec(
    learning: bool,
    active: bool,
    selected: bool,
    hovered: bool,
    show_assignment_colors: bool,
    assignment: Option<AssignmentKind>,
) -> FrameColor {
    if show_assignment_colors {
        match assignment {
            Some(AssignmentKind::MapFlow) => solid(0, 150, 255),
            Some(AssignmentKind::StreamerBot) => solid(180, 0, 255),
            Some(AssignmentKind::Mixxx) => solid(255, 128, 0),
            None => solid(0, 255, 0),
        }
    } else if learning {
        FrameColor::LearnPulse
    } else if active {
        solid(0, 255, 0)
    } else if selected {
        solid(100, 149, 237)
    } else if hovered {
        solid(255, 255, 255)
    } else {
        FrameColor::Transparent
    }
}

/// The frame drawn round an element in the given state.
pub fn frame_color(
    learning: bool,
    active: bool,
    selected: bool,
    hovered: bool,
    show_assignment_colors: bool,
    assignment: Option<AssignmentKind>,
) -> (r: FrameColor)
    ensures
        r == frame_color_spec(learning, active, selected, hovered, show_assignment_colors, assignment),
{
    let state_color = if learning {
        FrameColor::LearnPulse
    } else if active {
        FrameColor::Solid(Rgb { r: 0, g: 255, b: 0 })
    } else if selected {
        FrameColor::Solid(Rgb { r: 100, g: 149, b: 237 })
    } else if hovered {
        FrameColor::Solid(Rgb { r: 255, g: 255, b: 255 })
    } else {
        FrameColor::Transparent
    };
    if show_assignment_colors {
        match assignment {
            Some(AssignmentKind::MapFlow) => FrameColor::Solid(Rgb { r: 0, g: 150, b: 255 }),
            Some(AssignmentKind::StreamerBot) => FrameColor::Solid(Rgb { r: 180, g: 0, b: 255 }),
            Some(AssignmentKind::Mixxx) => FrameColor::Solid(Rgb { r: 255, g: 128, b: 0 }),
            None => FrameColor::Solid(Rgb { r: 0, g: 255, b: 0 }),
        }
    } else {
        state_color
    }
}

/// The editing state of the controller overlay panel: the loaded elements,
/// the learn target, the function names typed for Streamer.bot and Mixxx,
/// the display switches, the selection and the list filter.
pub struct ControllerOverlayPanel {
    /// Currently loaded controller elements
    pub elements: Option<Vec<ControllerElement>>,
    /// Current MIDI learn target type
    pub learn_target: Option<MidiLearnTarget>,
    /// Input field for Streamer.bot function
    pub streamerbot_function: String,
    /// Input field for Mixxx function
    pub mixxx_function: String,
    /// Show element labels
    pub show_labels: bool,
    /// Show element values
    pub show_values: bool,
    /// Show MIDI info on hover
    pub show_midi_info: bool,
    /// Selected element for editing
    pub selected_element: Option<String>,
    /// Hovered element
    pub hovered_element: Option<String>,
    /// Panel is expanded
    pub is_expanded: bool,
    /// Show element list view
    pub show_element_list: bool,
    /// Filter for element list
    pub element_filter: ElementFilter,
    /// Show assignment colors mode (highlights all elements by their assignment type)
    pub show_assignment_colors: bool,
}

/// A panel with no elements and no learn target, no function names typed,
/// nothing selected or hovered, showing labels, values and MIDI info,
/// expanded, in overlay view without assignment colours, listing all elements.
pub open spec fn is_initial_panel(r: ControllerOverlayPanel) -> bool {
    &&& r.elements is None
    &&& r.learn_target is None
    &&& r.streamerbot_function@.len() == 0
    &&& r.mixxx_function@.len() == 0
    &&& r.show_labels
    &&& r.show_values
    &&& r.show_midi_info
    &&& r.selected_element is None
    &&& r.hovered_element is None
    &&& r.is_expanded
    &&& !r.show_element_list
    &&& r.element_filter == ElementFilter::All
    &&& !r.show_assignment_colors
}

impl Default for ControllerOverlayPanel {
    /// The same panel as `new`.
    fn default() -> (r: Self)
        ensures
            is_initial_panel(r),
    {
        Self::new()
    }
}

impl ControllerOverlayPanel {
    /// A panel with no elements and no learn target, showing labels and values,
    /// expanded, in overlay view, listing all elements.
    pub fn new() -> (r: Self)
        ensures
            is_initial_panel(r),
    {
        ControllerOverlayPanel {
            elements: None,
            learn_target: None,
            streamerbot_function: String::new(),
            mixxx_function: String::new(),
            show_labels: true,
            show_values: true,
            show_midi_info: true,
            selected_element: None,
            hovered_element: None,
            is_expanded: true,
            show_element_list: false,
            element_filter: ElementFilter::All,
            show_assignment_colors: false,
        }
    }

    /// Makes `elements` the controller's elements.
    pub fn load_elements(&mut self, elements: Vec<ControllerElement>)
        ensures
            *final(self) == (ControllerOverlayPanel { elements: Some(elements), ..*old(self) }),
    {
        self.elements = Some(elements);
    }

    /// The element updates that `message` makes: none when MIDI learn consumed
    /// the message or no elements are loaded, else those of every element it
    /// drives, in order.
    pub fn process_midi(&self, message: &MidiMessage, consumed_by_learn: bool) -> (r: Vec<
        (usize, ElementUpdate),
    >)
        ensures
            consumed_by_learn ==> r@.len() == 0,
            !consumed_by_learn ==> r@ == match self.elements {
                Some(v) => element_updates(v@, *message),
                None => Seq::empty(),
            },
    {
        if consumed_by_learn {
            return Vec::new();
        }
        match &self.elements {
            Some(v) => compute_element_updates(v, message),
            None => Vec::new(),
        }
    }

    /// Sets the target of the next MIDI learn.
    pub fn start_learn(&mut self, target: MidiLearnTarget)
        ensures
            *final(self) == (ControllerOverlayPanel { learn_target: Some(target), ..*old(self) }),
    {
        self.learn_target = Some(target);
    }

    /// Clears the learn target.
    pub fn cancel_learn(&mut self)
        ensures
            *final(self) == (ControllerOverlayPanel { learn_target: None, ..*old(self) }),
    {
        self.learn_target = None;
    }

    /// The MapFlow learn button: when no learn runs, MapFlow becomes the target.
    pub fn request_mapflow_learn(&mut self, is_learning: bool)
        ensures
            is_learning ==> *final(self) == *old(self),
            !is_learning ==> *final(self) == (ControllerOverlayPanel {
                learn_target: Some(MidiLearnTarget::MapFlow),
                ..*old(self)
            }),
    {
        if !is_learning {
            self.learn_target = Some(MidiLearnTarget::MapFlow);
        }
    }

    /// The Streamer.bot learn button: when no learn runs and a function name
    /// was typed, that function becomes the target.
    pub fn request_streamerbot_learn(&mut self, is_learning: bool)
        ensures
            (is_learning || old(self).streamerbot_function@.len() == 0) ==> *final(self) == *old(
                self,
            ),
            !(is_learning || old(self).streamerbot_function@.len() == 0) ==> *final(self) == (
            ControllerOverlayPanel {
                learn_target: Some(MidiLearnTarget::StreamerBot(old(self).streamerbot_function)),
                ..*old(self)
            }),
    {
        if !is_learning && !self.streamerbot_function.as_str().is_empty() {
            self.learn_target = Some(MidiLearnTarget::StreamerBot(self.streamerbot_function.clone()));
        }
    }

    /// The Mixxx learn button: when no learn runs and a function name was
    /// typed, that function becomes the target.
    pub fn request_mixxx_learn(&mut self, is_learning: bool)
        ensures
            (is_learning || old(self).mixxx_function@.len() == 0) ==> *final(self) == *old(self),
            !(is_learning || old(self).mixxx_function@.len() == 0) ==> *final(self) == (
            ControllerOverlayPanel {
                learn_target: Some(MidiLearnTarget::Mixxx(old(self).mixxx_function)),
                ..*old(self)
            }),
    {
        if !is_learning && !self.mixxx_function.as_str().is_empty() {
            self.learn_target = Some(MidiLearnTarget::Mixxx(self.mixxx_function.clone()));
        }
    }

    /// A click on element `element_id`: with a learn target set, the result
    /// asks to start learning that element and nothing changes; else the
    /// element becomes the selected one.
    pub fn element_clicked(&mut self, element_id: &String) -> (start_learning: bool)
        ensures
            start_learning == old(self).learn_target is Some,
            start_learning ==> *final(self) == *old(self),
            !start_learning ==> *final(self) == (ControllerOverlayPanel {
                selected_element: Some(*element_id),
                ..*old(self)
            }),
    {
        if self.learn_target.is_some() {
            true
        } else {
            self.selected_element = Some(element_id.clone());
            false
        }
    }
}

/// The element indices of a list of updates.
pub open spec fn update_indices(u: Seq<(usize, ElementUpdate)>) -> Seq<usize> {
    u.map_values(|x: (usize, ElementUpdate)| x.0)
}

/// A note-on and the note-off of the same channel and note drive the same
/// elements: whatever a press lights up, the release reaches.
pub proof fn lemma_note_off_reaches_pressed_elements(
    elems: Seq<ControllerElement>,
    channel: u8,
    note: u8,
    velocity: u8,
)
    ensures
        update_indices(element_updates(elems, MidiMessage::NoteOn { channel, note, velocity }))
            == update_indices(element_updates(elems, MidiMessage::NoteOff { channel, note })),
    decreases elems.len(),
{
    let on = MidiMessage::NoteOn { channel, note, velocity };
    let off = MidiMessage::NoteOff { channel, note };
    if elems.len() > 0 {
        lemma_note_off_reaches_pressed_elements(elems.drop_last(), channel, note, velocity);
        assert(drives(on, elems.last()) == drives(off, elems.last()));
        let a = element_updates(elems.drop_last(), on);
        let b = element_updates(elems.drop_last(), off);
        let i = (elems.len() - 1) as usize;
        assert(update_indices(a.push((i, ElementUpdate::NoteOn(velocity)))) =~= update_indices(
            a,
        ).push(i));
        assert(update_indices(b.push((i, ElementUpdate::NoteOff))) =~= update_indices(b).push(i));
    }
}

/// The one filter besides "all" that lists an element with assignment `a`.
pub open spec fn filter_for(a: Option<AssignmentKind>) -> ElementFilter {
    match a {
        Some(AssignmentKind::MapFlow) => ElementFilter::MapFlow,
        Some(AssignmentKind::StreamerBot) => ElementFilter::StreamerBot,
        Some(AssignmentKind::Mixxx) => ElementFilter::Mixxx,
        None => ElementFilter::Unassigned,
    }
}

/// Every element is listed under "all" and under exactly one other filter:
/// that of its assignment, or "unassigned".
pub proof fn lemma_filters_partition_elements(a: Option<AssignmentKind>, f: ElementFilter)
    ensures
        filter_shows(ElementFilter::All, a),
        f != ElementFilter::All ==> (filter_shows(f, a) <==> f == filter_for(a)),
{
}

} // verus!
