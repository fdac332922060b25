//! How parts, sockets and cables look on the canvas: colours, icons, names
//! and the sockets that each category of part offers.
use crate::graph::{
    kind_type, BlendModeKind, EffectKind, HueKind, LayerKind, MaskKind, MaskShape, ModuleSocket,
    ModuleSocketType, ModulizerKind, OutputKind, PartKind, PartType, SourceKind, TriggerKind,
};
use vstd::prelude::*;

verus! {

broadcast use vstd::string::group_string_axioms;

/// An opaque RGB colour.
#[derive(Clone, Copy, PartialEq, Eq, Structural, Debug)]
pub struct Rgb {
    pub r: u8,
    pub g: u8,
    pub b: u8,
}

/// How a part is drawn: body colour, title bar colour, icon and type name.
#[derive(Clone, Copy, PartialEq, Eq, Debug)]
pub struct PartStyle {
    pub background: Rgb,
    pub title: Rgb,
    pub icon: &'static str,
    pub name: &'static str,
}

pub open spec fn rgb(r: u8, g: u8, b: u8) -> Rgb {
    Rgb { r, g, b }
}

/// Display name of a trigger variant.
pub open spec fn trigger_name(t: TriggerKind) -> &'static str {
    match t {
        TriggerKind::AudioFft => "Audio FFT",
        TriggerKind::Beat => "Beat",
        TriggerKind::Midi { .. } => "MIDI",
        TriggerKind::Osc => "OSC",
        TriggerKind::Shortcut => "Shortcut",
        TriggerKind::Random => "Random",
        TriggerKind::Fixed => "Fixed Timer",
    }
}

/// Display name of a source variant.
pub open spec fn source_name(s: SourceKind) -> &'static str {
    match s {
        SourceKind::MediaFile => "Media File",
        SourceKind::Shader => "Shader",
        SourceKind::LiveInput => "Live Input",
        SourceKind::NdiInput => "NDI Input",
        SourceKind::SpoutInput => "Spout Input",
        SourceKind::VideoUni => "Video (Uni)",
        SourceKind::ImageUni => "Image (Uni)",
        SourceKind::VideoMulti => "Video (Multi)",
        SourceKind::ImageMulti => "Image (Multi)",
        SourceKind::Bevy => "Bevy Scene",
        SourceKind::BevyAtmosphere => "Atmosphere",
        SourceKind::BevyHexGrid => "Hex Grid",
        SourceKind::BevyParticles => "Particles",
        SourceKind::Bevy3DText => "3D Text",
        SourceKind::BevyCamera => "Camera",
        SourceKind::Bevy3DShape => "3D Shape",
        SourceKind::Bevy3DModel => "3D Model",
    }
}

/// Display name of a mask variant.
pub open spec fn mask_name(m: MaskKind) -> &'static str {
    match m {
        MaskKind::File => "File Mask",
        MaskKind::Shape(MaskShape::Circle) => "Circle",
        MaskKind::Shape(MaskShape::Rectangle) => "Rectangle",
        MaskKind::Shape(MaskShape::Triangle) => "Triangle",
        MaskKind::Shape(MaskShape::Star) => "Star",
        MaskKind::Shape(MaskShape::Ellipse) => "Ellipse",
        MaskKind::Gradient => "Gradient",
    }
}

/// Display name of an effect.
pub open spec fn effect_name(e: EffectKind) -> &'static str {
    match e {
        EffectKind::Blur => "Blur",
        EffectKind::Sharpen => "Sharpen",
        EffectKind::Invert => "Invert",
        EffectKind::Threshold => "Threshold",
        EffectKind::Brightness => "Brightness",
        EffectKind::Contrast => "Contrast",
        EffectKind::Saturation => "Saturation",
        EffectKind::HueShift => "Hue Shift",
        EffectKind::Colorize => "Colorize",
        EffectKind::Wave => "Wave",
        EffectKind::Spiral => "Spiral",
        EffectKind::Pinch => "Pinch",
        EffectKind::Mirror => "Mirror",
        EffectKind::Kaleidoscope => "Kaleidoscope",
        EffectKind::Pixelate => "Pixelate",
        EffectKind::Halftone => "Halftone",
        EffectKind::EdgeDetect => "Edge Detect",
        EffectKind::Posterize => "Posterize",
        EffectKind::Glitch => "Glitch",
        EffectKind::RgbSplit => "RGB Split",
        EffectKind::ChromaticAberration => "Chromatic",
        EffectKind::VHS => "VHS",
        EffectKind::FilmGrain => "Film Grain",
        EffectKind::Vignette => "Vignette",
        EffectKind::ShaderGraph => "Custom Graph",
    }
}

/// Display name of a blend mode.
pub open spec fn blend_name(b: BlendModeKind) -> &'static str {
    match b {
        BlendModeKind::Normal => "Normal",
        BlendModeKind::Add => "Add",
        BlendModeKind::Multiply => "Multiply",
        BlendModeKind::Screen => "Screen",
        BlendModeKind::Overlay => "Overlay",
        BlendModeKind::Difference => "Difference",
        BlendModeKind::Exclusion => "Exclusion",
    }
}

/// Display name of a modulator variant.
pub open spec fn modulizer_name(m: ModulizerKind) -> &'static str {
    match m {
        ModulizerKind::Effect(e) => effect_name(e),
        ModulizerKind::BlendMode(b) => blend_name(b),
        ModulizerKind::AudioReactive => "Audio Reactive",
    }
}

/// Display name of a layer variant.
pub open spec fn layer_name(l: LayerKind) -> &'static str {
    match l {
        LayerKind::Single { .. } => "Single Layer",
        LayerKind::Group => "Layer Group",
        LayerKind::All => "All Layers",
    }
}

/// Display name of an output variant.
pub open spec fn output_name(o: OutputKind) -> &'static str {
    match o {
        OutputKind::Projector { .. } => "Projector",
        OutputKind::NdiOutput => "NDI Output",
        OutputKind::Spout => "Spout Output",
        OutputKind::Hue => "Philips Hue",
    }
}

/// Display name of a Hue lamp node variant.
pub open spec fn hue_name(h: HueKind) -> &'static str {
    match h {
        HueKind::SingleLamp => "Single Lamp",
        HueKind::MultiLamp => "Multi Lamp",
        HueKind::EntertainmentGroup => "Entertainment Group",
    }
}

/// The style of a part kind. Most categories share one style and differ by
/// name; a few 3D sources have a style of their own.
pub open spec fn part_style(k: PartKind) -> PartStyle {
    match k {
        PartKind::Trigger(t) => PartStyle {
            background: rgb(60, 50, 70),
            title: rgb(130, 80, 180),
            icon: "\u{26A1}",
            name: trigger_name(t),
        },
        PartKind::Source(SourceKind::BevyAtmosphere) => PartStyle {
            background: rgb(40, 60, 80),
            title: rgb(100, 180, 220),
            icon: "\u{E2}\u{2DC} \u{EF}\u{B8} ",
            name: "Atmosphere",
        },
        PartKind::Source(SourceKind::BevyHexGrid) => PartStyle {
            background: rgb(40, 60, 80),
            title: rgb(100, 180, 220),
            icon: "\u{1F6D1}",
            name: "Hex Grid",
        },
        PartKind::Source(SourceKind::BevyParticles) => PartStyle {
            background: rgb(40, 60, 80),
            title: rgb(100, 180, 220),
            icon: "\u{2728}",
            name: "Particles",
        },
        PartKind::Source(SourceKind::Bevy3DText) => PartStyle {
            background: rgb(40, 60, 80),
            title: rgb(100, 220, 180),
            icon: "T",
            name: "3D Text",
        },
        PartKind::Source(SourceKind::BevyCamera) => PartStyle {
            background: rgb(40, 60, 80),
            title: rgb(180, 100, 220),
            icon: "\u{1F3A5}",
            name: "Camera",
        },
        PartKind::Source(SourceKind::Bevy3DShape) => PartStyle {
            background: rgb(40, 60, 80),
            title: rgb(100, 180, 220),
            icon: "\u{1F9CA}",
            name: "3D Shape",
        },
        PartKind::Source(s) => PartStyle {
            background: rgb(50, 60, 70),
            title: rgb(80, 140, 180),
            icon: "\u{1F3AC}",
            name: source_name(s),
        },
        PartKind::Mask(m) => PartStyle {
            background: rgb(60, 55, 70),
            title: rgb(160, 100, 180),
            icon: "\u{1F3AD}",
            name: mask_name(m),
        },
        PartKind::Modulizer(m) => PartStyle {
            background: rgb(60, 60, 50),
            title: rgb(180, 140, 60),
            icon: "\u{E3}\u{20AC}\u{B0}\u{EF}\u{B8} ",
            name: modulizer_name(m),
        },
        PartKind::Mesh => PartStyle {
            background: rgb(60, 60, 80),
            title: rgb(100, 100, 200),
            icon: "\u{1F578}\u{FE0F}\u{EF}\u{B8} ",
            name: "Mesh",
        },
        PartKind::Layer(l) => PartStyle {
            background: rgb(50, 70, 60),
            title: rgb(80, 180, 120),
            icon: "\u{1F4D1}",
            name: layer_name(l),
        },
        PartKind::Output(o) => PartStyle {
            background: rgb(70, 50, 50),
            title: rgb(180, 80, 80),
            icon: "\u{1F4FA}",
            name: output_name(o),
        },
        PartKind::Hue(h) => PartStyle {
            background: rgb(60, 60, 40),
            title: rgb(200, 200, 100),
            icon: "\u{1F4A1}",
            name: hue_name(h),
        },
    }
}

/// Name of a part category.
pub open spec fn category_name(t: PartType) -> &'static str {
    match t {
        PartType::Trigger => "Trigger",
        PartType::Source => "Source",
        PartType::Mask => "Mask",
        PartType::Modulator => "Modulator",
        PartType::Mesh => "Mesh",
        PartType::Layer => "Layer",
        PartType::Output => "Output",
        PartType::Hue => "Hue",
    }
}

/// Colour of a socket type, and of the cables that carry it.
pub open spec fn socket_color(t: ModuleSocketType) -> Rgb {
    match t {
        ModuleSocketType::Trigger => rgb(180, 100, 220),
        ModuleSocketType::Media => rgb(100, 180, 220),
        ModuleSocketType::Effect => rgb(220, 180, 100),
        ModuleSocketType::Layer => rgb(100, 220, 140),
        ModuleSocketType::Output => rgb(220, 100, 100),
        ModuleSocketType::Link => rgb(200, 200, 200),
    }
}

/// File name of the plug icon drawn at the ends of a cable of a socket type.
pub open spec fn plug_icon(t: ModuleSocketType) -> &'static str {
    match t {
        ModuleSocketType::Trigger => "audio-jack.svg",
        ModuleSocketType::Media => "plug.svg",
        ModuleSocketType::Effect => "usb-cable.svg",
        ModuleSocketType::Layer => "power-plug.svg",
        ModuleSocketType::Output => "power-plug.svg",
        ModuleSocketType::Link => "power-plug.svg",
    }
}

fn trigger_label(t: TriggerKind) -> (r: &'static str)
    ensures
        r == trigger_name(t),
{
    match t {
        TriggerKind::AudioFft => "Audio FFT",
        TriggerKind::Beat => "Beat",
        TriggerKind::Midi { .. } => "MIDI",
        TriggerKind::Osc => "OSC",
        TriggerKind::Shortcut => "Shortcut",
        TriggerKind::Random => "Random",
        TriggerKind::Fixed => "Fixed Timer",
    }
}

fn source_label(s: SourceKind) -> (r: &'static str)
    ensures
        r == source_name(s),
{
    match s {
        SourceKind::MediaFile => "Media File",
        SourceKind::Shader => "Shader",
        SourceKind::LiveInput => "Live Input",
        SourceKind::NdiInput => "NDI Input",
        SourceKind::SpoutInput => "Spout Input",
        SourceKind::VideoUni => "Video (Uni)",
        SourceKind::ImageUni => "Image (Uni)",
        SourceKind::VideoMulti => "Video (Multi)",
        SourceKind::ImageMulti => "Image (Multi)",
        SourceKind::Bevy => "Bevy Scene",
        SourceKind::BevyAtmosphere => "Atmosphere",
        SourceKind::BevyHexGrid => "Hex Grid",
        SourceKind::BevyParticles => "Particles",
        SourceKind::Bevy3DText => "3D Text",
        SourceKind::BevyCamera => "Camera",
        SourceKind::Bevy3DShape => "3D Shape",
        SourceKind::Bevy3DModel => "3D Model",
    }
}

fn mask_label(m: MaskKind) -> (r: &'static str)
    ensures
        r == mask_name(m),
{
    match m {
        MaskKind::File => "File Mask",
        MaskKind::Shape(MaskShape::Circle) => "Circle",
        MaskKind::Shape(MaskShape::Rectangle) => "Rectangle",
        MaskKind::Shape(MaskShape::Triangle) => "Triangle",
        MaskKind::Shape(MaskShape::Star) => "Star",
        MaskKind::Shape(MaskShape::Ellipse) => "Ellipse",
        MaskKind::Gradient => "Gradient",
    }
}

pub(crate) fn effect_label(e: EffectKind) -> (r: &'static str)
    ensures
        r == effect_name(e),
{
    match e {
        EffectKind::Blur => "Blur",
        EffectKind::Sharpen => "Sharpen",
        EffectKind::Invert => "Invert",
        EffectKind::Threshold => "Threshold",
        EffectKind::Brightness => "Brightness",
        EffectKind::Contrast => "Contrast",
        EffectKind::Saturation => "Saturation",
        EffectKind::HueShift => "Hue Shift",
        EffectKind::Colorize => "Colorize",
        EffectKind::Wave => "Wave",
        EffectKind::Spiral => "Spiral",
        EffectKind::Pinch => "Pinch",
        EffectKind::Mirror => "Mirror",
        EffectKind::Kaleidoscope => "Kaleidoscope",
        EffectKind::Pixelate => "Pixelate",
        EffectKind::Halftone => "Halftone",
        EffectKind::EdgeDetect => "Edge Detect",
        EffectKind::Posterize => "Posterize",
        EffectKind::Glitch => "Glitch",
        EffectKind::RgbSplit => "RGB Split",
        EffectKind::ChromaticAberration => "Chromatic",
        EffectKind::VHS => "VHS",
        EffectKind::FilmGrain => "Film Grain",
        EffectKind::Vignette => "Vignette",
        EffectKind::ShaderGraph => "Custom Graph",
    }
}

pub(crate) fn modulizer_label(m: ModulizerKind) -> (r: &'static str)
    ensures
        r == modulizer_name(m),
{
    match m {
        ModulizerKind::Effect(e) => effect_label(e),
        ModulizerKind::BlendMode(b) => match b {
            BlendModeKind::Normal => "Normal",
            BlendModeKind::Add => "Add",
            BlendModeKind::Multiply => "Multiply",
            BlendModeKind::Screen => "Screen",
            BlendModeKind::Overlay => "Overlay",
            BlendModeKind::Difference => "Difference",
            BlendModeKind::Exclusion => "Exclusion",
        },
        ModulizerKind::AudioReactive => "Audio Reactive",
    }
}

/// Colours, icon and type name with which a part of kind `kind` is drawn.
pub fn get_part_style(kind: &PartKind) -> (r: PartStyle)
    ensures
        r == part_style(*kind),
{
    match *kind {
        PartKind::Trigger(t) => PartStyle {
            background: Rgb { r: 60, g: 50, b: 70 },
            title: Rgb { r: 130, g: 80, b: 180 },
            icon: "\u{26A1}",
            name: trigger_label(t),
        },
        PartKind::Source(SourceKind::BevyAtmosphere) => PartStyle {
            background: Rgb { r: 40, g: 60, b: 80 },
            title: Rgb { r: 100, g: 180, b: 220 },
            icon: "\u{E2}\u{2DC} \u{EF}\u{B8} ",
            name: "Atmosphere",
        },
        PartKind::Source(SourceKind::BevyHexGrid) => PartStyle {
            background: Rgb { r: 40, g: 60, b: 80 },
            title: Rgb { r: 100, g: 180, b: 220 },
            icon: "\u{1F6D1}",
            name: "Hex Grid",
        },
        PartKind::Source(SourceKind::BevyParticles) => PartStyle {
            background: Rgb { r: 40, g: 60, b: 80 },
            title: Rgb { r: 100, g: 180, b: 220 },
            icon: "\u{2728}",
            name: "Particles",
        },
        PartKind::Source(SourceKind::Bevy3DText) => PartStyle {
            background: Rgb { r: 40, g: 60, b: 80 },
            title: Rgb { r: 100, g: 220, b: 180 },
            icon: "T",
            name: "3D Text",
        },
        PartKind::Source(SourceKind::BevyCamera) => PartStyle {
            background: Rgb { r: 40, g: 60, b: 80 },
            title: Rgb { r: 180, g: 100, b: 220 },
            icon: "\u{1F3A5}",
            name: "Camera",
        },
        PartKind::Source(SourceKind::Bevy3DShape) => PartStyle {
            background: Rgb { r: 40, g: 60, b: 80 },
            title: Rgb { r: 100, g: 180, b: 220 },
            icon: "\u{1F9CA}",
            name: "3D Shape",
        },
        PartKind::Source(s) => PartStyle {
            background: Rgb { r: 50, g: 60, b: 70 },
            title: Rgb { r: 80, g: 140, b: 180 },
            icon: "\u{1F3AC}",
            name: source_label(s),
        },
        PartKind::Mask(m) => PartStyle {
            background: Rgb { r: 60, g: 55, b: 70 },
            title: Rgb { r: 160, g: 100, b: 180 },
            icon: "\u{1F3AD}",
            name: mask_label(m),
        },
        PartKind::Modulizer(m) => PartStyle {
            background: Rgb { r: 60, g: 60, b: 50 },
            title: Rgb { r: 180, g: 140, b: 60 },
            icon: "\u{E3}\u{20AC}\u{B0}\u{EF}\u{B8} ",
            name: modulizer_label(m),
        },
        PartKind::Mesh => PartStyle {
            background: Rgb { r: 60, g: 60, b: 80 },
            title: Rgb { r: 100, g: 100, b: 200 },
            icon: "\u{1F578}\u{FE0F}\u{EF}\u{B8} ",
            name: "Mesh",
        },
        PartKind::Layer(l) => PartStyle {
            background: Rgb { r: 50, g: 70, b: 60 },
            title: Rgb { r: 80, g: 180, b: 120 },
            icon: "\u{1F4D1}",
            name: match l {
                LayerKind::Single { .. } => "Single Layer",
                LayerKind::Group => "Layer Group",
                LayerKind::All => "All Layers",
            },
        },
        PartKind::Output(o) => PartStyle {
            background: Rgb { r: 70, g: 50, b: 50 },
            title: Rgb { r: 180, g: 80, b: 80 },
            icon: "\u{1F4FA}",
            name: match o {
                OutputKind::Projector { .. } => "Projector",
                OutputKind::NdiOutput => "NDI Output",
                OutputKind::Spout => "Spout Output",
                OutputKind::Hue => "Philips Hue",
            },
        },
        PartKind::Hue(h) => PartStyle {
            background: Rgb { r: 60, g: 60, b: 40 },
            title: Rgb { r: 200, g: 200, b: 100 },
            icon: "\u{1F4A1}",
            name: match h {
                HueKind::SingleLamp => "Single Lamp",
                HueKind::MultiLamp => "Multi Lamp",
                HueKind::EntertainmentGroup => "Entertainment Group",
            },
        },
    }
}

/// Name of the category of a part kind.
pub fn get_part_category(kind: &PartKind) -> (r: &'static str)
    ensures
        r == category_name(kind_type(*kind)),
{
    match kind {
        PartKind::Trigger(_) => "Trigger",
        PartKind::Source(_) => "Source",
        PartKind::Mask(_) => "Mask",
        PartKind::Modulizer(_) => "Modulator",
        PartKind::Mesh => "Mesh",
        PartKind::Layer(_) => "Layer",
        PartKind::Output(_) => "Output",
        PartKind::Hue(_) => "Hue",
    }
}

/// Colour of a socket type.
pub fn get_socket_color(socket_type: &ModuleSocketType) -> (r: Rgb)
    ensures
        r == socket_color(*socket_type),
{
    match socket_type {
        ModuleSocketType::Trigger => Rgb { r: 180, g: 100, b: 220 },
        ModuleSocketType::Media => Rgb { r: 100, g: 180, b: 220 },
        ModuleSocketType::Effect => Rgb { r: 220, g: 180, b: 100 },
        ModuleSocketType::Layer => Rgb { r: 100, g: 220, b: 140 },
        ModuleSocketType::Output => Rgb { r: 220, g: 100, b: 100 },
        ModuleSocketType::Link => Rgb { r: 200, g: 200, b: 200 },
    }
}

/// File name of the plug icon of a socket type.
pub fn get_plug_icon(socket_type: &ModuleSocketType) -> (r: &'static str)
    ensures
        r == plug_icon(*socket_type),
{
    match socket_type {
        ModuleSocketType::Trigger => "audio-jack.svg",
        ModuleSocketType::Media => "plug.svg",
        ModuleSocketType::Effect => "usb-cable.svg",
        ModuleSocketType::Layer => "power-plug.svg",
        ModuleSocketType::Output => "power-plug.svg",
        ModuleSocketType::Link => "power-plug.svg",
    }
}

/// A socket as a name and a type.
pub open spec fn socket_view(s: ModuleSocket) -> (Seq<char>, ModuleSocketType) {
    (s.name@, s.socket_type)
}

/// The input sockets that a new part of a category gets, in order.
pub open spec fn input_sockets(t: PartType) -> Seq<(Seq<char>, ModuleSocketType)> {
    match t {
        PartType::Trigger => seq![],
        PartType::Source => seq![("Trigger In"@, ModuleSocketType::Trigger)],
        PartType::Mask => seq![
            ("Media In"@, ModuleSocketType::Media),
            ("Mask In"@, ModuleSocketType::Media),
        ],
        PartType::Modulator => seq![
            ("Media In"@, ModuleSocketType::Media),
            ("Trigger In"@, ModuleSocketType::Trigger),
        ],
        PartType::Mesh => seq![],
        PartType::Layer => seq![("Media In"@, ModuleSocketType::Media)],
        PartType::Output => seq![("Layer In"@, ModuleSocketType::Layer)],
        PartType::Hue => seq![
            ("Brightness"@, ModuleSocketType::Trigger),
            ("Color (RGB)"@, ModuleSocketType::Media),
            ("Strobe"@, ModuleSocketType::Trigger),
        ],
    }
}

/// The output sockets that a new part of a category gets, in order.
pub open spec fn output_sockets(t: PartType) -> Seq<(Seq<char>, ModuleSocketType)> {
    match t {
        PartType::Trigger => seq![("Trigger Out"@, ModuleSocketType::Trigger)],
        PartType::Source => seq![("Media Out"@, ModuleSocketType::Media)],
        PartType::Mask => seq![("Media Out"@, ModuleSocketType::Media)],
        PartType::Modulator => seq![("Media Out"@, ModuleSocketType::Media)],
        PartType::Mesh => seq![],
        PartType::Layer => seq![("Layer Out"@, ModuleSocketType::Layer)],
        PartType::Output => seq![],
        PartType::Hue => seq![],
    }
}

/// The sockets of new parts chain up in the order of the signal: a
/// trigger's output fits the trigger input of a source and of a modulator;
/// the media output of a source, mask or modulator fits the media input of a
/// mask, a modulator and a layer; and a layer's output fits an output's input.
pub proof fn lemma_sockets_chain_in_signal_order()
    ensures
        output_sockets(PartType::Trigger).len() > 0,
        input_sockets(PartType::Source).len() > 0,
        output_sockets(PartType::Trigger)[0].1 == input_sockets(PartType::Source)[0].1,
        output_sockets(PartType::Trigger)[0].1 == input_sockets(PartType::Modulator)[1].1,
        forall|t: PartType|
            (t == PartType::Source || t == PartType::Mask || t == PartType::Modulator) ==> {
                &&& output_sockets(t).len() > 0
                &&& output_sockets(t)[0].1 == input_sockets(PartType::Layer)[0].1
                &&& output_sockets(t)[0].1 == input_sockets(PartType::Mask)[0].1
                &&& output_sockets(t)[0].1 == input_sockets(PartType::Modulator)[0].1
            },
        output_sockets(PartType::Layer).len() > 0,
        input_sockets(PartType::Output).len() > 0,
        output_sockets(PartType::Layer)[0].1 == input_sockets(PartType::Output)[0].1,
        output_sockets(PartType::Layer)[0].1 != input_sockets(PartType::Layer)[0].1,
{
}

fn make_socket(name: &str, socket_type: ModuleSocketType) -> (s: ModuleSocket)
    ensures
        socket_view(s) == (name@, socket_type),
{
    ModuleSocket { name: name.to_string(), socket_type }
}

/// The input and output sockets of a new part of kind `kind`.
pub fn get_sockets_for_part_type(kind: &PartKind) -> (r: (Vec<ModuleSocket>, Vec<ModuleSocket>))
    ensures
        r.0@.map_values(|s: ModuleSocket| socket_view(s)) == input_sockets(kind_type(*kind)),
        r.1@.map_values(|s: ModuleSocket| socket_view(s)) == output_sockets(kind_type(*kind)),
{
    let r = match kind {
        PartKind::Trigger(_) => (vec![], vec![make_socket("Trigger Out", ModuleSocketType::Trigger)]),
        PartKind::Source(_) => (
            vec![make_socket("Trigger In", ModuleSocketType::Trigger)],
            vec![make_socket("Media Out", ModuleSocketType::Media)],
        ),
        PartKind::Mask(_) => (
            vec![
                make_socket("Media In", ModuleSocketType::Media),
                make_socket("Mask In", ModuleSocketType::Media),
            ],
            vec![make_socket("Media Out", ModuleSocketType::Media)],
        ),
        PartKind::Modulizer(_) => (
            vec![
                make_socket("Media In", ModuleSocketType::Media),
                make_socket("Trigger In", ModuleSocketType::Trigger),
            ],
            vec![make_socket("Media Out", ModuleSocketType::Media)],
        ),
        PartKind::Mesh => (vec![], vec![]),
        PartKind::Layer(_) => (
            vec![make_socket("Media In", ModuleSocketType::Media)],
            vec![make_socket("Layer Out", ModuleSocketType::Layer)],
        ),
        PartKind::Output(_) => (vec![make_socket("Layer In", ModuleSocketType::Layer)], vec![]),
        PartKind::Hue(_) => (
            vec![
                make_socket("Brightness", ModuleSocketType::Trigger),
                make_socket("Color (RGB)", ModuleSocketType::Media),
                make_socket("Strobe", ModuleSocketType::Trigger),
            ],
            vec![],
        ),
    };
    assert(r.0@.map_values(|s: ModuleSocket| socket_view(s)) =~= input_sockets(kind_type(*kind)));
    assert(r.1@.map_values(|s: ModuleSocket| socket_view(s)) =~= output_sockets(kind_type(*kind)));
    r
}

/// The socket type that colours a cable: that of its output socket where the
/// source part has one at that index, else that of its input socket where
/// the target part has one, else media.
pub open spec fn cable_socket_type(
    from_outputs: Seq<ModuleSocketType>,
    from_socket: int,
    to_inputs: Seq<ModuleSocketType>,
    to_socket: int,
) -> ModuleSocketType {
    if 0 <= from_socket < from_outputs.len() {
        from_outputs[from_socket]
    } else if 0 <= to_socket < to_inputs.len() {
        to_inputs[to_socket]
    } else {
        ModuleSocketType::Media
    }
}

/// The socket type that colours the cable from output `from_socket` of a part
/// with output types `from_outputs` to input `to_socket` of a part with input
/// types `to_inputs`.
pub fn get_cable_socket_type(
    from_outputs: &Vec<ModuleSocketType>,
    from_socket: usize,
    to_inputs: &Vec<ModuleSocketType>,
    to_socket: usize,
) -> (r: ModuleSocketType)
    ensures
        r == cable_socket_type(from_outputs@, from_socket as int, to_inputs@, to_socket as int),
{
    if from_socket < from_outputs.len() {
        from_outputs[from_socket]
    } else if to_socket < to_inputs.len() {
        to_inputs[to_socket]
    } else {
        ModuleSocketType::Media
    }
}

} // verus!
