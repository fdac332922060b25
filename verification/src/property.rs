//! The property line of a node: the setting that the canvas shows under a
//! part's title, such as the file name of a media source or the channel and
//! note of a MIDI trigger.
use crate::graph::{
    HueKind, LayerKind, MaskKind, MaskShape, ModulePart, ModulizerKind, OutputKind, PartKind,
    SourceKind, TriggerKind,
};
use crate::paths::{file_name_of, path_file_name};
use crate::style::{blend_name, effect_label, effect_name, modulizer_label, modulizer_name};
use vstd::prelude::*;

verus! {

broadcast use vstd::string::group_string_axioms;

/// The modes of a 3D camera source.
#[derive(Clone, Copy, PartialEq, Eq, Structural, Debug)]
pub enum CameraMode {
    Orbit,
    Fly,
    Static,
}

/// The text and number settings of a part that its property line shows;
/// each kind of part reads only its own fields.
pub struct PartDetails {
    /// File of a media, video, image, mask or model part.
    pub path: String,
    /// Name of a shader, layer, group, output, sender or lamp.
    pub name: String,
    /// Address of an OSC trigger.
    pub address: String,
    /// Key of a shortcut trigger.
    pub key_code: String,
    /// Band of an audio trigger, by its name.
    pub band: String,
    /// Interval of a fixed trigger.
    pub interval_ms: u32,
    /// Device of a live input.
    pub device_id: u32,
    /// Source of an NDI input, if one is chosen.
    pub source_name: Option<String>,
    /// Shared id of a multi video or image.
    pub shared_id: String,
    /// Text of a 3D text source.
    pub text: String,
    /// Mode of a 3D camera.
    pub camera: CameraMode,
    /// Shape of a 3D shape source, by its name.
    pub shape: String,
    /// Angle of a gradient mask, in whole degrees.
    pub angle_degrees: i32,
    /// Source of an audio reactive modulator.
    pub audio_source: String,
    /// Bridge address of a Hue output.
    pub bridge_ip: String,
}

/// The decimal digit `d`.
pub open spec fn digit_char(d: nat) -> char {
    if d == 0 {
        '0'
    } else if d == 1 {
        '1'
    } else if d == 2 {
        '2'
    } else if d == 3 {
        '3'
    } else if d == 4 {
        '4'
    } else if d == 5 {
        '5'
    } else if d == 6 {
        '6'
    } else if d == 7 {
        '7'
    } else if d == 8 {
        '8'
    } else {
        '9'
    }
}

/// `n` written in decimal, without leading zeros.
pub open spec fn decimal(n: nat) -> Seq<char>
    decreases n,
{
    if n < 10 {
        seq![digit_char(n)]
    } else {
        decimal(n / 10) + seq![digit_char(n % 10)]
    }
}

/// `n` written in decimal, with a minus sign when it is negative.
pub open spec fn signed_decimal(n: int) -> Seq<char> {
    if n < 0 {
        seq!['-'] + decimal((-n) as nat)
    } else {
        decimal(n as nat)
    }
}

/// The line of a file setting: `empty` when no file is chosen, else `icon`
/// and the file name.
pub open spec fn file_line(icon: Seq<char>, empty: Seq<char>, path: Seq<char>) -> Seq<char> {
    if path.len() == 0 {
        empty
    } else {
        icon + file_name_of(path)
    }
}

/// The name under which a mask shape is shown.
pub open spec fn shape_name(s: MaskShape) -> &'static str {
    match s {
        MaskShape::Circle => "Circle",
        MaskShape::Rectangle => "Rectangle",
        MaskShape::Triangle => "Triangle",
        MaskShape::Star => "Star",
        MaskShape::Ellipse => "Ellipse",
    }
}

/// At most the first ten characters of `s`.
pub open spec fn first_ten(s: Seq<char>) -> Seq<char> {
    if s.len() < 10 {
        s
    } else {
        s.take(10)
    }
}

/// The property line of a part of kind `kind` with settings `d`.
pub open spec fn property_text(kind: PartKind, d: PartDetails) -> Seq<char> {
    match kind {
        PartKind::Trigger(t) => match t {
            TriggerKind::AudioFft => "\u{1F50A} Audio: "@ + d.band@,
            TriggerKind::Random => "\u{1F3B2} Random"@,
            TriggerKind::Fixed => "\u{23F1}\u{FE0F}\u{EF}\u{B8}  "@ + decimal(d.interval_ms as nat) + "ms"@,
            TriggerKind::Midi { channel, note } => "\u{1F3B9} Ch"@ + decimal(channel as nat)
                + " N"@ + decimal(note as nat),
            TriggerKind::Osc => "\u{1F4E1} "@ + d.address@,
            TriggerKind::Shortcut => "\u{E2}\u{152}\u{A8}\u{EF}\u{B8}  "@ + d.key_code@,
            TriggerKind::Beat => "\u{1F941} Beat"@,
        },
        PartKind::Source(s) => match s {
            SourceKind::MediaFile => file_line("\u{1F4C1} "@, "\u{1F4C1} Select file..."@, d.path@),
            SourceKind::Shader => "\u{1F3A8} "@ + d.name@,
            SourceKind::LiveInput => "\u{1F4F9} Device "@ + decimal(d.device_id as nat),
            SourceKind::NdiInput => "\u{1F4E1} "@ + match d.source_name {
                Some(n) => n@,
                None => "None"@,
            },
            SourceKind::SpoutInput => "\u{1F6B0} "@ + d.name@,
            SourceKind::VideoUni => file_line("\u{1F4F9} "@, "\u{1F4C1} Select video..."@, d.path@),
            SourceKind::ImageUni => file_line(
                "\u{1F5BC} "@,
                "\u{1F5BC} Select image..."@,
                d.path@,
            ),
            SourceKind::VideoMulti => "\u{1F4F9} Shared: "@ + d.shared_id@,
            SourceKind::ImageMulti => "\u{1F5BC} Shared: "@ + d.shared_id@,
            SourceKind::Bevy => "\u{1F3AE} Bevy Scene"@,
            SourceKind::BevyAtmosphere => "\u{E2}\u{2DC} \u{EF}\u{B8}  Atmosphere"@,
            SourceKind::BevyHexGrid => "\u{1F6D1} Hex Grid"@,
            SourceKind::BevyParticles => "\u{2728} Particles"@,
            SourceKind::Bevy3DText => "T: "@ + first_ten(d.text@),
            SourceKind::BevyCamera => match d.camera {
                CameraMode::Orbit => "\u{1F3A5} Orbit"@,
                CameraMode::Fly => "\u{1F3A5} Fly"@,
                CameraMode::Static => "\u{1F3A5} Static"@,
            },
            SourceKind::Bevy3DShape => "\u{1F9CA} "@ + d.shape@,
            SourceKind::Bevy3DModel => "\u{1F3AE} Model: "@ + d.path@,
        },
        PartKind::Mask(m) => match m {
            MaskKind::File => file_line("\u{1F4C1} "@, "\u{1F4C1} Select mask..."@, d.path@),
            MaskKind::Shape(s) => "\u{1F537} "@ + shape_name(s)@,
            MaskKind::Gradient => "\u{1F308} Gradient "@ + signed_decimal(d.angle_degrees as int)
                + "\u{C2}\u{B0}"@,
        },
        PartKind::Modulizer(m) => match m {
            ModulizerKind::Effect(e) => "\u{2728} "@ + effect_name(e)@,
            ModulizerKind::BlendMode(b) => "\u{1F504} "@ + blend_name(b)@,
            ModulizerKind::AudioReactive => "\u{1F50A} "@ + d.audio_source@,
        },
        PartKind::Mesh => "\u{1F578}\u{FE0F}\u{EF}\u{B8}  Mesh"@,
        PartKind::Layer(l) => match l {
            LayerKind::Single { .. } => "\u{1F4D1} "@ + d.name@,
            LayerKind::Group => "\u{1F4C1} "@ + d.name@,
            LayerKind::All => "\u{1F4D1} All Layers"@,
        },
        PartKind::Output(o) => match o {
            OutputKind::Projector { .. } => "\u{1F4FA} "@ + d.name@,
            OutputKind::NdiOutput => "\u{1F4E1} "@ + d.name@,
            OutputKind::Spout => "\u{1F6B0} "@ + d.name@,
            OutputKind::Hue => if d.bridge_ip@.len() == 0 {
                "\u{1F4A1} Not Connected"@
            } else {
                "\u{1F4A1} "@ + d.bridge_ip@
            },
        },
        PartKind::Hue(h) => match h {
            HueKind::SingleLamp => "\u{1F4A1} "@ + d.name@,
            HueKind::MultiLamp => "\u{1F4A1}\u{1F4A1} "@ + d.name@,
            HueKind::EntertainmentGroup => "\u{1F3AD} "@ + d.name@,
        },
    }
}

/// `prefix` followed by `rest`.
fn joined(prefix: &str, rest: &str) -> (r: String)
    ensures
        r@ == prefix@ + rest@,
{
    let mut s = String::from_str(prefix);
    s.append(rest);
    s
}

/// The digit `d` as a one-character text.
fn digit_text(d: u64) -> (r: &'static str)
    requires
        d < 10,
    ensures
        r@ == seq![digit_char(d as nat)],
{
    if d == 0 {
        proof { reveal_strlit("0"); }
        "0"
    } else if d == 1 {
        proof { reveal_strlit("1"); }
        "1"
    } else if d == 2 {
        proof { reveal_strlit("2"); }
        "2"
    } else if d == 3 {
        proof { reveal_strlit("3"); }
        "3"
    } else if d == 4 {
        proof { reveal_strlit("4"); }
        "4"
    } else if d == 5 {
        proof { reveal_strlit("5"); }
        "5"
    } else if d == 6 {
        proof { reveal_strlit("6"); }
        "6"
    } else if d == 7 {
        proof { reveal_strlit("7"); }
        "7"
    } else if d == 8 {
        proof { reveal_strlit("8"); }
        "8"
    } else {
        proof { reveal_strlit("9"); }
        "9"
    }
}

/// `n` written in decimal.
pub fn decimal_text(n: u64) -> (r: String)
    ensures
        r@ == decimal(n as nat),
    decreases n,
{
    if n < 10 {
        String::from_str(digit_text(n))
    } else {
        let mut s = decimal_text(n / 10);
        s.append(digit_text(n % 10));
        s
    }
}

/// `n` written in decimal, with a minus sign when it is negative.
pub fn signed_decimal_text(n: i32) -> (r: String)
    ensures
        r@ == signed_decimal(n as int),
{
    if n < 0 {
        let magnitude: i64 = -(n as i64);
        proof { reveal_strlit("-"); }
        joined("-", decimal_text(magnitude as u64).as_str())
    } else {
        decimal_text(n as u64)
    }
}

/// The line of a file setting.
fn file_text(icon: &str, empty: &str, path: &String) -> (r: String)
    ensures
        r@ == file_line(icon@, empty@, path@),
{
    if path.as_str().unicode_len() == 0 {
        String::from_str(empty)
    } else {
        let name = path_file_name(path.as_str());
        joined(icon, name.as_str())
    }
}

/// The name under which a mask shape is shown.
fn shape_label(s: MaskShape) -> (r: &'static str)
    ensures
        r == shape_name(s),
{
    match s {
        MaskShape::Circle => "Circle",
        MaskShape::Rectangle => "Rectangle",
        MaskShape::Triangle => "Triangle",
        MaskShape::Star => "Star",
        MaskShape::Ellipse => "Ellipse",
    }
}

/// The property line that the canvas shows under the title of a part of
/// kind `kind` with settings `d`.
pub fn get_part_property_text(kind: &PartKind, d: &PartDetails) -> (r: String)
    ensures
        r@ == property_text(*kind, *d),
{
    match *kind {
        PartKind::Trigger(t) => match t {
            TriggerKind::AudioFft => joined("\u{1F50A} Audio: ", d.band.as_str()),
            TriggerKind::Random => String::from_str("\u{1F3B2} Random"),
            TriggerKind::Fixed => {
                let mut s = joined("\u{23F1}\u{FE0F}\u{EF}\u{B8}  ", decimal_text(d.interval_ms as u64).as_str());
                s.append("ms");
                s
            },
            TriggerKind::Midi { channel, note } => {
                let mut s = joined("\u{1F3B9} Ch", decimal_text(channel as u64).as_str());
                s.append(" N");
                s.append(decimal_text(note as u64).as_str());
                s
            },
            TriggerKind::Osc => joined("\u{1F4E1} ", d.address.as_str()),
            TriggerKind::Shortcut => joined("\u{E2}\u{152}\u{A8}\u{EF}\u{B8}  ", d.key_code.as_str()),
            TriggerKind::Beat => String::from_str("\u{1F941} Beat"),
        },
        PartKind::Source(s) => match s {
            SourceKind::MediaFile => file_text("\u{1F4C1} ", "\u{1F4C1} Select file...", &d.path),
            SourceKind::Shader => joined("\u{1F3A8} ", d.name.as_str()),
            SourceKind::LiveInput => joined(
                "\u{1F4F9} Device ",
                decimal_text(d.device_id as u64).as_str(),
            ),
            SourceKind::NdiInput => match &d.source_name {
                Some(n) => joined("\u{1F4E1} ", n.as_str()),
                None => joined("\u{1F4E1} ", "None"),
            },
            SourceKind::SpoutInput => joined("\u{1F6B0} ", d.name.as_str()),
            SourceKind::VideoUni => file_text("\u{1F4F9} ", "\u{1F4C1} Select video...", &d.path),
            SourceKind::ImageUni => file_text("\u{1F5BC} ", "\u{1F5BC} Select image...", &d.path),
            SourceKind::VideoMulti => joined("\u{1F4F9} Shared: ", d.shared_id.as_str()),
            SourceKind::ImageMulti => joined("\u{1F5BC} Shared: ", d.shared_id.as_str()),
            SourceKind::Bevy => String::from_str("\u{1F3AE} Bevy Scene"),
            SourceKind::BevyAtmosphere => String::from_str("\u{E2}\u{2DC} \u{EF}\u{B8}  Atmosphere"),
            SourceKind::BevyHexGrid => String::from_str("\u{1F6D1} Hex Grid"),
            SourceKind::BevyParticles => String::from_str("\u{2728} Particles"),
            SourceKind::Bevy3DText => {
                let n = d.text.as_str().unicode_len();
                let k: usize = if n < 10 { n } else { 10 };
                let head = d.text.as_str().substring_char(0, k);
                proof {
                    assert(d.text@.subrange(0, k as int) =~= first_ten(d.text@));
                }
                joined("T: ", head)
            },
            SourceKind::BevyCamera => match d.camera {
                CameraMode::Orbit => String::from_str("\u{1F3A5} Orbit"),
                CameraMode::Fly => String::from_str("\u{1F3A5} Fly"),
                CameraMode::Static => String::from_str("\u{1F3A5} Static"),
            },
            SourceKind::Bevy3DShape => joined("\u{1F9CA} ", d.shape.as_str()),
            SourceKind::Bevy3DModel => joined("\u{1F3AE} Model: ", d.path.as_str()),
        },
        PartKind::Mask(m) => match m {
            MaskKind::File => file_text("\u{1F4C1} ", "\u{1F4C1} Select mask...", &d.path),
            MaskKind::Shape(s) => joined("\u{1F537} ", shape_label(s)),
            MaskKind::Gradient => {
                let mut s = joined(
                    "\u{1F308} Gradient ",
                    signed_decimal_text(d.angle_degrees).as_str(),
                );
                s.append("\u{C2}\u{B0}");
                s
            },
        },
        PartKind::Modulizer(m) => match m {
            ModulizerKind::Effect(e) => joined("\u{2728} ", effect_label(e)),
            ModulizerKind::BlendMode(b) => {
                let name = modulizer_label(ModulizerKind::BlendMode(b));
                proof {
                    assert(modulizer_name(ModulizerKind::BlendMode(b)) == blend_name(b));
                }
                joined("\u{1F504} ", name)
            },
            ModulizerKind::AudioReactive => joined("\u{1F50A} ", d.audio_source.as_str()),
        },
        PartKind::Mesh => String::from_str("\u{1F578}\u{FE0F}\u{EF}\u{B8}  Mesh"),
        PartKind::Layer(l) => match l {
            LayerKind::Single { .. } => joined("\u{1F4D1} ", d.name.as_str()),
            LayerKind::Group => joined("\u{1F4C1} ", d.name.as_str()),
            LayerKind::All => String::from_str("\u{1F4D1} All Layers"),
        },
        PartKind::Output(o) => match o {
            OutputKind::Projector { .. } => joined("\u{1F4FA} ", d.name.as_str()),
            OutputKind::NdiOutput => joined("\u{1F4E1} ", d.name.as_str()),
            OutputKind::Spout => joined("\u{1F6B0} ", d.name.as_str()),
            OutputKind::Hue => if d.bridge_ip.as_str().unicode_len() == 0 {
                String::from_str("\u{1F4A1} Not Connected")
            } else {
                joined("\u{1F4A1} ", d.bridge_ip.as_str())
            },
        },
        PartKind::Hue(h) => match h {
            HueKind::SingleLamp => joined("\u{1F4A1} ", d.name.as_str()),
            HueKind::MultiLamp => joined("\u{1F4A1}\u{1F4A1} ", d.name.as_str()),
            HueKind::EntertainmentGroup => joined("\u{1F3AD} ", d.name.as_str()),
        },
    }
}

/// The property line of every part, in part order; `details[i]` holds the
/// settings of part `i`.
pub fn property_texts<P>(parts: &Vec<ModulePart<P>>, details: &Vec<PartDetails>) -> (r: Vec<
    String,
>)
    requires
        details@.len() == parts@.len(),
    ensures
        r@.len() == parts@.len(),
        forall|i: int| 0 <= i < parts@.len() ==> (#[trigger] r@[i])@ == property_text(
            parts@[i].kind,
            details@[i],
        ),
{
    let mut r: Vec<String> = Vec::new();
    let mut i: usize = 0;
    while i < parts.len()
        invariant
            details@.len() == parts@.len(),
            i <= parts@.len(),
            r@.len() == i,
            forall|k: int| 0 <= k < i ==> (#[trigger] r@[k])@ == property_text(
                parts@[k].kind,
                details@[k],
            ),
        decreases parts@.len() - i,
    {
        r.push(get_part_property_text(&parts[i].kind, &details[i]));
        i = i + 1;
    }
    r
}

} // verus!
