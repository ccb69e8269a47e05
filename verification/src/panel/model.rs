//! What is edited and what the window shows of it.
//!
//! A number on a slider or in the picture is an `N`: it is carried from
//! the window to the edit and back and never looked into here; one that
//! is held to bounds is a [`Level`]. An `L`
//! is a look, an adjustment's own sliders; a `G` is what only the whole
//! picture has.

use crate::panel::level::Level;
use crate::text;
use vstd::prelude::*;

verus! {

/// How a shape joins those before it in its mask, and the sign the
/// list shows for that.
#[derive(Debug, Clone, Copy, PartialEq, Eq, Structural)]
pub struct Mode {
    pub code: u8,
    pub sign: char,
}

/// A place in the picture, in the masks' units.
#[derive(Debug, Clone, Copy)]
pub struct Point<N> {
    pub x: N,
    pub y: N,
}

/// The brush a stroke was painted with.
#[derive(Debug, Clone, Copy, PartialEq, Eq, Structural)]
pub struct Brush {
    pub op: u8,
    pub size: Level,
    pub feather: Level,
    pub flow: Level,
}

/// A brush's stroke: the points the pointer went through.
#[derive(Debug)]
pub struct Stroke<N> {
    pub brush: Brush,
    pub points: Vec<Point<N>>,
}

/// A click on what a mask is of, or is not.
#[derive(Debug, Clone, Copy)]
pub struct Pick<N> {
    pub pos: Point<N>,
    pub positive: bool,
}

/// A range of the picture's luminance.
#[derive(Debug, Clone, Copy, PartialEq, Eq, Structural)]
pub struct LuminanceRange {
    pub low: Level,
    pub high: Level,
    pub low_feather: Level,
    pub high_feather: Level,
}

/// A range of the picture's colors. Its hue is round the circle.
#[derive(Debug, Clone, Copy, PartialEq, Eq, Structural)]
pub struct ColorRange {
    pub hue: Level,
    pub width: Level,
    pub hue_feather: Level,
    pub chroma: Level,
    pub chroma_feather: Level,
}

/// A shape of a mask.
#[derive(Debug)]
pub enum Shape<N> {
    Linear { from: Point<N>, to: Point<N> },
    Radial { center: Point<N>, radius: Point<N>, angle: N, feather: Level },
    Brush { strokes: Vec<Stroke<N>> },
    Subject,
    Sky { picks: Vec<Pick<N>> },
    Object { picks: Vec<Pick<N>>, boxes: Vec<(Point<N>, Point<N>)> },
    Luminance { range: LuminanceRange },
    Color { range: ColorRange },
    Unknown,
}

/// The kinds of shape there are.
#[derive(Debug, Clone, Copy, PartialEq, Eq, Structural)]
pub enum Kind {
    Linear,
    Radial,
    Brush,
    Subject,
    Sky,
    Object,
    Luminance,
    Color,
    Unknown,
}

/// A shape in a mask, and how it joins those before it.
#[derive(Debug)]
pub struct Component<N> {
    pub shape: Shape<N>,
    pub mode: Mode,
    pub invert: bool,
    pub enabled: bool,
}

#[derive(Debug)]
pub struct Mask<N> {
    pub components: Vec<Component<N>>,
    pub invert: bool,
}

/// A look: the tone curve's switch, which is the picture's and never a
/// mask's, and the sliders.
#[derive(Debug, Clone, Copy)]
pub struct Look<L> {
    pub tone: bool,
    pub sliders: L,
}

/// A look through a mask.
#[derive(Debug)]
pub struct Adjustment<N, L> {
    pub id: u64,
    pub name: String,
    pub enabled: bool,
    pub mask: Mask<N>,
    pub look: Look<L>,
}

/// How a patch repairs.
#[derive(Debug, Clone, Copy, PartialEq, Eq, Structural)]
pub enum Method {
    Heal,
    Clone,
    Fill,
}

impl Method {
    /// A way's name, as its button has it.
    pub open spec fn text(self) -> Seq<char> {
        match self {
            Method::Heal => "Heal"@,
            Method::Clone => "Clone"@,
            Method::Fill => "Fill"@,
        }
    }

    pub fn name(self) -> (s: &'static str)
        ensures
            s@ == self.text(),
    {
        match self {
            Method::Heal => "Heal",
            Method::Clone => "Clone",
            Method::Fill => "Fill",
        }
    }
}

/// A repair: a spot, or a stroke when it has more points.
#[derive(Debug)]
pub struct Patch<N> {
    pub id: u64,
    pub method: Method,
    pub points: Vec<Point<N>>,
    pub radius: Level,
    pub feather: Level,
    pub opacity: Level,
    pub source: Option<Point<N>>,
}

/// An edit: the picture's own look and settings, its local adjustments
/// and its repairs.
#[derive(Debug)]
pub struct Edit<N, L, G> {
    pub look: Look<L>,
    pub adjustments: Vec<Adjustment<N, L>>,
    pub patches: Vec<Patch<N>>,
    pub picture: G,
}

/// The numbers a new shape starts from.
#[derive(Debug, Clone, Copy)]
pub struct Blank<N> {
    pub zero: N,
    pub feather: Level,
    pub luminance: LuminanceRange,
    pub color: ColorRange,
}

/// What the window shows of the edit: the sliders, the lists and the
/// words.
#[derive(Debug)]
pub struct Window<N, L, G> {
    pub status: String,
    pub panel_tab: String,
    /// The tool in hand: a shape's kind, or nothing.
    pub placing: String,
    /// The tool adds to the chosen adjustment rather than making one.
    pub placing_into: bool,
    /// The dropper in hand, or nothing.
    pub picking: String,
    /// The repair in hand, or nothing.
    pub retouch_mode: String,
    pub show_mask: bool,
    pub shapes_open: bool,
    /// The chosen adjustment from one; zero is the whole picture.
    pub target: i32,
    pub target_name: String,
    pub adjustment_names: Vec<String>,
    pub adjustment_on: Vec<bool>,
    pub adjustment_enabled: bool,
    pub adjustment_name: String,
    pub mask_invert: bool,
    /// The chosen shape of the chosen adjustment.
    pub component: i32,
    pub component_names: Vec<String>,
    pub component_on: Vec<bool>,
    pub component_invert: bool,
    pub component_kind: String,
    pub has_feather: bool,
    pub mask_feather: Level,
    pub luminance: LuminanceRange,
    pub color: ColorRange,
    /// Where the color range's hue comes round to, when its slider is off
    /// the circle.
    pub hue_round: Level,
    pub look: Look<L>,
    pub picture: G,
    pub patch_names: Vec<String>,
    /// The chosen repair; below zero for none.
    pub patch: i32,
    pub patch_size: Level,
    pub patch_feather: Level,
    pub patch_opacity: Level,
    pub blank: Blank<N>,
}

/// A list's row as a window has it: none below zero is the first.
pub open spec fn row_of(i: i32) -> int {
    if i < 0 {
        0
    } else {
        i as int
    }
}

pub fn row(i: i32) -> (r: usize)
    ensures
        r == row_of(i),
{
    if i < 0 {
        0
    } else {
        i as usize
    }
}

impl Kind {
    /// A kind's name, as the buttons and the list have it.
    pub open spec fn text(self) -> Seq<char> {
        match self {
            Kind::Linear => "Linear"@,
            Kind::Radial => "Radial"@,
            Kind::Brush => "Brush"@,
            Kind::Subject => "Subject"@,
            Kind::Sky => "Sky"@,
            Kind::Object => "Object"@,
            Kind::Luminance => "Luminance"@,
            Kind::Color => "Color"@,
            Kind::Unknown => "Unknown"@,
        }
    }

    pub fn name(self) -> (s: &'static str)
        ensures
            s@ == self.text(),
    {
        match self {
            Kind::Linear => "Linear",
            Kind::Radial => "Radial",
            Kind::Brush => "Brush",
            Kind::Subject => "Subject",
            Kind::Sky => "Sky",
            Kind::Object => "Object",
            Kind::Luminance => "Luminance",
            Kind::Color => "Color",
            Kind::Unknown => "Unknown",
        }
    }

    /// A range of the picture's own, all in its sliders.
    pub open spec fn ranges(self) -> bool {
        self is Luminance || self is Color
    }
}

impl<N: Copy> Shape<N> {
    pub open spec fn of(self) -> Kind {
        match self {
            Shape::Linear { .. } => Kind::Linear,
            Shape::Radial { .. } => Kind::Radial,
            Shape::Brush { .. } => Kind::Brush,
            Shape::Subject => Kind::Subject,
            Shape::Sky { .. } => Kind::Sky,
            Shape::Object { .. } => Kind::Object,
            Shape::Luminance { .. } => Kind::Luminance,
            Shape::Color { .. } => Kind::Color,
            Shape::Unknown => Kind::Unknown,
        }
    }

    pub fn kind(&self) -> (k: Kind)
        ensures
            k == self.of(),
    {
        match self {
            Shape::Linear { .. } => Kind::Linear,
            Shape::Radial { .. } => Kind::Radial,
            Shape::Brush { .. } => Kind::Brush,
            Shape::Subject => Kind::Subject,
            Shape::Sky { .. } => Kind::Sky,
            Shape::Object { .. } => Kind::Object,
            Shape::Luminance { .. } => Kind::Luminance,
            Shape::Color { .. } => Kind::Color,
            Shape::Unknown => Kind::Unknown,
        }
    }
}


/// The kind a name names; unknown for anything else.
pub open spec fn kind_named(s: Seq<char>) -> Kind {
    if s == "Linear"@ {
        Kind::Linear
    } else if s == "Radial"@ {
        Kind::Radial
    } else if s == "Brush"@ {
        Kind::Brush
    } else if s == "Subject"@ {
        Kind::Subject
    } else if s == "Sky"@ {
        Kind::Sky
    } else if s == "Object"@ {
        Kind::Object
    } else if s == "Luminance"@ {
        Kind::Luminance
    } else if s == "Color"@ {
        Kind::Color
    } else {
        Kind::Unknown
    }
}

impl Kind {
    pub fn named(s: &str) -> (k: Kind)
        ensures
            k == kind_named(s@),
    {
        if text::same_text(s, "Linear") {
            Kind::Linear
        } else if text::same_text(s, "Radial") {
            Kind::Radial
        } else if text::same_text(s, "Brush") {
            Kind::Brush
        } else if text::same_text(s, "Subject") {
            Kind::Subject
        } else if text::same_text(s, "Sky") {
            Kind::Sky
        } else if text::same_text(s, "Object") {
            Kind::Object
        } else if text::same_text(s, "Luminance") {
            Kind::Luminance
        } else if text::same_text(s, "Color") {
            Kind::Color
        } else {
            Kind::Unknown
        }
    }
}

/// Every kind of shape has a name of its own, and the name leads back to
/// it; a name of none is of no kind that is known.
pub proof fn a_kind_is_known_by_its_name(k: Kind, s: Seq<char>)
    ensures
        kind_named(k.text()) == k,
        !(kind_named(s) is Unknown) ==> kind_named(s).text() == s,
{
    reveal_strlit("Linear");
    reveal_strlit("Radial");
    reveal_strlit("Brush");
    reveal_strlit("Subject");
    reveal_strlit("Sky");
    reveal_strlit("Object");
    reveal_strlit("Luminance");
    reveal_strlit("Color");
    reveal_strlit("Unknown");
    assert("Linear"@[0] == 'L' && "Radial"@[0] == 'R' && "Object"@[0] == 'O');
    assert("Brush"@[0] == 'B' && "Color"@[0] == 'C');
    assert("Subject"@[0] == 'S' && "Unknown"@[0] == 'U');
    assert("Subject"@.len() == 7 && "Unknown"@.len() == 7 && "Sky"@.len() == 3);
    assert("Luminance"@.len() == 9 && "Linear"@.len() == 6 && "Radial"@.len() == 6);
    assert("Object"@.len() == 6 && "Brush"@.len() == 5 && "Color"@.len() == 5);
}

/// A row before the first is the first, and any other is itself.
pub proof fn a_row_is_counted_from_the_first(i: i32)
    ensures
        row_of(i) >= 0,
        i >= 0 ==> row_of(i) == i,
        i < 0 ==> row_of(i) == 0,
{
}

/// The ranges are of luminance and of colour.
pub proof fn a_range_is_of_light_or_of_color(kind: Kind)
    ensures
        kind.ranges() <==> kind == Kind::Luminance || kind == Kind::Color,
{
}

} // verus!
