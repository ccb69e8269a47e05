//! The panel's sliders, one by one: a look's and the picture's, as the
//! window has them and as the edit does.

use crate::panel::color::{BlackWhite, Grading, Mixer, WhiteBalance, WhiteKey};
use crate::panel::color;
use crate::panel::crop::{Controls, Geometry};
use crate::panel::crop;
use crate::panel::curve::CurvePoint;
use crate::panel::curve;
use crate::panel::edit;
use crate::panel::level::Level;
use crate::panel::level;
use crate::panel::mask::Next;
use crate::panel::model::{Edit, Window};
use crate::text;
use vstd::prelude::*;

verus! {

// A look.

/// The light and the tone. The tone curve's own switch is the picture's.
#[derive(Debug, Clone, Copy, PartialEq, Eq, Structural)]
pub struct Light {
    pub enabled: bool,
    pub exposure: Level,
    pub contrast: Level,
    pub highlights: Level,
    pub shadows: Level,
    pub whites: Level,
    pub blacks: Level,
}

/// How far each part of the parametric curve is moved.
#[derive(Debug, Clone, Copy, PartialEq, Eq, Structural)]
pub struct Parts {
    pub highlights: Level,
    pub lights: Level,
    pub darks: Level,
    pub shadows: Level,
}

/// Where the parts of the parametric curve meet, from the left.
#[derive(Debug, Clone, Copy, PartialEq, Eq, Structural)]
pub struct Splits {
    pub low: Level,
    pub middle: Level,
    pub high: Level,
}

#[derive(Debug, Clone, Copy, PartialEq, Eq, Structural)]
pub struct Color {
    pub enabled: bool,
    pub saturation: Level,
    pub vibrance: Level,
}

#[derive(Debug, Clone, Copy, PartialEq, Eq, Structural)]
pub struct Tint {
    pub hue: Level,
    pub amount: Level,
}

/// A look's sliders as the window has them: the curves flat, the bands
/// and the wheels as lists.
#[derive(Debug)]
pub struct LookPanel {
    pub light: Light,
    pub curves_enabled: bool,
    pub parts: Parts,
    pub splits: Vec<Level>,
    pub rgb: Vec<Level>,
    pub red: Vec<Level>,
    pub green: Vec<Level>,
    pub blue: Vec<Level>,
    pub red_green: Vec<Level>,
    pub blue_yellow: Vec<Level>,
    pub mixer_enabled: bool,
    pub mixer: Mixer<Level>,
    pub color: Color,
    pub grading_enabled: bool,
    pub grading: Grading<Level>,
    pub tint: Tint,
}

#[derive(Debug)]
pub struct Curves {
    pub enabled: bool,
    pub parts: Parts,
    pub splits: Splits,
    pub rgb: Vec<CurvePoint<Level>>,
    pub red: Vec<CurvePoint<Level>>,
    pub green: Vec<CurvePoint<Level>>,
    pub blue: Vec<CurvePoint<Level>>,
    pub red_green: Vec<CurvePoint<Level>>,
    pub blue_yellow: Vec<CurvePoint<Level>>,
}

/// The mixer's bands.
#[derive(Debug)]
pub struct Bands {
    pub enabled: bool,
    pub hues: Vec<Level>,
    pub saturations: Vec<Level>,
    pub luminances: Vec<Level>,
}

/// The grading's wheels.
#[derive(Debug)]
pub struct Wheels {
    pub enabled: bool,
    pub hues: Vec<Level>,
    pub saturations: Vec<Level>,
    pub balance: Level,
}

/// A look's sliders as the edit has them.
#[derive(Debug)]
pub struct LookValues {
    pub light: Light,
    pub curves: Curves,
    pub mixer: Bands,
    pub color: Color,
    pub grading: Wheels,
    pub tint: Tint,
}

/// What a look starts from: the splits, and the curves that do nothing,
/// the diagonal of a tone's and the level line of a color's.
#[derive(Debug)]
pub struct Fresh {
    pub splits: Splits,
    pub diagonal: Vec<CurvePoint<Level>>,
    pub level: Vec<CurvePoint<Level>>,
}

pub open spec fn lesser(a: Level, b: Level) -> Level {
    if level::below(b, a) {
        b
    } else {
        a
    }
}

pub open spec fn greater(a: Level, b: Level) -> Level {
    if level::below(b, a) {
        a
    } else {
        b
    }
}

/// Three places, in order.
pub open spec fn in_order(s: Splits) -> Splits {
    let low = lesser(lesser(s.low, s.middle), s.high);
    let high = greater(greater(s.low, s.middle), s.high);
    let middle = greater(lesser(s.low, s.middle), lesser(greater(s.low, s.middle), s.high));
    Splits { low, middle, high }
}

fn least(a: Level, b: Level) -> (r: Level)
    ensures
        r == lesser(a, b),
{
    if level::is_below(b, a) {
        b
    } else {
        a
    }
}

fn most(a: Level, b: Level) -> (r: Level)
    ensures
        r == greater(a, b),
{
    if level::is_below(b, a) {
        a
    } else {
        b
    }
}

fn order(s: Splits) -> (r: Splits)
    ensures
        r == in_order(s),
{
    let (a, b): (Level, Level) = (least(s.low, s.middle), most(s.low, s.middle));
    Splits { low: least(a, s.high), middle: most(a, least(b, s.high)), high: most(b, s.high) }
}

/// The splits of the panel's list, when it has the three; the fresh ones
/// for any other list.
pub open spec fn splits_read(list: Seq<Level>, fresh: Splits) -> Splits {
    in_order(
        if list.len() == 3 {
            Splits { low: list[0], middle: list[1], high: list[2] }
        } else {
            fresh
        },
    )
}

/// The panel's parametric splits.
pub fn read_splits(list: &Vec<Level>, fresh: Splits) -> (r: Splits)
    ensures
        r == splits_read(list@, fresh),
{
    if list.len() == 3 {
        order(Splits { low: list[0], middle: list[1], high: list[2] })
    } else {
        order(fresh)
    }
}

pub open spec fn splits_list(s: Splits) -> Seq<Level> {
    let o = in_order(s);
    seq![o.low, o.middle, o.high]
}

pub fn list_splits(s: Splits) -> (list: Vec<Level>)
    ensures
        list@ == splits_list(s),
{
    let o = order(s);
    let mut list: Vec<Level> = Vec::new();
    list.push(o.low);
    list.push(o.middle);
    list.push(o.high);
    assert(list@ =~= splits_list(s));
    list
}

/// A press or a drag on the tint's ring: its angle is the hue (none at the
/// middle) and its distance the amount. The picture follows the pointer.
pub fn tint_point(t: &mut Tint, hue: Option<Level>, amount: Level) -> (next: Next)
    ensures
        next == Next::Redraw,
        *final(t) == (Tint {
            hue: match hue {
                Some(h) => h,
                None => old(t).hue,
            },
            amount,
        }),
{
    if let Some(h) = hue {
        t.hue = h;
    }
    t.amount = amount;
    Next::Redraw
}

/// The tint off.
pub fn tint_reset(t: &mut Tint) -> (next: Next)
    ensures
        next == Next::ViewChanged,
        *final(t) == (Tint { hue: level::ZERO, amount: level::ZERO }),
{
    t.hue = level::ZERO;
    t.amount = level::ZERO;
    Next::ViewChanged
}

/// The tint as the panel shows it: the hue round the circle (`round` is
/// where one that is off it comes round to) and the amount held to its
/// ends.
pub open spec fn tint_read(t: Tint, round: Level) -> Tint {
    Tint {
        hue: level::brought_round(t.hue, round),
        amount: level::held(t.amount, level::ZERO, level::ONE),
    }
}

pub fn panel_tint(t: Tint, round: Level) -> (r: Tint)
    ensures
        r == tint_read(t, round),
{
    Tint {
        hue: level::bring_round(t.hue, round),
        amount: level::hold(t.amount, level::ZERO, level::ONE),
    }
}

/// The wheels as the panel has them.
pub open spec fn grading_read(p: LookPanel, v: Wheels) -> bool {
    &&& v.enabled == p.grading_enabled
    &&& v.hues@ == color::values_of(p.grading.hues@, color::WHEELS as nat, level::ZERO)
    &&& v.saturations@ == color::values_of(
        p.grading.saturations@,
        color::WHEELS as nat,
        level::ZERO,
    )
    &&& v.balance == level::held_about(p.grading.balance, level::ONE)
}

/// The grading as the panel shows it.
pub fn read_grading(p: &LookPanel) -> (v: Wheels)
    ensures
        grading_read(*p, v),
{
    Wheels {
        enabled: p.grading_enabled,
        hues: color::grade_values(&p.grading.hues, level::ZERO),
        saturations: color::grade_values(&p.grading.saturations, level::ZERO),
        balance: level::hold_about(p.grading.balance, level::ONE),
    }
}

/// A curve of the panel's: the one that does nothing when the list has
/// fewer than two points.
pub open spec fn curve_read(
    flat: Seq<Level>,
    identity: Seq<CurvePoint<Level>>,
) -> Seq<CurvePoint<Level>> {
    if flat.len() / 2 < 2 {
        identity
    } else {
        curve::paired(flat)
    }
}

pub open spec fn curves_read(p: LookPanel, fresh: Fresh, v: Curves) -> bool {
    &&& v.enabled == p.curves_enabled
    &&& v.parts == p.parts
    &&& v.splits == splits_read(p.splits@, fresh.splits)
    &&& v.rgb@ == curve_read(p.rgb@, fresh.diagonal@)
    &&& v.red@ == curve_read(p.red@, fresh.diagonal@)
    &&& v.green@ == curve_read(p.green@, fresh.diagonal@)
    &&& v.blue@ == curve_read(p.blue@, fresh.diagonal@)
    &&& v.red_green@ == curve_read(p.red_green@, fresh.level@)
    &&& v.blue_yellow@ == curve_read(p.blue_yellow@, fresh.level@)
}

pub open spec fn mixer_read(p: LookPanel, v: Bands) -> bool {
    let n = color::BANDS as nat;
    &&& v.enabled == p.mixer_enabled
    &&& v.hues@ == color::values_of(p.mixer.hues@, n, level::ZERO)
    &&& v.saturations@ == color::values_of(p.mixer.saturations@, n, level::ZERO)
    &&& v.luminances@ == color::values_of(p.mixer.luminances@, n, level::ZERO)
}

/// A look as the panel shows it.
pub open spec fn look_read(p: LookPanel, fresh: Fresh, round: Level, v: LookValues) -> bool {
    &&& v.light == p.light
    &&& curves_read(p, fresh, v.curves)
    &&& mixer_read(p, v.mixer)
    &&& v.color == p.color
    &&& grading_read(p, v.grading)
    &&& v.tint == tint_read(p.tint, round)
}

/// The look the panel shows.
pub fn read_look(p: &LookPanel, fresh: &Fresh, round: Level) -> (v: LookValues)
    ensures
        look_read(*p, *fresh, round, v),
{
    LookValues {
        light: p.light,
        curves: Curves {
            enabled: p.curves_enabled,
            parts: p.parts,
            splits: read_splits(&p.splits, fresh.splits),
            rgb: curve::curve_points(&p.rgb, &fresh.diagonal),
            red: curve::curve_points(&p.red, &fresh.diagonal),
            green: curve::curve_points(&p.green, &fresh.diagonal),
            blue: curve::curve_points(&p.blue, &fresh.diagonal),
            red_green: curve::curve_points(&p.red_green, &fresh.level),
            blue_yellow: curve::curve_points(&p.blue_yellow, &fresh.level),
        },
        mixer: Bands {
            enabled: p.mixer_enabled,
            hues: color::band_values(&p.mixer.hues, level::ZERO),
            saturations: color::band_values(&p.mixer.saturations, level::ZERO),
            luminances: color::band_values(&p.mixer.luminances, level::ZERO),
        },
        color: p.color,
        grading: read_grading(p),
        tint: panel_tint(p.tint, round),
    }
}

/// The mixer's lists as the look has them, and the chosen band on its
/// sliders.
pub open spec fn shows_mixer(v: Bands, before: Mixer<Level>, after: Mixer<Level>) -> bool {
    &&& after.hues@ == v.hues@
    &&& after.saturations@ == v.saturations@
    &&& after.luminances@ == v.luminances@
    &&& color::band_shown(
        Mixer {
            hues: after.hues,
            saturations: after.saturations,
            luminances: after.luminances,
            ..before
        },
        level::ZERO,
        after,
    )
}

/// The grading's lists as the look has them, and the chosen wheel on its
/// sliders.
pub open spec fn shows_grading(v: Wheels, before: Grading<Level>, after: Grading<Level>) -> bool {
    let i = color::held_place(before.range, color::WHEELS);
    let n = color::WHEELS as nat;
    &&& after.hues@ == v.hues@
    &&& after.saturations@ == v.saturations@
    &&& after == (Grading {
        hues: after.hues,
        saturations: after.saturations,
        hue: color::values_of(v.hues@, n, level::ZERO)[i],
        saturation: color::values_of(v.saturations@, n, level::ZERO)[i],
        balance: v.balance,
        ..before
    })
}

/// The window with a look on its sliders.
pub open spec fn shows_look(v: LookValues, before: LookPanel, after: LookPanel) -> bool {
    &&& after.light == v.light
    &&& after.curves_enabled == v.curves.enabled
    &&& after.parts == v.curves.parts
    &&& after.splits@ == splits_list(v.curves.splits)
    &&& after.rgb@ == curve::flattened(v.curves.rgb@)
    &&& after.red@ == curve::flattened(v.curves.red@)
    &&& after.green@ == curve::flattened(v.curves.green@)
    &&& after.blue@ == curve::flattened(v.curves.blue@)
    &&& after.red_green@ == curve::flattened(v.curves.red_green@)
    &&& after.blue_yellow@ == curve::flattened(v.curves.blue_yellow@)
    &&& after.mixer_enabled == v.mixer.enabled
    &&& shows_mixer(v.mixer, before.mixer, after.mixer)
    &&& after.color == v.color
    &&& after.grading_enabled == v.grading.enabled
    &&& shows_grading(v.grading, before.grading, after.grading)
    &&& after.tint == v.tint
}

fn copied(v: &Vec<Level>) -> (r: Vec<Level>)
    ensures
        r@ == v@,
{
    let mut r: Vec<Level> = Vec::new();
    let mut i: usize = 0;
    while i < v.len()
        invariant
            i <= v@.len(),
            r@ =~= v@.take(i as int),
        decreases v.len() - i,
    {
        r.push(v[i]);
        i = i + 1;
    }
    assert(v@.take(i as int) =~= v@);
    r
}

/// Put a look on the panel's sliders.
pub fn show_look(v: &LookValues, p: &mut LookPanel)
    ensures
        shows_look(*v, *old(p), *final(p)),
{
    p.light = v.light;
    p.curves_enabled = v.curves.enabled;
    p.parts = v.curves.parts;
    p.splits = list_splits(v.curves.splits);
    p.rgb = curve::set_curve_points(&v.curves.rgb);
    p.red = curve::set_curve_points(&v.curves.red);
    p.green = curve::set_curve_points(&v.curves.green);
    p.blue = curve::set_curve_points(&v.curves.blue);
    p.red_green = curve::set_curve_points(&v.curves.red_green);
    p.blue_yellow = curve::set_curve_points(&v.curves.blue_yellow);
    p.mixer_enabled = v.mixer.enabled;
    p.mixer.hues = copied(&v.mixer.hues);
    p.mixer.saturations = copied(&v.mixer.saturations);
    p.mixer.luminances = copied(&v.mixer.luminances);
    color::show_mixer_band(&mut p.mixer, level::ZERO);
    p.color = v.color;
    p.grading_enabled = v.grading.enabled;
    p.grading.hues = copied(&v.grading.hues);
    p.grading.saturations = copied(&v.grading.saturations);
    p.grading.balance = v.grading.balance;
    color::show_grade_range(&mut p.grading, level::ZERO);
    p.tint = v.tint;
}

/// Two looks with the same on every slider.
pub open spec fn same_look(a: LookValues, b: LookValues) -> bool {
    &&& a.light == b.light
    &&& a.curves == (Curves {
        rgb: a.curves.rgb,
        red: a.curves.red,
        green: a.curves.green,
        blue: a.curves.blue,
        red_green: a.curves.red_green,
        blue_yellow: a.curves.blue_yellow,
        ..b.curves
    })
    &&& a.curves.rgb@ == b.curves.rgb@
    &&& a.curves.red@ == b.curves.red@
    &&& a.curves.green@ == b.curves.green@
    &&& a.curves.blue@ == b.curves.blue@
    &&& a.curves.red_green@ == b.curves.red_green@
    &&& a.curves.blue_yellow@ == b.curves.blue_yellow@
    &&& a.mixer.enabled == b.mixer.enabled
    &&& a.mixer.hues@ == b.mixer.hues@
    &&& a.mixer.saturations@ == b.mixer.saturations@
    &&& a.mixer.luminances@ == b.mixer.luminances@
    &&& a.color == b.color
    &&& a.grading.enabled == b.grading.enabled
    &&& a.grading.hues@ == b.grading.hues@
    &&& a.grading.saturations@ == b.grading.saturations@
    &&& a.grading.balance == b.grading.balance
    &&& a.tint == b.tint
}

/// A look as one is read: two points or more on every curve, a value a
/// band and a wheel, the splits in order and what is held within its
/// ends.
pub open spec fn look_settled(v: LookValues) -> bool {
    &&& v.curves.rgb@.len() >= 2
    &&& v.curves.red@.len() >= 2
    &&& v.curves.green@.len() >= 2
    &&& v.curves.blue@.len() >= 2
    &&& v.curves.red_green@.len() >= 2
    &&& v.curves.blue_yellow@.len() >= 2
    &&& in_order(v.curves.splits) == v.curves.splits
    &&& v.mixer.hues@.len() == color::BANDS
    &&& v.mixer.saturations@.len() == color::BANDS
    &&& v.mixer.luminances@.len() == color::BANDS
    &&& v.grading.hues@.len() == color::WHEELS
    &&& v.grading.saturations@.len() == color::WHEELS
    &&& level::held_about(v.grading.balance, level::ONE) == v.grading.balance
    &&& level::on_circle(v.tint.hue)
    &&& level::held(v.tint.amount, level::ZERO, level::ONE) == v.tint.amount
}

/// A look read off the panel is settled, when what a look starts from is
/// and a hue comes round onto the circle.
pub proof fn a_look_read_is_settled(p: LookPanel, fresh: Fresh, round: Level, v: LookValues)
    requires
        look_read(p, fresh, round, v),
        fresh.diagonal@.len() >= 2,
        fresh.level@.len() >= 2,
        level::on_circle(round),
    ensures
        look_settled(v),
{
}

/// A look put on the panel reads back as it was.
pub proof fn a_look_shown_reads_back(
    v: LookValues,
    before: LookPanel,
    shown: LookPanel,
    fresh: Fresh,
    round: Level,
    read: LookValues,
)
    requires
        look_settled(v),
        shows_look(v, before, shown),
        look_read(shown, fresh, round, read),
    ensures
        same_look(read, v),
{
    curve::points_set_read_back(v.curves.rgb@);
    curve::points_set_read_back(v.curves.red@);
    curve::points_set_read_back(v.curves.green@);
    curve::points_set_read_back(v.curves.blue@);
    curve::points_set_read_back(v.curves.red_green@);
    curve::points_set_read_back(v.curves.blue_yellow@);
    assert(read.mixer.hues@ =~= v.mixer.hues@);
    assert(read.mixer.saturations@ =~= v.mixer.saturations@);
    assert(read.mixer.luminances@ =~= v.mixer.luminances@);
    assert(read.grading.hues@ =~= v.grading.hues@);
    assert(read.grading.saturations@ =~= v.grading.saturations@);
}

// The picture.

/// The names a choice is among, and which it is when none is named.
#[derive(Debug)]
pub struct Choices {
    pub names: Vec<String>,
    pub usual: usize,
}

/// Where a name first is.
pub open spec fn first_named(names: Seq<Seq<char>>, s: Seq<char>) -> Option<int>
    decreases names.len(),
{
    if names.len() == 0 {
        None
    } else {
        match first_named(names.drop_last(), s) {
            Some(i) => Some(i),
            None => if names.last() == s {
                Some(names.len() - 1)
            } else {
                None
            },
        }
    }
}

/// The choice a name is of.
pub open spec fn choice_of(c: Choices, s: Seq<char>) -> int {
    match first_named(text::texts(c.names@), s) {
        Some(i) => i,
        None => c.usual as int,
    }
}

proof fn lemma_first_stays(names: Seq<Seq<char>>, s: Seq<char>, n: int)
    requires
        0 <= n <= names.len(),
        first_named(names.take(n), s) is Some,
    ensures
        first_named(names, s) == first_named(names.take(n), s),
    decreases names.len() - n,
{
    if n < names.len() {
        assert(names.take(n + 1).drop_last() =~= names.take(n));
        lemma_first_stays(names, s, n + 1);
    } else {
        assert(names.take(n) =~= names);
    }
}

/// The choice a name names; the usual one for anything else.
pub fn choose_named(c: &Choices, s: &str) -> (r: usize)
    requires
        c.usual < c.names@.len(),
    ensures
        r == choice_of(*c, s@),
        r < c.names@.len(),
{
    let ghost names = text::texts(c.names@);
    let mut i: usize = 0;
    assert(names.take(0) =~= seq![]);
    while i < c.names.len()
        invariant
            i <= c.names@.len(),
            names == text::texts(c.names@),
            first_named(names.take(i as int), s@) is None,
        decreases c.names.len() - i,
    {
        assert(names.take(i + 1).drop_last() =~= names.take(i as int));
        assert(names.take(i + 1).last() == c.names@[i as int]@);
        if text::same_text(c.names[i].as_str(), s) {
            proof {
                lemma_first_stays(names, s@, i + 1);
            }
            return i;
        }
        i = i + 1;
    }
    assert(names.take(i as int) =~= names);
    c.usual
}

#[derive(Debug, Clone, Copy, PartialEq, Eq, Structural)]
pub struct Noise {
    pub enabled: bool,
    pub profiled: bool,
    pub strength: Level,
    pub learned_strength: Level,
}

#[derive(Debug, Clone, Copy, PartialEq, Eq, Structural)]
pub struct Lens {
    pub enabled: bool,
    pub profile: bool,
    pub distortion: bool,
    pub chromatic_aberration: bool,
    pub vignetting: bool,
    pub manual: Level,
    pub ca_red: Level,
    pub ca_blue: Level,
    pub auto_scale: bool,
    pub scale: Level,
    pub defringe: bool,
    pub defringe_radius: Level,
    pub defringe_threshold: Level,
    pub defringe_purple_center: Level,
    pub defringe_purple_width: Level,
    pub defringe_purple_amount: Level,
    pub defringe_green_center: Level,
    pub defringe_green_width: Level,
    pub defringe_green_amount: Level,
}

#[derive(Debug, Clone, Copy, PartialEq, Eq, Structural)]
pub struct Vignette {
    pub enabled: bool,
    pub amount: Level,
    pub midpoint: Level,
    pub feather: Level,
    pub roundness: Level,
}

#[derive(Debug, Clone, Copy, PartialEq, Eq, Structural)]
pub struct Grain {
    pub enabled: bool,
    pub amount: Level,
    pub size: Level,
}

#[derive(Debug, Clone, Copy, PartialEq, Eq, Structural)]
pub struct Detail {
    pub enabled: bool,
    pub texture: Level,
    pub clarity: Level,
    pub dehaze: Level,
}

/// The sharpening. Its iterations are the slider's, to the nearest.
#[derive(Debug, Clone, Copy, PartialEq, Eq, Structural)]
pub struct Sharpen {
    pub enabled: bool,
    pub auto_radius: bool,
    pub radius: Level,
    pub iterations: u32,
    pub auto_threshold: bool,
    pub threshold: Level,
}

/// What only the whole picture has, as the window has it: the choices by
/// their names.
#[derive(Debug)]
pub struct PicturePanel {
    pub bw: BlackWhite<Level>,
    pub white: WhiteKey<Level>,
    pub noise: Noise,
    pub learned: String,
    pub lens: Lens,
    pub geometry: Controls<Level>,
    pub vignette: Vignette,
    pub grain: Grain,
    pub grain_kind: String,
    pub detail: Detail,
    pub sharpen: Sharpen,
    pub demosaic: String,
    pub camera_profile: String,
    pub look_name: String,
    pub look_strength: Level,
    pub retouch: bool,
}

/// The black and white's weights.
#[derive(Debug)]
pub struct Weights {
    pub enabled: bool,
    pub weights: Vec<Level>,
    pub strength: Level,
}

/// What only the whole picture has, as the edit has it: the choices by
/// their places.
#[derive(Debug)]
pub struct PictureValues {
    pub bw: Weights,
    pub white: WhiteBalance<Level>,
    pub noise: Noise,
    pub learned: usize,
    pub lens: Lens,
    pub geometry: Geometry<Level>,
    pub vignette: Vignette,
    pub grain: Grain,
    pub grain_kind: usize,
    pub detail: Detail,
    pub sharpen: Sharpen,
    pub demosaic: usize,
    pub camera_profile: String,
    pub look_name: String,
    pub look_strength: Level,
    pub retouch: bool,
}

/// The choices there are, and how far what is held goes: the black and
/// white's strength, the angle and the tilts.
#[derive(Debug)]
pub struct Terms {
    pub learned: Choices,
    pub grains: Choices,
    pub demosaics: Choices,
    pub most_strength: Level,
    pub most_angle: Level,
    pub most_tilt: Level,
}

impl Terms {
    pub open spec fn wf(self) -> bool {
        &&& self.learned.usual < self.learned.names@.len()
        &&& self.grains.usual < self.grains.names@.len()
        &&& self.demosaics.usual < self.demosaics.names@.len()
        &&& self.most_strength >= 0
        &&& self.most_angle >= 0
        &&& self.most_tilt >= 0
    }
}

/// At least one.
pub open spec fn once(n: u32) -> u32 {
    if n < 1 {
        1
    } else {
        n
    }
}

/// What only the whole picture has, as the panel shows it.
pub open spec fn picture_read(p: PicturePanel, t: Terms, v: PictureValues) -> bool {
    &&& v.bw.enabled == p.bw.enabled
    &&& v.bw.weights@ == color::values_of(p.bw.weights@, color::BANDS as nat, level::ZERO)
    &&& v.bw.strength == level::held(p.bw.strength, level::ZERO, t.most_strength)
    &&& v.white == color::white_of(p.white)
    &&& v.noise == p.noise
    &&& v.learned == choice_of(t.learned, p.learned@)
    &&& v.lens == p.lens
    &&& crop::geometry_read(p.geometry, t.most_angle, t.most_tilt, v.geometry)
    &&& v.vignette == p.vignette
    &&& v.grain == p.grain
    &&& v.grain_kind == choice_of(t.grains, p.grain_kind@)
    &&& v.detail == p.detail
    &&& v.sharpen == (Sharpen { iterations: once(p.sharpen.iterations), ..p.sharpen })
    &&& v.demosaic == choice_of(t.demosaics, p.demosaic@)
    &&& v.camera_profile@ == p.camera_profile@
    &&& v.look_name@ == p.look_name@
    &&& v.look_strength == level::held(p.look_strength, level::ZERO, level::ONE)
    &&& v.retouch == p.retouch
}

/// What only the whole picture has, off the panel.
pub fn read_picture(p: &PicturePanel, t: &Terms) -> (v: PictureValues)
    requires
        t.wf(),
    ensures
        picture_read(*p, *t, v),
        v.learned < t.learned.names@.len(),
        v.grain_kind < t.grains.names@.len(),
        v.demosaic < t.demosaics.names@.len(),
{
    let iterations: u32 = if p.sharpen.iterations < 1 {
        1
    } else {
        p.sharpen.iterations
    };
    PictureValues {
        bw: Weights {
            enabled: p.bw.enabled,
            weights: color::band_values(&p.bw.weights, level::ZERO),
            strength: level::hold(p.bw.strength, level::ZERO, t.most_strength),
        },
        white: color::panel_white(p.white),
        noise: p.noise,
        learned: choose_named(&t.learned, p.learned.as_str()),
        lens: p.lens,
        geometry: crop::read_geometry(&p.geometry, t.most_angle, t.most_tilt),
        vignette: p.vignette,
        grain: p.grain,
        grain_kind: choose_named(&t.grains, p.grain_kind.as_str()),
        detail: p.detail,
        sharpen: Sharpen { iterations, ..p.sharpen },
        demosaic: choose_named(&t.demosaics, p.demosaic.as_str()),
        camera_profile: p.camera_profile.clone(),
        look_name: p.look_name.clone(),
        look_strength: level::hold(p.look_strength, level::ZERO, level::ONE),
        retouch: p.retouch,
    }
}

/// The white balance on its sliders; the camera's own leaves them where
/// they are.
pub open spec fn white_shown(wb: WhiteBalance<Level>, before: WhiteKey<Level>) -> WhiteKey<Level> {
    match wb {
        WhiteBalance::AsShot => WhiteKey { as_shot: true, ..before },
        WhiteBalance::Custom { temperature, tint } => WhiteKey {
            as_shot: false,
            temperature,
            tint,
        },
    }
}

/// The black and white's weights on the panel, the chosen band's on its
/// slider and the filter they are (`filter`, nothing for none) named.
pub open spec fn shows_weights(
    v: Weights,
    filter: Option<&str>,
    before: BlackWhite<Level>,
    after: BlackWhite<Level>,
) -> bool {
    &&& after.weights@ == v.weights@
    &&& after.filter@ == match filter {
        Some(f) => f@,
        None => ""@,
    }
    &&& after == (BlackWhite {
        enabled: v.enabled,
        weights: after.weights,
        weight: color::values_of(v.weights@, color::BANDS as nat, level::ZERO)[color::held_place(
            before.band,
            color::BANDS,
        )],
        strength: v.strength,
        filter: after.filter,
        ..before
    })
}

/// The window with the picture's own on its sliders.
pub open spec fn shows_picture(
    v: PictureValues,
    t: Terms,
    filter: Option<&str>,
    before: PicturePanel,
    after: PicturePanel,
) -> bool {
    &&& shows_weights(v.bw, filter, before.bw, after.bw)
    &&& after.white == white_shown(v.white, before.white)
    &&& after.noise == v.noise
    &&& after.learned@ == t.learned.names@[v.learned as int]@
    &&& after.lens == v.lens
    &&& crop::shows_geometry(v.geometry, before.geometry, after.geometry)
    &&& after.vignette == v.vignette
    &&& after.grain == v.grain
    &&& after.grain_kind@ == t.grains.names@[v.grain_kind as int]@
    &&& after.detail == v.detail
    &&& after.sharpen == v.sharpen
    &&& after.demosaic@ == t.demosaics.names@[v.demosaic as int]@
    &&& after.camera_profile@ == v.camera_profile@
    &&& after.look_name@ == v.look_name@
    &&& after.look_strength == v.look_strength
    &&& after.retouch == v.retouch
}

/// The choices of the picture are among those there are.
pub open spec fn chosen_among(v: PictureValues, t: Terms) -> bool {
    &&& v.learned < t.learned.names@.len()
    &&& v.grain_kind < t.grains.names@.len()
    &&& v.demosaic < t.demosaics.names@.len()
}

/// Put what only the whole picture has on the panel's sliders.
pub fn show_picture(v: &PictureValues, t: &Terms, filter: Option<&str>, p: &mut PicturePanel)
    requires
        chosen_among(*v, *t),
    ensures
        shows_picture(*v, *t, filter, *old(p), *final(p)),
{
    p.bw.enabled = v.bw.enabled;
    p.bw.weights = copied(&v.bw.weights);
    p.bw.strength = v.bw.strength;
    color::show_bw_band(&mut p.bw, level::ZERO, filter);
    match v.white {
        WhiteBalance::AsShot => {
            p.white.as_shot = true;
        },
        WhiteBalance::Custom { temperature, tint } => {
            p.white = WhiteKey { as_shot: false, temperature, tint };
        },
    }
    p.noise = v.noise;
    p.learned = t.learned.names[v.learned].clone();
    p.lens = v.lens;
    crop::show_geometry(&v.geometry, &mut p.geometry);
    p.vignette = v.vignette;
    p.grain = v.grain;
    p.grain_kind = t.grains.names[v.grain_kind].clone();
    p.detail = v.detail;
    p.sharpen = v.sharpen;
    p.demosaic = t.demosaics.names[v.demosaic].clone();
    p.camera_profile = v.camera_profile.clone();
    p.look_name = v.look_name.clone();
    p.look_strength = v.look_strength;
    p.retouch = v.retouch;
}

/// Each of the names is its own.
pub open spec fn names_apart(c: Choices) -> bool {
    forall|i: int, j: int|
        0 <= i < j < c.names@.len() ==> (#[trigger] c.names@[i])@ != (#[trigger] c.names@[j])@
}

proof fn lemma_named_once(c: Choices, k: int, n: int)
    requires
        names_apart(c),
        0 <= k < c.names@.len(),
        0 <= n <= c.names@.len(),
    ensures
        first_named(text::texts(c.names@).take(n), c.names@[k]@) == if k < n {
            Some(k)
        } else {
            None::<int>
        },
    decreases n,
{
    let names = text::texts(c.names@);
    if n > 0 {
        lemma_named_once(c, k, n - 1);
        assert(names.take(n).drop_last() =~= names.take(n - 1));
        assert(names.take(n).last() == c.names@[n - 1]@);
    }
}

/// A choice put on the panel by its name is read back as itself.
pub proof fn a_choice_is_its_name(c: Choices, k: int)
    requires
        names_apart(c),
        0 <= k < c.names@.len(),
    ensures
        choice_of(c, c.names@[k]@) == k,
{
    lemma_named_once(c, k, c.names@.len() as int);
    assert(text::texts(c.names@).take(c.names@.len() as int) =~= text::texts(c.names@));
}

/// Two geometries with the same in them; what a custom aspect was typed
/// as is not looked at where there is none.
pub open spec fn same_geometry(a: Geometry<Level>, b: Geometry<Level>) -> bool {
    &&& a.aspect@ == b.aspect@
    &&& b.custom matches Some(c) ==> a.custom matches Some(d) && d@ == c@
    &&& a == (Geometry { aspect: a.aspect, custom: a.custom, ..b })
}

/// The picture's own as it is read: a weight a band, and what is held
/// within its ends.
pub open spec fn picture_settled(v: PictureValues, t: Terms) -> bool {
    &&& chosen_among(v, t)
    &&& v.bw.weights@.len() == color::BANDS
    &&& level::held(v.bw.strength, level::ZERO, t.most_strength) == v.bw.strength
    &&& v.geometry.turns < 4
    &&& level::held_about(v.geometry.angle, t.most_angle) == v.geometry.angle
    &&& level::held_about(v.geometry.vertical, t.most_tilt) == v.geometry.vertical
    &&& level::held_about(v.geometry.horizontal, t.most_tilt) == v.geometry.horizontal
    &&& v.sharpen.iterations >= 1
    &&& level::held(v.look_strength, level::ZERO, level::ONE) == v.look_strength
}

/// What is read off the panel is settled.
pub proof fn a_picture_read_is_settled(p: PicturePanel, t: Terms, v: PictureValues)
    requires
        t.wf(),
        picture_read(p, t, v),
        chosen_among(v, t),
    ensures
        picture_settled(v, t),
{
}

/// What only the whole picture has reads back as it was put on the panel.
pub proof fn a_picture_shown_reads_back(
    v: PictureValues,
    t: Terms,
    filter: Option<&str>,
    before: PicturePanel,
    shown: PicturePanel,
    read: PictureValues,
)
    requires
        names_apart(t.learned),
        names_apart(t.grains),
        names_apart(t.demosaics),
        picture_settled(v, t),
        shows_picture(v, t, filter, before, shown),
        picture_read(shown, t, read),
    ensures
        read.bw.weights@ == v.bw.weights@,
        read.bw == (Weights { weights: read.bw.weights, ..v.bw }),
        same_geometry(read.geometry, v.geometry),
        read.camera_profile@ == v.camera_profile@,
        read.look_name@ == v.look_name@,
        read == (PictureValues {
            bw: read.bw,
            geometry: read.geometry,
            camera_profile: read.camera_profile,
            look_name: read.look_name,
            ..v
        }),
{
    a_choice_is_its_name(t.learned, v.learned as int);
    a_choice_is_its_name(t.grains, v.grain_kind as int);
    a_choice_is_its_name(t.demosaics, v.demosaic as int);
    assert(read.bw.weights@ =~= v.bw.weights@);
}

// The panel, and the edit, whole.

/// The panel with all its sliders.
#[derive(Debug)]
pub struct Panel {
    pub window: Window<Level, (), ()>,
    pub look: LookPanel,
    pub picture: PicturePanel,
}

/// An edit with all its sliders: the picture's look, and one an
/// adjustment.
#[derive(Debug)]
pub struct Whole {
    pub edit: Edit<Level, (), ()>,
    pub look: LookValues,
    pub looks: Vec<LookValues>,
    pub picture: PictureValues,
}

impl Whole {
    pub open spec fn wf(self) -> bool {
        self.looks@.len() == self.edit.adjustments@.len()
    }

    /// The look the panel edits: the target's, the picture's for none.
    pub open spec fn look_of(self, target: Option<usize>) -> LookValues {
        match edit::valid_target(self.edit, target) {
            Some(i) => self.looks@[i as int],
            None => self.look,
        }
    }
}

/// An edit as the panel shows it: the panel's look on `target`, and no
/// other look touched.
pub open spec fn whole_read(
    before: Whole,
    p: Panel,
    target: Option<usize>,
    fresh: Fresh,
    round: Level,
    t: Terms,
    after: Whole,
) -> bool {
    &&& edit::edit_read(before.edit, p.window, target, after.edit)
    &&& picture_read(p.picture, t, after.picture)
    &&& match target {
        None => look_read(p.look, fresh, round, after.look) && after.looks == before.looks,
        Some(i) => {
            &&& after.look == before.look
            &&& if i < before.looks@.len() {
                &&& look_read(p.look, fresh, round, after.looks@[i as int])
                &&& after.looks@ == before.looks@.update(i as int, after.looks@[i as int])
            } else {
                after.looks == before.looks
            }
        },
    }
}

/// The edit as the panel shows it, all its sliders with it.
pub fn read_whole(
    p: &Panel,
    e: &mut Whole,
    target: Option<usize>,
    fresh: &Fresh,
    round: Level,
    t: &Terms,
)
    requires
        old(e).wf(),
        t.wf(),
    ensures
        final(e).wf(),
        whole_read(*old(e), *p, target, *fresh, round, *t, *final(e)),
        chosen_among(final(e).picture, *t),
{
    edit::read_edit(&p.window, &mut e.edit, target);
    e.picture = read_picture(&p.picture, t);
    let look = read_look(&p.look, fresh, round);
    match target {
        None => {
            e.look = look;
        },
        Some(i) => {
            if i < e.looks.len() {
                e.looks.set(i, look);
            }
        },
    }
}

/// A panel with an edit on it, its look that of `target`.
pub open spec fn shows_whole(
    e: Whole,
    target: Option<usize>,
    t: Terms,
    filter: Option<&str>,
    before: Panel,
    after: Panel,
) -> bool {
    &&& edit::shows_edit(e.edit, target, before.window, after.window)
    &&& shows_look(e.look_of(target), before.look, after.look)
    &&& shows_picture(e.picture, t, filter, before.picture, after.picture)
}

/// Put an edit on the panel, all its sliders with it, its look that of
/// `target`.
pub fn show_whole(
    e: &Whole,
    p: &mut Panel,
    target: Option<usize>,
    t: &Terms,
    filter: Option<&str>,
)
    requires
        e.wf(),
        edit::countable(e.edit, 0),
        chosen_among(e.picture, *t),
    ensures
        shows_whole(*e, target, *t, filter, *old(p), *final(p)),
{
    edit::show_edit(&e.edit, &mut p.window, target);
    match target {
        Some(i) => if i < e.looks.len() {
            show_look(&e.looks[i], &mut p.look);
        } else {
            show_look(&e.look, &mut p.look);
        },
        None => {
            show_look(&e.look, &mut p.look);
        },
    }
    show_picture(&e.picture, t, filter, &mut p.picture);
}

/// An edit put on the panel reads back as it was, slider for slider: the
/// look the panel has, the picture's own, and the adjustments. (Of an edit
/// as reading the panel leaves one, and a target it has.)
pub proof fn what_is_shown_reads_back(
    e: Whole,
    target: Option<usize>,
    t: Terms,
    filter: Option<&str>,
    before: Panel,
    shown: Panel,
    fresh: Fresh,
    round: Level,
    read: Whole,
)
    requires
        e.wf(),
        edit::countable(e.edit, 0),
        edit::reads_so(e.edit),
        edit::valid_target(e.edit, target) == target,
        look_settled(e.look_of(target)),
        picture_settled(e.picture, t),
        names_apart(t.learned),
        names_apart(t.grains),
        names_apart(t.demosaics),
        shows_whole(e, target, t, filter, before, shown),
        whole_read(e, shown, target, fresh, round, t, read),
    ensures
        edit::same_edit(read.edit, e.edit),
        same_look(read.look_of(target), e.look_of(target)),
        same_geometry(read.picture.geometry, e.picture.geometry),
        read.picture.bw.weights@ == e.picture.bw.weights@,
        read.picture.camera_profile@ == e.picture.camera_profile@,
        read.picture.look_name@ == e.picture.look_name@,
        read.picture == (PictureValues {
            bw: Weights { weights: read.picture.bw.weights, ..e.picture.bw },
            geometry: read.picture.geometry,
            camera_profile: read.picture.camera_profile,
            look_name: read.picture.look_name,
            ..e.picture
        }),
        forall|i: int|
            0 <= i < e.looks@.len() && target != Some(i as usize) ==> #[trigger] read.looks@[i]
                == e.looks@[i],
{
    edit::what_is_shown_reads_back(e.edit, target, before.window, shown.window, read.edit);
    a_look_shown_reads_back(
        e.look_of(target),
        before.look,
        shown.look,
        fresh,
        round,
        read.look_of(target),
    );
    a_picture_shown_reads_back(
        e.picture,
        t,
        filter,
        before.picture,
        shown.picture,
        read.picture,
    );
}

// What holds of a read.

/// The splits are put in order and none is lost: for numbers, the least is
/// low, the greatest high, and the three are the three there were.
pub proof fn the_splits_are_the_three_in_order(s: Splits)
    requires
        0 <= s.low <= level::INFINITY,
        0 <= s.middle <= level::INFINITY,
        0 <= s.high <= level::INFINITY,
    ensures
        ({
            let o = in_order(s);
            &&& o.low <= o.middle <= o.high
            &&& o.low == s.low || o.low == s.middle || o.low == s.high
            &&& o.high == s.low || o.high == s.middle || o.high == s.high
            &&& o.low + o.middle + o.high == s.low + s.middle + s.high
            &&& s.low <= s.middle <= s.high ==> o == s
        }),
        splits_list(s).len() == 3,
        splits_list(s)[0] == in_order(s).low,
        splits_list(s)[1] == in_order(s).middle,
        splits_list(s)[2] == in_order(s).high,
{
}

/// A look read is what its sliders say, each in its own place: the light,
/// the parts of the curve, the bands, the color, the wheels and the tint;
/// a curve of two points and more is its points, and of fewer the line
/// that does nothing.
pub proof fn a_look_read_is_the_panels(p: LookPanel, fresh: Fresh, round: Level, v: LookValues)
    requires
        look_read(p, fresh, round, v),
    ensures
        v.light == p.light,
        v.color == p.color,
        v.curves.enabled == p.curves_enabled,
        v.curves.parts == p.parts,
        v.mixer.enabled == p.mixer_enabled,
        v.grading.enabled == p.grading_enabled,
        level::on_circle(p.tint.hue) ==> v.tint.hue == p.tint.hue,
        0 <= p.tint.amount <= level::ONE ==> v.tint.amount == p.tint.amount,
        0 <= p.grading.balance <= level::ONE ==> v.grading.balance == p.grading.balance,
        p.mixer.hues@.len() == 8 ==> v.mixer.hues@ == p.mixer.hues@,
        p.mixer.saturations@.len() == 8 ==> v.mixer.saturations@ == p.mixer.saturations@,
        p.mixer.luminances@.len() == 8 ==> v.mixer.luminances@ == p.mixer.luminances@,
        p.grading.hues@.len() == 3 ==> v.grading.hues@ == p.grading.hues@,
        p.grading.saturations@.len() == 3 ==> v.grading.saturations@ == p.grading.saturations@,
        p.rgb@.len() < 4 ==> v.curves.rgb@ == fresh.diagonal@,
        p.red@.len() < 4 ==> v.curves.red@ == fresh.diagonal@,
        p.green@.len() < 4 ==> v.curves.green@ == fresh.diagonal@,
        p.blue@.len() < 4 ==> v.curves.blue@ == fresh.diagonal@,
        p.red_green@.len() < 4 ==> v.curves.red_green@ == fresh.level@,
        p.blue_yellow@.len() < 4 ==> v.curves.blue_yellow@ == fresh.level@,
        forall|i: int|
            p.rgb@.len() >= 4 && 0 <= i < p.rgb@.len() / 2 ==> (#[trigger] v.curves.rgb@[i]).x
                == p.rgb@[2 * i] && v.curves.rgb@[i].y == p.rgb@[2 * i + 1],
        forall|i: int|
            p.red@.len() >= 4 && 0 <= i < p.red@.len() / 2 ==> (#[trigger] v.curves.red@[i]).x
                == p.red@[2 * i] && v.curves.red@[i].y == p.red@[2 * i + 1],
        forall|i: int|
            p.green@.len() >= 4 && 0 <= i < p.green@.len() / 2 ==> (#[trigger] v.curves.green@[i]).x
                == p.green@[2 * i] && v.curves.green@[i].y == p.green@[2 * i + 1],
        forall|i: int|
            p.blue@.len() >= 4 && 0 <= i < p.blue@.len() / 2 ==> (#[trigger] v.curves.blue@[i]).x
                == p.blue@[2 * i] && v.curves.blue@[i].y == p.blue@[2 * i + 1],
        forall|i: int|
            p.red_green@.len() >= 4 && 0 <= i < p.red_green@.len() / 2 ==> (
            #[trigger] v.curves.red_green@[i]).x == p.red_green@[2 * i] && v.curves.red_green@[i].y
                == p.red_green@[2 * i + 1],
        forall|i: int|
            p.blue_yellow@.len() >= 4 && 0 <= i < p.blue_yellow@.len() / 2 ==> (
            #[trigger] v.curves.blue_yellow@[i]).x == p.blue_yellow@[2 * i]
                && v.curves.blue_yellow@[i].y == p.blue_yellow@[2 * i + 1],
        p.splits@.len() == 3 && 0 <= p.splits@[0] <= p.splits@[1] <= p.splits@[2] <= level::INFINITY
            ==> v.curves.splits.low == p.splits@[0] && v.curves.splits.middle == p.splits@[1]
            && v.curves.splits.high == p.splits@[2],
        p.splits@.len() != 3 && 0 <= fresh.splits.low <= fresh.splits.middle <= fresh.splits.high
            <= level::INFINITY ==> v.curves.splits == fresh.splits,
{
    if p.mixer.hues@.len() == 8 {
        assert(v.mixer.hues@ =~= p.mixer.hues@);
    }
    if p.mixer.saturations@.len() == 8 {
        assert(v.mixer.saturations@ =~= p.mixer.saturations@);
    }
    if p.mixer.luminances@.len() == 8 {
        assert(v.mixer.luminances@ =~= p.mixer.luminances@);
    }
    if p.grading.hues@.len() == 3 {
        assert(v.grading.hues@ =~= p.grading.hues@);
    }
    if p.grading.saturations@.len() == 3 {
        assert(v.grading.saturations@ =~= p.grading.saturations@);
    }
}

/// What the whole picture has is read off its own sliders: what is held is
/// as it is where it is within its ends, a choice is the one of its name,
/// and the rest is as the panel says.
pub proof fn a_picture_read_is_the_panels(p: PicturePanel, t: Terms, v: PictureValues)
    requires
        t.wf(),
        picture_read(p, t, v),
    ensures
        v.bw.enabled == p.bw.enabled,
        p.bw.weights@.len() == 8 ==> v.bw.weights@ == p.bw.weights@,
        0 <= p.bw.strength <= t.most_strength <= level::INFINITY ==> v.bw.strength == p.bw.strength,
        v.white is AsShot <==> p.white.as_shot,
        v.white matches WhiteBalance::Custom { temperature, tint } ==> temperature
            == p.white.temperature && tint == p.white.tint,
        v.noise == p.noise,
        v.lens == p.lens,
        v.vignette == p.vignette,
        v.grain == p.grain,
        v.detail == p.detail,
        p.sharpen.iterations >= 1 ==> v.sharpen == p.sharpen,
        p.sharpen.iterations < 1 ==> v.sharpen.iterations == 1,
        v.camera_profile@ == p.camera_profile@,
        v.look_name@ == p.look_name@,
        0 <= p.look_strength <= level::ONE ==> v.look_strength == p.look_strength,
        v.retouch == p.retouch,
        v.geometry.flip == p.geometry.flip,
        v.geometry.portrait == p.geometry.portrait,
        p.geometry.has_crop ==> v.geometry.crop == Some(p.geometry.crop),
        !p.geometry.has_crop ==> v.geometry.crop is None,
        0 <= p.geometry.angle <= t.most_angle <= level::INFINITY ==> v.geometry.angle
            == p.geometry.angle,
{
    if p.bw.weights@.len() == 8 {
        assert(v.bw.weights@ =~= p.bw.weights@);
    }
}

/// A choice is one of the names there are, the one asked for where it is
/// among them, and the usual one where it is not.
pub proof fn a_choice_is_among_the_names(c: Choices, s: Seq<char>)
    requires
        c.usual < c.names@.len(),
    ensures
        0 <= choice_of(c, s) < c.names@.len(),
        (exists|i: int| 0 <= i < c.names@.len() && (#[trigger] c.names@[i])@ == s)
            ==> c.names@[choice_of(c, s)]@ == s,
        (forall|i: int| 0 <= i < c.names@.len() ==> (#[trigger] c.names@[i])@ != s) ==> choice_of(
            c,
            s,
        ) == c.usual,
{
    let names = text::texts(c.names@);
    lemma_first_named_is(names, s);
    assert(names.len() == c.names@.len());
    if exists|i: int| 0 <= i < c.names@.len() && (#[trigger] c.names@[i])@ == s {
        let i = choose|i: int| 0 <= i < c.names@.len() && (#[trigger] c.names@[i])@ == s;
        assert(names[i] == s);
    }
    if first_named(names, s) is Some {
        let k = first_named(names, s)->0;
        assert(c.names@[k]@ == names[k]);
    }
}

proof fn lemma_first_named_is(names: Seq<Seq<char>>, s: Seq<char>)
    ensures
        first_named(names, s) matches Some(k) ==> 0 <= k < names.len() && names[k] == s,
        first_named(names, s) is None ==> forall|i: int|
            0 <= i < names.len() ==> #[trigger] names[i] != s,
    decreases names.len(),
{
    if names.len() > 0 {
        let before = names.drop_last();
        lemma_first_named_is(before, s);
        if first_named(names, s) is None {
            assert forall|i: int| 0 <= i < names.len() implies #[trigger] names[i] != s by {
                if i < before.len() {
                    assert(before[i] == names[i]);
                }
            }
        }
    }
}

/// Geometries are the same when every number of them is: the turns, the
/// flip, the angle, the two slants, the crop and its shape.
pub proof fn the_same_geometry_is_all_of_it(a: Geometry<Level>, b: Geometry<Level>)
    requires
        same_geometry(a, b),
    ensures
        a.turns == b.turns,
        a.flip == b.flip,
        a.angle == b.angle,
        a.vertical == b.vertical,
        a.horizontal == b.horizontal,
        a.crop == b.crop,
        a.aspect@ == b.aspect@,
        a.portrait == b.portrait,
        b.custom matches Some(c) ==> (a.custom matches Some(d) && d@ == c@),
{
}

} // verus!
