//! The crop: the geometry on the panel, and when the crop is fitted
//! again.

use crate::panel::level::Level;
use crate::panel::level;
use crate::panel::mask::Next;
use crate::panel::placeholder::{Desk, Hands};
use crate::panel::startup;
use vstd::prelude::*;

verus! {

/// A crop, in fractions of the plane.
#[derive(Debug, Clone, Copy)]
pub struct Crop<N> {
    pub x: N,
    pub y: N,
    pub w: N,
    pub h: N,
}

/// A picture's geometry. Its aspect is a name, and what a custom one was
/// typed as.
#[derive(Debug)]
pub struct Geometry<N> {
    pub turns: u8,
    pub flip: bool,
    pub angle: N,
    pub vertical: N,
    pub horizontal: N,
    pub crop: Option<Crop<N>>,
    pub aspect: String,
    pub custom: Option<String>,
    pub portrait: bool,
}

/// The geometry's controls.
#[derive(Debug)]
pub struct Controls<N> {
    pub turns: i32,
    pub flip: bool,
    pub angle: N,
    pub vertical: N,
    pub horizontal: N,
    pub has_crop: bool,
    pub crop: Crop<N>,
    pub aspect_name: String,
    pub aspect_custom: String,
    pub portrait: bool,
    /// The level is in hand; and the guide, or nothing.
    pub level_mode: bool,
    pub guide_mode: String,
}

/// A crop on the controls; the numbers of none are left as they are.
pub open spec fn crop_put<N>(before: Controls<N>, crop: Option<Crop<N>>) -> Controls<N> {
    match crop {
        Some(c) => Controls { has_crop: true, crop: c, ..before },
        None => Controls { has_crop: false, ..before },
    }
}

pub fn set_crop<N: Copy>(w: &mut Controls<N>, crop: Option<Crop<N>>)
    ensures
        *final(w) == crop_put(*old(w), crop),
{
    w.has_crop = crop.is_some();
    if let Some(c) = crop {
        w.crop = c;
    }
}

/// The controls with a geometry on them; what a custom aspect was typed as
/// is left when it is another.
pub open spec fn shows_geometry<N>(g: Geometry<N>, before: Controls<N>, after: Controls<N>) -> bool {
    &&& after.aspect_name@ == g.aspect@
    &&& after.aspect_custom@ == match g.custom {
        Some(c) => c@,
        None => before.aspect_custom@,
    }
    &&& after == (Controls {
        turns: g.turns as i32,
        flip: g.flip,
        angle: g.angle,
        vertical: g.vertical,
        horizontal: g.horizontal,
        aspect_name: after.aspect_name,
        aspect_custom: after.aspect_custom,
        portrait: g.portrait,
        ..crop_put(before, g.crop)
    })
}

/// Put a geometry on the panel.
pub fn show_geometry<N: Copy>(g: &Geometry<N>, w: &mut Controls<N>)
    ensures
        shows_geometry(*g, *old(w), *final(w)),
{
    w.turns = g.turns as i32;
    w.flip = g.flip;
    w.angle = g.angle;
    w.vertical = g.vertical;
    w.horizontal = g.horizontal;
    set_crop(w, g.crop);
    w.aspect_name = g.aspect.clone();
    let custom = match &g.custom {
        Some(c) => c.clone(),
        None => w.aspect_custom.clone(),
    };
    w.aspect_custom = custom;
    w.portrait = g.portrait;
}

/// A geometry as the panel shows it, the angle and the tilts held to how
/// far they go either way.
pub open spec fn geometry_read(
    w: Controls<Level>,
    most_angle: Level,
    most_tilt: Level,
    g: Geometry<Level>,
) -> bool {
    &&& g.turns == startup::quarters(w.turns)
    &&& g.flip == w.flip
    &&& g.angle == level::held_about(w.angle, most_angle)
    &&& g.vertical == level::held_about(w.vertical, most_tilt)
    &&& g.horizontal == level::held_about(w.horizontal, most_tilt)
    &&& g.crop == if w.has_crop {
        Some(w.crop)
    } else {
        None
    }
    &&& g.aspect@ == w.aspect_name@
    &&& g.custom is Some
    &&& g.custom->0@ == w.aspect_custom@
    &&& g.portrait == w.portrait
}

/// The geometry as the panel shows it.
pub fn read_geometry(w: &Controls<Level>, most_angle: Level, most_tilt: Level) -> (g: Geometry<
    Level,
>)
    requires
        most_angle >= 0,
        most_tilt >= 0,
    ensures
        geometry_read(*w, most_angle, most_tilt, g),
{
    Geometry {
        turns: startup::quarters_of(w.turns),
        flip: w.flip,
        angle: level::hold_about(w.angle, most_angle),
        vertical: level::hold_about(w.vertical, most_tilt),
        horizontal: level::hold_about(w.horizontal, most_tilt),
        crop: if w.has_crop {
            Some(w.crop)
        } else {
            None
        },
        aspect: w.aspect_name.clone(),
        custom: Some(w.aspect_custom.clone()),
        portrait: w.portrait,
    }
}

/// A geometry whose angle and tilts go no further than they can, put on
/// the panel, reads back as it was.
pub proof fn a_geometry_shown_reads_back(
    g: Geometry<Level>,
    before: Controls<Level>,
    shown: Controls<Level>,
    most_angle: Level,
    most_tilt: Level,
    read: Geometry<Level>,
)
    requires
        g.turns < 4,
        level::held_about(g.angle, most_angle) == g.angle,
        level::held_about(g.vertical, most_tilt) == g.vertical,
        level::held_about(g.horizontal, most_tilt) == g.horizontal,
        shows_geometry(g, before, shown),
        geometry_read(shown, most_angle, most_tilt, read),
    ensures
        read.turns == g.turns,
        read.flip == g.flip,
        read.angle == g.angle,
        read.vertical == g.vertical,
        read.horizontal == g.horizontal,
        read.crop == g.crop,
        read.aspect@ == g.aspect@,
        g.custom matches Some(c) ==> read.custom matches Some(d) && d@ == c@,
        read.portrait == g.portrait,
{
}

/// What a change of the angle or the aspect does to the crop.
#[derive(Debug, Clone, Copy, PartialEq, Eq, Structural)]
pub enum Refit {
    /// Nothing: it fits and has the shape asked, or nothing can yet say
    /// which way up the frame is.
    Leave,
    /// The largest crop of the shape asked about its center, no bigger
    /// than it was.
    Shrink,
    /// The largest crop of the shape asked: there was none.
    Largest,
}

/// After the angle or aspect changed: keep the crop where it is if it
/// still fits and keeps the shape asked; otherwise the largest crop about
/// its center with that shape, no bigger than it was. An edit still
/// waiting on the frame's shape (not `settled`) has an aspect that has
/// not been brought up to date, and nothing is touched: a refit would
/// crop the picture to it.
pub fn refit_crop(settled: bool, fits: bool, shaped: bool, has_crop: bool) -> (r: Refit)
    ensures
        r == if !settled || (fits && shaped && has_crop) {
            Refit::Leave
        } else if has_crop {
            Refit::Shrink
        } else {
            Refit::Largest
        },
{
    if !settled {
        return Refit::Leave;
    }
    if fits && shaped && has_crop {
        return Refit::Leave;
    }
    if has_crop {
        Refit::Shrink
    } else {
        Refit::Largest
    }
}

// The shape of a crop, on a frame that is level.

/// The shape a crop is asked to have: any, the picture's own, or so wide
/// to so tall.
#[derive(Debug, Clone, Copy, PartialEq, Eq, Structural)]
pub enum Shape {
    Free,
    Original,
    Ratio(u32, u32),
}

/// The size of a picture after its quarter turns.
pub open spec fn plane_of(source: (u32, u32), turns: u8) -> (u32, u32) {
    if turns % 2 == 1 {
        (source.1, source.0)
    } else {
        source
    }
}

pub fn plane_size(source: (u32, u32), turns: u8) -> (r: (u32, u32))
    ensures
        r == plane_of(source, turns),
{
    if turns % 2 == 1 {
        (source.1, source.0)
    } else {
        source
    }
}

/// The shape asked for, as width to height: a picture's own is the way up
/// the picture is, and `portrait` turns it as it does a named one.
pub open spec fn ratio_of(shape: Shape, plane: (u32, u32), portrait: bool) -> Option<(u32, u32)> {
    match shape {
        Shape::Free => None,
        Shape::Original => Some(
            if portrait {
                (plane.1, plane.0)
            } else {
                plane
            },
        ),
        Shape::Ratio(w, h) => Some(
            if portrait {
                (h, w)
            } else {
                (w, h)
            },
        ),
    }
}

pub fn ratio(shape: Shape, plane: (u32, u32), portrait: bool) -> (r: Option<(u32, u32)>)
    ensures
        r == ratio_of(shape, plane, portrait),
{
    match shape {
        Shape::Free => None,
        Shape::Original => Some(
            if portrait {
                (plane.1, plane.0)
            } else {
                plane
            },
        ),
        Shape::Ratio(w, h) => Some(
            if portrait {
                (h, w)
            } else {
                (w, h)
            },
        ),
    }
}

/// A crop about the middle of the plane, by the part of its width and of
/// its height that it takes, each as a fraction.
#[derive(Debug, Clone, Copy)]
pub struct Part {
    pub wide: (u64, u64),
    pub tall: (u64, u64),
}

/// A fraction of the plane that is not more than all of it.
pub open spec fn is_part(f: (u64, u64)) -> bool {
    f.0 <= f.1 && f.1 > 0
}

/// The largest crop of a shape: all of the plane one way, and as much of
/// it as the shape takes the other.
pub open spec fn largest_of(plane: (u32, u32), ratio: (u32, u32)) -> Part {
    let across = (ratio.0 * plane.1) as u64;
    let down = (ratio.1 * plane.0) as u64;
    if across <= down {
        Part { wide: (across, down), tall: (1, 1) }
    } else {
        Part { wide: (1, 1), tall: (down, across) }
    }
}

/// The products of a shape and a plane, which are what the fractions are
/// made of.
fn products(plane: (u32, u32), ratio: (u32, u32)) -> (r: (u64, u64))
    ensures
        r.0 == ratio.0 * plane.1,
        r.1 == ratio.1 * plane.0,
{
    let (a, b) = (ratio.0 as u64, ratio.1 as u64);
    let (w, h) = (plane.0 as u64, plane.1 as u64);
    proof {
        assert(a * h <= 0xffff_ffff * 0xffff_ffff) by (nonlinear_arith)
            requires
                a <= 0xffff_ffff,
                h <= 0xffff_ffff,
        ;
        assert(b * w <= 0xffff_ffff * 0xffff_ffff) by (nonlinear_arith)
            requires
                b <= 0xffff_ffff,
                w <= 0xffff_ffff,
        ;
    }
    (a * h, b * w)
}

/// The crop of a shape on a level frame that is cropped to all of it, or
/// not at all: nothing when that has the shape asked, to a hundredth, or
/// nothing can yet say which way up the frame is.
pub open spec fn refitted(
    plane: (u32, u32),
    ratio: Option<(u32, u32)>,
    settled: bool,
    cropped: bool,
) -> Option<Part> {
    let asked = match ratio {
        Some(r) => r,
        None => plane,
    };
    let across = asked.0 * plane.1;
    let down = asked.1 * plane.0;
    let off = if across <= down {
        down - across
    } else {
        across - down
    };
    if !settled || (cropped && 100 * off < across) {
        None
    } else {
        Some(largest_of(plane, asked))
    }
}

/// The crop after the aspect changed, on a level frame that is cropped to
/// all of it, or not at all. `source` is the frame as it is developed.
pub fn refit_level(
    source: (u32, u32),
    turns: u8,
    shape: Shape,
    portrait: bool,
    settled: bool,
    cropped: bool,
) -> (r: Option<Part>)
    requires
        source.0 > 0 && source.1 > 0,
        shape matches Shape::Ratio(w, h) ==> w > 0 && h > 0,
    ensures
        ({
            let plane = plane_of(source, turns);
            r == refitted(plane, ratio_of(shape, plane, portrait), settled, cropped)
        }),
{
    let plane = plane_size(source, turns);
    let asked: (u32, u32) = match ratio(shape, plane, portrait) {
        Some(r) => r,
        None => plane,
    };
    let (across, down) = products(plane, asked);
    let off: u64 = if across <= down {
        down - across
    } else {
        across - down
    };
    let shaped: bool = 100 * (off as u128) < across as u128;
    match refit_crop(settled, true, shaped, cropped) {
        Refit::Leave => None,
        _ => if across <= down {
            Some(Part { wide: (across, down), tall: (1, 1) })
        } else {
            Some(Part { wide: (1, 1), tall: (down, across) })
        },
    }
}

/// The largest crop of a shape has that shape and is within the plane,
/// and none that does is wider or taller.
pub proof fn no_crop_of_the_shape_is_larger(plane: (u32, u32), ratio: (u32, u32), p: Part)
    requires
        plane.0 > 0 && plane.1 > 0,
        ratio.0 > 0 && ratio.1 > 0,
        is_part(p.wide),
        is_part(p.tall),
        p.wide.0 * p.tall.1 * (ratio.1 * plane.0) == p.tall.0 * p.wide.1 * (ratio.0 * plane.1),
    ensures
        is_part(largest_of(plane, ratio).wide),
        is_part(largest_of(plane, ratio).tall),
        ({
            let l = largest_of(plane, ratio);
            &&& l.wide.0 * l.tall.1 * (ratio.1 * plane.0) == l.tall.0 * l.wide.1 * (ratio.0
                * plane.1)
            &&& p.wide.0 * l.wide.1 <= l.wide.0 * p.wide.1
            &&& p.tall.0 * l.tall.1 <= l.tall.0 * p.tall.1
        }),
{
    let across = ratio.0 * plane.1;
    let down = ratio.1 * plane.0;
    assert(0 < across <= 0xffff_ffff * 0xffff_ffff) by (nonlinear_arith)
        requires
            0 < ratio.0 <= 0xffff_ffff,
            0 < plane.1 <= 0xffff_ffff,
            across == ratio.0 * plane.1,
    ;
    assert(0 < down <= 0xffff_ffff * 0xffff_ffff) by (nonlinear_arith)
        requires
            0 < ratio.1 <= 0xffff_ffff,
            0 < plane.0 <= 0xffff_ffff,
            down == ratio.1 * plane.0,
    ;
    let (x, y) = (p.wide.0 as int, p.wide.1 as int);
    let (u, v) = (p.tall.0 as int, p.tall.1 as int);
    assert(x * v * down == u * y * across);
    if across <= down {
        assert(x * down <= across * y) by (nonlinear_arith)
            requires
                x * v * down == u * y * across,
                0 <= u <= v,
                v > 0,
                y > 0,
                across > 0,
        ;
        assert(across * 1 * down == 1 * down * across) by (nonlinear_arith);
    } else {
        assert(u * across <= down * v) by (nonlinear_arith)
            requires
                x * v * down == u * y * across,
                0 <= x <= y,
                v > 0,
                y > 0,
                down > 0,
        ;
        assert(1 * across * down == down * 1 * across) by (nonlinear_arith);
    }
}

/// A picture's own shape is the way up the picture is: it takes all of an
/// upright frame as it does of any other, and a crop to all of it is left.
pub proof fn original_is_the_whole_frame(plane: (u32, u32))
    requires
        plane.0 > 0 && plane.1 > 0,
    ensures
        ratio_of(Shape::Original, plane, false) == Some(plane),
        largest_of(plane, plane).wide.0 == largest_of(plane, plane).wide.1,
        largest_of(plane, plane).tall.0 == largest_of(plane, plane).tall.1,
        refitted(plane, Some(plane), true, true) is None,
{
    assert(plane.0 * plane.1 == plane.1 * plane.0) by (nonlinear_arith);
    assert(0 < plane.0 * plane.1) by (nonlinear_arith)
        requires
            plane.0 > 0,
            plane.1 > 0,
    ;
}

/// The controls after the crop was fitted again: `fitted` is the largest
/// crop of the shape asked (about the center of the one there was, and no
/// bigger, when there was one).
pub open spec fn crop_refitted<N>(
    before: Controls<N>,
    settled: bool,
    fits: bool,
    shaped: bool,
    fitted: Crop<N>,
) -> Controls<N> {
    if !settled || (fits && shaped && before.has_crop) {
        before
    } else {
        crop_put(before, Some(fitted))
    }
}

/// The angle, the aspect or the way up changed: the crop is fitted again,
/// where it has to be, and the view follows.
pub fn geometry_changed<N: Copy>(
    w: &mut Controls<N>,
    settled: bool,
    fits: bool,
    shaped: bool,
    fitted: Crop<N>,
) -> (next: Next)
    ensures
        next == Next::ViewChanged,
        *final(w) == crop_refitted(*old(w), settled, fits, shaped, fitted),
{
    match refit_crop(settled, fits, shaped, w.has_crop) {
        Refit::Leave => {},
        _ => {
            set_crop(w, Some(fitted));
        },
    }
    Next::ViewChanged
}

/// A quarter turn or a mirror: the panel takes the geometry it leads to
/// (`turned`), and the crop is fitted again.
pub fn geometry_turned<N: Copy>(
    w: &mut Controls<N>,
    turned: &Geometry<N>,
    settled: bool,
    fits: bool,
    shaped: bool,
    fitted: Crop<N>,
) -> (next: Next)
    ensures
        next == Next::ViewChanged,
        exists|shown: Controls<N>|
            {
                &&& #[trigger] shows_geometry(*turned, *old(w), shown)
                &&& *final(w) == crop_refitted(shown, settled, fits, shaped, fitted)
            },
{
    show_geometry(turned, w);
    let ghost shown = *w;
    assert(shows_geometry(*turned, *old(w), shown));
    geometry_changed(w, settled, fits, shaped, fitted)
}

/// An edit still waiting on its frame keeps its crop, whatever changed.
pub proof fn a_waiting_edit_keeps_its_crop<N>(
    w: Controls<N>,
    fits: bool,
    shaped: bool,
    fitted: Crop<N>,
)
    ensures
        crop_refitted(w, false, fits, shaped, fitted) == w,
{
}

// The crop's handles.

/// Crop mode entered or left: the view is fitted to what it shows, and
/// centered on the next frame; a handle in hand is let go.
pub fn crop_toggled<N: Copy>(d: &mut Desk, drag: &mut Option<Crop<N>>) -> (next: Next)
    ensures
        next == Next::Redraw,
        *final(drag) is None,
        *final(d) == (Desk {
            fitted: true,
            image_size: (0, 0),
            hands: Hands { crop_drag: false, ..old(d).hands },
            ..*old(d)
        }),
        old(d).wf() ==> final(d).wf(),
{
    d.fitted = true;
    d.image_size = (0, 0);
    d.hands.crop_drag = false;
    *drag = None;
    Next::Redraw
}

/// A handle pressed: what it moves is the crop as it was then, which is
/// `effective`, all of the picture where there was none.
pub fn crop_pressed<N: Copy>(drag: &mut Option<Crop<N>>, effective: Crop<N>)
    ensures
        *final(drag) == Some(effective),
{
    *drag = Some(effective);
}

/// A handle dragged: with one held, and the handle one there is (`known`),
/// the crop is where it takes the one it was pressed on (`moved`).
pub fn crop_dragged<N: Copy>(
    w: &mut Controls<N>,
    drag: Option<Crop<N>>,
    known: bool,
    moved: Crop<N>,
) -> (next: Next)
    ensures
        next == if drag is Some && known {
            Next::Redraw
        } else {
            Next::Nothing
        },
        *final(w) == if drag is Some && known {
            crop_put(*old(w), Some(moved))
        } else {
            *old(w)
        },
{
    if drag.is_none() || !known {
        return Next::Nothing;
    }
    set_crop(w, Some(moved));
    Next::Redraw
}

/// The handle let go: the edit is recorded, when one was held.
pub fn crop_released<N: Copy>(drag: &mut Option<Crop<N>>) -> (next: Next)
    ensures
        *final(drag) is None,
        next == if *old(drag) is Some {
            Next::ViewChanged
        } else {
            Next::Nothing
        },
{
    let held: bool = drag.is_some();
    *drag = None;
    if held {
        Next::ViewChanged
    } else {
        Next::Nothing
    }
}

/// The geometry back to nothing: level, unturned and uncropped, with the
/// level and the guide put down, and the guide's first line gone with it.
pub fn geometry_reset<N: Copy, S>(w: &mut Controls<N>, strokes: &mut Vec<S>, zero: N) -> (next: Next)
    ensures
        next == Next::ViewChanged,
        final(strokes)@ == Seq::<S>::empty(),
        final(w).aspect_name@ == "Free"@,
        final(w).guide_mode@ == ""@,
        *final(w) == (Controls {
            angle: zero,
            vertical: zero,
            horizontal: zero,
            turns: 0,
            flip: false,
            has_crop: false,
            aspect_name: final(w).aspect_name,
            portrait: false,
            level_mode: false,
            guide_mode: final(w).guide_mode,
            ..*old(w)
        }),
{
    w.angle = zero;
    w.vertical = zero;
    w.horizontal = zero;
    w.turns = 0;
    w.flip = false;
    set_crop(w, None);
    w.aspect_name = "Free".to_owned();
    w.portrait = false;
    w.level_mode = false;
    w.guide_mode = "".to_owned();
    strokes.clear();
    Next::ViewChanged
}

/// The level's line was drawn: the tool goes down, and a line long enough
/// to say something (`leveled`, the angle it makes) sets the angle.
/// Whether the crop is to be fitted again.
pub fn level_end<N: Copy>(w: &mut Controls<N>, leveled: Option<N>) -> (refits: bool)
    ensures
        refits == (leveled is Some),
        *final(w) == (Controls {
            level_mode: false,
            angle: match leveled {
                Some(a) => a,
                None => old(w).angle,
            },
            ..*old(w)
        }),
{
    w.level_mode = false;
    match leveled {
        Some(a) => {
            w.angle = a;
            true
        },
        None => false,
    }
}

/// What a guide's stroke comes to.
#[derive(Debug, Clone, Copy)]
pub enum Guided<N> {
    /// No guide is in hand, or no picture is up to draw it on.
    Nothing,
    /// The first of the two: it is drawn from now on.
    First,
    /// Two lines that say nothing: the tool stays in hand rather than a
    /// wrong angle being set silently.
    Refused,
    /// The angle, and the tilt of the axis the guide is of.
    Found { upright: bool, angle: N, tilt: N },
}

/// A guide's stroke: whether it is the second of a pair, and what the
/// pair says of the geometry.
pub fn guide_stroke<N: Copy>(
    axis: Option<bool>,
    source_size: (u32, u32),
    paired: bool,
    found: Option<(N, N)>,
) -> (g: Guided<N>)
    ensures
        g == match axis {
            None => Guided::Nothing,
            Some(upright) => if source_size.0 < 1 || source_size.1 < 1 {
                Guided::Nothing
            } else if !paired {
                Guided::First
            } else {
                match found {
                    Some(f) => Guided::Found { upright, angle: f.0, tilt: f.1 },
                    None => Guided::Refused,
                }
            },
        },
{
    let upright: bool = match axis {
        Some(u) => u,
        None => {
            return Guided::Nothing;
        },
    };
    if source_size.0 < 1 || source_size.1 < 1 {
        return Guided::Nothing;
    }
    if !paired {
        return Guided::First;
    }
    match found {
        Some(f) => Guided::Found { upright, angle: f.0, tilt: f.1 },
        None => Guided::Refused,
    }
}

/// What a guide's stroke says in the status line.
pub fn guide_said<N: Copy>(g: Guided<N>) -> (s: Option<&'static str>)
    ensures
        s is Some <==> g is Refused,
        s matches Some(t) ==> t@ == "the guide needs two different lines"@,
{
    match g {
        Guided::Refused => Some("the guide needs two different lines"),
        _ => None,
    }
}

/// A guide's answer on the controls: the angle, its axis's tilt, and the
/// guide put down with its lines.
pub fn guide_set<N: Copy, S>(
    w: &mut Controls<N>,
    strokes: &mut Vec<S>,
    upright: bool,
    angle: N,
    tilt: N,
)
    ensures
        final(strokes)@ == Seq::<S>::empty(),
        final(w).guide_mode@ == ""@,
        *final(w) == if upright {
            Controls { angle, vertical: tilt, guide_mode: final(w).guide_mode, ..*old(w) }
        } else {
            Controls { angle, horizontal: tilt, guide_mode: final(w).guide_mode, ..*old(w) }
        },
{
    w.guide_mode = "".to_owned();
    strokes.clear();
    w.angle = angle;
    if upright {
        w.vertical = tilt;
    } else {
        w.horizontal = tilt;
    }
}

/// The guide put down before it had its answer: its lines go with it.
pub fn guide_dropped<S>(strokes: &mut Vec<S>) -> (next: Next)
    ensures
        next == Next::Redraw,
        final(strokes)@ == Seq::<S>::empty(),
{
    strokes.clear();
    Next::Redraw
}

// What holds of the shape and the crop.

/// Portrait exchanges the width and the height of the shape asked for,
/// whatever shape that is. A named one is so wide to so tall as it says,
/// the picture's own is the plane's, and a free one is none either way.
pub proof fn portrait_stands_the_shape_on_end(shape: Shape, plane: (u32, u32))
    ensures
        ratio_of(shape, plane, false) matches Some(r) ==> ratio_of(shape, plane, true) == Some(
            (r.1, r.0),
        ),
        ratio_of(shape, plane, false) is None <==> ratio_of(shape, plane, true) is None,
        shape matches Shape::Ratio(w, h) ==> ratio_of(shape, plane, false) == Some((w, h)),
        shape matches Shape::Ratio(w, h) ==> ratio_of(shape, plane, true) == Some((h, w)),
        shape is Original ==> ratio_of(shape, plane, false) == Some(plane),
        shape is Free <==> ratio_of(shape, plane, false) is None,
{
}

/// A frame's plane is stood on end by an odd number of quarter turns, and
/// as the frame is by an even one; a half turn leaves its size.
pub proof fn a_quarter_turn_stands_the_plane_on_end(source: (u32, u32), turns: u8)
    ensures
        turns % 2 == 0 ==> plane_of(source, turns).0 == source.0 && plane_of(source, turns).1
            == source.1,
        turns % 2 == 1 ==> plane_of(source, turns).0 == source.1 && plane_of(source, turns).1
            == source.0,
        plane_of(plane_of(source, turns), turns) == source,
{
}

/// What a refit gives has the shape that was asked for, in pixels: the
/// crop's width is to its height as the shape's is, and with portrait as
/// the shape's height is to its width. It is within the plane, and takes
/// all of it one way.
pub proof fn a_crop_fitted_has_the_shape_asked(
    plane: (u32, u32),
    w: u32,
    h: u32,
    portrait: bool,
    settled: bool,
    cropped: bool,
)
    requires
        plane.0 > 0 && plane.1 > 0,
        w > 0 && h > 0,
    ensures
        refitted(plane, ratio_of(Shape::Ratio(w, h), plane, portrait), settled, cropped) matches Some(
            p,
        ) ==> {
            let (a, b) = if portrait {
                (h as int, w as int)
            } else {
                (w as int, h as int)
            };
            let across = p.wide.0 * plane.0 * p.tall.1;
            let down = p.tall.0 * plane.1 * p.wide.1;
            &&& across * b == down * a
            &&& 0 < p.wide.0 <= p.wide.1
            &&& 0 < p.tall.0 <= p.tall.1
            &&& p.wide.0 == p.wide.1 || p.tall.0 == p.tall.1
        },
{
    let asked = ratio_of(Shape::Ratio(w, h), plane, portrait)->0;
    let (a, b) = (asked.0 as int, asked.1 as int);
    let (x, y) = (plane.0 as int, plane.1 as int);
    let across = a * y;
    let down = b * x;
    assert(0 < across <= 0xffff_ffff * 0xffff_ffff) by (nonlinear_arith)
        requires
            0 < a <= 0xffff_ffff,
            0 < y <= 0xffff_ffff,
            across == a * y,
    ;
    assert(0 < down <= 0xffff_ffff * 0xffff_ffff) by (nonlinear_arith)
        requires
            0 < b <= 0xffff_ffff,
            0 < x <= 0xffff_ffff,
            down == b * x,
    ;
    let p = largest_of(plane, asked);
    let (u, v) = (p.wide.0 as int, p.wide.1 as int);
    let (s, t) = (p.tall.0 as int, p.tall.1 as int);
    if across <= down {
        assert(u == across && v == down && s == 1 && t == 1);
        assert((u * x * t) * b == (s * y * v) * a) by (nonlinear_arith)
            requires
                u == a * y,
                v == b * x,
                s == 1,
                t == 1,
        ;
    } else {
        assert(u == 1 && v == 1 && s == down && t == across);
        assert((u * x * t) * b == (s * y * v) * a) by (nonlinear_arith)
            requires
                s == b * x,
                t == a * y,
                u == 1,
                v == 1,
        ;
    }
}

/// A refit leaves a crop exactly where nothing can say which way up the
/// frame is, or where there is one already and it is within a hundredth of
/// the shape asked; and a frame that is settled with no crop always gets
/// one.
pub proof fn a_crop_is_left_where_it_has_its_shape(
    plane: (u32, u32),
    ratio: (u32, u32),
    settled: bool,
    cropped: bool,
)
    ensures
        !settled ==> refitted(plane, Some(ratio), settled, cropped) is None,
        settled && !cropped ==> refitted(plane, Some(ratio), settled, cropped) is Some,
        settled && cropped ==> (refitted(plane, Some(ratio), settled, cropped) is None <==> {
            let (a, b) = (ratio.0 * plane.1, ratio.1 * plane.0);
            100 * (a - b) < a && 100 * (b - a) < a
        }),
        refitted(plane, None, settled, cropped) == refitted(plane, Some(plane), settled, cropped),
{
}

/// A crop on the controls is the one that was put there, and reads back as
/// it; none put there reads as none. Nothing else of the controls moves.
pub proof fn a_crop_put_is_the_crop_there<N>(before: Controls<N>, crop: Option<Crop<N>>)
    ensures
        crop_put(before, crop).has_crop <==> crop is Some,
        crop matches Some(c) ==> crop_put(before, crop).crop == c,
        crop is None ==> crop_put(before, crop).crop == before.crop,
        crop_put(before, crop).angle == before.angle,
        crop_put(before, crop).turns == before.turns,
        crop_put(before, crop).vertical == before.vertical,
        crop_put(before, crop).horizontal == before.horizontal,
        crop_put(before, crop).aspect_name == before.aspect_name,
        crop_put(before, crop).portrait == before.portrait,
{
}

/// Fitting again puts the crop fitted on the controls where it has to, and
/// touches nothing else of them.
pub proof fn a_refit_changes_the_crop_alone<N>(
    before: Controls<N>,
    settled: bool,
    fits: bool,
    shaped: bool,
    fitted: Crop<N>,
)
    ensures
        ({
            let after = crop_refitted(before, settled, fits, shaped, fitted);
            &&& settled && !before.has_crop ==> after.has_crop && after.crop == fitted
            &&& settled && before.has_crop && (!fits || !shaped) ==> after.has_crop && after.crop
                == fitted
            &&& before.has_crop && fits && shaped ==> after.crop == before.crop && after.has_crop
            &&& !settled ==> after.crop == before.crop && after.has_crop == before.has_crop
            &&& after.angle == before.angle && after.turns == before.turns && after.flip
                == before.flip && after.portrait == before.portrait && after.aspect_name
                == before.aspect_name
        }),
{
}

/// The geometry read is what the controls say: the turns within a whole
/// one, the mirror, the crop, the aspect and the way up as they are, and
/// the angle and the tilts as they are where they go no further than they
/// can.
pub proof fn a_geometry_read_is_the_controls(
    w: Controls<Level>,
    most_angle: Level,
    most_tilt: Level,
    g: Geometry<Level>,
)
    requires
        0 <= most_angle <= level::INFINITY,
        0 <= most_tilt <= level::INFINITY,
        geometry_read(w, most_angle, most_tilt, g),
    ensures
        0 <= g.turns < 4,
        (g.turns - w.turns) % 4 == 0,
        0 <= w.turns < 4 ==> g.turns == w.turns,
        g.flip == w.flip,
        0 <= w.angle <= most_angle ==> g.angle == w.angle,
        0 <= w.vertical <= most_tilt ==> g.vertical == w.vertical,
        0 <= w.horizontal <= most_tilt ==> g.horizontal == w.horizontal,
        most_angle < w.angle <= level::INFINITY ==> g.angle == most_angle,
        most_tilt < w.vertical <= level::INFINITY ==> g.vertical == most_tilt,
        most_tilt < w.horizontal <= level::INFINITY ==> g.horizontal == most_tilt,
        w.has_crop ==> g.crop == Some(w.crop),
        !w.has_crop ==> g.crop is None,
        g.aspect@ == w.aspect_name@,
        g.portrait == w.portrait,
{
}

/// A geometry put on the controls is theirs.
pub proof fn a_geometry_shown_is_on_the_controls<N>(
    g: Geometry<N>,
    before: Controls<N>,
    after: Controls<N>,
)
    requires
        shows_geometry(g, before, after),
    ensures
        after.turns == g.turns,
        after.flip == g.flip,
        after.angle == g.angle,
        after.vertical == g.vertical,
        after.horizontal == g.horizontal,
        after.has_crop <==> g.crop is Some,
        g.crop matches Some(c) ==> after.crop == c,
        after.aspect_name@ == g.aspect@,
        after.portrait == g.portrait,
        after.level_mode == before.level_mode,
        after.guide_mode == before.guide_mode,
{
}

} // verus!
