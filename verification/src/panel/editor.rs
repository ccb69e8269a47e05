//! The curve editor under the pointer. A press selects or adds a point, a
//! drag moves it, a release records the edit and a double-click removes
//! it. On the parametric curve the same presses take a split instead, and
//! a double-click puts it back.

use crate::panel::curve::{Channel, CurvePoint};
use crate::panel::curve;
use crate::panel::level::Level;
use crate::panel::level;
use crate::panel::mask::Next;
use crate::panel::sliders::{Fresh, LookPanel, Parts, Splits};
use crate::panel::sliders;
use vstd::prelude::*;

verus! {

/// The list a channel's points are in.
pub open spec fn list_of(p: LookPanel, channel: Channel) -> Vec<Level> {
    match channel {
        Channel::Rgb => p.rgb,
        Channel::Red => p.red,
        Channel::Green => p.green,
        Channel::Blue => p.blue,
        Channel::RedGreen => p.red_green,
        Channel::BlueYellow => p.blue_yellow,
    }
}

/// The panel with another list for a channel.
pub open spec fn list_put(p: LookPanel, channel: Channel, list: Vec<Level>) -> LookPanel {
    match channel {
        Channel::Rgb => LookPanel { rgb: list, ..p },
        Channel::Red => LookPanel { red: list, ..p },
        Channel::Green => LookPanel { green: list, ..p },
        Channel::Blue => LookPanel { blue: list, ..p },
        Channel::RedGreen => LookPanel { red_green: list, ..p },
        Channel::BlueYellow => LookPanel { blue_yellow: list, ..p },
    }
}

/// The line that does nothing: the level one for a color curve, and the
/// diagonal for the rest.
pub open spec fn identity_of(fresh: Fresh, channel: Channel) -> Seq<CurvePoint<Level>> {
    if channel.colors() {
        fresh.level@
    } else {
        fresh.diagonal@
    }
}

/// The points a channel shows.
pub open spec fn points_of(
    p: LookPanel,
    fresh: Fresh,
    channel: Channel,
) -> Seq<CurvePoint<Level>> {
    let list = list_of(p, channel)@;
    if list.len() / 2 < 2 {
        identity_of(fresh, channel)
    } else {
        curve::paired(list)
    }
}

pub fn points_shown(p: &LookPanel, fresh: &Fresh, channel: Channel) -> (points: Vec<
    CurvePoint<Level>,
>)
    ensures
        points@ == points_of(*p, *fresh, channel),
{
    let list = match channel {
        Channel::Rgb => &p.rgb,
        Channel::Red => &p.red,
        Channel::Green => &p.green,
        Channel::Blue => &p.blue,
        Channel::RedGreen => &p.red_green,
        Channel::BlueYellow => &p.blue_yellow,
    };
    if channel.is_color() {
        curve::curve_points(list, &fresh.level)
    } else {
        curve::curve_points(list, &fresh.diagonal)
    }
}

/// A channel with these points, and the rest of the panel as it was.
pub open spec fn has_points(
    before: LookPanel,
    channel: Channel,
    points: Seq<CurvePoint<Level>>,
    after: LookPanel,
) -> bool {
    &&& list_of(after, channel)@ == curve::flattened(points)
    &&& after == list_put(before, channel, list_of(after, channel))
}

fn put_points(p: &mut LookPanel, channel: Channel, points: &Vec<CurvePoint<Level>>)
    ensures
        has_points(*old(p), channel, points@, *final(p)),
{
    let list = curve::set_curve_points(points);
    match channel {
        Channel::Rgb => {
            p.rgb = list;
        },
        Channel::Red => {
            p.red = list;
        },
        Channel::Green => {
            p.green = list;
        },
        Channel::Blue => {
            p.blue = list;
        },
        Channel::RedGreen => {
            p.red_green = list;
        },
        Channel::BlueYellow => {
            p.blue_yellow = list;
        },
    }
}

/// The panel with the splits moved, in order, and the rest as it was.
pub open spec fn has_splits(before: LookPanel, set: Splits, after: LookPanel) -> bool {
    &&& after.splits@ == sliders::splits_list(set)
    &&& after == (LookPanel { splits: after.splits, ..before })
}

/// What is under a press: the split, or the point (`near`); and, for a
/// point that is not there yet, which are `before` it, whether it is on
/// top of another's x (`crowded`) and where it goes.
#[derive(Debug)]
pub struct Under {
    pub split: Option<usize>,
    pub near: Option<usize>,
    pub before: Vec<bool>,
    pub crowded: bool,
    pub at: CurvePoint<Level>,
}

/// A press. One on top of another point's x takes nothing in hand and
/// leaves what was.
pub fn curve_pressed(
    p: &mut LookPanel,
    drag: &mut Option<usize>,
    fresh: &Fresh,
    mode: &str,
    channel: Channel,
    under: &Under,
) -> (next: Next)
    requires
        under.before@.len() == points_of(*old(p), *fresh, channel).len(),
    ensures
        mode@ == curve::PARAMETRIC@ ==> {
            &&& next == Next::Nothing
            &&& *final(p) == *old(p)
            &&& *final(drag) == under.split
        },
        mode@ != curve::PARAMETRIC@ ==> if under.near is None && under.crowded {
            &&& next == Next::Nothing
            &&& *final(p) == *old(p)
            &&& *final(drag) == *old(drag)
        } else {
            &&& next == Next::Redraw
            &&& has_points(
                *old(p),
                channel,
                curve::pressed(
                    points_of(*old(p), *fresh, channel),
                    under.near,
                    under.before@,
                    under.crowded,
                    under.at,
                ),
                *final(p),
            )
            &&& *final(drag) == match under.near {
                Some(i) => Some(i),
                None => Some(curve::leading(under.before@) as usize),
            }
        },
{
    if curve::parametric_mode(mode) {
        *drag = under.split;
        return Next::Nothing;
    }
    let mut points = points_shown(p, fresh, channel);
    match curve::curve_press(&mut points, under.near, &under.before, under.crowded, under.at) {
        None => Next::Nothing,
        Some(i) => {
            *drag = Some(i);
            put_points(p, channel, &points);
            Next::Redraw
        },
    }
}

/// The pointer's places for a drag: the splits with the one in hand moved
/// to it (`set`), and for a point its x held between the neighbors' and
/// its y held to the square.
#[derive(Debug, Clone, Copy)]
pub struct Toward {
    pub set: Splits,
    pub held: Level,
    pub y: Level,
}

/// A drag of what is in hand: a split to where the pointer sets it, or a
/// point, of which the ends stay at the ends. Nothing for what is not
/// there.
pub fn curve_dragged(
    p: &mut LookPanel,
    drag: Option<usize>,
    fresh: &Fresh,
    mode: &str,
    channel: Channel,
    to: Toward,
) -> (next: Next)
    ensures
        match drag {
            Some(i) if mode@ == curve::PARAMETRIC@ && i < 3 => {
                &&& next == Next::Redraw
                &&& has_splits(*old(p), to.set, *final(p))
            },
            Some(i) if mode@ != curve::PARAMETRIC@ && i < points_of(
                *old(p),
                *fresh,
                channel,
            ).len() => {
                &&& next == Next::Redraw
                &&& has_points(
                    *old(p),
                    channel,
                    curve::dragged(
                        points_of(*old(p), *fresh, channel),
                        i as int,
                        level::ZERO,
                        level::ONE,
                        to.held,
                        to.y,
                    ),
                    *final(p),
                )
            },
            _ => next == Next::Nothing && *final(p) == *old(p),
        },
{
    let i: usize = match drag {
        Some(i) => i,
        None => {
            return Next::Nothing;
        },
    };
    if curve::parametric_mode(mode) {
        if i >= 3 {
            return Next::Nothing;
        }
        p.splits = sliders::list_splits(to.set);
        return Next::Redraw;
    }
    let mut points = points_shown(p, fresh, channel);
    if !curve::curve_move(&mut points, i, level::ZERO, level::ONE, to.held, to.y) {
        return Next::Nothing;
    }
    put_points(p, channel, &points);
    Next::Redraw
}

/// The button let go: the edit is recorded, when something was in hand.
pub fn curve_released(drag: &mut Option<usize>) -> (next: Next)
    ensures
        *final(drag) is None,
        next == if *old(drag) is Some {
            Next::ViewChanged
        } else {
            Next::Nothing
        },
{
    let held: bool = drag.is_some();
    *drag = None;
    if held {
        Next::ViewChanged
    } else {
        Next::Nothing
    }
}

/// A double-click: the split under it goes back to where it started
/// (`set` is the splits with it there), or the point under it goes, but
/// for the two ends. Nothing is in hand after either.
pub fn curve_doubled(
    p: &mut LookPanel,
    drag: &mut Option<usize>,
    fresh: &Fresh,
    mode: &str,
    channel: Channel,
    under: &Under,
    set: Splits,
) -> (next: Next)
    requires
        under.near matches Some(i) ==> i < points_of(*old(p), *fresh, channel).len(),
    ensures
        ({
            let points = points_of(*old(p), *fresh, channel);
            if mode@ == curve::PARAMETRIC@ && under.split is Some {
                &&& next == Next::ViewChanged
                &&& *final(drag) is None
                &&& has_splits(*old(p), set, *final(p))
            } else if mode@ != curve::PARAMETRIC@ && (under.near matches Some(i) && 0 < i
                < points.len() - 1) {
                &&& next == Next::ViewChanged
                &&& *final(drag) is None
                &&& has_points(
                    *old(p),
                    channel,
                    points.remove(under.near->0 as int),
                    *final(p),
                )
            } else {
                &&& next == Next::Nothing
                &&& *final(drag) == *old(drag)
                &&& *final(p) == *old(p)
            }
        }),
{
    if curve::parametric_mode(mode) {
        if under.split.is_none() {
            return Next::Nothing;
        }
        *drag = None;
        p.splits = sliders::list_splits(set);
        return Next::ViewChanged;
    }
    let mut points = points_shown(p, fresh, channel);
    if !curve::curve_double(&mut points, under.near) {
        return Next::Nothing;
    }
    *drag = None;
    put_points(p, channel, &points);
    Next::ViewChanged
}

/// The curve back to the one that does nothing: the parametric one's parts
/// (`still`) and splits, or the channel's line.
pub fn curve_reset(
    p: &mut LookPanel,
    fresh: &Fresh,
    mode: &str,
    channel: Channel,
    still: Parts,
) -> (next: Next)
    ensures
        next == Next::ViewChanged,
        mode@ == curve::PARAMETRIC@ ==> has_splits(
            LookPanel { parts: still, ..*old(p) },
            fresh.splits,
            *final(p),
        ),
        mode@ != curve::PARAMETRIC@ ==> has_points(
            *old(p),
            channel,
            identity_of(*fresh, channel),
            *final(p),
        ),
{
    if curve::parametric_mode(mode) {
        p.parts = still;
        p.splits = sliders::list_splits(fresh.splits);
    } else if channel.is_color() {
        put_points(p, channel, &fresh.level);
    } else {
        put_points(p, channel, &fresh.diagonal);
    }
    Next::ViewChanged
}

/// A channel's points, once set, are the points it shows.
pub proof fn points_put_are_shown(
    before: LookPanel,
    after: LookPanel,
    fresh: Fresh,
    channel: Channel,
    points: Seq<CurvePoint<Level>>,
)
    requires
        points.len() >= 2,
        has_points(before, channel, points, after),
    ensures
        points_of(after, fresh, channel) == points,
{
    curve::points_set_read_back(points);
}

/// A channel's points are its own list's, and points put are put there and
/// in no other channel's list; nothing else of the panel moves.
pub proof fn a_channel_keeps_to_its_own_list(
    before: LookPanel,
    channel: Channel,
    points: Seq<CurvePoint<Level>>,
    after: LookPanel,
    i: int,
)
    requires
        has_points(before, channel, points, after),
    ensures
        ({
            let list = match channel {
                Channel::Rgb => after.rgb@,
                Channel::Red => after.red@,
                Channel::Green => after.green@,
                Channel::Blue => after.blue@,
                Channel::RedGreen => after.red_green@,
                Channel::BlueYellow => after.blue_yellow@,
            };
            &&& list.len() == 2 * points.len()
            &&& 0 <= i < points.len() ==> list[2 * i] == points[i].x && list[2 * i + 1]
                == points[i].y
        }),
        !(channel is Rgb) ==> after.rgb == before.rgb,
        !(channel is Red) ==> after.red == before.red,
        !(channel is Green) ==> after.green == before.green,
        !(channel is Blue) ==> after.blue == before.blue,
        !(channel is RedGreen) ==> after.red_green == before.red_green,
        !(channel is BlueYellow) ==> after.blue_yellow == before.blue_yellow,
        after.splits == before.splits,
        after.parts == before.parts,
        after.light == before.light,
        after.curves_enabled == before.curves_enabled,
{
}

/// A channel shows its own list's points; one of fewer than two, the line
/// that does nothing, which is the level one for a color curve and the
/// diagonal for the rest.
pub proof fn a_channel_shows_its_own_list(p: LookPanel, fresh: Fresh, i: int)
    ensures
        p.red@.len() >= 4 && 0 <= i < p.red@.len() / 2 ==> points_of(p, fresh, Channel::Red)[i].x
            == p.red@[2 * i] && points_of(p, fresh, Channel::Red)[i].y == p.red@[2 * i + 1],
        p.green@.len() >= 4 && 0 <= i < p.green@.len() / 2 ==> points_of(
            p,
            fresh,
            Channel::Green,
        )[i].x == p.green@[2 * i],
        p.blue@.len() >= 4 && 0 <= i < p.blue@.len() / 2 ==> points_of(p, fresh, Channel::Blue)[i].x
            == p.blue@[2 * i],
        p.rgb@.len() >= 4 && 0 <= i < p.rgb@.len() / 2 ==> points_of(p, fresh, Channel::Rgb)[i].x
            == p.rgb@[2 * i] && points_of(p, fresh, Channel::Rgb)[i].y == p.rgb@[2 * i + 1],
        p.red_green@.len() >= 4 && 0 <= i < p.red_green@.len() / 2 ==> points_of(
            p,
            fresh,
            Channel::RedGreen,
        )[i].x == p.red_green@[2 * i],
        p.blue_yellow@.len() >= 4 && 0 <= i < p.blue_yellow@.len() / 2 ==> points_of(
            p,
            fresh,
            Channel::BlueYellow,
        )[i].x == p.blue_yellow@[2 * i],
        p.rgb@.len() < 4 ==> points_of(p, fresh, Channel::Rgb) == fresh.diagonal@,
        p.red@.len() < 4 ==> points_of(p, fresh, Channel::Red) == fresh.diagonal@,
        p.green@.len() < 4 ==> points_of(p, fresh, Channel::Green) == fresh.diagonal@,
        p.blue@.len() < 4 ==> points_of(p, fresh, Channel::Blue) == fresh.diagonal@,
        p.red_green@.len() < 4 ==> points_of(p, fresh, Channel::RedGreen) == fresh.level@,
        p.blue_yellow@.len() < 4 ==> points_of(p, fresh, Channel::BlueYellow) == fresh.level@,
{
}

/// Splits set are the panel's, in order, and nothing else of it moves.
pub proof fn splits_set_are_the_panels(before: LookPanel, set: Splits, after: LookPanel)
    requires
        0 <= set.low <= set.middle <= set.high <= level::INFINITY,
        has_splits(before, set, after),
    ensures
        after.splits@.len() == 3,
        after.splits@[0] == set.low,
        after.splits@[1] == set.middle,
        after.splits@[2] == set.high,
        after.rgb == before.rgb && after.red == before.red && after.parts == before.parts,
{
}

} // verus!
