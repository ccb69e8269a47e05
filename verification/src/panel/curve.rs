//! The curve editor: its points and its picture.

use crate::text;
use vstd::prelude::*;

verus! {

/// The CURVES section's mode that shows the parametric curve; the other
/// is "Point".
pub const PARAMETRIC: &'static str = "Parametric";

pub fn parametric_mode(mode: &str) -> (r: bool)
    ensures
        r == (mode@ == PARAMETRIC@),
{
    text::same_text(mode, PARAMETRIC)
}

/// What a curve is of: the three channels at once, one of them, or one of
/// the two color axes.
#[derive(Debug, Clone, Copy, PartialEq, Eq, Structural)]
pub enum Channel {
    Rgb,
    Red,
    Green,
    Blue,
    RedGreen,
    BlueYellow,
}

impl Channel {
    /// A color curve, whose line that does nothing is the level one.
    pub open spec fn colors(self) -> bool {
        self is RedGreen || self is BlueYellow
    }

    pub fn is_color(self) -> (r: bool)
        ensures
            r == self.colors(),
    {
        match self {
            Channel::RedGreen => true,
            Channel::BlueYellow => true,
            _ => false,
        }
    }
}

// The points.

/// A point of a curve.
#[derive(Debug, Clone, Copy)]
pub struct CurvePoint<N> {
    pub x: N,
    pub y: N,
}

/// The points of a flat list, an odd number left at its end dropped.
pub open spec fn paired<N>(flat: Seq<N>) -> Seq<CurvePoint<N>> {
    Seq::new(
        flat.len() / 2,
        |i: int| CurvePoint { x: flat[2 * i], y: flat[2 * i + 1] },
    )
}

/// The points, flat.
pub open spec fn flattened<N>(points: Seq<CurvePoint<N>>) -> Seq<N> {
    Seq::new(
        points.len() * 2,
        |i: int|
            if i % 2 == 0 {
                points[i / 2].x
            } else {
                points[i / 2].y
            },
    )
}

/// The panel's points for a channel: its own, or the line that does
/// nothing when it has fewer than two.
pub fn curve_points<N: Copy>(
    flat: &Vec<N>,
    identity: &Vec<CurvePoint<N>>,
) -> (points: Vec<CurvePoint<N>>)
    ensures
        points@ == if flat@.len() / 2 < 2 {
            identity@
        } else {
            paired(flat@)
        },
{
    let n: usize = flat.len() / 2;
    let mut points: Vec<CurvePoint<N>> = Vec::new();
    let mut i: usize = 0;
    if n < 2 {
        while i < identity.len()
            invariant
                i <= identity@.len(),
                points@ =~= identity@.take(i as int),
            decreases identity.len() - i,
        {
            points.push(identity[i]);
            i = i + 1;
        }
        assert(identity@.take(i as int) =~= identity@);
        return points;
    }
    while i < n
        invariant
            i <= n,
            n == flat@.len() / 2,
            flat@.len() <= usize::MAX,
            points@.len() == i,
            forall|k: int| 0 <= k < i ==> #[trigger] points@[k] == paired(flat@)[k],
        decreases n - i,
    {
        points.push(CurvePoint { x: flat[2 * i], y: flat[2 * i + 1] });
        i = i + 1;
    }
    assert(points@ =~= paired(flat@));
    points
}

pub fn set_curve_points<N: Copy>(points: &Vec<CurvePoint<N>>) -> (flat: Vec<N>)
    ensures
        flat@ == flattened(points@),
{
    let mut flat: Vec<N> = Vec::new();
    let mut i: usize = 0;
    while i < points.len()
        invariant
            i <= points@.len(),
            flat@.len() == 2 * i,
            forall|k: int| 0 <= k < 2 * i ==> #[trigger] flat@[k] == flattened(points@)[k],
        decreases points.len() - i,
    {
        flat.push(points[i].x);
        flat.push(points[i].y);
        i = i + 1;
    }
    assert(flat@ =~= flattened(points@));
    flat
}

/// Points put on the panel read back as they were.
pub proof fn points_set_read_back<N>(points: Seq<CurvePoint<N>>)
    ensures
        paired(flattened(points)) == points,
{
    let flat = flattened(points);
    assert forall|i: int| 0 <= i < points.len() implies #[trigger] paired(flat)[i] == points[i] by {
        assert(flat[2 * i] == points[i].x);
        assert(flat[2 * i + 1] == points[i].y);
    }
    assert(paired(flat) =~= points);
}

/// How many of the flags are up before the first that is down: where a
/// point goes among those before it.
pub open spec fn leading(up: Seq<bool>) -> nat
    decreases up.len(),
{
    if up.len() == 0 || !up[0] {
        0
    } else {
        1 + leading(up.drop_first())
    }
}

proof fn lemma_leading(up: Seq<bool>, n: int)
    requires
        0 <= n <= up.len(),
        forall|i: int| 0 <= i < n ==> #[trigger] up[i],
        n < up.len() ==> !up[n],
    ensures
        leading(up) == n,
    decreases n,
{
    if n > 0 {
        assert(up[0]);
        let rest = up.drop_first();
        assert forall|i: int| 0 <= i < n - 1 implies #[trigger] rest[i] by {
            assert(up[i + 1]);
        }
        lemma_leading(rest, n - 1);
    }
}

proof fn lemma_leading_bound(up: Seq<bool>)
    ensures
        leading(up) <= up.len(),
    decreases up.len(),
{
    if up.len() > 0 && up[0] {
        lemma_leading_bound(up.drop_first());
    }
}

proof fn lemma_leading_short(up: Seq<bool>)
    requires
        up.len() > 0,
        !up.last(),
    ensures
        leading(up) < up.len(),
    decreases up.len(),
{
    if up[0] {
        let rest = up.drop_first();
        assert(rest.last() == up.last());
        lemma_leading_short(rest);
    }
}

/// The points after a press: one added at its place among those before
/// it, unless one is under the pointer or at its x.
pub open spec fn pressed<N>(
    points: Seq<CurvePoint<N>>,
    near: Option<usize>,
    before: Seq<bool>,
    crowded: bool,
    at: CurvePoint<N>,
) -> Seq<CurvePoint<N>> {
    if near is Some || crowded {
        points
    } else {
        points.insert(leading(before) as int, at)
    }
}

/// The points with one dragged: an end stays at its end, and another goes
/// to `held`.
pub open spec fn dragged<N>(
    points: Seq<CurvePoint<N>>,
    i: int,
    start: N,
    end: N,
    held: N,
    y: N,
) -> Seq<CurvePoint<N>> {
    if i < points.len() {
        let x = if i == 0 {
            start
        } else if i == points.len() - 1 {
            end
        } else {
            held
        };
        points.update(i, CurvePoint { x, y })
    } else {
        points
    }
}

/// The points after a double-click: the one under it gone, but for an
/// end.
pub open spec fn doubled<N>(points: Seq<CurvePoint<N>>, near: Option<usize>) -> Seq<CurvePoint<N>> {
    match near {
        Some(i) => if 0 < i < points.len() - 1 {
            points.remove(i as int)
        } else {
            points
        },
        None => points,
    }
}

/// A press on the curve: the point under it (`near`) is taken, or one is
/// added at its place among those `before` it; none on top of another's
/// x (`crowded`). The point in hand.
pub fn curve_press<N: Copy>(
    points: &mut Vec<CurvePoint<N>>,
    near: Option<usize>,
    before: &Vec<bool>,
    crowded: bool,
    at: CurvePoint<N>,
) -> (i: Option<usize>)
    requires
        before@.len() == old(points)@.len(),
    ensures
        i == match near {
            Some(n) => Some(n),
            None => if crowded {
                None
            } else {
                Some(leading(before@) as usize)
            },
        },
        leading(before@) <= old(points)@.len(),
        final(points)@ == pressed(old(points)@, near, before@, crowded, at),
{
    proof {
        lemma_leading_bound(before@);
    }
    if near.is_some() {
        return near;
    }
    if crowded {
        return None;
    }
    let mut n: usize = 0;
    while n < before.len() && before[n]
        invariant
            n <= before@.len(),
            forall|k: int| 0 <= k < n ==> #[trigger] before@[k],
        decreases before.len() - n,
    {
        n = n + 1;
    }
    proof {
        lemma_leading(before@, n as int);
    }
    points.insert(n, at);
    Some(n)
}

/// A point dragged: the ends stay at the ends, and the rest take `held`,
/// the pointer's x held between their neighbors. False for no such
/// point.
pub fn curve_move<N: Copy>(
    points: &mut Vec<CurvePoint<N>>,
    i: usize,
    start: N,
    end: N,
    held: N,
    y: N,
) -> (moved: bool)
    ensures
        moved == (i < old(points)@.len()),
        final(points)@ == dragged(old(points)@, i as int, start, end, held, y),
{
    if i >= points.len() {
        return false;
    }
    let last: usize = points.len() - 1;
    let x: N = if i == 0 {
        start
    } else if i == last {
        end
    } else {
        held
    };
    points.set(i, CurvePoint { x, y });
    true
}

/// A double-click on a point removes it, but for the two ends. True when
/// one went.
pub fn curve_double<N>(points: &mut Vec<CurvePoint<N>>, near: Option<usize>) -> (gone: bool)
    requires
        near matches Some(i) ==> i < old(points)@.len(),
    ensures
        gone == (near matches Some(i) && 0 < i < old(points)@.len() - 1),
        final(points)@ == doubled(old(points)@, near),
{
    match near {
        Some(i) => {
            if i == 0 || i == points.len() - 1 {
                return false;
            }
            let _p = points.remove(i);
            true
        },
        None => false,
    }
}

/// The ends of a curve stay its ends whatever is dragged, removed or
/// pressed between them.
pub proof fn the_ends_stay_the_ends<N>(
    points: Seq<CurvePoint<N>>,
    i: int,
    start: N,
    end: N,
    held: N,
    y: N,
    near: Option<usize>,
    before: Seq<bool>,
    crowded: bool,
    at: CurvePoint<N>,
)
    requires
        points.len() >= 2,
        0 <= i,
        points[0].x == start,
        points.last().x == end,
        before.len() == points.len(),
        // The pointer is past the first point and short of the last.
        before[0],
        !before.last(),
    ensures
        ({
            let moved = dragged(points, i, start, end, held, y);
            moved.len() == points.len() && moved[0].x == start && moved.last().x == end
        }),
        ({
            let left = doubled(points, near);
            left.len() >= 2 && left[0].x == start && left.last().x == end
        }),
        ({
            let more = pressed(points, near, before, crowded, at);
            more[0].x == start && more.last().x == end
        }),
{
    let rest = before.drop_first();
    assert(leading(before) == 1 + leading(rest));
    lemma_leading_short(rest);
}

/// The curve shown is another: the curve's dropper is a tool of the
/// points, and one in hand goes down with them. Whether it does.
pub fn mode_changed(mode: &str, picking: &str) -> (drops: bool)
    ensures
        drops == (mode@ == PARAMETRIC@ && picking@ == "Curve"@),
{
    parametric_mode(mode) && text::same_text(picking, "Curve")
}

// The picture.

/// The picture's side, in pixels.
pub const SIDE: usize = 256;

#[derive(Debug, Clone, Copy, PartialEq, Eq, Structural)]
pub struct Rgb {
    pub r: u8,
    pub g: u8,
    pub b: u8,
}

/// A channel's histogram: its color, and how high each column is.
#[derive(Debug)]
pub struct Columns {
    pub color: Rgb,
    pub heights: Vec<u32>,
}

/// The histogram behind the curve.
#[derive(Debug)]
pub enum Histogram {
    Off,
    /// Of lightness, behind a color curve.
    Lightness(Vec<u32>),
    /// Of the channels the curve is of.
    Channels(Vec<Columns>),
}

/// A mark on the picture, where its middle is.
#[derive(Debug, Clone, Copy, PartialEq, Eq, Structural)]
pub struct Spot {
    pub x: i32,
    pub y: i32,
}

/// The channel the picture is of: the parametric curve is drawn over the
/// master's ground.
pub fn drawn_channel(parametric: bool, channel: Channel) -> (c: Channel)
    ensures
        c == if parametric {
            Channel::Rgb
        } else {
            channel
        },
{
    if parametric {
        Channel::Rgb
    } else {
        channel
    }
}

/// The histograms behind a channel's curve, each with its color: all
/// three behind the master's, its own behind a channel's.
pub open spec fn behind_curve(channel: Channel) -> Seq<(usize, Rgb)> {
    match channel {
        Channel::Rgb => seq![
            (0, Rgb { r: 0x3a, g: 0x2a, b: 0x2a }),
            (1, Rgb { r: 0x2a, g: 0x3a, b: 0x2a }),
            (2, Rgb { r: 0x2a, g: 0x2a, b: 0x3a }),
        ],
        Channel::Red => seq![(0, Rgb { r: 0x4a, g: 0x26, b: 0x26 })],
        Channel::Green => seq![(1, Rgb { r: 0x26, g: 0x4a, b: 0x26 })],
        _ => seq![(2, Rgb { r: 0x26, g: 0x30, b: 0x4a })],
    }
}

pub fn channels_behind(channel: Channel) -> (v: Vec<(usize, Rgb)>)
    ensures
        v@ == behind_curve(channel),
{
    let mut v: Vec<(usize, Rgb)> = Vec::new();
    match channel {
        Channel::Rgb => {
            v.push((0, Rgb { r: 0x3a, g: 0x2a, b: 0x2a }));
            v.push((1, Rgb { r: 0x2a, g: 0x3a, b: 0x2a }));
            v.push((2, Rgb { r: 0x2a, g: 0x2a, b: 0x3a }));
        },
        Channel::Red => {
            v.push((0, Rgb { r: 0x4a, g: 0x26, b: 0x26 }));
        },
        Channel::Green => {
            v.push((1, Rgb { r: 0x26, g: 0x4a, b: 0x26 }));
        },
        _ => {
            v.push((2, Rgb { r: 0x26, g: 0x30, b: 0x4a }));
        },
    }
    assert(v@ =~= behind_curve(channel));
    v
}

/// A bin that a channel's histogram is measured by: all of its own but
/// the first and the last, where the clipped pixels are.
pub open spec fn measured(channels: Seq<(usize, Rgb)>, i: int) -> bool {
    exists|k: int|
        0 <= k < channels.len() && 256 * (#[trigger] channels[k]).0 + 1 <= i < 256 * channels[k].0
            + 255
}

/// The highest of the bins the histograms are measured by, and no less
/// than one.
pub fn peak(bins: &Vec<u32>, channels: &Vec<(usize, Rgb)>) -> (p: u32)
    requires
        forall|k: int|
            0 <= k < channels@.len() ==> 256 * (#[trigger] channels@[k]).0 + 256 <= bins@.len(),
    ensures
        p >= 1,
        forall|i: int| measured(channels@, i) ==> #[trigger] bins@[i] <= p,
        p == 1 || exists|i: int| measured(channels@, i) && #[trigger] bins@[i] == p,
{
    let mut p: u32 = 1;
    let mut k: usize = 0;
    while k < channels.len()
        invariant
            k <= channels@.len(),
            forall|j: int|
                0 <= j < channels@.len() ==> 256 * (#[trigger] channels@[j]).0 + 256
                    <= bins@.len(),
            p >= 1,
            forall|i: int| measured(channels@.take(k as int), i) ==> #[trigger] bins@[i] <= p,
            p == 1 || exists|i: int| measured(channels@, i) && #[trigger] bins@[i] == p,
        decreases channels.len() - k,
    {
        assert(256 * channels@[k as int].0 + 256 <= bins@.len());
        let bins_len: usize = bins.len();
        let first: usize = 256 * channels[k].0 + 1;
        let end: usize = 256 * channels[k].0 + 255;
        let mut i: usize = first;
        while i < end
            invariant
                k < channels@.len(),
                first == 256 * channels@[k as int].0 + 1,
                end == 256 * channels@[k as int].0 + 255,
                first <= i <= end < bins@.len(),
                p >= 1,
                forall|j: int|
                    measured(channels@.take(k as int), j) ==> #[trigger] bins@[j] <= p,
                forall|j: int| first <= j < i ==> #[trigger] bins@[j] <= p,
                p == 1 || exists|j: int| measured(channels@, j) && #[trigger] bins@[j] == p,
            decreases end - i,
        {
            if bins[i] > p {
                p = bins[i];
                assert(channels@[k as int].0 == channels@[k as int].0);
                assert(measured(channels@, i as int));
                assert(bins@[i as int] == p);
            }
            i = i + 1;
        }
        k = k + 1;
        proof {
            let done = channels@.take(k as int);
            assert forall|j: int| measured(done, j) implies #[trigger] bins@[j] <= p by {
                let m = choose|m: int|
                    0 <= m < done.len() && 256 * (#[trigger] done[m]).0 + 1 <= j < 256 * done[m].0
                        + 255;
                if m < k - 1 {
                    assert(channels@.take(k - 1)[m] == done[m]);
                    assert(measured(channels@.take(k - 1), j));
                } else {
                    assert(done[m] == channels@[k - 1]);
                }
            }
        }
    }
    assert(channels@.take(k as int) =~= channels@);
    p
}

/// What the picture is drawn from: every measure of it in pixels, y up.
#[derive(Debug)]
pub struct Scene {
    pub channel: Channel,
    pub histogram: Histogram,
    /// The curve's height in each column.
    pub heights: Vec<u32>,
    /// The split points of the parametric curve; none of the point curve.
    pub splits: Option<Vec<u32>>,
    /// The points of the point curve.
    pub points: Vec<Spot>,
}

impl Scene {
    /// Every row and every column has its measure.
    pub open spec fn wf(self) -> bool {
        &&& self.heights@.len() == SIDE
        &&& match self.histogram {
            Histogram::Off => true,
            Histogram::Lightness(h) => h@.len() == SIDE,
            Histogram::Channels(c) => forall|i: int|
                0 <= i < c@.len() ==> (#[trigger] c@[i]).heights@.len() == SIDE,
        }
    }
}

pub open spec fn gray(n: u8) -> Rgb {
    Rgb { r: n, g: n, b: n }
}

fn shade(n: u8) -> (c: Rgb)
    ensures
        c == gray(n),
{
    Rgb { r: n, g: n, b: n }
}

/// A level raised, and no further than it goes.
pub open spec fn raised(n: u8) -> u8 {
    if n > 227 {
        255
    } else {
        (n + 28) as u8
    }
}

fn raise(n: u8) -> (r: u8)
    ensures
        r == raised(n),
{
    if n > 227 {
        255
    } else {
        n + 28
    }
}

pub open spec fn greater(a: u8, b: u8) -> u8 {
    if a > b {
        a
    } else {
        b
    }
}

pub open spec fn brighter(a: Rgb, b: Rgb) -> Rgb {
    Rgb { r: greater(a.r, b.r), g: greater(a.g, b.g), b: greater(a.b, b.b) }
}

fn brighten(a: Rgb, b: Rgb) -> (c: Rgb)
    ensures
        c == brighter(a, b),
{
    Rgb {
        r: if a.r > b.r { a.r } else { b.r },
        g: if a.g > b.g { a.g } else { b.g },
        b: if a.b > b.b { a.b } else { b.b },
    }
}

/// A pixel with the columns of `channels` over it.
pub open spec fn under_channels(c: Rgb, channels: Seq<Columns>, x: int, y: int) -> Rgb
    decreases channels.len(),
{
    if channels.len() == 0 {
        c
    } else {
        let before = under_channels(c, channels.drop_last(), x, y);
        if y < channels.last().heights@[x] {
            brighter(before, channels.last().color)
        } else {
            before
        }
    }
}

/// What a color curve's ground is tinted with at either edge: red or
/// yellow up, green or blue down.
pub open spec fn tint_of(channel: Channel, up: bool) -> Rgb {
    match channel {
        Channel::RedGreen => if up {
            Rgb { r: 0x2e, g: 0x08, b: 0x0c }
        } else {
            Rgb { r: 0, g: 0x24, b: 0x08 }
        },
        _ => if up {
            Rgb { r: 0x2a, g: 0x22, b: 0 }
        } else {
            Rgb { r: 0x04, g: 0x0e, b: 0x34 }
        },
    }
}

/// A level of a tint `k` of 255 of the way to the edge.
pub open spec fn tinted(v: u8, k: int) -> u8 {
    (0x14 + v * k / 255) as u8
}

/// The ground of a row: dark, and for a color curve tinted toward what
/// each way gives, strongest at the edges.
pub open spec fn ground_row(channel: Channel, y: int) -> Rgb {
    if channel.colors() {
        let t = tint_of(channel, 2 * y > 255);
        let k = apart(2 * y, 255);
        Rgb { r: tinted(t.r, k), g: tinted(t.g, k), b: tinted(t.b, k) }
    } else {
        gray(0x14)
    }
}

/// The ground with the histogram on it, dim, behind everything.
pub open spec fn ground_at(s: Scene, x: int, y: int) -> Rgb {
    let c = ground_row(s.channel, y);
    match s.histogram {
        Histogram::Off => c,
        Histogram::Lightness(h) => if y < h@[x] {
            Rgb { r: raised(c.r), g: raised(c.g), b: raised(c.b) }
        } else {
            c
        },
        Histogram::Channels(channels) => under_channels(c, channels@, x, y),
    }
}

pub open spec fn quarter(i: int) -> bool {
    i == 64 || i == 128 || i == 192
}

/// The grid at the quarters, and the line that does nothing: the
/// diagonal, or the level line for a color curve, which the first upright
/// of the grid crosses over it.
pub open spec fn lines_at(channel: Channel, x: int, y: int) -> Option<Rgb> {
    if channel.colors() {
        if y == 128 && x != 64 {
            Some(gray(0x3a))
        } else if quarter(x) || quarter(y) {
            Some(gray(0x24))
        } else {
            None
        }
    } else if x == y {
        Some(gray(0x2c))
    } else if quarter(x) || quarter(y) {
        Some(gray(0x24))
    } else {
        None
    }
}

/// The curve, two pixels thick, joined between columns.
pub open spec fn on_curve(heights: Seq<u32>, x: int, y: int) -> bool {
    let here = heights[x];
    let next = if x + 1 < SIDE {
        heights[x + 1]
    } else {
        here
    };
    if here <= next {
        here <= y <= next + 1
    } else {
        next <= y <= here + 1
    }
}

pub open spec fn curve_color(channel: Channel) -> Rgb {
    match channel {
        Channel::Red => Rgb { r: 0xe8, g: 0x60, b: 0x60 },
        Channel::Green => Rgb { r: 0x60, g: 0xe0, b: 0x60 },
        Channel::Blue => Rgb { r: 0x60, g: 0x98, b: 0xf0 },
        _ => gray(0xd8),
    }
}

/// The distance between two places.
pub open spec fn apart(a: int, b: int) -> int {
    if a < b {
        b - a
    } else {
        a - b
    }
}

/// A split's handle: a triangle at the foot of its line, its apex up,
/// with a dark rim.
pub open spec fn handle_at(split: u32, x: int, y: int) -> Option<Rgb> {
    let half = 8 - y;
    let d = apart(x, split as int);
    if y > 8 || d > half {
        None
    } else if d == half || y == 0 {
        Some(gray(0x14))
    } else {
        Some(gray(0xff))
    }
}

/// A point: a square with a dark rim.
pub open spec fn point_at(p: Spot, x: int, y: int) -> Option<Rgb> {
    let (dx, dy) = (apart(x, p.x as int), apart(y, p.y as int));
    if dx > 4 || dy > 4 {
        None
    } else if dx == 4 || dy == 4 {
        Some(gray(0x14))
    } else {
        Some(gray(0xff))
    }
}

/// The last of the handles that covers a pixel.
pub open spec fn handles_at(splits: Seq<u32>, x: int, y: int) -> Option<Rgb>
    decreases splits.len(),
{
    if splits.len() == 0 {
        None
    } else {
        match handle_at(splits.last(), x, y) {
            Some(c) => Some(c),
            None => handles_at(splits.drop_last(), x, y),
        }
    }
}

/// The last of the points that covers a pixel.
pub open spec fn points_at(points: Seq<Spot>, x: int, y: int) -> Option<Rgb>
    decreases points.len(),
{
    if points.len() == 0 {
        None
    } else {
        match point_at(points.last(), x, y) {
            Some(c) => Some(c),
            None => points_at(points.drop_last(), x, y),
        }
    }
}

pub open spec fn is_split(splits: Option<Vec<u32>>, x: int) -> bool {
    match splits {
        Some(s) => exists|i: int| 0 <= i < s@.len() && #[trigger] s@[i] == x,
        None => false,
    }
}

/// A pixel of the picture, y up: from the top down, the marks, the curve,
/// the splits' lines, the grid, and the ground with the histogram.
pub open spec fn painted(s: Scene, x: int, y: int) -> Rgb {
    let mark = match s.splits {
        Some(splits) => handles_at(splits@, x, y),
        None => points_at(s.points@, x, y),
    };
    match mark {
        Some(c) => c,
        None => if on_curve(s.heights@, x, y) {
            curve_color(s.channel)
        } else if is_split(s.splits, x) {
            gray(0x44)
        } else {
            match lines_at(s.channel, x, y) {
                Some(c) => c,
                None => ground_at(s, x, y),
            }
        },
    }
}

fn distance(a: i64, b: i64) -> (d: i64)
    requires
        -4294967296 <= a <= 4294967296,
        -4294967296 <= b <= 4294967296,
    ensures
        d == apart(a as int, b as int),
{
    if a < b {
        b - a
    } else {
        a - b
    }
}

fn handle(splits: &Vec<u32>, x: usize, y: usize) -> (c: Option<Rgb>)
    requires
        x < SIDE,
        y < SIDE,
    ensures
        c == handles_at(splits@, x as int, y as int),
{
    let mut k: usize = splits.len();
    assert(splits@.take(k as int) =~= splits@);
    while k > 0
        invariant
            k <= splits@.len(),
            x < SIDE,
            y < SIDE,
            handles_at(splits@, x as int, y as int) == handles_at(
                splits@.take(k as int),
                x as int,
                y as int,
            ),
        decreases k,
    {
        let ghost part = splits@.take(k as int);
        k = k - 1;
        assert(part.drop_last() =~= splits@.take(k as int));
        assert(part.last() == splits@[k as int]);
        let d: i64 = distance(x as i64, splits[k] as i64);
        let half: i64 = 8 - y as i64;
        if !(y > 8 || d > half) {
            return Some(
                if d == half || y == 0 {
                    shade(0x14)
                } else {
                    shade(0xff)
                },
            );
        }
    }
    None
}

fn point(points: &Vec<Spot>, x: usize, y: usize) -> (c: Option<Rgb>)
    requires
        x < SIDE,
        y < SIDE,
    ensures
        c == points_at(points@, x as int, y as int),
{
    let mut k: usize = points.len();
    assert(points@.take(k as int) =~= points@);
    while k > 0
        invariant
            k <= points@.len(),
            x < SIDE,
            y < SIDE,
            points_at(points@, x as int, y as int) == points_at(
                points@.take(k as int),
                x as int,
                y as int,
            ),
        decreases k,
    {
        let ghost part = points@.take(k as int);
        k = k - 1;
        assert(part.drop_last() =~= points@.take(k as int));
        assert(part.last() == points@[k as int]);
        let dx: i64 = distance(x as i64, points[k].x as i64);
        let dy: i64 = distance(y as i64, points[k].y as i64);
        if !(dx > 4 || dy > 4) {
            return Some(
                if dx == 4 || dy == 4 {
                    shade(0x14)
                } else {
                    shade(0xff)
                },
            );
        }
    }
    None
}

fn curve_here(heights: &Vec<u32>, x: usize, y: usize) -> (r: bool)
    requires
        heights@.len() == SIDE,
        x < SIDE,
        y < SIDE,
    ensures
        r == on_curve(heights@, x as int, y as int),
{
    let here: u64 = heights[x] as u64;
    let next: u64 = if x + 1 < SIDE {
        heights[x + 1] as u64
    } else {
        here
    };
    let y: u64 = y as u64;
    if here <= next {
        here <= y && y <= next + 1
    } else {
        next <= y && y <= here + 1
    }
}

fn split_among(s: &Vec<u32>, x: usize) -> (r: bool)
    requires
        x < SIDE,
    ensures
        r == exists|i: int| 0 <= i < s@.len() && #[trigger] s@[i] == x,
{
    let mut i: usize = 0;
    while i < s.len()
        invariant
            i <= s@.len(),
            x < SIDE,
            forall|k: int| 0 <= k < i ==> #[trigger] s@[k] != x,
        decreases s.len() - i,
    {
        if s[i] as usize == x {
            assert(s@[i as int] == x);
            return true;
        }
        i = i + 1;
    }
    false
}

fn split_here(splits: &Option<Vec<u32>>, x: usize) -> (r: bool)
    requires
        x < SIDE,
    ensures
        r == is_split(*splits, x as int),
{
    match splits {
        Some(s) => split_among(s, x),
        None => false,
    }
}

fn lines(channel: Channel, x: usize, y: usize) -> (c: Option<Rgb>)
    ensures
        c == lines_at(channel, x as int, y as int),
{
    let grid: bool = x == 64 || x == 128 || x == 192 || y == 64 || y == 128 || y == 192;
    if channel.is_color() {
        if y == 128 && x != 64 {
            return Some(shade(0x3a));
        }
    } else if x == y {
        return Some(shade(0x2c));
    }
    if grid {
        Some(shade(0x24))
    } else {
        None
    }
}

fn tint_level(v: u8, k: u64) -> (r: u8)
    requires
        v <= 0x34,
        k <= 255,
    ensures
        r == tinted(v, k as int),
{
    assert(0 <= v * k <= 0x34 * 255) by (nonlinear_arith)
        requires
            0 <= v <= 0x34,
            0 <= k <= 255,
    ;
    let more: u64 = v as u64 * k / 255;
    (0x14 + more) as u8
}

fn row_ground(channel: Channel, y: usize) -> (c: Rgb)
    requires
        y < SIDE,
    ensures
        c == ground_row(channel, y as int),
{
    if !channel.is_color() {
        return shade(0x14);
    }
    let up: bool = 2 * y > 255;
    let t: Rgb = match channel {
        Channel::RedGreen => if up {
            Rgb { r: 0x2e, g: 0x08, b: 0x0c }
        } else {
            Rgb { r: 0, g: 0x24, b: 0x08 }
        },
        _ => if up {
            Rgb { r: 0x2a, g: 0x22, b: 0 }
        } else {
            Rgb { r: 0x04, g: 0x0e, b: 0x34 }
        },
    };
    let k: u64 = distance(2 * y as i64, 255) as u64;
    Rgb { r: tint_level(t.r, k), g: tint_level(t.g, k), b: tint_level(t.b, k) }
}

fn behind(s: &Scene, x: usize, y: usize) -> (c: Rgb)
    requires
        s.wf(),
        x < SIDE,
        y < SIDE,
    ensures
        c == ground_at(*s, x as int, y as int),
{
    let ground: Rgb = row_ground(s.channel, y);
    match &s.histogram {
        Histogram::Off => ground,
        Histogram::Lightness(h) => {
            if (y as u32) < h[x] {
                Rgb { r: raise(ground.r), g: raise(ground.g), b: raise(ground.b) }
            } else {
                ground
            }
        },
        Histogram::Channels(channels) => {
            let mut c: Rgb = ground;
            let mut k: usize = 0;
            assert(channels@.take(0) =~= seq![]);
            while k < channels.len()
                invariant
                    k <= channels@.len(),
                    x < SIDE,
                    y < SIDE,
                    forall|i: int|
                        0 <= i < channels@.len() ==> (#[trigger] channels@[i]).heights@.len()
                            == SIDE,
                    c == under_channels(ground, channels@.take(k as int), x as int, y as int),
                decreases channels.len() - k,
            {
                if (y as u32) < channels[k].heights[x] {
                    c = brighten(c, channels[k].color);
                }
                k = k + 1;
                proof {
                    let done = channels@.take(k as int);
                    assert(done.drop_last() =~= channels@.take(k - 1));
                    assert(done.last() == channels@[k - 1]);
                }
            }
            assert(channels@.take(k as int) =~= channels@);
            c
        },
    }
}

fn color_of(channel: Channel) -> (c: Rgb)
    ensures
        c == curve_color(channel),
{
    match channel {
        Channel::Red => Rgb { r: 0xe8, g: 0x60, b: 0x60 },
        Channel::Green => Rgb { r: 0x60, g: 0xe0, b: 0x60 },
        Channel::Blue => Rgb { r: 0x60, g: 0x98, b: 0xf0 },
        _ => shade(0xd8),
    }
}

/// One pixel of the picture.
pub fn pixel(s: &Scene, x: usize, y: usize) -> (c: Rgb)
    requires
        s.wf(),
        x < SIDE,
        y < SIDE,
    ensures
        c == painted(*s, x as int, y as int),
{
    let mark: Option<Rgb> = match &s.splits {
        Some(splits) => handle(splits, x, y),
        None => point(&s.points, x, y),
    };
    if let Some(c) = mark {
        return c;
    }
    if curve_here(&s.heights, x, y) {
        return color_of(s.channel);
    }
    if split_here(&s.splits, x) {
        return shade(0x44);
    }
    match lines(s.channel, x, y) {
        Some(c) => c,
        None => behind(s, x, y),
    }
}

/// The curve editor's picture, row by row from the top: a grid, the
/// histogram behind, the line that does nothing, the channel's curve and
/// its points. In the parametric mode it is the parametric curve, its
/// splits as lines with a handle at the foot of each, and no points.
pub fn draw_curve(s: &Scene) -> (px: Vec<Rgb>)
    requires
        s.wf(),
    ensures
        px@.len() == SIDE * SIDE,
        forall|x: int, y: int|
            0 <= x < SIDE && 0 <= y < SIDE ==> #[trigger] px@[(SIDE - 1 - y) * SIDE + x] == painted(
                *s,
                x,
                y,
            ),
{
    let mut px: Vec<Rgb> = Vec::new();
    let mut row: usize = 0;
    while row < SIDE
        invariant
            row <= SIDE,
            s.wf(),
            px@.len() == row * SIDE,
            forall|i: int|
                0 <= i < px@.len() ==> #[trigger] px@[i] == painted(
                    *s,
                    i % 256,
                    255 - i / 256,
                ),
        decreases SIDE - row,
    {
        let y: usize = SIDE - 1 - row;
        let mut x: usize = 0;
        while x < SIDE
            invariant
                x <= SIDE,
                row < SIDE,
                y == SIDE - 1 - row,
                s.wf(),
                px@.len() == row * SIDE + x,
                forall|i: int|
                    0 <= i < px@.len() ==> #[trigger] px@[i] == painted(
                        *s,
                        i % 256,
                        255 - i / 256,
                    ),
            decreases SIDE - x,
        {
            assert((row * 256 + x) % 256 == x && (row * 256 + x) / 256 == row);
            let c: Rgb = pixel(s, x, y);
            px.push(c);
            x = x + 1;
        }
        row = row + 1;
    }
    proof {
        assert forall|x: int, y: int| 0 <= x < SIDE && 0 <= y < SIDE implies #[trigger] px@[(SIDE
            - 1 - y) * SIDE + x] == painted(*s, x, y) by {
            let i = (255 - y) * 256 + x;
            assert(i % 256 == x && i / 256 == 255 - y);
        }
    }
    px
}

// What holds of the points and the picture.

/// A flat list is x and y in turn, and a point is the two of its place.
pub proof fn a_flat_list_is_x_and_y_in_turn<N>(points: Seq<CurvePoint<N>>, flat: Seq<N>, i: int)
    ensures
        flattened(points).len() == 2 * points.len(),
        0 <= i < points.len() ==> flattened(points)[2 * i] == points[i].x && flattened(points)[2 * i
            + 1] == points[i].y,
        paired(flat).len() == flat.len() / 2,
        0 <= i < flat.len() / 2 ==> paired(flat)[i].x == flat[2 * i] && paired(flat)[i].y
            == flat[2 * i + 1],
{
}

/// A press on no point adds the one pressed, after those before it and
/// ahead of the rest, which stay as they were; a press on a point, or on
/// top of another's x, adds none.
pub proof fn a_press_adds_one_point_in_its_place<N>(
    points: Seq<CurvePoint<N>>,
    near: Option<usize>,
    before: Seq<bool>,
    crowded: bool,
    at: CurvePoint<N>,
)
    requires
        before.len() == points.len(),
    ensures
        near is Some || crowded ==> pressed(points, near, before, crowded, at) == points,
        near is None && !crowded ==> {
            let (more, n) = (
                pressed(points, near, before, crowded, at),
                leading(before) as int,
            );
            &&& 0 <= n <= points.len()
            &&& more.len() == points.len() + 1
            &&& more[n] == at
            &&& forall|i: int| 0 <= i < n ==> more[i] == points[i] && before[i]
            &&& forall|i: int| n <= i < points.len() ==> more[i + 1] == points[i]
            &&& n < points.len() ==> !before[n]
        },
{
    lemma_leading_bound(before);
    lemma_leading_is(before);
}

proof fn lemma_leading_is(up: Seq<bool>)
    ensures
        forall|i: int| 0 <= i < leading(up) ==> #[trigger] up[i],
        leading(up) < up.len() ==> !up[leading(up) as int],
    decreases up.len(),
{
    if up.len() > 0 && up[0] {
        let rest = up.drop_first();
        lemma_leading_is(rest);
        lemma_leading_bound(rest);
        assert forall|i: int| 0 <= i < leading(up) implies #[trigger] up[i] by {
            if i > 0 {
                assert(up[i] == rest[i - 1]);
            }
        }
    }
}

/// A point dragged is where it is taken, its height as asked and its x
/// held between its neighbors', or at its end for an end; the others stay.
pub proof fn a_point_dragged_is_where_it_is_taken<N>(
    points: Seq<CurvePoint<N>>,
    i: int,
    start: N,
    end: N,
    held: N,
    y: N,
)
    requires
        0 <= i < points.len(),
        points.len() >= 2,
    ensures
        ({
            let now = dragged(points, i, start, end, held, y);
            &&& now.len() == points.len()
            &&& now[i].y == y
            &&& i == 0 ==> now[i].x == start
            &&& i == points.len() - 1 ==> now[i].x == end
            &&& 0 < i < points.len() - 1 ==> now[i].x == held
            &&& forall|k: int| 0 <= k < points.len() && k != i ==> now[k] == points[k]
        }),
{
}

/// A double-click takes the point under it away, and leaves the others in
/// their order; on an end, or on none, it takes none.
pub proof fn a_double_click_takes_its_point_away<N>(points: Seq<CurvePoint<N>>, near: Option<usize>)
    ensures
        near matches Some(i) ==> (0 < i && i + 1 < points.len() ==> {
            let left = doubled(points, near);
            &&& left.len() == points.len() - 1
            &&& forall|k: int| 0 <= k < i ==> left[k] == points[k]
            &&& forall|k: int| i <= k < left.len() ==> left[k] == points[k + 1]
        }),
        near matches Some(i) ==> (i == 0 || i + 1 >= points.len() ==> doubled(points, near)
            == points),
        near is None ==> doubled(points, near) == points,
{
}

/// The curve's line is at each place at the height the curve has there,
/// and joined to the height at the next; a mark is over it, and it is over
/// the grid and the histogram.
pub proof fn the_curve_is_drawn_at_its_heights(s: Scene, x: int, y: int)
    requires
        s.wf(),
        0 <= x < SIDE,
        0 <= y < SIDE,
    ensures
        on_curve(s.heights@, x, s.heights@[x] as int),
        on_curve(s.heights@, x, s.heights@[x] + 1),
        x + 1 < SIDE ==> on_curve(s.heights@, x, s.heights@[x + 1] as int),
        x + 1 < SIDE && s.heights@[x] <= y <= s.heights@[x + 1] ==> on_curve(s.heights@, x, y),
        x + 1 < SIDE && s.heights@[x + 1] <= y <= s.heights@[x] ==> on_curve(s.heights@, x, y),
        y < s.heights@[x] && (x + 1 >= SIDE || y < s.heights@[x + 1]) ==> !on_curve(
            s.heights@,
            x,
            y,
        ),
        y > s.heights@[x] + 1 && (x + 1 >= SIDE || y > s.heights@[x + 1] + 1) ==> !on_curve(
            s.heights@,
            x,
            y,
        ),
        s.splits is None && s.points@.len() == 0 && y == s.heights@[x] ==> painted(s, x, y)
            == curve_color(s.channel),
{
}

/// A point's mark is a bright square about it with a dark rim, and only
/// there; the last of two that meet is on top.
pub proof fn a_point_is_marked_where_it_is(p: Spot, x: int, y: int)
    ensures
        x == p.x && y == p.y ==> point_at(p, x, y) == Some(Rgb { r: 255, g: 255, b: 255 }),
        point_at(p, x, y) is Some <==> -4 <= x - p.x <= 4 && -4 <= y - p.y <= 4,
        -4 < x - p.x < 4 && -4 < y - p.y < 4 ==> point_at(p, x, y) == Some(
            Rgb { r: 255, g: 255, b: 255 },
        ),
        points_at(seq![p], x, y) == point_at(p, x, y),
{
    reveal_with_fuel(points_at, 2);
    assert(seq![p].drop_last() =~= seq![]);
}

/// A mark of a point is what is painted where it is, on a curve of points.
pub proof fn a_mark_is_painted_over_the_curve(s: Scene, x: int, y: int)
    requires
        s.splits is None,
        s.points@.len() > 0,
    ensures
        point_at(s.points@.last(), x, y) matches Some(c) ==> painted(s, x, y) == c,
        points_at(s.points@, x, y) is Some <==> exists|i: int|
            0 <= i < s.points@.len() && point_at(#[trigger] s.points@[i], x, y) is Some,
{
    lemma_points_at(s.points@, x, y);
}

proof fn lemma_points_at(points: Seq<Spot>, x: int, y: int)
    ensures
        points_at(points, x, y) is Some <==> exists|i: int|
            0 <= i < points.len() && point_at(#[trigger] points[i], x, y) is Some,
    decreases points.len(),
{
    if points.len() > 0 {
        let before = points.drop_last();
        lemma_points_at(before, x, y);
        if point_at(points.last(), x, y) is Some {
            assert(point_at(points[points.len() - 1], x, y) is Some);
        }
        if exists|i: int| 0 <= i < before.len() && point_at(#[trigger] before[i], x, y) is Some {
            let i = choose|i: int|
                0 <= i < before.len() && point_at(#[trigger] before[i], x, y) is Some;
            assert(point_at(points[i], x, y) is Some);
        }
        if exists|i: int| 0 <= i < points.len() && point_at(#[trigger] points[i], x, y) is Some {
            let i = choose|i: int|
                0 <= i < points.len() && point_at(#[trigger] points[i], x, y) is Some;
            if i < before.len() {
                assert(point_at(before[i], x, y) is Some);
            }
        }
    }
}

/// A histogram is under the curve as high as its columns are and no
/// higher: above a column the ground is bare, and under it brighter.
pub proof fn a_histogram_stands_as_high_as_its_columns(s: Scene, x: int, y: int)
    requires
        s.wf(),
        0 <= x < SIDE,
    ensures
        s.histogram is Off ==> ground_at(s, x, y) == ground_row(s.channel, y),
        s.histogram matches Histogram::Lightness(h) ==> (y >= h@[x] ==> ground_at(s, x, y)
            == ground_row(s.channel, y)),
        s.histogram matches Histogram::Lightness(h) ==> (y < h@[x] ==> ground_at(s, x, y).r
            >= ground_row(s.channel, y).r && ground_at(s, x, y).g >= ground_row(s.channel, y).g
            && ground_at(s, x, y).b >= ground_row(s.channel, y).b),
        s.histogram matches Histogram::Lightness(h) ==> (y < h@[x] && ground_row(
            s.channel,
            y,
        ).r < 228 ==> ground_at(s, x, y).r == ground_row(s.channel, y).r + 28),
        s.histogram matches Histogram::Channels(c) ==> ((forall|k: int|
            0 <= k < c@.len() ==> y >= (#[trigger] c@[k]).heights@[x]) ==> ground_at(s, x, y)
            == ground_row(s.channel, y)),
        s.histogram matches Histogram::Channels(c) ==> (forall|k: int|
            0 <= k < c@.len() && y < (#[trigger] c@[k]).heights@[x] ==> ground_at(s, x, y).r
                >= c@[k].color.r && ground_at(s, x, y).g >= c@[k].color.g && ground_at(s, x, y).b
                >= c@[k].color.b),
{
    match s.histogram {
        Histogram::Channels(c) => {
            lemma_under(ground_row(s.channel, y), c@, x, y);
        },
        _ => {},
    }
}

proof fn lemma_under(c: Rgb, channels: Seq<Columns>, x: int, y: int)
    ensures
        (forall|k: int| 0 <= k < channels.len() ==> y >= (#[trigger] channels[k]).heights@[x])
            ==> under_channels(c, channels, x, y) == c,
        forall|k: int|
            0 <= k < channels.len() && y < (#[trigger] channels[k]).heights@[x] ==> under_channels(
                c,
                channels,
                x,
                y,
            ).r >= channels[k].color.r && under_channels(c, channels, x, y).g
                >= channels[k].color.g && under_channels(c, channels, x, y).b
                >= channels[k].color.b,
    decreases channels.len(),
{
    if channels.len() > 0 {
        let before = channels.drop_last();
        lemma_under(c, before, x, y);
        assert(channels.last() == channels[channels.len() - 1]);
        assert forall|k: int|
            0 <= k < channels.len() && y < (
            #[trigger] channels[k]).heights@[x] implies under_channels(c, channels, x, y).r
            >= channels[k].color.r && under_channels(c, channels, x, y).g >= channels[k].color.g
            && under_channels(c, channels, x, y).b >= channels[k].color.b by {
            if k < before.len() {
                assert(before[k] == channels[k]);
            }
        }
        if forall|k: int| 0 <= k < channels.len() ==> y >= (#[trigger] channels[k]).heights@[x] {
            assert forall|k: int| 0 <= k < before.len() implies y >= (
            #[trigger] before[k]).heights@[x] by {
                assert(before[k] == channels[k]);
            }
        }
    }
}

/// A split has its line and its handle at its own place.
pub proof fn a_split_is_drawn_where_it_is(split: u32, splits: Seq<u32>, x: int, y: int)
    ensures
        handle_at(split, x, y) is Some <==> y <= 8 && -(8 - y) <= x - split <= 8 - y,
        handles_at(seq![split], x, y) == handle_at(split, x, y),
{
    reveal_with_fuel(handles_at, 2);
    assert(seq![split].drop_last() =~= seq![]);
}

/// The histogram behind a channel's curve is of that channel, and behind
/// the curve of all three of each.
pub proof fn the_channels_behind_are_the_curves_own(channel: Channel)
    ensures
        channel is Rgb ==> behind_curve(channel).len() == 3 && behind_curve(channel)[0].0 == 0
            && behind_curve(channel)[1].0 == 1 && behind_curve(channel)[2].0 == 2,
        !(channel is Rgb) ==> behind_curve(channel).len() == 1,
        channel is Red ==> behind_curve(channel)[0].0 == 0,
        channel is Green ==> behind_curve(channel)[0].0 == 1,
        channel is Blue ==> behind_curve(channel)[0].0 == 2,
{
}

/// What is painted at a place is the topmost of what is there: a handle,
/// then the curve, then a split's line, then the grid, then the ground.
pub proof fn what_is_on_top_is_painted(s: Scene, x: int, y: int, k: int)
    ensures
        s.splits matches Some(splits) ==> (handles_at(splits@, x, y) matches Some(c) ==> painted(
            s,
            x,
            y,
        ) == c),
        s.splits matches Some(splits) ==> (handles_at(splits@, x, y) is None && !on_curve(
            s.heights@,
            x,
            y,
        ) && 0 <= k < splits@.len() && splits@[k] == x ==> painted(s, x, y) == (Rgb {
            r: 0x44,
            g: 0x44,
            b: 0x44,
        })),
        s.splits matches Some(splits) ==> (handles_at(splits@, x, y) is None && on_curve(
            s.heights@,
            x,
            y,
        ) ==> painted(s, x, y) == curve_color(s.channel)),
        s.splits is None && points_at(s.points@, x, y) is None && !on_curve(s.heights@, x, y) ==> (
        match lines_at(s.channel, x, y) {
            Some(c) => painted(s, x, y) == c,
            None => painted(s, x, y) == ground_at(s, x, y),
        }),
        s.splits matches Some(splits) ==> (handles_at(splits@, x, y) is None && !on_curve(
            s.heights@,
            x,
            y,
        ) && (forall|i: int| 0 <= i < splits@.len() ==> #[trigger] splits@[i] != x) ==> (
        match lines_at(s.channel, x, y) {
            Some(c) => painted(s, x, y) == c,
            None => painted(s, x, y) == ground_at(s, x, y),
        })),
{
}

/// Behind a colour curve the ground is tinted to what the curve does
/// there: red above the middle and green below it, or yellow above and
/// blue below, the more the farther. Behind any other it is one gray.
pub proof fn the_ground_is_tinted_as_the_curve_pulls(y: int, channel: Channel)
    ensures
        tint_of(Channel::RedGreen, true).r > tint_of(Channel::RedGreen, true).g,
        tint_of(Channel::RedGreen, false).g > tint_of(Channel::RedGreen, false).r,
        tint_of(Channel::BlueYellow, true).r > tint_of(Channel::BlueYellow, true).b && tint_of(
            Channel::BlueYellow,
            true,
        ).g > tint_of(Channel::BlueYellow, true).b,
        tint_of(Channel::BlueYellow, false).b > tint_of(Channel::BlueYellow, false).r,
        !(channel is RedGreen) && !(channel is BlueYellow) ==> ground_row(channel, y) == (Rgb {
            r: 0x14,
            g: 0x14,
            b: 0x14,
        }),
        channel is RedGreen || channel is BlueYellow ==> ({
            let t = tint_of(channel, 2 * y > 255);
            let k = if 2 * y > 255 {
                2 * y - 255
            } else {
                255 - 2 * y
            };
            ground_row(channel, y) == (Rgb { r: tinted(t.r, k), g: tinted(t.g, k), b: tinted(t.b, k)
            })
        }),
{
}

/// The grid is at the quarters, with the line of no change over it: the
/// diagonal, or the middle of a colour curve.
pub proof fn the_grid_is_at_the_quarters(channel: Channel, x: int, y: int)
    ensures
        quarter(x) <==> x == 64 || x == 128 || x == 192,
        !channel.colors() && x == y ==> lines_at(channel, x, y) == Some(
            Rgb { r: 0x2c, g: 0x2c, b: 0x2c },
        ),
        !channel.colors() && x != y ==> (lines_at(channel, x, y) is Some <==> quarter(x) || quarter(
            y,
        )),
        channel.colors() && y == 128 && !quarter(x) ==> lines_at(channel, x, y) == Some(
            Rgb { r: 0x3a, g: 0x3a, b: 0x3a },
        ),
        channel.colors() && y != 128 ==> (lines_at(channel, x, y) is Some <==> quarter(x)
            || quarter(y)),
        y != 128 && x != y && (quarter(x) || quarter(y)) ==> lines_at(channel, x, y) == Some(
            Rgb { r: 0x24, g: 0x24, b: 0x24 },
        ),
        channel.colors() <==> channel is RedGreen || channel is BlueYellow,
{
}

/// A bin counts toward the peak when it is one of a drawn channel's and
/// not at either end, where what is clipped piles up.
pub proof fn the_ends_do_not_set_the_peak(channels: Seq<(usize, Rgb)>, k: int, i: int)
    requires
        0 <= k < channels.len(),
    ensures
        256 * channels[k].0 < i < 256 * channels[k].0 + 255 ==> measured(channels, i),
        measured(channels, i) ==> 0 < i % 256 < 255,
        (forall|j: int| 0 <= j < channels.len() ==> i / 256 != (#[trigger] channels[j]).0)
            ==> !measured(channels, i),
{
    if 256 * channels[k].0 < i < 256 * channels[k].0 + 255 {
        assert(256 * channels[k].0 + 1 <= i);
    }
    if measured(channels, i) {
        let j = choose|j: int|
            0 <= j < channels.len() && 256 * (#[trigger] channels[j]).0 + 1 <= i < 256
                * channels[j].0 + 255;
        assert(i / 256 == channels[j].0);
    }
}

} // verus!
