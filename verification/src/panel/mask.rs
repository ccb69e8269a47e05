//! Masks: the shapes of an adjustment on the panel and in the hand.

use crate::panel::edit;
use crate::panel::level::Level;
use crate::panel::level;
use crate::panel::model;
use crate::panel::model::{
    Adjustment, Blank, Brush, ColorRange, Component, Edit, Kind, Look, LuminanceRange, Mask, Method, Mode,
    Patch, Pick, Point, Shape, Stroke, Window,
};
use crate::panel::retouch;
use crate::text;
use vstd::prelude::*;

verus! {

// What the panel shows of a mask.

/// A shape's line in the list: the sign of its mode and its kind.
pub open spec fn component_text<N: Copy>(c: Component<N>) -> Seq<char> {
    seq![c.mode.sign] + " "@ + c.shape.of().text()
}

pub open spec fn component_texts<N: Copy>(m: Mask<N>) -> Seq<Seq<char>> {
    Seq::new(m.components@.len(), |i: int| component_text(m.components@[i]))
}

/// The panel's names for a mask's shapes: the sign of the mode and
/// the kind.
pub fn component_names<N: Copy>(mask: &Mask<N>) -> (v: Vec<String>)
    ensures
        text::texts(v@) == component_texts(*mask),
{
    let mut v: Vec<String> = Vec::new();
    let mut i: usize = 0;
    while i < mask.components.len()
        invariant
            i <= mask.components@.len(),
            v@.len() == i,
            forall|k: int| 0 <= k < i ==> (#[trigger] v@[k])@ == component_texts(*mask)[k],
        decreases mask.components.len() - i,
    {
        let c = &mask.components[i];
        let mut s = String::new();
        s.push(c.mode.sign);
        s.append(" ");
        s.append(c.shape.kind().name());
        assert(s@ =~= component_text(*c));
        v.push(s);
        i = i + 1;
    }
    assert(text::texts(v@) =~= component_texts(*mask));
    v
}

pub open spec fn components_on<N: Copy>(m: Mask<N>) -> Seq<bool> {
    Seq::new(m.components@.len(), |i: int| m.components@[i].enabled)
}

/// Which of a mask's shapes are switched on, one per row.
pub fn component_on<N: Copy>(mask: &Mask<N>) -> (v: Vec<bool>)
    ensures
        v@ == components_on(*mask),
{
    let mut v: Vec<bool> = Vec::new();
    let mut i: usize = 0;
    while i < mask.components.len()
        invariant
            i <= mask.components@.len(),
            v@ =~= components_on(*mask).take(i as int),
        decreases mask.components.len() - i,
    {
        v.push(mask.components[i].enabled);
        i = i + 1;
    }
    assert(components_on(*mask).take(i as int) =~= components_on(*mask));
    v
}

/// The row the shape's controls are for: the chosen one, within the list.
pub open spec fn component_row<N: Copy>(m: Mask<N>, chosen: i32) -> int {
    let last = if m.components@.len() == 0 { 0int } else { m.components@.len() - 1 };
    if model::row_of(chosen) < last {
        model::row_of(chosen)
    } else {
        last
    }
}

/// A window that shows the chosen shape's own controls: its invert, its
/// feather when it is a radial, its window when it is a range.
pub open spec fn shows_component<N: Copy, L, G>(
    m: Mask<N>,
    before: Window<N, L, G>,
    after: Window<N, L, G>,
) -> bool {
    let i = component_row(m, before.component);
    &&& after.component == i
    &&& if i < m.components@.len() {
        let c = m.components@[i];
        &&& after.component_kind@ == c.shape.of().text()
        &&& after == (Window {
            component: i as i32,
            component_invert: c.invert,
            component_kind: after.component_kind,
            has_feather: c.shape is Radial,
            mask_feather: match c.shape {
                Shape::Radial { feather, .. } => feather,
                _ => level::HALF,
            },
            luminance: match c.shape {
                Shape::Luminance { range } => range,
                _ => before.luminance,
            },
            color: match c.shape {
                Shape::Color { range } => range,
                _ => before.color,
            },
            ..before
        })
    } else {
        &&& after.component_kind@ == ""@
        &&& after == (Window {
            component: i as i32,
            component_kind: after.component_kind,
            has_feather: false,
            ..before
        })
    }
}

/// Put the chosen shape's own controls on the panel.
pub fn show_component<N: Copy, L, G>(mask: &Mask<N>, w: &mut Window<N, L, G>)
    requires
        mask.components@.len() <= i32::MAX,
    ensures
        shows_component(*mask, *old(w), *final(w)),
{
    let chosen: usize = model::row(w.component);
    let last: usize = if mask.components.len() == 0 { 0 } else { mask.components.len() - 1 };
    let i: usize = if chosen < last { chosen } else { last };
    w.component = i as i32;
    if i < mask.components.len() {
        let c = &mask.components[i];
        w.component_invert = c.invert;
        match &c.shape {
            Shape::Radial { feather, .. } => {
                w.has_feather = true;
                w.mask_feather = *feather;
            },
            _ => {
                w.has_feather = false;
                w.mask_feather = level::HALF;
            },
        }
        show_range(&c.shape, w);
        w.component_kind = c.shape.kind().name().to_owned();
    } else {
        w.has_feather = false;
        w.component_kind = "".to_owned();
    }
}

/// A range shape's window on the panel's sliders; nothing for any
/// other shape.
pub fn show_range<N: Copy, L, G>(shape: &Shape<N>, w: &mut Window<N, L, G>)
    ensures
        *final(w) == (Window {
            luminance: match *shape {
                Shape::Luminance { range } => range,
                _ => old(w).luminance,
            },
            color: match *shape {
                Shape::Color { range } => range,
                _ => old(w).color,
            },
            ..*old(w)
        }),
{
    match shape {
        Shape::Luminance { range } => {
            w.luminance = *range;
        },
        Shape::Color { range } => {
            w.color = *range;
        },
        _ => {},
    }
}

/// A window of luminance held to what it can be: its high is never below
/// its low.
pub open spec fn luminance_held(r: LuminanceRange) -> LuminanceRange {
    let low = level::held(r.low, level::ZERO, level::ONE);
    LuminanceRange {
        low,
        high: level::held(r.high, low, level::ONE),
        low_feather: level::held(r.low_feather, level::ZERO, level::ONE),
        high_feather: level::held(r.high_feather, level::ZERO, level::ONE),
    }
}

fn hold_luminance(r: LuminanceRange) -> (h: LuminanceRange)
    ensures
        h == luminance_held(r),
{
    let low: Level = level::hold(r.low, level::ZERO, level::ONE);
    LuminanceRange {
        low,
        high: level::hold(r.high, low, level::ONE),
        low_feather: level::hold(r.low_feather, level::ZERO, level::ONE),
        high_feather: level::hold(r.high_feather, level::ZERO, level::ONE),
    }
}

/// A window of color held to what it can be: its hue on the circle
/// (`round` is where one off it comes round to), and its fade never longer
/// than its floor, as it cannot run under no chroma.
pub open spec fn color_held(r: ColorRange, round: Level) -> ColorRange {
    let chroma = level::from_zero(r.chroma);
    ColorRange {
        hue: level::brought_round(r.hue, round),
        width: level::held(r.width, level::ZERO, level::CIRCLE),
        hue_feather: level::held(r.hue_feather, level::ZERO, level::HALF_CIRCLE),
        chroma,
        chroma_feather: level::held(r.chroma_feather, level::ZERO, chroma),
    }
}

fn hold_color(r: ColorRange, round: Level) -> (h: ColorRange)
    ensures
        h == color_held(r, round),
{
    let chroma: Level = level::at_least_zero(r.chroma);
    ColorRange {
        hue: level::bring_round(r.hue, round),
        width: level::hold(r.width, level::ZERO, level::CIRCLE),
        hue_feather: level::hold(r.hue_feather, level::ZERO, level::HALF_CIRCLE),
        chroma,
        chroma_feather: level::hold(r.chroma_feather, level::ZERO, chroma),
    }
}

/// A range shape with the panel's window in place of its own; any other
/// shape as it is.
pub open spec fn range_read<N: Copy, L, G>(shape: Shape<N>, w: Window<N, L, G>) -> Shape<N> {
    match shape {
        Shape::Luminance { .. } => Shape::Luminance { range: luminance_held(w.luminance) },
        Shape::Color { .. } => Shape::Color { range: color_held(w.color, w.hue_round) },
        other => other,
    }
}

/// The panel's sliders into a range shape of the same kind; any other
/// shape is left as it is.
pub fn read_range<N: Copy, L, G>(shape: &mut Shape<N>, w: &Window<N, L, G>)
    ensures
        *final(shape) == range_read(*old(shape), *w),
{
    match shape.kind() {
        Kind::Luminance => {
            *shape = Shape::Luminance { range: hold_luminance(w.luminance) };
        },
        Kind::Color => {
            *shape = Shape::Color { range: hold_color(w.color, w.hue_round) };
        },
        _ => {},
    }
}

/// A window read off the sliders is a window: its ends are in order and
/// within the picture's lightness, its hue is on the circle and its fade
/// within its floor; and holding one again changes nothing. (Of sliders
/// that say a number, and a hue that comes round onto the circle.)
pub proof fn a_range_read_is_a_window(l: LuminanceRange, c: ColorRange, round: Level)
    requires
        level::is_number(l.low),
        level::is_number(l.high),
        level::on_circle(round),
    ensures
        ({
            let h = luminance_held(l);
            &&& !level::below(h.low, level::ZERO)
            &&& !level::below(h.high, h.low)
            &&& !level::below(level::ONE, h.high)
            &&& luminance_held(h) == h
        }),
        ({
            let h = color_held(c, round);
            &&& level::on_circle(h.hue)
            &&& !level::below(h.chroma_feather, level::ZERO)
            &&& !level::below(h.chroma, h.chroma_feather)
            &&& !level::below(h.width, level::ZERO)
            &&& !level::below(level::CIRCLE, h.width)
            &&& color_held(h, round) == h
        }),
{
}

/// Whether the chosen shape of the target is a range.
pub open spec fn range_chosen<N: Copy, L, G>(
    edit: Edit<N, L, G>,
    target: Option<usize>,
    chosen: int,
) -> bool {
    match target {
        Some(i) => i < edit.adjustments@.len() && chosen
            < edit.adjustments@[i as int].mask.components@.len()
            && edit.adjustments@[i as int].mask.components@[chosen].shape.of().ranges(),
        None => false,
    }
}

/// An adjustment chosen whose chosen shape is a range: its sliders
/// are the whole of it, and they are behind the shapes' fold, so the
/// fold opens. Only on choosing, so a fold closed by hand stays shut
/// while the adjustment is edited.
pub fn reveal_range<N: Copy, L, G>(
    edit: &Edit<N, L, G>,
    target: Option<usize>,
    w: &mut Window<N, L, G>,
)
    ensures
        *final(w) == (Window {
            shapes_open: old(w).shapes_open || range_chosen(
                *edit,
                target,
                model::row_of(old(w).component),
            ),
            ..*old(w)
        }),
{
    let chosen: usize = model::row(w.component);
    if let Some(i) = target {
        if i < edit.adjustments.len() && chosen < edit.adjustments[i].mask.components.len() {
            match edit.adjustments[i].mask.components[chosen].shape.kind() {
                Kind::Luminance | Kind::Color => {
                    w.shapes_open = true;
                },
                _ => {},
            }
        }
    }
}


// Tools.

/// Whether a shape is made whole by its button, with no drag on the
/// picture: a model's subject, or a range of the picture's own.
pub open spec fn at_once(kind: Kind) -> bool {
    kind is Subject || kind is Sky || kind is Luminance || kind is Color
}

pub fn made_at_once(kind: &str) -> (r: bool)
    ensures
        r == at_once(model::kind_named(kind@)),
{
    match Kind::named(kind) {
        Kind::Subject | Kind::Sky | Kind::Luminance | Kind::Color => true,
        _ => false,
    }
}

pub open spec fn made_text(kind: Kind) -> Seq<char> {
    match kind {
        Kind::Subject => "finding the subject"@,
        Kind::Sky => "finding the sky"@,
        Kind::Color =>
            "click a color in the picture to center the window on it; Esc to keep the skin"@,
        _ => ""@,
    }
}

/// What the status line says once a shape made at once is in.
pub fn made_hint(kind: &str) -> (s: &'static str)
    ensures
        s@ == made_text(model::kind_named(kind@)),
{
    match Kind::named(kind) {
        Kind::Subject => "finding the subject",
        Kind::Sky => "finding the sky",
        Kind::Color => "click a color in the picture to center the window on it; Esc to keep the skin",
        _ => "",
    }
}

pub open spec fn placing_text(kind: Kind) -> Seq<char> {
    match kind {
        Kind::Brush => "paint on the picture; scroll for size; Esc or the button when done"@,
        Kind::Object =>
            "click a thing, right-click what is not it, or drag a box round it; Esc or the button when done"@,
        Kind::Sky =>
            "click sky the mask missed, right-click what is not sky; Esc or the button when done"@,
        _ => "drag on the picture to place it"@,
    }
}

/// What the status line says while a tool is in hand.
pub fn placing_hint(kind: &str) -> (s: &'static str)
    ensures
        s@ == placing_text(model::kind_named(kind@)),
{
    match Kind::named(kind) {
        Kind::Brush => "paint on the picture; scroll for size; Esc or the button when done",
        Kind::Object =>
            "click a thing, right-click what is not it, or drag a box round it; Esc or the button when done",
        Kind::Sky =>
            "click sky the mask missed, right-click what is not sky; Esc or the button when done",
        _ => "drag on the picture to place it",
    }
}

/// A shape being drawn: what kind, where the press was, and which
/// adjustment it makes.
#[derive(Debug, Clone, Copy)]
pub struct Placing<N> {
    pub kind: Kind,
    pub mode: Mode,
    pub from: Point<N>,
    /// The adjustment it goes to, and the component it is there once
    /// a press has made it. A brush keeps its component between
    /// strokes.
    pub index: usize,
    pub component: Option<usize>,
    /// A new adjustment, rather than a shape added to one.
    pub fresh: bool,
    /// An object's press has become a box.
    pub boxed: bool,
}

/// The edit in hand and the tools on it.
#[derive(Debug)]
pub struct Editing<N, L, G> {
    pub edit: Edit<N, L, G>,
    /// The adjustment the panel edits; none is the picture.
    pub target: Option<usize>,
    pub placing: Option<Placing<N>>,
    pub retouching: Option<Method>,
    /// The repair being drawn.
    pub patch_stroke: Option<usize>,
    /// A dropper's pick is under way.
    pub picking: bool,
    /// The mask toggle as it was before a tool went in hand.
    pub show_mask_kept: Option<bool>,
}

/// What is left to do once the panel has been seen to.
#[derive(Debug, Clone, Copy, PartialEq, Eq, Structural)]
pub enum Next {
    Nothing,
    /// Draw the picture again.
    Redraw,
    /// The edit changed: the picture follows, and it is kept.
    ViewChanged,
    /// The same, and then [`arm_range_pick`] for the shape just made.
    Made,
    /// The engine's part changed: develop once the sliders rest.
    DevelopChanged,
    /// Develop once the pointer has rested.
    DevelopSoon,
}

/// A tool has gone in hand: the mask shows while its shape is placed.
/// The toggle as it was comes back once the tool is down, unless it
/// is thrown meanwhile, when the choice stands.
pub fn tool_in_hand<N, L, G>(st: &mut Editing<N, L, G>, w: &mut Window<N, L, G>)
    ensures
        *final(st) == (Editing {
            show_mask_kept: if old(st).show_mask_kept is None {
                Some(old(w).show_mask)
            } else {
                old(st).show_mask_kept
            },
            ..*old(st)
        }),
        *final(w) == (Window { show_mask: true, ..*old(w) }),
{
    if st.show_mask_kept.is_none() {
        st.show_mask_kept = Some(w.show_mask);
    }
    w.show_mask = true;
}

/// The mask toggle thrown by hand while a tool is in hand: that
/// choice stands once the tool is down.
pub fn show_mask_toggled<N, L, G>(st: &mut Editing<N, L, G>)
    ensures
        *final(st) == (Editing { show_mask_kept: None, ..*old(st) }),
{
    st.show_mask_kept = None;
}

/// Once no tool is in hand the mask toggle is as it was before one was.
pub fn tool_down<N, L, G>(st: &mut Editing<N, L, G>, w: &mut Window<N, L, G>)
    ensures
        old(st).placing is None && old(st).show_mask_kept is Some ==> {
            &&& *final(st) == (Editing { show_mask_kept: None, ..*old(st) })
            &&& *final(w) == (Window { show_mask: old(st).show_mask_kept->0, ..*old(w) })
        },
        !(old(st).placing is None && old(st).show_mask_kept is Some) ==> *final(st) == *old(st)
            && *final(w) == *old(w),
{
    if st.placing.is_none() {
        if let Some(was) = st.show_mask_kept {
            st.show_mask_kept = None;
            w.show_mask = was;
        }
    }
}

/// After a shape made at once: its word on the status line, and for a
/// color range the dropper in hand, so the next click on the picture
/// centers the window. Whether the dropper was put there now.
pub fn arm_range_pick<N, L, G>(w: &mut Window<N, L, G>, kind: &str) -> (armed: bool)
    ensures
        armed == (model::kind_named(kind@) is Color && old(w).picking@ != "Range"@),
        final(w).status@ == made_text(model::kind_named(kind@)),
        final(w).picking@ == if armed { "Range"@ } else { old(w).picking@ },
        *final(w) == (Window {
            status: final(w).status,
            picking: final(w).picking,
            ..*old(w)
        }),
{
    let color: bool = match Kind::named(kind) {
        Kind::Color => true,
        _ => false,
    };
    let armed: bool = color && !text::same_text(w.picking.as_str(), "Range");
    if armed {
        w.picking = "Range".to_owned();
    }
    w.status = made_hint(kind).to_owned();
    armed
}

// The target.

/// The adjustment a row of the list names; row zero is the picture.
pub open spec fn target_at(i: i32, adjustments: nat) -> Option<usize> {
    if 0 < i && i - 1 < adjustments {
        Some((i - 1) as usize)
    } else {
        None
    }
}

/// The panel's target switched: the old one keeps what the panel holds,
/// and the new one goes on the panel, its first shape chosen.
pub open spec fn retargeted<N: Copy, L, G>(
    old_st: Editing<N, L, G>,
    old_w: Window<N, L, G>,
    target: Option<usize>,
    st: Editing<N, L, G>,
    w: Window<N, L, G>,
) -> bool {
    &&& edit::edit_read(old_st.edit, old_w, old_st.target, st.edit)
    &&& st == (Editing { edit: st.edit, target, ..old_st })
    &&& edit::shows_edit(st.edit, target, Window { component: 0, ..old_w }, w)
}

/// A row of the adjustments' list clicked: the panel edits that one.
pub fn target_changed<N: Copy, L: Copy, G: Copy>(
    st: &mut Editing<N, L, G>,
    w: &mut Window<N, L, G>,
    i: i32,
) -> (next: Next)
    requires
        edit::countable(old(st).edit, 0),
    ensures
        next == Next::Redraw,
        exists|shown: Window<N, L, G>|
            {
                &&& #[trigger] retargeted(
                    *old(st),
                    *old(w),
                    target_at(i, old(st).edit.adjustments@.len()),
                    *final(st),
                    shown,
                )
                &&& *final(w) == (Window {
                    shapes_open: shown.shapes_open || range_chosen(
                        final(st).edit,
                        final(st).target,
                        model::row_of(shown.component),
                    ),
                    ..shown
                })
            },
{
    edit::read_edit(w, &mut st.edit, st.target);
    st.target = if i > 0 && ((i - 1) as u64) < st.edit.adjustments.len() as u64 {
        Some((i - 1) as usize)
    } else {
        None
    };
    w.component = 0;
    edit::show_edit(&st.edit, w, st.target);
    let ghost shown = *w;
    assert(retargeted(
        *old(st),
        *old(w),
        target_at(i, old(st).edit.adjustments@.len()),
        *st,
        shown,
    ));
    reveal_range(&st.edit, st.target, w);
    Next::Redraw
}


/// Away from Masks: the tool in hand is put down, and the picture takes
/// the panel from the adjustment that had it.
pub open spec fn left_masks<N: Copy, L, G>(
    old_st: Editing<N, L, G>,
    old_w: Window<N, L, G>,
    st: Editing<N, L, G>,
    w: Window<N, L, G>,
) -> bool {
    exists|down_st: Editing<N, L, G>, down_w: Window<N, L, G>|
        {
            &&& if old_st.placing is Some {
                #[trigger] put_down(old_st, old_w, down_st, down_w)
            } else {
                down_st == old_st && down_w == old_w
            }
            &&& if old_st.target is Some {
                retargeted(down_st, down_w, None, st, w)
            } else {
                st == down_st && w == down_w
            }
        }
}

fn leave_masks<N: Copy, L: Copy, G: Copy>(st: &mut Editing<N, L, G>, w: &mut Window<N, L, G>)
    requires
        edit::countable(old(st).edit, 0),
    ensures
        left_masks(*old(st), *old(w), *final(st), *final(w)),
{
    if st.placing.is_some() {
        st.placing = None;
        w.placing = "".to_owned();
        w.status = "".to_owned();
    }
    let ghost down_st = *st;
    let ghost down_w = *w;
    if st.target.is_some() {
        edit::read_edit(w, &mut st.edit, st.target);
        st.target = None;
        w.component = 0;
        edit::show_edit(&st.edit, w, None);
    }
    proof {
        let goes = put_down(*old(st), *old(w), down_st, down_w);
        assert(old(st).placing is Some ==> goes);
    }
}

/// Away from Retouch: the repair in hand is put down, and its words go.
pub open spec fn left_retouch<N, L, G>(
    old_st: Editing<N, L, G>,
    old_w: Window<N, L, G>,
    st: Editing<N, L, G>,
    w: Window<N, L, G>,
) -> bool {
    &&& st == (Editing { retouching: None, ..old_st })
    &&& if old_st.retouching is Some {
        &&& w == (Window { retouch_mode: w.retouch_mode, status: w.status, ..old_w })
        &&& w.retouch_mode@ == ""@
        &&& w.status@ == ""@
    } else {
        w == old_w
    }
}

fn leave_retouch<N, L, G>(st: &mut Editing<N, L, G>, w: &mut Window<N, L, G>)
    ensures
        left_retouch(*old(st), *old(w), *final(st), *final(w)),
{
    if st.retouching.is_some() {
        st.retouching = None;
        w.retouch_mode = "".to_owned();
        w.status = "".to_owned();
    }
}

/// A tab reached: away from Masks the masks are left, and away from
/// Retouch the repairs are.
pub open spec fn tabbed<N: Copy, L, G>(
    old_st: Editing<N, L, G>,
    old_w: Window<N, L, G>,
    tab: Seq<char>,
    st: Editing<N, L, G>,
    w: Window<N, L, G>,
) -> bool {
    if tab == "Masks"@ {
        left_retouch(old_st, old_w, st, w)
    } else if tab == "Retouch"@ {
        left_masks(old_st, old_w, st, w)
    } else {
        exists|mid_st: Editing<N, L, G>, mid_w: Window<N, L, G>|
            {
                &&& left_masks(old_st, old_w, mid_st, mid_w)
                &&& #[trigger] left_retouch(mid_st, mid_w, st, w)
            }
    }
}

/// A tab reached: away from Masks the global look is what the panel
/// edits and no shape is being placed; away from Retouch no tool is in
/// hand.
pub fn tab_changed<N: Copy, L: Copy, G: Copy>(
    st: &mut Editing<N, L, G>,
    w: &mut Window<N, L, G>,
    tab: &str,
) -> (next: Next)
    requires
        edit::countable(old(st).edit, 0),
    ensures
        next == Next::Redraw,
        tabbed(*old(st), *old(w), tab@, *final(st), *final(w)),
{
    proof {
        reveal_strlit("Masks");
        reveal_strlit("Retouch");
        assert("Masks"@.len() != "Retouch"@.len());
    }
    if !text::same_text(tab, "Masks") {
        leave_masks(st, w);
    }
    let ghost mid_st = *st;
    let ghost mid_w = *w;
    if !text::same_text(tab, "Retouch") {
        leave_retouch(st, w);
        assert(left_retouch(mid_st, mid_w, *st, *w));
    }
    Next::Redraw
}

/// A shape of a kind as it is before anything of it is placed.
pub open spec fn blank_shape<N: Copy>(kind: Kind, blank: Blank<N>, shape: Shape<N>) -> bool {
    let o = Point { x: blank.zero, y: blank.zero };
    &&& shape.of() == kind
    &&& match shape {
        Shape::Linear { from, to } => from == o && to == o,
        Shape::Radial { center, radius, angle, feather } => center == o && radius == o && angle
            == blank.zero && feather == blank.feather,
        Shape::Brush { strokes } => strokes@.len() == 0,
        Shape::Sky { picks } => picks@.len() == 0,
        Shape::Object { picks, boxes } => picks@.len() == 0 && boxes@.len() == 0,
        Shape::Luminance { range } => range == blank.luminance,
        Shape::Color { range } => range == blank.color,
        Shape::Subject | Shape::Unknown => true,
    }
}

fn blank_of<N: Copy>(kind: Kind, blank: &Blank<N>) -> (shape: Shape<N>)
    ensures
        blank_shape(kind, *blank, shape),
{
    let o = Point { x: blank.zero, y: blank.zero };
    match kind {
        Kind::Linear => Shape::Linear { from: o, to: o },
        Kind::Radial => Shape::Radial {
            center: o,
            radius: o,
            angle: blank.zero,
            feather: blank.feather,
        },
        Kind::Brush => Shape::Brush { strokes: Vec::new() },
        Kind::Subject => Shape::Subject,
        Kind::Sky => Shape::Sky { picks: Vec::new() },
        Kind::Object => Shape::Object { picks: Vec::new(), boxes: Vec::new() },
        Kind::Luminance => Shape::Luminance { range: blank.luminance },
        Kind::Color => Shape::Color { range: blank.color },
        Kind::Unknown => Shape::Unknown,
    }
}

/// A new adjustment's name: its shape's kind and its number.
pub open spec fn adjustment_text(kind: Kind, id: u64) -> Seq<char> {
    kind.text() + " "@ + text::decimal(id as nat)
}

/// A new adjustment of one shape, on and joined as asked.
pub open spec fn is_new_adjustment<N: Copy, L>(
    a: Adjustment<N, L>,
    id: u64,
    look: Look<L>,
    c: Component<N>,
) -> bool {
    &&& a.id == id
    &&& a.name@ == adjustment_text(c.shape.of(), id)
    &&& a.enabled
    &&& a.look == look
    &&& !a.mask.invert
    &&& a.mask.components@ == seq![c]
}

fn new_adjustment<N: Copy, L>(id: u64, look: Look<L>, c: Component<N>) -> (a: Adjustment<N, L>)
    ensures
        is_new_adjustment(a, id, look, c),
{
    let mut name = c.shape.kind().name().to_owned();
    name.append(" ");
    text::put_decimal(&mut name, id);
    let mut components: Vec<Component<N>> = Vec::new();
    components.push(c);
    assert(components@ =~= seq![c]);
    Adjustment { id, name, enabled: true, mask: Mask { components, invert: false }, look }
}

/// An adjustment put at the end of the edit's.
pub open spec fn adjustment_added<N: Copy, L, G>(
    before: Edit<N, L, G>,
    a: Adjustment<N, L>,
    after: Edit<N, L, G>,
) -> bool {
    &&& after == (Edit { adjustments: after.adjustments, ..before })
    &&& after.adjustments@ == before.adjustments@.push(a)
}

/// A shape put at the end of an adjustment's.
pub open spec fn shape_added<N: Copy, L, G>(
    before: Edit<N, L, G>,
    i: int,
    c: Component<N>,
    after: Edit<N, L, G>,
) -> bool {
    let a = before.adjustments@[i];
    let b = after.adjustments@[i];
    &&& after == (Edit { adjustments: after.adjustments, ..before })
    &&& after.adjustments@ == before.adjustments@.update(i, b)
    &&& b == (Adjustment { mask: Mask { components: b.mask.components, ..a.mask }, ..a })
    &&& b.mask.components@ == a.mask.components@.push(c)
}

/// One shape of an adjustment in place of what it was.
pub open spec fn shape_replaced<N: Copy, L, G>(
    before: Edit<N, L, G>,
    i: int,
    k: int,
    c: Component<N>,
    after: Edit<N, L, G>,
) -> bool {
    let a = before.adjustments@[i];
    let b = after.adjustments@[i];
    &&& after == (Edit { adjustments: after.adjustments, ..before })
    &&& after.adjustments@ == before.adjustments@.update(i, b)
    &&& b == (Adjustment { mask: Mask { components: b.mask.components, ..a.mask }, ..a })
    &&& b.mask.components@ == a.mask.components@.update(k, c)
}

/// One shape of an adjustment taken out.
pub open spec fn shape_removed<N: Copy, L, G>(
    before: Edit<N, L, G>,
    i: int,
    k: int,
    after: Edit<N, L, G>,
) -> bool {
    let a = before.adjustments@[i];
    let b = after.adjustments@[i];
    &&& after == (Edit { adjustments: after.adjustments, ..before })
    &&& after.adjustments@ == before.adjustments@.update(i, b)
    &&& b == (Adjustment { mask: Mask { components: b.mask.components, ..a.mask }, ..a })
    &&& b.mask.components@ == a.mask.components@.remove(k)
}

/// The tool in hand put down: its words go.
pub open spec fn put_down<N, L, G>(
    old_st: Editing<N, L, G>,
    old_w: Window<N, L, G>,
    st: Editing<N, L, G>,
    w: Window<N, L, G>,
) -> bool {
    &&& st == (Editing { placing: None, ..old_st })
    &&& w == (Window { placing: w.placing, status: w.status, ..old_w })
    &&& w.placing@ == ""@
    &&& w.status@ == ""@
}

/// A tool taken in hand for `placing`, its word on the status line.
pub open spec fn taken_up<N: Copy, L, G>(
    old_st: Editing<N, L, G>,
    old_w: Window<N, L, G>,
    placing: Placing<N>,
    kind: Seq<char>,
    into: bool,
    st: Editing<N, L, G>,
    w: Window<N, L, G>,
) -> bool {
    &&& st == (Editing {
        placing: Some(placing),
        show_mask_kept: if old_st.show_mask_kept is None {
            Some(old_w.show_mask)
        } else {
            old_st.show_mask_kept
        },
        ..old_st
    })
    &&& w == (Window {
        show_mask: true,
        placing: w.placing,
        status: w.status,
        placing_into: into,
        shapes_open: old_w.shapes_open || into,
        ..old_w
    })
    &&& w.placing@ == kind
    &&& w.status@ == placing_text(model::kind_named(kind))
}

/// "at most N adjustments".
pub open spec fn most_text(most: usize) -> Seq<char> {
    "at most "@ + text::decimal(most as nat) + " adjustments"@
}

/// The button of a new adjustment of `kind`. The button of the tool in
/// hand puts it down; past `most` adjustments it says so; a shape made
/// at once is made, and any other is taken in hand to be placed. `id`
/// and `look` are what a new adjustment has, `add` how its shape joins.
pub fn add_adjustment<N: Copy, L: Copy, G: Copy>(
    st: &mut Editing<N, L, G>,
    w: &mut Window<N, L, G>,
    kind: &str,
    most: usize,
    id: u64,
    look: Look<L>,
    add: Mode,
) -> (next: Next)
    requires
        edit::countable(old(st).edit, 1),
    ensures
        ({
            let k = model::kind_named(kind@);
            if old(w).placing@ == kind@ && !old(w).placing_into {
                &&& next == Next::Nothing
                &&& put_down(*old(st), *old(w), *final(st), *final(w))
            } else if old(st).edit.adjustments@.len() >= most {
                &&& next == Next::Nothing
                &&& *final(st) == *old(st)
                &&& final(w).status@ == most_text(most)
                &&& *final(w) == (Window { status: final(w).status, ..*old(w) })
            } else if at_once(k) {
                &&& next == Next::Made
                &&& final(st).target == Some(old(st).edit.adjustments@.len() as usize)
                &&& *final(st) == (Editing {
                    edit: final(st).edit,
                    target: final(st).target,
                    placing: None,
                    ..*old(st)
                })
                &&& exists|read: Edit<N, L, G>|
                    {
                        let a = final(st).edit.adjustments@.last();
                        let c = a.mask.components@[0];
                        &&& #[trigger] edit::edit_read(old(st).edit, *old(w), old(st).target, read)
                        &&& adjustment_added(read, a, final(st).edit)
                        &&& is_new_adjustment(a, id, look, c)
                        &&& blank_shape(k, old(w).blank, c.shape)
                        &&& c.mode == add && !c.invert && c.enabled
                    }
                &&& final(w).placing@ == ""@
                &&& edit::shows_edit(
                    final(st).edit,
                    final(st).target,
                    Window {
                        placing: final(w).placing,
                        component: 0,
                        // A range's sliders are the shape: they show.
                        shapes_open: old(w).shapes_open || k.ranges(),
                        ..*old(w)
                    },
                    *final(w),
                )
            } else {
                &&& next == Next::Nothing
                &&& taken_up(
                    *old(st),
                    *old(w),
                    Placing {
                        kind: k,
                        mode: add,
                        from: Point { x: old(w).blank.zero, y: old(w).blank.zero },
                        index: usize::MAX,
                        component: None,
                        fresh: true,
                        boxed: false,
                    },
                    kind@,
                    false,
                    *final(st),
                    *final(w),
                )
            }
        }),
{
    // The button of the tool in hand puts it down.
    if text::same_text(w.placing.as_str(), kind) && !w.placing_into {
        st.placing = None;
        w.placing = "".to_owned();
        w.status = "".to_owned();
        return Next::Nothing;
    }
    if st.edit.adjustments.len() >= most {
        let mut s = "at most ".to_owned();
        text::put_decimal(&mut s, most as u64);
        s.append(" adjustments");
        w.status = s;
        return Next::Nothing;
    }
    let k = Kind::named(kind);
    if made_at_once(kind) {
        edit::read_edit(w, &mut st.edit, st.target);
        let ghost read = st.edit;
        let shape = blank_of(k, &w.blank);
        let c = Component { shape, mode: add, invert: false, enabled: true };
        let a = new_adjustment(id, look, c);
        st.edit.adjustments.push(a);
        st.target = Some(st.edit.adjustments.len() - 1);
        st.placing = None;
        w.placing = "".to_owned();
        w.component = 0;
        match k {
            Kind::Luminance | Kind::Color => {
                w.shapes_open = true;
            },
            _ => {},
        }
        assert(edit::edit_read(old(st).edit, *old(w), old(st).target, read));
        edit::show_edit(&st.edit, w, st.target);
        return Next::Made;
    }
    st.placing = Some(
        Placing {
            kind: k,
            mode: add,
            from: Point { x: w.blank.zero, y: w.blank.zero },
            index: usize::MAX,
            component: None,
            fresh: true,
            boxed: false,
        },
    );
    tool_in_hand(st, w);
    w.placing_into = false;
    w.placing = kind.to_owned();
    w.status = placing_hint(kind).to_owned();
    Next::Nothing
}


/// Whether the chosen shape is of a kind.
pub open spec fn chosen_is<N: Copy, L, G>(
    edit: Edit<N, L, G>,
    index: int,
    chosen: int,
    kind: Kind,
) -> bool {
    &&& index < edit.adjustments@.len()
    &&& chosen < edit.adjustments@[index].mask.components@.len()
    &&& edit.adjustments@[index].mask.components@[chosen].shape.of() == kind
}

fn chosen_kind<N: Copy, L, G>(edit: &Edit<N, L, G>, index: usize, chosen: usize) -> (k: Option<Kind>)
    ensures
        k == if index < edit.adjustments@.len() && chosen
            < edit.adjustments@[index as int].mask.components@.len() {
            Some(edit.adjustments@[index as int].mask.components@[chosen as int].shape.of())
        } else {
            None::<Kind>
        },
{
    if index < edit.adjustments.len() && chosen < edit.adjustments[index].mask.components.len() {
        Some(edit.adjustments[index].mask.components[chosen].shape.kind())
    } else {
        None
    }
}

/// A tool whose shape, chosen in the list, takes more of it: a brush
/// more strokes, an object or a sky more picks.
pub open spec fn takes_more(kind: Kind) -> bool {
    kind is Brush || kind is Object || kind is Sky
}

/// The button of a shape added to the chosen adjustment's mask, joined
/// by `mode`. The button of the tool in hand puts it down; a shape made
/// at once is made, but a sky's button on a chosen sky is its picks;
/// any other shape is taken in hand, to go on with the chosen one where
/// that takes more.
pub fn add_shape<N: Copy, L: Copy, G: Copy>(
    st: &mut Editing<N, L, G>,
    w: &mut Window<N, L, G>,
    kind: &str,
    mode: Mode,
) -> (next: Next)
    requires
        edit::countable(old(st).edit, 1),
    ensures
        ({
            let k = model::kind_named(kind@);
            let chosen = model::row_of(old(w).component);
            match old(st).target {
                None => next == Next::Nothing && *final(st) == *old(st) && *final(w) == *old(w),
                Some(index) => if old(w).placing@ == kind@ && old(w).placing_into {
                    &&& next == Next::Nothing
                    &&& put_down(*old(st), *old(w), *final(st), *final(w))
                } else if at_once(k) && !(k is Sky && chosen_is(
                    old(st).edit,
                    index as int,
                    chosen,
                    Kind::Sky,
                )) {
                    exists|read: Edit<N, L, G>|
                        {
                            &&& #[trigger] edit::edit_read(
                                old(st).edit,
                                *old(w),
                                old(st).target,
                                read,
                            )
                            &&& if index < old(st).edit.adjustments@.len() {
                                let c = final(st).edit.adjustments@[index as int].mask.components@.last();
                                &&& next == Next::Made
                                &&& *final(st) == (Editing {
                                    edit: final(st).edit,
                                    placing: None,
                                    ..*old(st)
                                })
                                &&& shape_added(read, index as int, c, final(st).edit)
                                &&& blank_shape(k, old(w).blank, c.shape)
                                &&& c.mode == mode && !c.invert && c.enabled
                                &&& final(w).placing@ == ""@
                                &&& edit::shows_edit(
                                    final(st).edit,
                                    final(st).target,
                                    Window {
                                        placing: final(w).placing,
                                        component: read.adjustments@[index as int].mask.components@.len() as i32,
                                        shapes_open: true,
                                        ..*old(w)
                                    },
                                    *final(w),
                                )
                            } else {
                                &&& next == Next::Nothing
                                &&& *final(st) == (Editing { edit: read, ..*old(st) })
                                &&& *final(w) == *old(w)
                            }
                        }
                } else {
                    &&& next == Next::Nothing
                    &&& taken_up(
                        *old(st),
                        *old(w),
                        Placing {
                            kind: k,
                            mode,
                            from: Point { x: old(w).blank.zero, y: old(w).blank.zero },
                            index,
                            component: if takes_more(k) && chosen_is(
                                old(st).edit,
                                index as int,
                                chosen,
                                k,
                            ) {
                                Some(chosen as usize)
                            } else {
                                None
                            },
                            fresh: false,
                            boxed: false,
                        },
                        kind@,
                        true,
                        *final(st),
                        *final(w),
                    )
                },
            }
        }),
{
    let index: usize = match st.target {
        Some(i) => i,
        None => {
            return Next::Nothing;
        },
    };
    if text::same_text(w.placing.as_str(), kind) && w.placing_into {
        st.placing = None;
        w.placing = "".to_owned();
        w.status = "".to_owned();
        return Next::Nothing;
    }
    let k = Kind::named(kind);
    let chosen: usize = model::row(w.component);
    let under = chosen_kind(&st.edit, index, chosen);
    let sky_chosen: bool = match (k, under) {
        (Kind::Sky, Some(Kind::Sky)) => true,
        _ => false,
    };
    if made_at_once(kind) && !sky_chosen {
        edit::read_edit(w, &mut st.edit, st.target);
        let ghost read = st.edit;
        assert(edit::edit_read(old(st).edit, *old(w), old(st).target, read));
        if index >= st.edit.adjustments.len() {
            return Next::Nothing;
        }
        let shape = blank_of(k, &w.blank);
        let c = Component { shape, mode, invert: false, enabled: true };
        st.edit.adjustments[index].mask.components.push(c);
        let which: usize = st.edit.adjustments[index].mask.components.len() - 1;
        st.placing = None;
        w.placing = "".to_owned();
        w.shapes_open = true;
        w.component = which as i32;
        assert(shape_added(read, index as int, c, st.edit));
        edit::show_edit(&st.edit, w, st.target);
        return Next::Made;
    }
    // A brush chosen in the list takes more strokes rather than a new
    // brush beside it; an object or a sky more picks.
    let component: Option<usize> = match (k, under) {
        (Kind::Brush, Some(Kind::Brush)) => Some(chosen),
        (Kind::Object, Some(Kind::Object)) => Some(chosen),
        (Kind::Sky, Some(Kind::Sky)) => Some(chosen),
        _ => None,
    };
    st.placing = Some(
        Placing {
            kind: k,
            mode,
            from: Point { x: w.blank.zero, y: w.blank.zero },
            index,
            component,
            fresh: false,
            boxed: false,
        },
    );
    tool_in_hand(st, w);
    w.placing_into = true;
    w.shapes_open = true;
    w.placing = kind.to_owned();
    w.status = placing_hint(kind).to_owned();
    Next::Nothing
}


/// Escape, or the button of the tool in hand: whatever is in hand is
/// put down, its words with it. The defringe's dropper had the pass
/// switched off so it could see the fringes; putting it down puts it
/// back.
pub fn stop_placing<N, L, G>(st: &mut Editing<N, L, G>, w: &mut Window<N, L, G>) -> (next: Next)
    ensures
        *final(st) == (Editing { placing: None, retouching: None, picking: false, ..*old(st) }),
        *final(w) == (Window {
            placing: final(w).placing,
            retouch_mode: final(w).retouch_mode,
            picking: final(w).picking,
            status: final(w).status,
            ..*old(w)
        }),
        final(w).placing@ == if old(st).placing is Some { ""@ } else { old(w).placing@ },
        final(w).retouch_mode@ == if old(st).retouching is Some {
            ""@
        } else {
            old(w).retouch_mode@
        },
        final(w).picking@ == ""@,
        final(w).status@ == if old(st).placing is Some || old(st).retouching is Some || old(w).picking@ != ""@ {
            ""@
        } else {
            old(w).status@
        },
        next == if old(w).picking@ == "Defringe"@ {
            Next::DevelopChanged
        } else {
            Next::Nothing
        },
{
    proof {
        reveal_strlit("");
    }
    if st.placing.is_some() {
        st.placing = None;
        w.placing = "".to_owned();
        w.status = "".to_owned();
    }
    if st.retouching.is_some() {
        st.retouching = None;
        w.retouch_mode = "".to_owned();
        w.status = "".to_owned();
    }
    st.picking = false;
    let was_defringe: bool = text::same_text(w.picking.as_str(), "Defringe");
    if !w.picking.as_str().is_empty() {
        w.picking = "".to_owned();
        w.status = "".to_owned();
    }
    assert(w.picking@ =~= ""@);
    if was_defringe {
        Next::DevelopChanged
    } else {
        Next::Nothing
    }
}

// The lists.

/// A shape taken out of the target's mask, the one before it chosen.
pub fn delete_shape_at<N: Copy, L: Copy, G: Copy>(
    st: &mut Editing<N, L, G>,
    w: &mut Window<N, L, G>,
    c: i32,
) -> (next: Next)
    requires
        edit::countable(old(st).edit, 0),
    ensures
        old(st).target is None ==> next == Next::Nothing && *final(st) == *old(st) && *final(w)
            == *old(w),
        old(st).target matches Some(i) ==> {
            &&& next == Next::ViewChanged
            &&& *final(st) == (Editing { edit: final(st).edit, ..*old(st) })
            &&& exists|read: Edit<N, L, G>|
                {
                    &&& #[trigger] edit::edit_read(old(st).edit, *old(w), old(st).target, read)
                    &&& if i < read.adjustments@.len() && model::row_of(c)
                        < read.adjustments@[i as int].mask.components@.len() {
                        shape_removed(read, i as int, model::row_of(c), final(st).edit)
                    } else {
                        final(st).edit == read
                    }
                }
            &&& edit::shows_edit(
                final(st).edit,
                old(st).target,
                Window { component: if c <= 0 { 0 } else { (c - 1) as i32 }, ..*old(w) },
                *final(w),
            )
        },
{
    let i: usize = match st.target {
        Some(i) => i,
        None => {
            return Next::Nothing;
        },
    };
    edit::read_edit(w, &mut st.edit, st.target);
    let ghost read = st.edit;
    assert(edit::edit_read(old(st).edit, *old(w), old(st).target, read));
    let k: usize = model::row(c);
    if i < st.edit.adjustments.len() && k < st.edit.adjustments[i].mask.components.len() {
        let _gone = st.edit.adjustments[i].mask.components.remove(k);
        assert(shape_removed(read, i as int, k as int, st.edit));
    }
    w.component = if c <= 0 { 0 } else { c - 1 };
    edit::show_edit(&st.edit, w, st.target);
    Next::ViewChanged
}

/// A shape of the target's mask switched on or off.
pub fn shape_toggled<N: Copy, L: Copy, G: Copy>(
    st: &mut Editing<N, L, G>,
    w: &mut Window<N, L, G>,
    c: i32,
) -> (next: Next)
    requires
        edit::countable(old(st).edit, 0),
    ensures
        old(st).target is None ==> next == Next::Nothing && *final(st) == *old(st) && *final(w)
            == *old(w),
        old(st).target matches Some(i) ==> {
            &&& next == Next::ViewChanged
            &&& *final(st) == (Editing { edit: final(st).edit, ..*old(st) })
            &&& exists|read: Edit<N, L, G>|
                {
                    let k = model::row_of(c);
                    &&& #[trigger] edit::edit_read(old(st).edit, *old(w), old(st).target, read)
                    &&& if i < read.adjustments@.len() && k
                        < read.adjustments@[i as int].mask.components@.len() {
                        let was = read.adjustments@[i as int].mask.components@[k];
                        shape_replaced(
                            read,
                            i as int,
                            k,
                            Component { enabled: !was.enabled, ..was },
                            final(st).edit,
                        )
                    } else {
                        final(st).edit == read
                    }
                }
            &&& edit::shows_edit(final(st).edit, old(st).target, *old(w), *final(w))
        },
{
    let i: usize = match st.target {
        Some(i) => i,
        None => {
            return Next::Nothing;
        },
    };
    edit::read_edit(w, &mut st.edit, st.target);
    let ghost read = st.edit;
    assert(edit::edit_read(old(st).edit, *old(w), old(st).target, read));
    let k: usize = model::row(c);
    if i < st.edit.adjustments.len() && k < st.edit.adjustments[i].mask.components.len() {
        let on: bool = st.edit.adjustments[i].mask.components[k].enabled;
        st.edit.adjustments[i].mask.components[k].enabled = !on;
    }
    edit::show_edit(&st.edit, w, st.target);
    Next::ViewChanged
}

/// An adjustment switched on or off.
pub fn adjustment_toggled<N: Copy, L: Copy, G: Copy>(
    st: &mut Editing<N, L, G>,
    w: &mut Window<N, L, G>,
    i: i32,
) -> (next: Next)
    requires
        edit::countable(old(st).edit, 0),
    ensures
        next == Next::ViewChanged,
        *final(st) == (Editing { edit: final(st).edit, ..*old(st) }),
        exists|read: Edit<N, L, G>|
            {
                let k = model::row_of(i);
                &&& #[trigger] edit::edit_read(old(st).edit, *old(w), old(st).target, read)
                &&& if k < read.adjustments@.len() {
                    let was = read.adjustments@[k];
                    &&& final(st).edit == (Edit { adjustments: final(st).edit.adjustments, ..read })
                    &&& final(st).edit.adjustments@ == read.adjustments@.update(
                        k,
                        Adjustment { enabled: !was.enabled, ..was },
                    )
                } else {
                    final(st).edit == read
                }
            },
        edit::shows_edit(final(st).edit, old(st).target, *old(w), *final(w)),
{
    edit::read_edit(w, &mut st.edit, st.target);
    let ghost read = st.edit;
    assert(edit::edit_read(old(st).edit, *old(w), old(st).target, read));
    let k: usize = model::row(i);
    if k < st.edit.adjustments.len() {
        let on: bool = st.edit.adjustments[k].enabled;
        st.edit.adjustments[k].enabled = !on;
    }
    edit::show_edit(&st.edit, w, st.target);
    Next::ViewChanged
}

/// Another shape of the target's chosen: the old one keeps its controls
/// first, and the new one's go on the panel.
pub fn component_changed<N: Copy, L: Copy, G: Copy>(
    st: &mut Editing<N, L, G>,
    w: &mut Window<N, L, G>,
    c: i32,
) -> (next: Next)
    requires
        edit::countable(old(st).edit, 0),
    ensures
        next == Next::Nothing,
        *final(st) == (Editing { edit: final(st).edit, ..*old(st) }),
        edit::edit_read(old(st).edit, *old(w), old(st).target, final(st).edit),
        match edit::valid_target(final(st).edit, old(st).target) {
            Some(i) => shows_component(
                final(st).edit.adjustments@[i as int].mask,
                Window { component: c, ..*old(w) },
                *final(w),
            ),
            None => *final(w) == (Window { component: c, ..*old(w) }),
        },
{
    edit::read_edit(w, &mut st.edit, st.target);
    w.component = c;
    if let Some(i) = st.target {
        if i < st.edit.adjustments.len() {
            show_component(&st.edit.adjustments[i].mask, w);
        }
    }
    Next::Nothing
}

/// A name typed for the target: the list and the heading follow it.
/// The edit itself takes it when the panel is next read.
pub fn renamed<N: Copy, L: Copy, G: Copy>(
    st: &Editing<N, L, G>,
    w: &mut Window<N, L, G>,
) -> (next: Next)
    ensures
        next == Next::ViewChanged,
        *final(w) == (Window {
            adjustment_names: final(w).adjustment_names,
            target_name: final(w).target_name,
            ..*old(w)
        }),
        ({
            let typed = text::trimmed(old(w).adjustment_name@);
            match edit::valid_target(st.edit, st.target) {
                Some(i) => {
                    let name = if typed.len() == 0 {
                        st.edit.adjustments@[i as int].name@
                    } else {
                        typed
                    };
                    &&& final(w).target_name@ == name
                    &&& text::texts(final(w).adjustment_names@) == edit::name_texts(st.edit).update(
                        i + 1,
                        name,
                    )
                },
                None => {
                    &&& final(w).target_name == old(w).target_name
                    &&& text::texts(final(w).adjustment_names@) == edit::name_texts(st.edit)
                },
            }
        }),
{
    edit::show_names(&st.edit, w);
    if let Some(i) = st.target {
        if i < st.edit.adjustments.len() {
            let typed = text::trim_text(w.adjustment_name.as_str());
            let name = if typed.as_str().is_empty() {
                st.edit.adjustments[i].name.clone()
            } else {
                typed
            };
            let ghost names = w.adjustment_names@;
            assert(text::texts(names).len() == edit::name_texts(st.edit).len());
            w.adjustment_names.set(i + 1, name.clone());
            assert(text::texts(w.adjustment_names@) =~= text::texts(names).update(i + 1, name@));
            w.target_name = name;
        }
    }
    Next::ViewChanged
}

/// The target taken out of the edit; the picture takes the panel.
pub fn delete_adjustment<N: Copy, L: Copy, G: Copy>(
    st: &mut Editing<N, L, G>,
    w: &mut Window<N, L, G>,
) -> (next: Next)
    requires
        edit::countable(old(st).edit, 0),
    ensures
        old(st).target is None ==> next == Next::Nothing && *final(st) == *old(st) && *final(w)
            == *old(w),
        old(st).target matches Some(i) ==> {
            &&& next == Next::ViewChanged
            &&& *final(st) == (Editing { edit: final(st).edit, target: None, ..*old(st) })
            &&& exists|read: Edit<N, L, G>|
                {
                    &&& #[trigger] edit::edit_read(old(st).edit, *old(w), old(st).target, read)
                    &&& if i < read.adjustments@.len() {
                        &&& final(st).edit == (Edit {
                            adjustments: final(st).edit.adjustments,
                            ..read
                        })
                        &&& final(st).edit.adjustments@ == read.adjustments@.remove(i as int)
                    } else {
                        final(st).edit == read
                    }
                }
            &&& edit::shows_edit(final(st).edit, None, *old(w), *final(w))
        },
{
    let i: usize = match st.target {
        Some(i) => i,
        None => {
            return Next::Nothing;
        },
    };
    edit::read_edit(w, &mut st.edit, st.target);
    let ghost read = st.edit;
    assert(edit::edit_read(old(st).edit, *old(w), old(st).target, read));
    if i < st.edit.adjustments.len() {
        let _gone = st.edit.adjustments.remove(i);
        assert(edit::countable(st.edit, 0)) by {
            assert forall|k: int| 0 <= k < st.edit.adjustments@.len() implies (
            #[trigger] st.edit.adjustments@[k]).mask.components@.len() < i32::MAX by {
                let from = if k < i { k } else { k + 1 };
                assert(st.edit.adjustments@[k] == read.adjustments@[from]);
                assert(read.adjustments@[from].mask.components@.len() == old(st).edit.adjustments@[from].mask.components@.len());
            }
        }
    }
    st.target = None;
    edit::show_edit(&st.edit, w, None);
    Next::ViewChanged
}


// On the picture.

/// A brush within what one can be.
pub open spec fn brush_held(b: Brush) -> Brush {
    Brush {
        op: b.op,
        size: level::held(b.size, level::LEAST_SIZE, level::MOST_BRUSH),
        feather: level::held(b.feather, level::ZERO, level::ONE),
        flow: level::held(b.flow, level::ZERO, level::ONE),
    }
}

/// A stroke of one point.
pub open spec fn starts_at<N: Copy>(s: Stroke<N>, brush: Brush, at: Point<N>) -> bool {
    s.brush == brush_held(brush) && s.points@ == seq![at]
}

/// A stroke starting at `at`, as the panel has the brush.
pub fn stroke_from<N: Copy>(brush: Brush, at: Point<N>) -> (s: Stroke<N>)
    ensures
        starts_at(s, brush, at),
{
    let mut points: Vec<Point<N>> = Vec::new();
    points.push(at);
    assert(points@ =~= seq![at]);
    let brush = Brush {
        op: brush.op,
        size: level::hold(brush.size, level::LEAST_SIZE, level::MOST_BRUSH),
        feather: level::hold(brush.feather, level::ZERO, level::ONE),
        flow: level::hold(brush.flow, level::ZERO, level::ONE),
    };
    Stroke { brush, points }
}

/// A shape that takes more with one more of it: a stroke of the brush,
/// a pick on an object or a sky. Any other shape is as it was.
pub open spec fn more_of<N: Copy>(
    before: Shape<N>,
    at: Point<N>,
    right: bool,
    brush: Brush,
    after: Shape<N>,
) -> bool {
    match (before, after) {
        (Shape::Brush { strokes: s }, Shape::Brush { strokes: t }) => {
            &&& t@ == s@.push(t@.last())
            &&& starts_at(t@.last(), brush, at)
        },
        (Shape::Sky { picks: s }, Shape::Sky { picks: t }) => t@ == s@.push(
            Pick { pos: at, positive: !right },
        ),
        (Shape::Object { picks: s, boxes: a }, Shape::Object { picks: t, boxes: b }) => {
            &&& t@ == s@.push(Pick { pos: at, positive: !right })
            &&& b == a
        },
        _ => !takes_more(before.of()) && after == before,
    }
}

fn add_more<N: Copy>(shape: &mut Shape<N>, at: Point<N>, right: bool, brush: Brush)
    ensures
        more_of(*old(shape), at, right, brush, *final(shape)),
{
    match shape {
        Shape::Brush { strokes } => {
            strokes.push(stroke_from(brush, at));
        },
        Shape::Sky { picks } => {
            picks.push(Pick { pos: at, positive: !right });
        },
        Shape::Object { picks, .. } => {
            picks.push(Pick { pos: at, positive: !right });
        },
        _ => {},
    }
}

/// A shape as a press at `at` makes it: its start there, its first
/// stroke or its first pick; one the picture has no part in, blank.
pub open spec fn pressed_shape<N: Copy>(
    kind: Kind,
    at: Point<N>,
    right: bool,
    brush: Brush,
    blank: Blank<N>,
    shape: Shape<N>,
) -> bool {
    &&& shape.of() == kind
    &&& match shape {
        Shape::Linear { from, to } => from == at && to == at,
        Shape::Radial { center, radius, angle, feather } => {
            &&& center == at
            &&& radius == (Point { x: blank.zero, y: blank.zero })
            &&& angle == blank.zero
            &&& feather == blank.feather
        },
        Shape::Brush { strokes } => strokes@.len() == 1 && starts_at(strokes@[0], brush, at),
        Shape::Object { picks, boxes } => {
            &&& picks@ == seq![Pick { pos: at, positive: !right }]
            &&& boxes@.len() == 0
        },
        _ => blank_shape(kind, blank, shape),
    }
}

fn press_shape<N: Copy>(
    kind: Kind,
    at: Point<N>,
    right: bool,
    brush: Brush,
    blank: &Blank<N>,
) -> (shape: Shape<N>)
    ensures
        pressed_shape(kind, at, right, brush, *blank, shape),
{
    match kind {
        Kind::Linear => Shape::Linear { from: at, to: at },
        Kind::Radial => Shape::Radial {
            center: at,
            radius: Point { x: blank.zero, y: blank.zero },
            angle: blank.zero,
            feather: blank.feather,
        },
        Kind::Brush => {
            let mut strokes: Vec<Stroke<N>> = Vec::new();
            strokes.push(stroke_from(brush, at));
            Shape::Brush { strokes }
        },
        Kind::Object => {
            let mut picks: Vec<Pick<N>> = Vec::new();
            picks.push(Pick { pos: at, positive: !right });
            assert(picks@ =~= seq![Pick { pos: at, positive: !right }]);
            Shape::Object { picks, boxes: Vec::new() }
        },
        _ => blank_of(kind, blank),
    }
}

/// A press on the picture: where, with which button, and what a thing
/// begun there is made of.
#[derive(Debug, Clone, Copy)]
pub struct Press<N, L> {
    pub at: Point<N>,
    pub right: bool,
    pub brush: Brush,
    /// What a new adjustment has.
    pub id: u64,
    pub look: Look<L>,
    /// What a new repair has.
    pub patch_id: u64,
}

/// A repair begun: a spot here, a stroke if the pointer travels.
pub open spec fn repair_begun<N: Copy, L, G>(
    old_st: Editing<N, L, G>,
    old_w: Window<N, L, G>,
    press: Press<N, L>,
    st: Editing<N, L, G>,
    w: Window<N, L, G>,
) -> bool {
    let n = old_st.edit.patches@.len();
    let p = st.edit.patches@.last();
    &&& st == (Editing {
        edit: Edit { patches: st.edit.patches, ..old_st.edit },
        patch_stroke: Some(n as usize),
        ..old_st
    })
    &&& st.edit.patches@ == old_st.edit.patches@.push(p)
    &&& p.id == press.patch_id
    &&& Some(p.method) == old_st.retouching
    &&& p.points@ == seq![press.at]
    &&& p.radius == retouch::size_held(old_w.patch_size)
    &&& p.feather == retouch::part_held(old_w.patch_feather)
    &&& p.opacity == retouch::part_held(old_w.patch_opacity)
    &&& p.source is None
    &&& text::texts(w.patch_names@) == retouch::patch_texts(st.edit.patches@)
    &&& w == (Window {
        patch_names: w.patch_names,
        patch: n as i32,
        patch_size: p.radius,
        patch_feather: p.feather,
        patch_opacity: p.opacity,
        ..old_w
    })
}

fn begin_repair<N: Copy, L: Copy, G: Copy>(
    st: &mut Editing<N, L, G>,
    w: &mut Window<N, L, G>,
    method: Method,
    press: &Press<N, L>,
)
    requires
        edit::countable(old(st).edit, 1),
        old(st).retouching == Some(method),
    ensures
        repair_begun(*old(st), *old(w), *press, *final(st), *final(w)),
{
    let mut points: Vec<Point<N>> = Vec::new();
    points.push(press.at);
    assert(points@ =~= seq![press.at]);
    let patch = Patch {
        id: press.patch_id,
        method,
        points,
        radius: retouch::hold_size(w.patch_size),
        feather: retouch::hold_part(w.patch_feather),
        opacity: retouch::hold_part(w.patch_opacity),
        source: None,
    };
    let i: usize = st.edit.patches.len();
    st.edit.patches.push(patch);
    st.patch_stroke = Some(i);
    w.patch = i as i32;
    retouch::show_patches(&st.edit, w);
}

/// More of a shape already placed.
pub open spec fn more_placed<N: Copy, L, G>(
    old_st: Editing<N, L, G>,
    read: Edit<N, L, G>,
    placing: Placing<N>,
    press: Press<N, L>,
    st: Editing<N, L, G>,
) -> bool {
    let (i, k) = (placing.index as int, placing.component->0 as int);
    let was = read.adjustments@[i].mask.components@[k];
    let c = st.edit.adjustments@[i].mask.components@[k];
    &&& more_of(was.shape, press.at, press.right, press.brush, c.shape)
    &&& shape_replaced(read, i, k, Component { shape: c.shape, ..was }, st.edit)
    &&& st == (Editing {
        edit: st.edit,
        placing: Some(Placing { from: press.at, boxed: false, ..placing }),
        ..old_st
    })
}

/// A shape placed anew: as an adjustment of its own, or in the one the
/// tool adds to.
pub open spec fn shape_placed<N: Copy, L, G>(
    old_st: Editing<N, L, G>,
    blank: Blank<N>,
    read: Edit<N, L, G>,
    placing: Placing<N>,
    press: Press<N, L>,
    c: Component<N>,
    st: Editing<N, L, G>,
) -> bool {
    let n = read.adjustments@.len();
    &&& pressed_shape(placing.kind, press.at, press.right, press.brush, blank, c.shape)
    &&& c.mode == placing.mode && !c.invert && c.enabled
    &&& if placing.fresh {
        let a = st.edit.adjustments@.last();
        &&& adjustment_added(read, a, st.edit)
        &&& is_new_adjustment(a, press.id, press.look, c)
        &&& st == (Editing {
            edit: st.edit,
            target: Some(n as usize),
            placing: Some(
                Placing {
                    index: n as usize,
                    component: Some(0),
                    from: press.at,
                    boxed: false,
                    ..placing
                },
            ),
            ..old_st
        })
    } else {
        let i = placing.index as int;
        &&& shape_added(read, i, c, st.edit)
        &&& st == (Editing {
            edit: st.edit,
            placing: Some(
                Placing {
                    component: Some(read.adjustments@[i].mask.components@.len() as usize),
                    from: press.at,
                    boxed: false,
                    ..placing
                },
            ),
            ..old_st
        })
    }
}

/// Where more of a shape goes, when that shape is still there.
pub open spec fn placed_on<N: Copy, L, G>(read: Edit<N, L, G>, placing: Placing<N>) -> bool {
    &&& placing.component is Some
    &&& placing.index < read.adjustments@.len()
    &&& placing.component->0 < read.adjustments@[placing.index as int].mask.components@.len()
}

fn place_more<N: Copy, L: Copy, G: Copy>(
    st: &mut Editing<N, L, G>,
    placing: Placing<N>,
    k: usize,
    press: &Press<N, L>,
)
    requires
        placed_on(old(st).edit, placing),
        placing.component == Some(k),
    ensures
        more_placed(*old(st), old(st).edit, placing, *press, *final(st)),
{
    add_more(
        &mut st.edit.adjustments[placing.index].mask.components[k].shape,
        press.at,
        press.right,
        press.brush,
    );
    st.placing = Some(Placing { from: press.at, boxed: false, ..placing });
}

fn place_new<N: Copy, L: Copy, G: Copy>(
    st: &mut Editing<N, L, G>,
    blank: &Blank<N>,
    placing: Placing<N>,
    press: &Press<N, L>,
) -> (which: usize)
    requires
        edit::countable(old(st).edit, 1),
        placing.fresh || placing.index < old(st).edit.adjustments@.len(),
    ensures
        exists|c: Component<N>| #[trigger]
            shape_placed(*old(st), *blank, old(st).edit, placing, *press, c, *final(st)),
        final(st).placing->0.component == Some(which),
        which < i32::MAX,
        edit::countable(final(st).edit, 0),
{
    let shape = press_shape(placing.kind, press.at, press.right, press.brush, blank);
    let c = Component { shape, mode: placing.mode, invert: false, enabled: true };
    let ghost placed = c;
    let mut now = Placing { from: press.at, boxed: false, ..placing };
    let which: usize;
    if placing.fresh {
        now.index = st.edit.adjustments.len();
        which = 0;
        let a = new_adjustment(press.id, press.look, c);
        st.edit.adjustments.push(a);
        st.target = Some(now.index);
    } else {
        which = st.edit.adjustments[placing.index].mask.components.len();
        st.edit.adjustments[placing.index].mask.components.push(c);
        assert(shape_added(old(st).edit, placing.index as int, placed, st.edit));
    }
    now.component = Some(which);
    st.placing = Some(now);
    assert(shape_placed(*old(st), *blank, old(st).edit, placing, *press, placed, *st));
    which
}

/// A press with a shape's tool in hand: more of the shape it placed
/// before, or a shape placed, once the panel's look has gone to its target.
pub open spec fn press_places<N: Copy, L, G>(
    old_st: Editing<N, L, G>,
    old_w: Window<N, L, G>,
    press: Press<N, L>,
    st: Editing<N, L, G>,
    w: Window<N, L, G>,
    next: Next,
) -> bool {
    exists|read: Edit<N, L, G>|
        {
            let placing = old_st.placing->0;
            &&& #[trigger] edit::edit_read(old_st.edit, old_w, old_st.target, read)
            &&& if placed_on(read, placing) {
                &&& next == Next::Redraw
                &&& more_placed(old_st, read, placing, press, st)
                &&& w == old_w
            } else if !placing.fresh && placing.index >= read.adjustments@.len() {
                // The adjustment it added to has gone.
                &&& next == Next::Nothing
                &&& st == (Editing { edit: read, placing: None, ..old_st })
                &&& w == (Window { placing: w.placing, ..old_w })
                &&& w.placing@ == ""@
            } else {
                &&& next == Next::Redraw
                &&& exists|c: Component<N>| #[trigger]
                    shape_placed(old_st, old_w.blank, read, placing, press, c, st)
                &&& edit::shows_edit(
                    st.edit,
                    st.target,
                    Window { component: st.placing->0.component->0 as i32, ..old_w },
                    w,
                )
            }
        }
}

/// A press on the picture with a tool in hand: a repair begun, more of
/// the shape the tool placed before, or a shape placed.
pub fn place_pressed<N: Copy, L: Copy, G: Copy>(
    st: &mut Editing<N, L, G>,
    w: &mut Window<N, L, G>,
    press: &Press<N, L>,
) -> (next: Next)
    requires
        edit::countable(old(st).edit, 1),
    ensures
        old(st).retouching is Some ==> next == Next::Redraw && repair_begun(
            *old(st),
            *old(w),
            *press,
            *final(st),
            *final(w),
        ),
        old(st).retouching is None && old(st).placing is None ==> next == Next::Nothing && *final(st) == *old(st) && *final(w) == *old(w),
        old(st).retouching is None && old(st).placing is Some ==> press_places(
            *old(st),
            *old(w),
            *press,
            *final(st),
            *final(w),
            next,
        ),
{
    if let Some(method) = st.retouching {
        begin_repair(st, w, method, press);
        return Next::Redraw;
    }
    let placing: Placing<N> = match st.placing {
        Some(p) => p,
        None => {
            return Next::Nothing;
        },
    };
    // The panel's look goes to its target before the new one takes the
    // panel.
    edit::read_edit(w, &mut st.edit, st.target);
    let ghost read = st.edit;
    assert(edit::edit_read(old(st).edit, *old(w), old(st).target, read));
    assert(edit::countable(read, 1));
    let ghost mid = *st;
    if let Some(k) = placing.component {
        if placing.index < st.edit.adjustments.len() && k
            < st.edit.adjustments[placing.index].mask.components.len() {
            place_more(st, placing, k, press);
            assert(more_placed(*old(st), read, placing, *press, *st));
            return Next::Redraw;
        }
    }
    assert(!placed_on(read, placing));
    if !placing.fresh && placing.index >= st.edit.adjustments.len() {
        st.placing = None;
        w.placing = "".to_owned();
        return Next::Nothing;
    }
    let which: usize = place_new(st, &w.blank, placing, press);
    proof {
        let c = choose|c: Component<N>| #[trigger]
            shape_placed(mid, old(w).blank, read, placing, *press, c, *st);
        assert(shape_placed(*old(st), old(w).blank, read, placing, *press, c, *st));
    }
    w.component = which as i32;
    edit::show_edit(&st.edit, w, st.target);
    Next::Redraw
}


/// How far the pointer has come.
#[derive(Debug, Clone, Copy)]
pub struct Travel<N> {
    pub at: Point<N>,
    /// A texel and more from the stroke's last point.
    pub step: bool,
    /// Four texels and more from the repair's last point.
    pub patch_step: bool,
    /// Farther from the press than a shape's least radius.
    pub far: bool,
    /// A radial's two radii from the press to here.
    pub radius: Point<N>,
}

/// A shape as the pointer's travel leaves it: a linear's end and a
/// radial's radii follow, a brush takes a point once the pointer has
/// moved a texel, and a press on an object that travels is a box, not a
/// pick.
pub open spec fn shape_dragged<N: Copy>(
    before: Shape<N>,
    from: Point<N>,
    boxed: bool,
    travel: Travel<N>,
    after: Shape<N>,
) -> bool {
    match (before, after) {
        (Shape::Linear { from: f, .. }, Shape::Linear { from: g, to }) => g == f && to == travel.at,
        (
            Shape::Radial { center, angle, feather, .. },
            Shape::Radial { center: c, radius, angle: a, feather: e },
        ) => c == center && a == angle && e == feather && radius == travel.radius,
        (Shape::Brush { strokes: s }, Shape::Brush { strokes: t }) => if s@.len() > 0 && (
        s@.last().points@.len() == 0 || travel.step) {
            let was = s@.last();
            let now = t@.last();
            &&& t@ == s@.update(s@.len() - 1, now)
            &&& now == (Stroke { points: now.points, ..was })
            &&& now.points@ == was.points@.push(travel.at)
        } else {
            after == before
        },
        (Shape::Object { picks: s, boxes: a }, Shape::Object { picks: t, boxes: b }) => if boxed {
            &&& t == s
            &&& if a@.len() > 0 {
                b@ == a@.update(a@.len() - 1, (a@.last().0, travel.at))
            } else {
                b == a
            }
        } else if travel.far {
            &&& t@ == if s@.len() > 0 { s@.drop_last() } else { s@ }
            &&& b@ == a@.push((from, travel.at))
        } else {
            after == before
        },
        _ => {
            &&& !(before is Linear || before is Radial || before is Brush || before is Object)
            &&& after == before
        },
    }
}

/// Whether an object's press is a box after the travel.
pub open spec fn boxed_after<N: Copy>(before: Shape<N>, boxed: bool, travel: Travel<N>) -> bool {
    boxed || (before is Object && travel.far)
}

fn drag_shape<N: Copy>(
    shape: &mut Shape<N>,
    from: Point<N>,
    boxed: bool,
    travel: &Travel<N>,
) -> (now_boxed: bool)
    ensures
        shape_dragged(*old(shape), from, boxed, *travel, *final(shape)),
        now_boxed == boxed_after(*old(shape), boxed, *travel),
{
    match shape {
        Shape::Linear { to, .. } => {
            *to = travel.at;
            boxed
        },
        Shape::Radial { radius, .. } => {
            *radius = travel.radius;
            boxed
        },
        Shape::Brush { strokes } => {
            let n: usize = strokes.len();
            if n > 0 && (strokes[n - 1].points.len() == 0 || travel.step) {
                strokes[n - 1].points.push(travel.at);
            }
            boxed
        },
        Shape::Object { picks, boxes } => {
            if boxed {
                let n: usize = boxes.len();
                if n > 0 {
                    let first = boxes[n - 1].0;
                    boxes.set(n - 1, (first, travel.at));
                }
                true
            } else if travel.far {
                let _gone = picks.pop();
                boxes.push((from, travel.at));
                true
            } else {
                false
            }
        },
        _ => boxed,
    }
}

/// The shape in hand follows the pointer, and all else stays.
pub open spec fn drag_follows<N: Copy, L, G>(
    old_st: Editing<N, L, G>,
    travel: Travel<N>,
    st: Editing<N, L, G>,
) -> bool {
    let placing = old_st.placing->0;
    let (i, k) = (placing.index as int, placing.component->0 as int);
    let was = old_st.edit.adjustments@[i].mask.components@[k];
    let c = st.edit.adjustments@[i].mask.components@[k];
    &&& shape_dragged(was.shape, placing.from, placing.boxed, travel, c.shape)
    &&& shape_replaced(old_st.edit, i, k, Component { shape: c.shape, ..was }, st.edit)
    &&& st == (Editing {
        edit: st.edit,
        placing: Some(
            Placing { boxed: boxed_after(was.shape, placing.boxed, travel), ..placing },
        ),
        ..old_st
    })
}

/// The pointer dragged with the button down: the repair or the shape
/// being drawn follows it.
pub fn place_dragged<N: Copy, L: Copy, G: Copy>(
    st: &mut Editing<N, L, G>,
    travel: &Travel<N>,
) -> (next: Next)
    ensures
        old(st).patch_stroke matches Some(i) ==> {
            let was = old(st).edit.patches@[i as int];
            let now = final(st).edit.patches@[i as int];
            &&& next == Next::Redraw
            &&& if i < old(st).edit.patches@.len() && (was.points@.len() == 0
                || travel.patch_step) {
                &&& *final(st) == (Editing {
                    edit: Edit { patches: final(st).edit.patches, ..old(st).edit },
                    ..*old(st)
                })
                &&& final(st).edit.patches@ == old(st).edit.patches@.update(i as int, now)
                &&& now == (Patch { points: now.points, ..was })
                &&& now.points@ == was.points@.push(travel.at)
            } else {
                *final(st) == *old(st)
            }
        },
        old(st).patch_stroke is None && !(old(st).placing is Some && placed_on(
            old(st).edit,
            old(st).placing->0,
        )) ==> next == Next::Nothing && *final(st) == *old(st),
        old(st).patch_stroke is None && old(st).placing is Some && placed_on(
            old(st).edit,
            old(st).placing->0,
        ) ==> next == Next::Redraw && drag_follows(*old(st), *travel, *final(st)),
{
    if let Some(i) = st.patch_stroke {
        if i < st.edit.patches.len() && (st.edit.patches[i].points.len() == 0
            || travel.patch_step) {
            st.edit.patches[i].points.push(travel.at);
        }
        return Next::Redraw;
    }
    if let Some(placing) = st.placing {
        if let Some(k) = placing.component {
            if placing.index < st.edit.adjustments.len() && k
                < st.edit.adjustments[placing.index].mask.components.len() {
                let boxed: bool = drag_shape(
                    &mut st.edit.adjustments[placing.index].mask.components[k].shape,
                    placing.from,
                    placing.boxed,
                    travel,
                );
                st.placing = Some(Placing { boxed, ..placing });
                return Next::Redraw;
            }
        }
    }
    Next::Nothing
}

/// Whether the shape the tool placed was drawn: a linear or a radial
/// that came to something, and any other shape that is there.
pub open spec fn was_drawn<N: Copy, L, G>(
    edit: Edit<N, L, G>,
    placing: Placing<N>,
    long_enough: bool,
) -> bool {
    &&& placed_on(edit, placing)
    &&& {
        let shape =
            edit.adjustments@[placing.index as int].mask.components@[placing.component->0 as int].shape;
        (shape is Linear || shape is Radial) ==> long_enough
    }
}

/// A press without a drag made nothing, and what it made goes.
pub open spec fn nothing_placed<N: Copy, L, G>(
    old_st: Editing<N, L, G>,
    old_w: Window<N, L, G>,
    placing: Placing<N>,
    st: Editing<N, L, G>,
    w: Window<N, L, G>,
) -> bool {
    let i = placing.index as int;
    let k = placing.component->0 as int;
    let n = old_st.edit.adjustments@.len();
    &&& st == (Editing {
        edit: st.edit,
        placing: None,
        target: if placing.fresh && i < n { None } else { old_st.target },
        ..old_st
    })
    &&& if placing.fresh && i < n {
        &&& st.edit == (Edit { adjustments: st.edit.adjustments, ..old_st.edit })
        &&& st.edit.adjustments@ == old_st.edit.adjustments@.remove(i)
    } else if placed_on(old_st.edit, placing) {
        shape_removed(old_st.edit, i, k, st.edit)
    } else {
        st.edit == old_st.edit
    }
    &&& w.placing@ == ""@
    &&& if (placing.fresh && i < n) || placed_on(old_st.edit, placing) {
        &&& w.status@ == "nothing placed"@
        &&& edit::shows_edit(
            st.edit,
            st.target,
            Window {
                placing: w.placing,
                component: if placing.fresh && i < n {
                    old_w.component
                } else if k > 0 {
                    (k - 1) as i32
                } else {
                    0
                },
                ..old_w
            },
            Window { status: old_w.status, ..w },
        )
    } else {
        w == (Window { placing: w.placing, ..old_w })
    }
}

fn undo_placing<N: Copy, L: Copy, G: Copy>(
    st: &mut Editing<N, L, G>,
    w: &mut Window<N, L, G>,
    placing: Placing<N>,
    which: usize,
)
    requires
        edit::countable(old(st).edit, 0),
        placing.component == Some(which),
        old(st).placing is None,
    ensures
        nothing_placed(*old(st), *old(w), placing, *final(st), *final(w)),
{
    w.placing = "".to_owned();
    let ghost edit0 = st.edit;
    if placing.fresh && placing.index < st.edit.adjustments.len() {
        let _gone = st.edit.adjustments.remove(placing.index);
        assert(edit::countable(st.edit, 0)) by {
            assert forall|k: int| 0 <= k < st.edit.adjustments@.len() implies (
            #[trigger] st.edit.adjustments@[k]).mask.components@.len() < i32::MAX by {
                let from = if k < placing.index { k } else { k + 1 };
                assert(st.edit.adjustments@[k] == edit0.adjustments@[from]);
            }
        }
        st.target = None;
        let ghost bare = *w;
        edit::show_edit(&st.edit, w, None);
        let ghost shown = *w;
        proof {
            edit::lemma_showing_keeps(st.edit, None, bare, shown);
        }
        w.status = "nothing placed".to_owned();
        assert(shown == Window { status: old(w).status, ..*w });
        assert(bare == Window { placing: w.placing, ..*old(w) });
    } else if placing.index < st.edit.adjustments.len() && which
        < st.edit.adjustments[placing.index].mask.components.len() {
        let _gone = st.edit.adjustments[placing.index].mask.components.remove(which);
        assert(shape_removed(edit0, placing.index as int, which as int, st.edit));
        w.component = if which > 0 { (which - 1) as i32 } else { 0 };
        let ghost bare = *w;
        edit::show_edit(&st.edit, w, st.target);
        let ghost shown = *w;
        proof {
            edit::lemma_showing_keeps(st.edit, st.target, bare, shown);
        }
        w.status = "nothing placed".to_owned();
        assert(shown == Window { status: old(w).status, ..*w });
    }
}


/// The button let go on the picture. A repair just finished does not
/// stay chosen: the sliders and the wheel go back to setting the brush
/// for the next one. A brush stays in hand for the next stroke, an
/// object or a sky for the next pick; any other shape is placed, unless
/// the press came to nothing. `long_enough` says whether the linear or
/// the radial being placed has come to something.
pub fn place_released<N: Copy, L: Copy, G: Copy>(
    st: &mut Editing<N, L, G>,
    w: &mut Window<N, L, G>,
    long_enough: bool,
) -> (next: Next)
    requires
        edit::countable(old(st).edit, 0),
    ensures
        old(st).patch_stroke is Some ==> {
            &&& next == Next::DevelopSoon
            &&& *final(st) == (Editing { patch_stroke: None, ..*old(st) })
            &&& text::texts(final(w).patch_names@) == retouch::patch_texts(old(st).edit.patches@)
            &&& *final(w) == (Window {
                patch: -1i32,
                patch_names: final(w).patch_names,
                ..*old(w)
            })
        },
        old(st).patch_stroke is None && (old(st).placing is None
            || old(st).placing->0.component is None) ==> next == Next::Nothing && *final(st)
            == *old(st) && *final(w) == *old(w),
        old(st).patch_stroke is None && old(st).placing is Some
            && old(st).placing->0.component is Some ==> {
            let placing = old(st).placing->0;
            &&& next == Next::ViewChanged
            &&& if takes_more(placing.kind) {
                &&& *final(st) == (Editing {
                    placing: Some(Placing { fresh: false, boxed: false, ..placing }),
                    ..*old(st)
                })
                &&& *final(w) == *old(w)
            } else if was_drawn(old(st).edit, placing, long_enough) {
                &&& *final(st) == (Editing { placing: None, ..*old(st) })
                &&& *final(w) == (Window {
                    placing: final(w).placing,
                    status: final(w).status,
                    ..*old(w)
                })
                &&& final(w).placing@ == ""@
                &&& final(w).status@ == ""@
            } else {
                nothing_placed(
                    Editing { placing: None, ..*old(st) },
                    *old(w),
                    placing,
                    *final(st),
                    *final(w),
                )
            }
        },
{
    if st.patch_stroke.is_some() {
        st.patch_stroke = None;
        w.patch = -1;
        retouch::show_patches(&st.edit, w);
        return Next::DevelopSoon;
    }
    let placing: Placing<N> = match st.placing {
        Some(p) => p,
        None => {
            return Next::Nothing;
        },
    };
    let which: usize = match placing.component {
        Some(k) => k,
        // A release with no press to it.
        None => {
            return Next::Nothing;
        },
    };
    match placing.kind {
        Kind::Brush | Kind::Object | Kind::Sky => {
            st.placing = Some(Placing { fresh: false, boxed: false, ..placing });
            return Next::ViewChanged;
        },
        _ => {},
    }
    st.placing = None;
    let drawn: bool = match chosen_kind(&st.edit, placing.index, which) {
        Some(Kind::Linear) | Some(Kind::Radial) => long_enough,
        Some(_) => true,
        None => false,
    };
    if drawn {
        w.placing = "".to_owned();
        w.status = "".to_owned();
    } else {
        undo_placing(st, w, placing, which);
    }
    Next::ViewChanged
}

/// A handle held: that of a shape, by its place among the shape's.
#[derive(Debug, Clone, Copy, PartialEq, Eq, Structural)]
pub struct Held {
    pub adjustment: usize,
    pub component: usize,
    pub handle: usize,
}

/// The handle a press takes hold of: the chosen shape's, which has
/// `handles` of them; none without a shape or such a handle.
pub open spec fn handle_of<N: Copy, L, G>(
    st: Editing<N, L, G>,
    w: Window<N, L, G>,
    handle: i32,
    handles: usize,
) -> Option<Held> {
    match edit::valid_target(st.edit, st.target) {
        Some(i) => if model::row_of(w.component)
            < st.edit.adjustments@[i as int].mask.components@.len() && model::row_of(handle)
            < handles {
            Some(
                Held {
                    adjustment: i,
                    component: model::row_of(w.component) as usize,
                    handle: model::row_of(handle) as usize,
                },
            )
        } else {
            None
        },
        None => None,
    }
}

/// A shape's handle pressed. One that is not there leaves what was held.
pub fn mask_grabbed<N: Copy, L, G>(
    st: &Editing<N, L, G>,
    w: &Window<N, L, G>,
    handle: i32,
    handles: usize,
    held: &mut Option<Held>,
)
    ensures
        *final(held) == match handle_of(*st, *w, handle, handles) {
            Some(h) => Some(h),
            None => *old(held),
        },
{
    let k: usize = model::row(w.component);
    let n: usize = model::row(handle);
    if let Some(i) = st.target {
        if i < st.edit.adjustments.len() && k < st.edit.adjustments[i].mask.components.len() && n
            < handles {
            *held = Some(Held { adjustment: i, component: k, handle: n });
        }
    }
}

/// A shape's handle dragged: with one held the chosen shape is `moved`, as
/// the handle leaves it.
pub fn mask_dragged<N: Copy, L: Copy, G: Copy>(
    st: &mut Editing<N, L, G>,
    w: &Window<N, L, G>,
    held: Option<Held>,
    moved: Shape<N>,
) -> (next: Next)
    ensures
        next == if held is Some {
            Next::Redraw
        } else {
            Next::Nothing
        },
        ({
            let k = model::row_of(w.component);
            match edit::valid_target(old(st).edit, old(st).target) {
                Some(i) if held is Some && k < old(
                    st,
                ).edit.adjustments@[i as int].mask.components@.len() => {
                    &&& shape_replaced(
                        old(st).edit,
                        i as int,
                        k,
                        Component {
                            shape: moved,
                            ..old(st).edit.adjustments@[i as int].mask.components@[k]
                        },
                        final(st).edit,
                    )
                    &&& *final(st) == (Editing { edit: final(st).edit, ..*old(st) })
                },
                _ => *final(st) == *old(st),
            }
        }),
{
    if held.is_none() {
        return Next::Nothing;
    }
    let k: usize = model::row(w.component);
    if let Some(i) = st.target {
        if i < st.edit.adjustments.len() && k < st.edit.adjustments[i].mask.components.len() {
            st.edit.adjustments[i].mask.components[k].shape = moved;
        }
    }
    Next::Redraw
}

/// The handle let go: the edit is recorded, when one was held.
pub fn mask_dropped(held: &mut Option<Held>) -> (next: Next)
    ensures
        *final(held) is None,
        next == if *old(held) is Some {
            Next::ViewChanged
        } else {
            Next::Nothing
        },
{
    let was: bool = held.is_some();
    *held = None;
    if was {
        Next::ViewChanged
    } else {
        Next::Nothing
    }
}

// What holds of drawing.

/// The shape the tool in hand is drawing.
pub open spec fn in_hand<N: Copy, L, G>(st: Editing<N, L, G>) -> Shape<N> {
    let p = st.placing->0;
    st.edit.adjustments@[p.index as int].mask.components@[p.component->0 as int].shape
}

/// Where the pointer went, in order.
pub open spec fn places<N: Copy>(travels: Seq<Travel<N>>) -> Seq<Point<N>> {
    travels.map_values(|t: Travel<N>| t.at)
}

/// A press with a shape's tool, and the drags that follow it.
pub open spec fn drawn<N: Copy, L, G>(
    old_st: Editing<N, L, G>,
    old_w: Window<N, L, G>,
    press: Press<N, L>,
    w: Window<N, L, G>,
    travels: Seq<Travel<N>>,
    states: Seq<Editing<N, L, G>>,
) -> bool {
    &&& old_st.retouching is None
    &&& old_st.patch_stroke is None
    &&& old_st.placing is Some
    &&& old_st.placing->0.fresh || old_st.placing->0.index < old_st.edit.adjustments@.len()
    &&& edit::countable(old_st.edit, 1)
    &&& states.len() == travels.len() + 1
    &&& press_places(old_st, old_w, press, states[0], w, Next::Redraw)
    &&& forall|i: int|
        0 <= i < travels.len() ==> #[trigger] drag_follows(states[i], travels[i], states[i + 1])
}

/// The shape the tool is on, when it is on one, is of the tool's kind.
pub open spec fn tool_fits<N: Copy, L, G>(st: Editing<N, L, G>) -> bool {
    st.placing matches Some(p) && (placed_on(st.edit, p) ==> in_hand(st).of() == p.kind)
}

/// A press leaves the tool on a shape of its kind, where it was pressed.
proof fn lemma_press_places<N: Copy, L, G>(
    old_st: Editing<N, L, G>,
    old_w: Window<N, L, G>,
    press: Press<N, L>,
    st: Editing<N, L, G>,
    w: Window<N, L, G>,
)
    requires
        old_st.placing is Some,
        old_st.placing->0.fresh || old_st.placing->0.index < old_st.edit.adjustments@.len(),
        edit::countable(old_st.edit, 1),
        tool_fits(old_st),
        press_places(old_st, old_w, press, st, w, Next::Redraw),
    ensures
        st.placing matches Some(p) && placed_on(st.edit, p) && p.from == press.at && !p.boxed
            && p.kind == old_st.placing->0.kind,
        placed_on(old_st.edit, old_st.placing->0) ==> more_of(
            in_hand(old_st),
            press.at,
            press.right,
            press.brush,
            in_hand(st),
        ) || in_hand(old_st).of().ranges() || in_hand(old_st) is Radial,
        !placed_on(old_st.edit, old_st.placing->0) ==> pressed_shape(
            old_st.placing->0.kind,
            press.at,
            press.right,
            press.brush,
            old_w.blank,
            in_hand(st),
        ),
{
    let placing = old_st.placing->0;
    let read = choose|read: Edit<N, L, G>|
        {
            &&& #[trigger] edit::edit_read(old_st.edit, old_w, old_st.target, read)
            &&& if placed_on(read, placing) {
                &&& more_placed(old_st, read, placing, press, st)
                &&& w == old_w
            } else if !placing.fresh && placing.index >= read.adjustments@.len() {
                false
            } else {
                exists|c: Component<N>| #[trigger]
                    shape_placed(old_st, old_w.blank, read, placing, press, c, st)
            }
        };
    assert(read.adjustments@.len() == old_st.edit.adjustments@.len());
    assert forall|i: int| 0 <= i < read.adjustments@.len() implies (
    #[trigger] read.adjustments@[i]).mask.components@.len()
        == old_st.edit.adjustments@[i].mask.components@.len() by {}
    if !placed_on(read, placing) {
        let c = choose|c: Component<N>| #[trigger]
            shape_placed(old_st, old_w.blank, read, placing, press, c, st);
        assert(shape_placed(old_st, old_w.blank, read, placing, press, c, st));
        if placing.fresh {
            assert(st.edit.adjustments@.last().mask.components@[0] == c);
        }
    }
}

/// What the drags so far leave of the tool and of the shape's kind.
proof fn lemma_drags_keep<N: Copy, L, G>(
    travels: Seq<Travel<N>>,
    states: Seq<Editing<N, L, G>>,
    n: int,
)
    requires
        states.len() == travels.len() + 1,
        forall|i: int|
            0 <= i < travels.len() ==> #[trigger] drag_follows(states[i], travels[i], states[i + 1]),
        states[0].placing matches Some(p) && placed_on(states[0].edit, p),
        0 <= n < states.len(),
    ensures
        states[n].placing matches Some(p) && placed_on(states[n].edit, p) && p == (Placing {
            boxed: p.boxed,
            ..states[0].placing->0
        }),
        in_hand(states[n]).of() == in_hand(states[0]).of(),
    decreases n,
{
    if n > 0 {
        lemma_drags_keep(travels, states, n - 1);
        assert(drag_follows(states[n - 1], travels[n - 1], states[n - 1 + 1]));
    }
}

proof fn lemma_stroke_grows<N: Copy, L, G>(
    travels: Seq<Travel<N>>,
    states: Seq<Editing<N, L, G>>,
    n: int,
)
    requires
        states.len() == travels.len() + 1,
        forall|i: int|
            0 <= i < travels.len() ==> #[trigger] drag_follows(states[i], travels[i], states[i + 1]),
        forall|i: int| 0 <= i < travels.len() ==> (#[trigger] travels[i]).step,
        states[0].placing matches Some(p) && placed_on(states[0].edit, p),
        in_hand(states[0]) matches Shape::Brush { strokes } && strokes@.len() > 0,
        0 <= n < states.len(),
    ensures
        in_hand(states[n]) matches Shape::Brush { strokes } && {
            let first = in_hand(states[0])->strokes@;
            &&& strokes@.len() == first.len()
            &&& strokes@.drop_last() == first.drop_last()
            &&& strokes@.last().brush == first.last().brush
            &&& strokes@.last().points@ == first.last().points@ + places(travels.take(n))
        },
    decreases n,
{
    let first = in_hand(states[0])->strokes@;
    if n == 0 {
        assert(first.last().points@ + places(travels.take(0)) =~= first.last().points@);
    } else {
        lemma_stroke_grows(travels, states, n - 1);
        lemma_drags_keep(travels, states, n - 1);
        assert(drag_follows(states[n - 1], travels[n - 1], states[n - 1 + 1]));
        assert(travels[n - 1].step);
        let was = in_hand(states[n - 1])->strokes@;
        let now = in_hand(states[n])->strokes@;
        assert(now.drop_last() =~= was.drop_last());
        assert(places(travels.take(n)) =~= places(travels.take(n - 1)).push(travels[n - 1].at));
        assert(now.last().points@ =~= first.last().points@ + places(travels.take(n)));
    }
}

/// A brush paints where the pointer goes: after a press and any number of
/// drags of a texel and more, its last stroke is the place of the press
/// and then each place the pointer went to, in order. The strokes before
/// it are as they were, and no other is begun by a drag.
pub proof fn a_brush_paints_where_the_pointer_goes<N: Copy, L, G>(
    old_st: Editing<N, L, G>,
    old_w: Window<N, L, G>,
    press: Press<N, L>,
    w: Window<N, L, G>,
    travels: Seq<Travel<N>>,
    states: Seq<Editing<N, L, G>>,
)
    requires
        drawn(old_st, old_w, press, w, travels, states),
        tool_fits(old_st),
        old_st.placing->0.kind is Brush,
        forall|i: int| 0 <= i < travels.len() ==> (#[trigger] travels[i]).step,
    ensures
        in_hand(states.last()) matches Shape::Brush { strokes } && {
            &&& strokes@.len() > 0
            &&& strokes@.last().points@ == seq![press.at] + places(travels)
            &&& strokes@.last().brush.op == press.brush.op
            &&& strokes@.drop_last() == if placed_on(old_st.edit, old_st.placing->0) {
                in_hand(old_st)->strokes@
            } else {
                seq![]
            }
        },
{
    lemma_press_places(old_st, old_w, press, states[0], w);
    let first = in_hand(states[0])->strokes@;
    if placed_on(old_st.edit, old_st.placing->0) {
        assert(first.drop_last() =~= in_hand(old_st)->strokes@);
    } else {
        assert(first.drop_last() =~= seq![]);
    }
    lemma_stroke_grows(travels, states, travels.len() as int);
    assert(travels.take(travels.len() as int) =~= travels);
}

/// A brush takes no point while the pointer is within a texel of its last
/// one, and a drag with one in hand is one point, the pointer's place.
pub proof fn a_drag_is_one_point_of_the_stroke<N: Copy, L, G>(
    old_st: Editing<N, L, G>,
    travel: Travel<N>,
    st: Editing<N, L, G>,
)
    requires
        old_st.placing matches Some(p) && placed_on(old_st.edit, p),
        in_hand(old_st) matches Shape::Brush { strokes } && strokes@.len() > 0
            && strokes@.last().points@.len() > 0,
        drag_follows(old_st, travel, st),
    ensures
        in_hand(st) matches Shape::Brush { strokes } && {
            let was = in_hand(old_st)->strokes@.last().points@;
            let now = strokes@.last().points@;
            &&& strokes@.len() == in_hand(old_st)->strokes@.len()
            &&& now.len() == was.len() + if travel.step { 1int } else { 0 }
            &&& forall|i: int| 0 <= i < was.len() ==> now[i] == was[i]
            &&& travel.step ==> now.last() == travel.at
        },
{
}

/// A linear runs from where it was pressed to where the pointer is, and a
/// radial is about where it was pressed, as wide as the pointer is from
/// there; both whatever way the pointer went.
pub proof fn a_gradient_runs_from_the_press_to_the_pointer<N: Copy, L, G>(
    old_st: Editing<N, L, G>,
    old_w: Window<N, L, G>,
    press: Press<N, L>,
    w: Window<N, L, G>,
    travels: Seq<Travel<N>>,
    states: Seq<Editing<N, L, G>>,
)
    requires
        drawn(old_st, old_w, press, w, travels, states),
        old_st.placing->0.component is None,
        travels.len() > 0,
    ensures
        old_st.placing->0.kind is Linear ==> in_hand(states.last()) == (Shape::Linear {
            from: press.at,
            to: travels.last().at,
        }),
        old_st.placing->0.kind is Radial ==> in_hand(states.last()) == (Shape::Radial {
            center: press.at,
            radius: travels.last().radius,
            angle: old_w.blank.zero,
            feather: old_w.blank.feather,
        }),
{
    lemma_press_places(old_st, old_w, press, states[0], w);
    lemma_gradient(travels, states, travels.len() as int);
    let n = travels.len() as int;
    lemma_drags_keep(travels, states, n - 1);
    assert(drag_follows(states[n - 1], travels[n - 1], states[n - 1 + 1]));
}

proof fn lemma_gradient<N: Copy, L, G>(
    travels: Seq<Travel<N>>,
    states: Seq<Editing<N, L, G>>,
    n: int,
)
    requires
        states.len() == travels.len() + 1,
        forall|i: int|
            0 <= i < travels.len() ==> #[trigger] drag_follows(states[i], travels[i], states[i + 1]),
        states[0].placing matches Some(p) && placed_on(states[0].edit, p),
        0 <= n < states.len(),
    ensures
        in_hand(states[0]) is Linear ==> in_hand(states[n]) is Linear && in_hand(states[n])->from
            == in_hand(states[0])->from,
        in_hand(states[0]) is Radial ==> in_hand(states[n]) is Radial && in_hand(states[n])->center
            == in_hand(states[0])->center && in_hand(states[n])->angle
            == in_hand(states[0])->angle && in_hand(states[n])->feather
            == in_hand(states[0])->feather,
    decreases n,
{
    if n > 0 {
        lemma_gradient(travels, states, n - 1);
        lemma_drags_keep(travels, states, n - 1);
        assert(drag_follows(states[n - 1], travels[n - 1], states[n - 1 + 1]));
    }
}

/// A press on a thing that does not travel is a click on it, for the left
/// button, or on what is not it, for the right; one that has traveled far,
/// however it went on, is a box from the press to the pointer and no
/// click.
pub proof fn a_press_that_travels_is_a_box<N: Copy, L, G>(
    old_st: Editing<N, L, G>,
    old_w: Window<N, L, G>,
    press: Press<N, L>,
    w: Window<N, L, G>,
    travels: Seq<Travel<N>>,
    states: Seq<Editing<N, L, G>>,
)
    requires
        drawn(old_st, old_w, press, w, travels, states),
        old_st.placing->0.component is None,
        old_st.placing->0.kind is Object,
    ensures
        in_hand(states.last()) matches Shape::Object { picks, boxes } && {
            &&& (forall|i: int| 0 <= i < travels.len() ==> !(#[trigger] travels[i]).far) ==> {
                &&& boxes@.len() == 0
                &&& picks@.len() == 1
                &&& picks@[0].pos == press.at
                &&& picks@[0].positive <==> !press.right
            }
            &&& (exists|i: int| 0 <= i < travels.len() && (#[trigger] travels[i]).far) ==> {
                &&& picks@.len() == 0
                &&& boxes@.len() == 1
                &&& boxes@[0] == (press.at, travels.last().at)
            }
        },
{
    lemma_press_places(old_st, old_w, press, states[0], w);
    lemma_object(travels, states, press.at, travels.len() as int);
    assert(travels.take(travels.len() as int) =~= travels);
    if exists|i: int| 0 <= i < travels.len() && (#[trigger] travels[i]).far {
        assert(went_far(travels, travels.len() as int));
    }
}

spec fn went_far<N: Copy>(travels: Seq<Travel<N>>, n: int) -> bool {
    exists|i: int| 0 <= i < n && (#[trigger] travels[i]).far
}

proof fn lemma_object<N: Copy, L, G>(
    travels: Seq<Travel<N>>,
    states: Seq<Editing<N, L, G>>,
    at: Point<N>,
    n: int,
)
    requires
        states.len() == travels.len() + 1,
        forall|i: int|
            0 <= i < travels.len() ==> #[trigger] drag_follows(states[i], travels[i], states[i + 1]),
        states[0].placing matches Some(p) && placed_on(states[0].edit, p) && p.from == at
            && !p.boxed,
        in_hand(states[0]) matches Shape::Object { picks, boxes } && picks@.len() == 1
            && boxes@.len() == 0,
        0 <= n < states.len(),
    ensures
        states[n].placing->0.boxed == went_far(travels, n),
        in_hand(states[n]) matches Shape::Object { picks, boxes } && if went_far(travels, n) {
            picks@.len() == 0 && boxes@.len() == 1 && boxes@[0] == (at, travels[n - 1].at)
        } else {
            picks == in_hand(states[0])->Object_picks && boxes@.len() == 0
        },
    decreases n,
{
    if n > 0 {
        lemma_object(travels, states, at, n - 1);
        lemma_drags_keep(travels, states, n - 1);
        assert(drag_follows(states[n - 1], travels[n - 1], states[n - 1 + 1]));
        if went_far(travels, n) {
            let i = choose|i: int| 0 <= i < n && (#[trigger] travels[i]).far;
            if i < n - 1 {
                assert(went_far(travels, n - 1));
            }
        }
        if went_far(travels, n - 1) {
            let i = choose|i: int| 0 <= i < n - 1 && (#[trigger] travels[i]).far;
            assert(travels[i].far);
        }
        if travels[n - 1].far {
            assert(went_far(travels, n));
        }
    }
}

/// Another press with a tool that stays in hand is one more of what the
/// shape has, and what it had stays: a stroke begun at the press with the
/// brush as it is now, or a click, on the thing for the left button and
/// off it for the right.
pub proof fn a_press_adds_to_the_shape_in_hand<N: Copy>(
    before: Shape<N>,
    at: Point<N>,
    right: bool,
    brush: Brush,
    after: Shape<N>,
)
    requires
        more_of(before, at, right, brush, after),
    ensures
        before matches Shape::Brush { strokes: s } ==> (after matches Shape::Brush { strokes: t }
            && t@.len() == s@.len() + 1 && t@.drop_last() == s@ && t@.last().points@.len() == 1
            && t@.last().points@[0] == at && t@.last().brush.op == brush.op),
        before matches Shape::Sky { picks: s } ==> (after matches Shape::Sky { picks: t }
            && t@.len() == s@.len() + 1 && t@.drop_last() == s@ && t@.last().pos == at
            && t@.last().positive != right),
        before matches Shape::Object { picks: s, boxes: a } ==> (after matches Shape::Object {
            picks: t,
            boxes: b,
        } && t@.len() == s@.len() + 1 && t@.drop_last() == s@ && t@.last().pos == at
            && t@.last().positive != right && b@ == a@),
{
    match (before, after) {
        (Shape::Brush { strokes: s }, Shape::Brush { strokes: t }) => {
            assert(t@.drop_last() =~= s@);
        },
        (Shape::Sky { picks: s }, Shape::Sky { picks: t }) => {
            assert(t@.drop_last() =~= s@);
        },
        (Shape::Object { picks: s, .. }, Shape::Object { picks: t, .. }) => {
            assert(t@.drop_last() =~= s@);
        },
        _ => {},
    }
}

/// A shape placed as an adjustment of its own is one adjustment more, the
/// last, and the one the panel now edits; it is on, with the one shape,
/// and the others are as they were read.
pub proof fn a_shape_placed_anew_is_an_adjustment_of_its_own<N: Copy, L, G>(
    old_st: Editing<N, L, G>,
    blank: Blank<N>,
    read: Edit<N, L, G>,
    placing: Placing<N>,
    press: Press<N, L>,
    c: Component<N>,
    st: Editing<N, L, G>,
)
    requires
        placing.fresh,
        read.adjustments@.len() < usize::MAX,
        shape_placed(old_st, blank, read, placing, press, c, st),
    ensures
        st.edit.adjustments@.len() == read.adjustments@.len() + 1,
        st.edit.adjustments@.drop_last() == read.adjustments@,
        st.target == Some(read.adjustments@.len() as usize),
        ({
            let a = st.edit.adjustments@.last();
            &&& a.id == press.id
            &&& a.enabled
            &&& a.look == press.look
            &&& !a.mask.invert
            &&& a.mask.components@.len() == 1
            &&& a.mask.components@[0].shape.of() == placing.kind
            &&& a.mask.components@[0].mode == placing.mode
            &&& a.mask.components@[0].enabled
            &&& !a.mask.components@[0].invert
        }),
        st.edit.patches == read.patches,
        st.edit.look == read.look,
        st.edit.picture == read.picture,
{
    assert(st.edit.adjustments@.drop_last() =~= read.adjustments@);
}

/// A shape placed in an adjustment is that adjustment's last, after those
/// it had, and no other adjustment changes.
pub proof fn a_shape_added_is_the_last_of_its_mask<N: Copy, L, G>(
    before: Edit<N, L, G>,
    i: int,
    c: Component<N>,
    after: Edit<N, L, G>,
)
    requires
        0 <= i < before.adjustments@.len(),
        shape_added(before, i, c, after),
    ensures
        after.adjustments@.len() == before.adjustments@.len(),
        after.adjustments@[i].mask.components@.last() == c,
        after.adjustments@[i].mask.components@.drop_last()
            == before.adjustments@[i].mask.components@,
        after.adjustments@[i].name == before.adjustments@[i].name,
        after.adjustments@[i].id == before.adjustments@[i].id,
        after.adjustments@[i].look == before.adjustments@[i].look,
        after.adjustments@[i].enabled == before.adjustments@[i].enabled,
        after.adjustments@[i].mask.invert == before.adjustments@[i].mask.invert,
        forall|j: int|
            0 <= j < before.adjustments@.len() && j != i ==> after.adjustments@[j]
                == before.adjustments@[j],
        after.look == before.look && after.patches == before.patches && after.picture
            == before.picture,
{
    assert(after.adjustments@[i].mask.components@.drop_last()
        =~= before.adjustments@[i].mask.components@);
}

/// A shape removed leaves the others of its mask in their order, and every
/// other adjustment as it was; one added at the end and removed again
/// leaves the list there was.
pub proof fn a_shape_removed_leaves_the_rest<N: Copy, L, G>(
    before: Edit<N, L, G>,
    i: int,
    k: int,
    after: Edit<N, L, G>,
)
    requires
        0 <= i < before.adjustments@.len(),
        0 <= k < before.adjustments@[i].mask.components@.len(),
        shape_removed(before, i, k, after),
    ensures
        after.adjustments@.len() == before.adjustments@.len(),
        ({
            let (a, b) = (
                before.adjustments@[i].mask.components@,
                after.adjustments@[i].mask.components@,
            );
            &&& b.len() == a.len() - 1
            &&& forall|j: int| 0 <= j < k ==> b[j] == a[j]
            &&& forall|j: int| k <= j < b.len() ==> b[j] == a[j + 1]
        }),
        after.adjustments@[i].id == before.adjustments@[i].id,
        after.adjustments@[i].look == before.adjustments@[i].look,
        after.adjustments@[i].enabled == before.adjustments@[i].enabled,
        forall|j: int|
            0 <= j < before.adjustments@.len() && j != i ==> after.adjustments@[j]
                == before.adjustments@[j],
        after.look == before.look && after.patches == before.patches && after.picture
            == before.picture,
{
}

/// A shape replaced is the only thing that changes.
pub proof fn a_shape_replaced_is_the_one_named<N: Copy, L, G>(
    before: Edit<N, L, G>,
    i: int,
    k: int,
    c: Component<N>,
    after: Edit<N, L, G>,
)
    requires
        0 <= i < before.adjustments@.len(),
        0 <= k < before.adjustments@[i].mask.components@.len(),
        shape_replaced(before, i, k, c, after),
    ensures
        after.adjustments@.len() == before.adjustments@.len(),
        after.adjustments@[i].mask.components@.len()
            == before.adjustments@[i].mask.components@.len(),
        after.adjustments@[i].mask.components@[k] == c,
        forall|j: int|
            0 <= j < before.adjustments@[i].mask.components@.len() && j != k
                ==> after.adjustments@[i].mask.components@[j]
                == before.adjustments@[i].mask.components@[j],
        after.adjustments@[i].id == before.adjustments@[i].id,
        after.adjustments@[i].look == before.adjustments@[i].look,
        after.adjustments@[i].enabled == before.adjustments@[i].enabled,
        forall|j: int|
            0 <= j < before.adjustments@.len() && j != i ==> after.adjustments@[j]
                == before.adjustments@[j],
        after.look == before.look && after.patches == before.patches && after.picture
            == before.picture,
{
}

/// A press let go without a drag leaves no trace in the edit: what the
/// press made goes, whether that was an adjustment or a shape of one.
pub proof fn a_press_that_comes_to_nothing_leaves_the_edit<N: Copy, L, G>(
    old_st: Editing<N, L, G>,
    blank: Blank<N>,
    read: Edit<N, L, G>,
    placing: Placing<N>,
    press: Press<N, L>,
    c: Component<N>,
    st: Editing<N, L, G>,
    w: Window<N, L, G>,
    last_st: Editing<N, L, G>,
    last_w: Window<N, L, G>,
)
    requires
        read.adjustments@.len() < usize::MAX,
        placing.fresh || placing.index < read.adjustments@.len(),
        forall|i: int|
            0 <= i < read.adjustments@.len() ==> (
            #[trigger] read.adjustments@[i]).mask.components@.len() < usize::MAX,
        shape_placed(old_st, blank, read, placing, press, c, st),
        nothing_placed(
            Editing { placing: None, ..st },
            w,
            st.placing->0,
            last_st,
            last_w,
        ),
    ensures
        last_st.edit.adjustments@.len() == read.adjustments@.len(),
        forall|i: int|
            0 <= i < read.adjustments@.len() ==> {
                let (a, b) = (read.adjustments@[i], #[trigger] last_st.edit.adjustments@[i]);
                &&& b.mask.components@ == a.mask.components@
                &&& b.id == a.id && b.name == a.name && b.enabled == a.enabled && b.look == a.look
            },
        last_st.edit.look == read.look,
        last_st.edit.picture == read.picture,
        last_st.edit.patches == read.patches,
        last_st.placing is None,
        placing.fresh ==> last_st.target is None,
        !placing.fresh ==> last_st.target == old_st.target,
        last_w.placing@ == ""@,
        last_w.status@ == "nothing placed"@,
{
    if !placing.fresh {
        let i = placing.index as int;
        assert(last_st.edit.adjustments@[i].mask.components@
            =~= read.adjustments@[i].mask.components@);
    }
}

/// The panel's list counts from the picture, which is its first row: the
/// row that an edit shown marks is the row that leads back to its target.
pub proof fn a_row_of_the_list_is_its_adjustment(i: i32, adjustments: nat)
    requires
        adjustments < i32::MAX,
    ensures
        i <= 0 ==> target_at(i, adjustments) is None,
        i > adjustments ==> target_at(i, adjustments) is None,
        1 <= i <= adjustments ==> (target_at(i, adjustments) matches Some(t) && t + 1 == i),
{
}

/// The chosen shape is one of the mask's, where it has any, and the one
/// asked for where there is such a one.
pub proof fn the_chosen_shape_is_one_there_is<N: Copy, L, G>(
    m: Mask<N>,
    before: Window<N, L, G>,
    after: Window<N, L, G>,
)
    requires
        m.components@.len() <= i32::MAX,
        shows_component(m, before, after),
    ensures
        after.component >= 0,
        m.components@.len() > 0 ==> after.component < m.components@.len(),
        0 <= before.component < m.components@.len() ==> after.component == before.component,
        m.components@.len() > 0 && before.component >= m.components@.len() ==> after.component
            == m.components@.len() - 1,
        m.components@.len() > 0 ==> {
            let c = m.components@[after.component as int];
            &&& after.component_invert == c.invert
            &&& after.component_kind@ == c.shape.of().text()
            &&& after.has_feather <==> c.shape is Radial
            &&& c.shape matches Shape::Radial { feather, .. } ==> after.mask_feather == feather
            &&& c.shape matches Shape::Luminance { range } ==> after.luminance == range
            &&& c.shape matches Shape::Color { range } ==> after.color == range
        },
        m.components@.len() == 0 ==> after.component_kind@ == ""@ && !after.has_feather,
        after.look == before.look && after.picture == before.picture && after.target
            == before.target,
{
}

/// The list names every shape, in the mask's order, by how it joins and
/// what it is, and says which are on.
pub proof fn the_list_is_of_the_masks_shapes<N: Copy>(m: Mask<N>, i: int)
    requires
        0 <= i < m.components@.len(),
    ensures
        component_texts(m).len() == m.components@.len(),
        component_texts(m)[i][0] == m.components@[i].mode.sign,
        component_texts(m)[i].skip(2) == m.components@[i].shape.of().text(),
        components_on(m).len() == m.components@.len(),
        components_on(m)[i] == m.components@[i].enabled,
{
    reveal_strlit(" ");
    let c = m.components@[i];
    assert(component_text(c).skip(2) =~= c.shape.of().text());
}

/// A tool taken up and put down leaves the edit and the target alone, and
/// keeps how the mask was shown before, to be shown so again.
pub proof fn a_tool_taken_up_and_put_down_changes_no_edit<N: Copy, L, G>(
    st: Editing<N, L, G>,
    w: Window<N, L, G>,
    placing: Placing<N>,
    kind: Seq<char>,
    into: bool,
    up_st: Editing<N, L, G>,
    up_w: Window<N, L, G>,
    down_st: Editing<N, L, G>,
    down_w: Window<N, L, G>,
)
    requires
        taken_up(st, w, placing, kind, into, up_st, up_w),
        put_down(up_st, up_w, down_st, down_w),
    ensures
        up_st.placing == Some(placing),
        up_w.placing@ == kind,
        up_w.show_mask,
        up_w.placing_into == into,
        up_st.edit == st.edit && up_st.target == st.target,
        st.show_mask_kept is None ==> up_st.show_mask_kept == Some(w.show_mask),
        st.show_mask_kept is Some ==> up_st.show_mask_kept == st.show_mask_kept,
        down_st.placing is None,
        down_w.placing@.len() == 0,
        down_w.status@.len() == 0,
        down_st.edit == st.edit && down_st.target == st.target,
        down_w.look == w.look && down_w.picture == w.picture,
{
    reveal_strlit("");
}

/// A tab left takes its tools with it: away from Masks nothing is being
/// placed and the picture has the panel, and away from Retouch no repair
/// is in hand. A tab that is stayed on keeps its own.
pub proof fn a_tab_left_takes_its_tools<N: Copy, L, G>(
    old_st: Editing<N, L, G>,
    old_w: Window<N, L, G>,
    tab: Seq<char>,
    st: Editing<N, L, G>,
    w: Window<N, L, G>,
)
    requires
        tabbed(old_st, old_w, tab, st, w),
    ensures
        tab != "Masks"@ ==> st.placing is None && st.target is None,
        tab != "Retouch"@ ==> st.retouching is None,
        tab == "Masks"@ ==> st.placing == old_st.placing && st.target == old_st.target
            && st.edit == old_st.edit,
        tab == "Retouch"@ ==> st.retouching == old_st.retouching,
        st.edit.patches == old_st.edit.patches,
        old_st.target is None ==> st.edit == old_st.edit,
{
    reveal_strlit("Masks");
    reveal_strlit("Retouch");
    assert("Masks"@.len() != "Retouch"@.len());
}

/// Another target takes the panel once the one before has what the panel
/// showed of it: going to another and back with nothing moved leaves the
/// edit as it was read.
pub proof fn a_target_changed_and_back_loses_nothing<N: Copy, L, G>(
    st: Editing<N, L, G>,
    w: Window<N, L, G>,
    target: Option<usize>,
    mid_st: Editing<N, L, G>,
    mid_w: Window<N, L, G>,
    last_st: Editing<N, L, G>,
    last_w: Window<N, L, G>,
)
    requires
        edit::countable(mid_st.edit, 0),
        edit::reads_so(mid_st.edit),
        retargeted(st, w, target, mid_st, mid_w),
        retargeted(mid_st, mid_w, st.target, last_st, last_w),
    ensures
        mid_st.target == target,
        last_st.target == st.target,
        edit::same_edit(last_st.edit, mid_st.edit),
{
    edit::what_is_shown_reads_back(
        mid_st.edit,
        target,
        Window { component: 0, ..w },
        mid_w,
        last_st.edit,
    );
}

/// What the ranges' sliders say within their ends is the window, as they
/// say it.
pub proof fn a_window_within_its_ends_is_kept(l: LuminanceRange, c: ColorRange, round: Level)
    requires
        0 <= l.low <= l.high <= level::ONE,
        0 <= l.low_feather <= level::ONE,
        0 <= l.high_feather <= level::ONE,
        level::on_circle(c.hue),
        0 <= c.width <= level::CIRCLE,
        0 <= c.hue_feather <= level::HALF_CIRCLE,
        0 <= c.chroma_feather <= c.chroma <= level::INFINITY,
    ensures
        luminance_held(l) == l,
        color_held(c, round) == c,
{
}

/// A subject, a sky and the two ranges mask as soon as they are taken up;
/// every other shape is drawn first.
pub proof fn a_shape_found_masks_at_once(kind: Kind)
    ensures
        at_once(kind) <==> kind is Subject || kind is Sky || kind is Luminance || kind is Color,
        kind is Brush || kind is Linear || kind is Radial || kind is Object ==> !at_once(kind),
{
}

/// The chosen shape is of a kind only where there is such a shape.
pub proof fn a_chosen_shape_is_of_its_kind<N: Copy, L, G>(
    edit: Edit<N, L, G>,
    target: usize,
    chosen: int,
    kind: Kind,
)
    ensures
        chosen_is(edit, target as int, chosen, kind) ==> target < edit.adjustments@.len() && chosen
            < edit.adjustments@[target as int].mask.components@.len()
            && edit.adjustments@[target as int].mask.components@[chosen].shape.of() == kind,
        target < edit.adjustments@.len() && chosen
            < edit.adjustments@[target as int].mask.components@.len() ==> (chosen_is(
            edit,
            target as int,
            chosen,
            kind,
        ) <==> edit.adjustments@[target as int].mask.components@[chosen].shape.of() == kind),
        !range_chosen(edit, None, chosen),
        range_chosen(edit, Some(target), chosen) ==> chosen_is(
            edit,
            target as int,
            chosen,
            Kind::Luminance,
        ) || chosen_is(edit, target as int, chosen, Kind::Color),
        chosen_is(edit, target as int, chosen, Kind::Luminance) || chosen_is(
            edit,
            target as int,
            chosen,
            Kind::Color,
        ) ==> range_chosen(edit, Some(target), chosen),
{
}

/// A handle that is taken is one of the chosen shape's, of the adjustment
/// in hand, and each of its numbers is of something that is there.
pub proof fn a_handle_taken_is_the_chosen_shapes<N: Copy, L, G>(
    st: Editing<N, L, G>,
    w: Window<N, L, G>,
    handle: i32,
    handles: usize,
)
    ensures
        st.target is None ==> handle_of(st, w, handle, handles) is None,
        handle >= 0 && handle >= handles ==> handle_of(st, w, handle, handles) is None,
        handle_of(st, w, handle, handles) matches Some(h) ==> {
            &&& st.target == Some(h.adjustment)
            &&& h.adjustment < st.edit.adjustments@.len()
            &&& h.component < st.edit.adjustments@[h.adjustment as int].mask.components@.len()
            &&& h.handle < handles
            &&& w.component >= 0 ==> h.component == w.component
            &&& handle >= 0 ==> h.handle == handle
        },
        w.component >= 0 && 0 <= handle < handles ==> (st.target matches Some(i) ==> (i
            < st.edit.adjustments@.len() && w.component
            < st.edit.adjustments@[i as int].mask.components@.len() ==> handle_of(
            st,
            w,
            handle,
            handles,
        ) is Some)),
{
}

/// A repair begun is the last of the list and the one in hand: it starts
/// where the press was, by the way that was taken up, with the size, the
/// feather and the opacity of the panel and no source yet. The repairs
/// there were stay.
pub proof fn a_repair_begins_at_the_press<N: Copy, L, G>(
    old_st: Editing<N, L, G>,
    old_w: Window<N, L, G>,
    press: Press<N, L>,
    st: Editing<N, L, G>,
    w: Window<N, L, G>,
    i: int,
)
    requires
        repair_begun(old_st, old_w, press, st, w),
    ensures
        ({
            let n = old_st.edit.patches@.len();
            let p = st.edit.patches@[n as int];
            &&& st.edit.patches@.len() == n + 1
            &&& 0 <= i < n ==> st.edit.patches@[i] == old_st.edit.patches@[i]
            &&& p.points@.len() == 1
            &&& p.points@[0] == press.at
            &&& p.id == press.patch_id
            &&& old_st.retouching == Some(p.method)
            &&& p.source is None
            &&& p.radius == retouch::size_held(old_w.patch_size)
            &&& p.feather == retouch::part_held(old_w.patch_feather)
            &&& p.opacity == retouch::part_held(old_w.patch_opacity)
            &&& w.patch_size == p.radius
            &&& w.patch_feather == p.feather
            &&& w.patch_opacity == p.opacity
            &&& n <= i32::MAX ==> w.patch == n
            &&& n <= usize::MAX ==> st.patch_stroke == Some(n as usize)
        }),
        st.edit.adjustments == old_st.edit.adjustments,
        st.edit.look == old_st.edit.look,
        st.target == old_st.target,
        st.placing == old_st.placing,
        st.retouching == old_st.retouching,
        w.look == old_w.look,
        w.component == old_w.component,
        w.patch_names@.len() == st.edit.patches@.len(),
{
    assert(text::texts(w.patch_names@).len() == w.patch_names@.len());
}

/// A gradient is drawn once the pointer has gone far enough, and any
/// other shape by being placed.
pub proof fn a_gradient_is_drawn_by_its_length<N: Copy, L, G>(
    edit: Edit<N, L, G>,
    placing: Placing<N>,
    long_enough: bool,
)
    ensures
        was_drawn(edit, placing, long_enough) ==> placed_on(edit, placing),
        placed_on(edit, placing) && long_enough ==> was_drawn(edit, placing, long_enough),
        placed_on(edit, placing) ==> ({
            let shape =
                edit.adjustments@[placing.index as int].mask.components@[placing.component->0 as int].shape;
            was_drawn(edit, placing, false) <==> !(shape is Linear) && !(shape is Radial)
        }),
{
}

/// What came to nothing is put down: no shape is being placed, the word
/// for the tool goes, and the rest of what is in hand stays. Only a new
/// adjustment's target goes with it.
pub proof fn what_came_to_nothing_is_put_down<N: Copy, L, G>(
    old_st: Editing<N, L, G>,
    old_w: Window<N, L, G>,
    placing: Placing<N>,
    st: Editing<N, L, G>,
    w: Window<N, L, G>,
)
    requires
        nothing_placed(old_st, old_w, placing, st, w),
    ensures
        st.placing is None,
        w.placing@ == ""@,
        st.retouching == old_st.retouching,
        st.patch_stroke == old_st.patch_stroke,
        !placing.fresh ==> st.target == old_st.target,
        placing.fresh && placing.index < old_st.edit.adjustments@.len() ==> st.target is None
            && st.edit.adjustments@ == old_st.edit.adjustments@.remove(placing.index as int),
        st.edit.look == old_st.edit.look,
        st.edit.picture == old_st.edit.picture,
        st.edit.patches == old_st.edit.patches,
{
}

/// What is being done is said for a shape that is found and for one that
/// waits for a click, and nothing for the rest.
pub proof fn a_shape_made_says_what_comes(kind: Kind)
    ensures
        made_text(Kind::Subject) == "finding the subject"@,
        made_text(Kind::Sky) == "finding the sky"@,
        made_text(Kind::Color)
            == "click a color in the picture to center the window on it; Esc to keep the skin"@,
        !(kind is Subject || kind is Sky || kind is Color) ==> made_text(kind) == ""@,
{
}

/// A press for a shape of an adjustment that has gone puts the tool down
/// and draws nothing; any other press is drawn.
pub proof fn a_press_with_nothing_under_it_puts_the_tool_down<N: Copy, L, G>(
    old_st: Editing<N, L, G>,
    old_w: Window<N, L, G>,
    press: Press<N, L>,
    st: Editing<N, L, G>,
    w: Window<N, L, G>,
    next: Next,
)
    requires
        old_st.placing is Some,
        press_places(old_st, old_w, press, st, w, next),
    ensures
        !old_st.placing->0.fresh && old_st.placing->0.index >= old_st.edit.adjustments@.len()
            && old_st.placing->0.component is None ==> {
            &&& next == Next::Nothing
            &&& st.placing is None
            &&& w.placing@ == ""@
            &&& st.target == old_st.target
            &&& st.edit.adjustments@.len() == old_st.edit.adjustments@.len()
            &&& w.look == old_w.look
        },
        old_st.placing->0.fresh || old_st.placing->0.index < old_st.edit.adjustments@.len()
            ==> next == Next::Redraw,
{
    let read = choose|read: Edit<N, L, G>|
        {
            let placing = old_st.placing->0;
            &&& #[trigger] edit::edit_read(old_st.edit, old_w, old_st.target, read)
            &&& if placed_on(read, placing) {
                &&& next == Next::Redraw
                &&& more_placed(old_st, read, placing, press, st)
                &&& w == old_w
            } else if !placing.fresh && placing.index >= read.adjustments@.len() {
                &&& next == Next::Nothing
                &&& st == (Editing { edit: read, placing: None, ..old_st })
                &&& w == (Window { placing: w.placing, ..old_w })
                &&& w.placing@ == ""@
            } else {
                &&& next == Next::Redraw
                &&& exists|c: Component<N>| #[trigger]
                    shape_placed(old_st, old_w.blank, read, placing, press, c, st)
                &&& edit::shows_edit(
                    st.edit,
                    st.target,
                    Window { component: st.placing->0.component->0 as i32, ..old_w },
                    w,
                )
            }
        };
    assert(read.adjustments@.len() == old_st.edit.adjustments@.len());
}

} // verus!
