//! The edit on the panel and the panel in the edit.

use crate::panel::level;
use crate::panel::mask;
use crate::panel::model::{Adjustment, Component, Edit, Kind, Look, Mask, Shape, Window};
use crate::panel::model;
use crate::panel::retouch;
use crate::text;
use vstd::prelude::*;

verus! {

/// The look the panel edits: the target's, the picture's for none.
pub open spec fn target_look<N, L, G>(edit: Edit<N, L, G>, target: Option<usize>) -> Look<L> {
    match target {
        Some(i) => if i < edit.adjustments@.len() {
            edit.adjustments@[i as int].look
        } else {
            edit.look
        },
        None => edit.look,
    }
}

/// The names the panel's list has: Global first.
pub open spec fn name_texts<N, L, G>(edit: Edit<N, L, G>) -> Seq<Seq<char>> {
    seq!["Global"@] + Seq::new(
        edit.adjustments@.len(),
        |i: int| edit.adjustments@[i].name@,
    )
}

/// The adjustments' names on the panel's list, Global first.
pub fn show_names<N, L, G>(edit: &Edit<N, L, G>, w: &mut Window<N, L, G>)
    ensures
        *final(w) == (Window { adjustment_names: final(w).adjustment_names, ..*old(w) }),
        text::texts(final(w).adjustment_names@) == name_texts(*edit),
{
    let mut v: Vec<String> = Vec::new();
    v.push("Global".to_owned());
    let mut i: usize = 0;
    while i < edit.adjustments.len()
        invariant
            i <= edit.adjustments@.len(),
            v@.len() == i + 1,
            forall|k: int| 0 <= k <= i ==> (#[trigger] v@[k])@ == name_texts(*edit)[k],
        decreases edit.adjustments.len() - i,
    {
        v.push(edit.adjustments[i].name.clone());
        i = i + 1;
    }
    assert(text::texts(v@) =~= name_texts(*edit));
    w.adjustment_names = v;
}

pub open spec fn adjustments_on<N, L, G>(edit: Edit<N, L, G>) -> Seq<bool> {
    Seq::new(edit.adjustments@.len(), |i: int| edit.adjustments@[i].enabled)
}

fn adjustment_on<N, L, G>(edit: &Edit<N, L, G>) -> (v: Vec<bool>)
    ensures
        v@ == adjustments_on(*edit),
{
    let mut v: Vec<bool> = Vec::new();
    let mut i: usize = 0;
    while i < edit.adjustments.len()
        invariant
            i <= edit.adjustments@.len(),
            v@ =~= adjustments_on(*edit).take(i as int),
        decreases edit.adjustments.len() - i,
    {
        v.push(edit.adjustments[i].enabled);
        i = i + 1;
    }
    assert(adjustments_on(*edit).take(i as int) =~= adjustments_on(*edit));
    v
}

/// The target, when it is one of the adjustments.
pub open spec fn valid_target<N, L, G>(edit: Edit<N, L, G>, target: Option<usize>) -> Option<usize> {
    match target {
        Some(i) => if i < edit.adjustments@.len() {
            Some(i)
        } else {
            None
        },
        None => None,
    }
}

/// A window can count the rows of the edit's lists, and `more` besides.
pub open spec fn countable<N, L, G>(edit: Edit<N, L, G>, more: int) -> bool {
    &&& edit.adjustments@.len() + more < i32::MAX
    &&& edit.patches@.len() + more < i32::MAX
    &&& forall|i: int|
        0 <= i < edit.adjustments@.len() ==> (#[trigger] edit.adjustments@[i]).mask.components@.len()
            + more < i32::MAX
}

/// A window with the target's own controls on it: its name, its switch
/// and its shapes; without a target no name and no feather.
pub open spec fn shows_target<N: Copy, L, G>(
    edit: Edit<N, L, G>,
    target: Option<usize>,
    before: Window<N, L, G>,
    after: Window<N, L, G>,
) -> bool {
    match target {
        Some(i) => {
            let a = edit.adjustments@[i as int];
            let named = Window {
                panel_tab: after.panel_tab,
                adjustment_enabled: a.enabled,
                mask_invert: a.mask.invert,
                adjustment_name: after.adjustment_name,
                target_name: after.target_name,
                component_names: after.component_names,
                component_on: after.component_on,
                ..before
            };
            &&& after.panel_tab@ == "Masks"@
            &&& after.adjustment_name@ == a.name@
            &&& after.target_name@ == a.name@
            &&& text::texts(after.component_names@) == mask::component_texts(a.mask)
            &&& after.component_on@ == mask::components_on(a.mask)
            &&& mask::shows_component(a.mask, named, after)
        },
        None => {
            &&& after.target_name@ == ""@
            &&& after == (Window { target_name: after.target_name, has_feather: false, ..before })
        },
    }
}

/// A window that shows `edit`, its look that of `target`: the lists,
/// the chosen repair, the target's own controls, the look's sliders and
/// the picture's. The tone curve's switch is always the picture's.
pub open spec fn shows_edit<N: Copy, L, G>(
    edit: Edit<N, L, G>,
    target: Option<usize>,
    before: Window<N, L, G>,
    after: Window<N, L, G>,
) -> bool {
    let t = valid_target(edit, target);
    &&& text::texts(after.adjustment_names@) == name_texts(edit)
    &&& after.adjustment_on@ == adjustments_on(edit)
    &&& exists|patched: Window<N, L, G>|
        {
            &&& #[trigger] retouch::shows_patches(edit, before, patched)
            &&& shows_target(
                edit,
                t,
                Window {
                    look: Look { tone: edit.look.tone, sliders: target_look(edit, target).sliders },
                    picture: edit.picture,
                    adjustment_names: after.adjustment_names,
                    adjustment_on: after.adjustment_on,
                    target: match t {
                        Some(i) => (i + 1) as i32,
                        None => 0,
                    },
                    ..patched
                },
                after,
            )
        }
}

/// What showing an edit leaves alone: the words and the tools in hand.
pub proof fn lemma_showing_keeps<N: Copy, L, G>(
    edit: Edit<N, L, G>,
    target: Option<usize>,
    before: Window<N, L, G>,
    after: Window<N, L, G>,
)
    requires
        shows_edit(edit, target, before, after),
    ensures
        after.status == before.status,
        after.placing == before.placing,
        after.placing_into == before.placing_into,
        after.picking == before.picking,
        after.retouch_mode == before.retouch_mode,
        after.show_mask == before.show_mask,
        after.shapes_open == before.shapes_open,
        after.blank == before.blank,
{
}

/// Put an edit on the panel, its look that of `target`.
pub fn show_edit<N: Copy, L: Copy, G: Copy>(
    edit: &Edit<N, L, G>,
    w: &mut Window<N, L, G>,
    target: Option<usize>,
)
    requires
        countable(*edit, 0),
    ensures
        shows_edit(*edit, target, *old(w), *final(w)),
{
    let t: Option<usize> = match target {
        Some(i) => if i < edit.adjustments.len() {
            Some(i)
        } else {
            None
        },
        None => None,
    };
    let sliders = match t {
        Some(i) => edit.adjustments[i].look.sliders,
        None => edit.look.sliders,
    };
    retouch::show_patches(edit, w);
    let ghost patched = *w;
    w.look = Look { tone: edit.look.tone, sliders };
    w.picture = edit.picture;
    show_names(edit, w);
    w.target = match t {
        Some(i) => i as i32 + 1,
        None => 0,
    };
    w.adjustment_on = adjustment_on(edit);
    match t {
        Some(i) => {
            let a = &edit.adjustments[i];
            // A chosen adjustment is edited on the Masks tab.
            w.panel_tab = "Masks".to_owned();
            w.adjustment_enabled = a.enabled;
            w.mask_invert = a.mask.invert;
            w.adjustment_name = a.name.clone();
            w.target_name = a.name.clone();
            w.component_names = mask::component_names(&a.mask);
            w.component_on = mask::component_on(&a.mask);
            mask::show_component(&a.mask, w);
        },
        None => {
            w.target_name = "".to_owned();
            w.has_feather = false;
        },
    }
    assert(retouch::shows_patches(*edit, *old(w), patched));
}

/// A shape with what the panel says of it: a radial's feather, a range's
/// window; any other shape as it is.
pub open spec fn shape_read<N: Copy, L, G>(shape: Shape<N>, w: Window<N, L, G>) -> Shape<N> {
    match shape {
        Shape::Radial { center, radius, angle, .. } => Shape::Radial {
            center,
            radius,
            angle,
            feather: level::held(w.mask_feather, level::ZERO, level::ONE),
        },
        other => mask::range_read(other, w),
    }
}

/// A target with the panel's word on it: its look, its switch, its
/// mask's invert, its name when one is typed, and the chosen shape's
/// own controls.
pub open spec fn target_read<N: Copy, L, G>(
    before: Adjustment<N, L>,
    w: Window<N, L, G>,
    after: Adjustment<N, L>,
) -> bool {
    let which = model::row_of(w.component);
    let c = before.mask.components@;
    &&& after == (Adjustment {
        name: after.name,
        enabled: w.adjustment_enabled,
        mask: Mask { components: after.mask.components, invert: w.mask_invert },
        look: Look { tone: true, sliders: w.look.sliders },
        ..before
    })
    &&& after.name@ == if text::trimmed(w.adjustment_name@).len() == 0 {
        before.name@
    } else {
        text::trimmed(w.adjustment_name@)
    }
    &&& after.mask.components@ == if which < c.len() {
        c.update(
            which,
            Component {
                shape: shape_read(c[which].shape, w),
                invert: w.component_invert,
                ..c[which]
            },
        )
    } else {
        c
    }
}

/// The edit as the panel shows it: `before` with the panel's look on
/// `target`, the panel's word on that adjustment's mask, and what only
/// the whole picture has.
pub open spec fn edit_read<N: Copy, L, G>(
    before: Edit<N, L, G>,
    w: Window<N, L, G>,
    target: Option<usize>,
    after: Edit<N, L, G>,
) -> bool {
    match target {
        None => after == (Edit { look: w.look, picture: w.picture, ..before }),
        Some(i) => {
            &&& after == (Edit {
                look: Look { tone: w.look.tone, ..before.look },
                adjustments: after.adjustments,
                picture: w.picture,
                ..before
            })
            &&& if i < before.adjustments@.len() {
                &&& after.adjustments@ == before.adjustments@.update(
                    i as int,
                    after.adjustments@[i as int],
                )
                &&& target_read(before.adjustments@[i as int], w, after.adjustments@[i as int])
            } else {
                after.adjustments == before.adjustments
            }
        },
    }
}

/// The panel's word on the chosen shape.
fn read_component<N: Copy, L, G>(w: &Window<N, L, G>, c: &mut Component<N>)
    ensures
        *final(c) == (Component {
            shape: shape_read(old(c).shape, *w),
            invert: w.component_invert,
            ..*old(c)
        }),
{
    c.invert = w.component_invert;
    match c.shape.kind() {
        Kind::Radial => {
            match &mut c.shape {
                Shape::Radial { feather, .. } => {
                    *feather = level::hold(w.mask_feather, level::ZERO, level::ONE);
                },
                _ => {},
            }
        },
        _ => {
            mask::read_range(&mut c.shape, w);
        },
    }
}

/// The panel's word on the target.
fn read_target<N: Copy, L: Copy, G>(w: &Window<N, L, G>, a: &mut Adjustment<N, L>)
    ensures
        target_read(*old(a), *w, *final(a)),
{
    // The tone curve's switch is the picture's, not a mask's.
    a.look = Look { tone: true, sliders: w.look.sliders };
    a.enabled = w.adjustment_enabled;
    a.mask.invert = w.mask_invert;
    let name = text::trim_text(w.adjustment_name.as_str());
    if !name.as_str().is_empty() {
        a.name = name;
    }
    let which: usize = model::row(w.component);
    if which < a.mask.components.len() {
        read_component(w, &mut a.mask.components[which]);
    }
}

/// The edit as the panel shows it, put in place of what it was.
pub fn read_edit<N: Copy, L: Copy, G: Copy>(
    w: &Window<N, L, G>,
    edit: &mut Edit<N, L, G>,
    target: Option<usize>,
)
    ensures
        edit_read(*old(edit), *w, target, *final(edit)),
{
    edit.picture = w.picture;
    match target {
        None => {
            edit.look = w.look;
        },
        Some(i) => {
            edit.look.tone = w.look.tone;
            if i < edit.adjustments.len() {
                read_target(w, &mut edit.adjustments[i]);
            }
        },
    }
}


/// Two edits with the same in them.
pub open spec fn same_edit<N, L, G>(a: Edit<N, L, G>, b: Edit<N, L, G>) -> bool {
    &&& a == (Edit { adjustments: a.adjustments, ..b })
    &&& a.adjustments@.len() == b.adjustments@.len()
    &&& forall|i: int|
        0 <= i < b.adjustments@.len() ==> {
            let (x, y) = (#[trigger] a.adjustments@[i], b.adjustments@[i]);
            &&& x.name@ == y.name@
            &&& x.mask.components@ == y.mask.components@
            &&& x == (Adjustment {
                name: x.name,
                mask: Mask { components: x.mask.components, ..y.mask },
                ..y
            })
        }
}

/// A shape whose sliders are within what each takes.
pub open spec fn shape_held<N>(shape: Shape<N>) -> bool {
    match shape {
        Shape::Radial { feather, .. } => level::held(feather, level::ZERO, level::ONE) == feather,
        Shape::Luminance { range } => mask::luminance_held(range) == range,
        Shape::Color { range } => level::on_circle(range.hue) && mask::color_held(range, range.hue)
            == range,
        _ => true,
    }
}

/// A shape read off the panel is within what its sliders take, whatever
/// they were set to, when a hue comes round onto the circle.
pub proof fn a_shape_read_is_held<N: Copy, L, G>(shape: Shape<N>, w: Window<N, L, G>)
    requires
        level::on_circle(w.hue_round),
    ensures
        shape_held(shape_read(shape, w)),
        shape_read(shape, w).of() == shape.of(),
{
}

/// An edit as reading the panel leaves one: an adjustment's name has no
/// spaces around it, its tone curve's switch is on, and its shapes are
/// within what their sliders take.
pub open spec fn reads_so<N, L, G>(edit: Edit<N, L, G>) -> bool {
    forall|i: int|
        0 <= i < edit.adjustments@.len() ==> {
            &&& text::trimmed((#[trigger] edit.adjustments@[i]).name@) == edit.adjustments@[i].name@
            &&& edit.adjustments@[i].look.tone
            &&& forall|k: int|
                0 <= k < edit.adjustments@[i].mask.components@.len() ==> shape_held(
                    (#[trigger] edit.adjustments@[i].mask.components@[k]).shape,
                )
        }
}

/// Reading back what was shown changes nothing: with the panel as it
/// was put up, the edit it holds is the edit that was shown, of an edit
/// as reading the panel leaves one.
pub proof fn what_is_shown_reads_back<N: Copy, L, G>(
    edit: Edit<N, L, G>,
    target: Option<usize>,
    before: Window<N, L, G>,
    shown: Window<N, L, G>,
    read: Edit<N, L, G>,
)
    requires
        countable(edit, 0),
        shows_edit(edit, target, before, shown),
        edit_read(edit, shown, target, read),
        reads_so(edit),
    ensures
        same_edit(read, edit),
{
    match target {
        Some(i) => {
            if i < edit.adjustments@.len() {
                let a = edit.adjustments@[i as int];
                let r = read.adjustments@[i as int];
                let which = model::row_of(shown.component);
                assert(text::trimmed(a.name@) == a.name@);
                assert(shown.adjustment_name@ == a.name@);
                if which < a.mask.components@.len() {
                    let c = a.mask.components@[which];
                    assert(shape_read(c.shape, shown) == c.shape);
                    assert(r.mask.components@ =~= a.mask.components@);
                }
            }
        },
        None => {},
    }
}


// Developing and saving.

/// The lens corrections, as far as the dropper goes: the defringe's
/// switch, and the rest.
#[derive(Debug, Clone, Copy)]
pub struct Lens<T> {
    pub defringe: bool,
    pub rest: T,
}

/// The lens corrections the worker should develop with right now.
/// Normally the edit's own; but the defringe's dropper reads the very
/// fringes the pass takes out, so while it is out the picture is
/// developed with the pass off, which is both what the user needs to
/// see to aim and what the pass itself takes as its input. The edit is
/// not touched: only what is sent to the worker.
pub fn edit_to_develop<T: Copy>(picking: &str, lens: Lens<T>) -> (shown: Lens<T>)
    ensures
        shown == (Lens { defringe: lens.defringe && picking@ != "Defringe"@, ..lens }),
{
    let mut shown = lens;
    if text::same_text(picking, "Defringe") {
        shown.defringe = false;
    }
    shown
}

/// The open frame's quarter turns, for a job the worker develops:
/// the turn is beside the edit on the sidecar, not in it, so every
/// develop has to carry it.
pub fn current_turn(current: Option<usize>, turns: &Vec<u8>) -> (t: u8)
    ensures
        t == match current {
            Some(c) => if c < turns@.len() {
                turns@[c as int]
            } else {
                0
            },
            None => 0u8,
        },
{
    match current {
        Some(c) => if c < turns.len() {
            turns[c]
        } else {
            0
        },
        None => 0,
    }
}

/// How long the sliders must rest before a develop starts, in
/// milliseconds.
pub const DEBOUNCE_MS: u64 = 300;

/// How long they must rest before the sidecar is written.
pub const SAVE_MS: u64 = 800;

/// What is written for a frame.
#[derive(Debug, Clone, Copy, PartialEq, Eq, Structural)]
pub enum Write {
    /// Its meta in an XMP beside it; with the camera's tag known, the
    /// orientation in it too.
    Xmp { orientation: bool },
    Sidecar,
}

/// What is written for a frame, in order. The XMP goes first so that
/// the mark for what it now holds is in the sidecar before the sidecar
/// is written; otherwise the next load would read back what this build
/// just wrote. The sidecar is written whatever became of the XMP.
pub fn write_sidecar(write_sidecars: bool, xmp_sidecars: bool, tagged: bool) -> (v: Vec<Write>)
    ensures
        v@ == if !write_sidecars {
            seq![]
        } else if xmp_sidecars {
            seq![Write::Xmp { orientation: tagged }, Write::Sidecar]
        } else {
            seq![Write::Sidecar]
        },
{
    let mut v: Vec<Write> = Vec::new();
    if !write_sidecars {
        assert(v@ =~= seq![]);
        return v;
    }
    if xmp_sidecars {
        v.push(Write::Xmp { orientation: tagged });
        v.push(Write::Sidecar);
        assert(v@ =~= seq![Write::Xmp { orientation: tagged }, Write::Sidecar]);
    } else {
        v.push(Write::Sidecar);
        assert(v@ =~= seq![Write::Sidecar]);
    }
    v
}

/// Whether the edit just recorded is written, and for which frame: when
/// one is open, the record was news to it, and sidecars are written.
pub fn save_edit(current: Option<usize>, news: bool, write_sidecars: bool) -> (r: Option<usize>)
    ensures
        r == if news && write_sidecars {
            current
        } else {
            None
        },
{
    if news && write_sidecars {
        current
    } else {
        None
    }
}

/// What a develop control does.
#[derive(Debug, Clone, Copy, PartialEq, Eq, Structural)]
pub enum Control {
    /// Out of culling, and the frame develops.
    LeaveCulling,
    /// The picture at once, the save and the develop once it rests.
    Rest,
}

/// A develop control moved, or a repair made: in culling it is the way
/// out of it; else the develop waits until the sliders rest.
pub fn develop_soon(culling: bool) -> (c: Control)
    ensures
        c == if culling {
            Control::LeaveCulling
        } else {
            Control::Rest
        },
{
    if culling {
        Control::LeaveCulling
    } else {
        Control::Rest
    }
}

/// What the panel says of the work in hand.
#[derive(Debug)]
pub struct Work {
    /// The develop last asked for.
    pub generation: u64,
    pub busy: bool,
    pub status: String,
    /// The words left for a develop to carry when it lands.
    pub status_after_develop: Option<String>,
}

/// A develop for the worker.
#[derive(Debug, Clone, Copy, PartialEq, Eq, Structural)]
pub struct Develop {
    pub generation: u64,
    pub turn: u8,
}

/// The develop asked for once the sliders have rested.
pub fn develop_now(work: &mut Work, turn: u8) -> (job: Develop)
    requires
        old(work).generation < u64::MAX,
    ensures
        job == (Develop { generation: (old(work).generation + 1) as u64, turn }),
        final(work).status@ == "developing..."@,
        *final(work) == (Work {
            generation: (old(work).generation + 1) as u64,
            busy: true,
            status: final(work).status,
            ..*old(work)
        }),
{
    work.generation = work.generation + 1;
    work.status = "developing...".to_owned();
    work.busy = true;
    Develop { generation: work.generation, turn }
}

/// A move of the sharpening being timed.
#[derive(Debug, Clone, Copy, PartialEq, Eq, Structural)]
pub enum Timed {
    /// The next move's develop, with how many are left after it; every
    /// other one at the wide radius.
    Move { left: u32, wide: bool, job: Develop },
    Done,
}

/// The next move of the sharpening being timed, of `left` moves: the
/// radius goes between two values, and each is a develop of its own, sent
/// without waiting for the sliders to rest.
pub fn time_sharpen(work: &mut Work, left: u32, turn: u8) -> (t: Timed)
    requires
        left > 0 ==> old(work).generation < u64::MAX,
    ensures
        left == 0 ==> t == Timed::Done && *final(work) == *old(work),
        left > 0 ==> {
            let generation = (old(work).generation + 1) as u64;
            &&& t == (Timed::Move {
                left: (left - 1) as u32,
                wide: (left - 1) % 2 == 1,
                job: Develop { generation, turn },
            })
            &&& *final(work) == (Work { generation, busy: true, ..*old(work) })
        },
{
    if left == 0 {
        return Timed::Done;
    }
    work.generation = work.generation + 1;
    work.busy = true;
    Timed::Move {
        left: left - 1,
        wide: (left - 1) % 2 == 1,
        job: Develop { generation: work.generation, turn },
    }
}

// The sections that fold.

/// The panel's sections that fold, by the names the settings keep them
/// under.
pub open spec fn fold_texts() -> Seq<Seq<char>> {
    seq![
        "navigator"@,
        "culling"@,
        "snapshots"@,
        "history"@,
        "adjustments"@,
        "white-balance"@,
        "light"@,
        "color"@,
        "curves"@,
        "mixer"@,
        "black-and-white"@,
        "grading"@,
        "tint"@,
        "noise"@,
        "lens"@,
        "detail"@,
        "sharpen"@,
        "vignette"@,
        "grain"@,
        "proof"@,
        "monitor"@,
        "crop"@,
        "rotate"@,
        "perspective"@,
        "demosaic"@,
        "camera"@,
        "look"@,
        "retouch"@,
        "presets"@,
    ]
}

pub fn fold_names() -> (v: Vec<&'static str>)
    ensures
        v@.len() == fold_texts().len(),
        forall|i: int| 0 <= i < v@.len() ==> (#[trigger] v@[i])@ == fold_texts()[i],
{
    let mut v: Vec<&'static str> = Vec::new();
    v.push("navigator");
    v.push("culling");
    v.push("snapshots");
    v.push("history");
    v.push("adjustments");
    v.push("white-balance");
    v.push("light");
    v.push("color");
    v.push("curves");
    v.push("mixer");
    v.push("black-and-white");
    v.push("grading");
    v.push("tint");
    v.push("noise");
    v.push("lens");
    v.push("detail");
    v.push("sharpen");
    v.push("vignette");
    v.push("grain");
    v.push("proof");
    v.push("monitor");
    v.push("crop");
    v.push("rotate");
    v.push("perspective");
    v.push("demosaic");
    v.push("camera");
    v.push("look");
    v.push("retouch");
    v.push("presets");
    v
}

/// The Crop tab's one GEOMETRY section, before it became three.
pub open spec fn was_geometry(s: Seq<char>) -> bool {
    s == "crop"@ || s == "rotate"@ || s == "perspective"@
}

/// A list of names that folded the one GEOMETRY section and none of the
/// three it became.
pub open spec fn folds_geometry(collapsed: Seq<Seq<char>>) -> bool {
    &&& collapsed.contains("geometry"@)
    &&& !collapsed.contains("crop"@)
    &&& !collapsed.contains("rotate"@)
    &&& !collapsed.contains("perspective"@)
}

pub open spec fn folded(collapsed: Seq<Seq<char>>, name: Seq<char>) -> bool {
    collapsed.contains(name) || (folds_geometry(collapsed) && was_geometry(name))
}

/// Whether one of `v` is `name`.
pub fn lists(v: &Vec<String>, name: &str) -> (r: bool)
    ensures
        r == text::texts(v@).contains(name@),
{
    let mut i: usize = 0;
    while i < v.len()
        invariant
            i <= v@.len(),
            forall|k: int| 0 <= k < i ==> (#[trigger] v@[k])@ != name@,
        decreases v.len() - i,
    {
        if text::same_text(v[i].as_str(), name) {
            assert(text::texts(v@)[i as int] == name@);
            return true;
        }
        i = i + 1;
    }
    proof {
        if text::texts(v@).contains(name@) {
            let k = choose|k: int| 0 <= k < v@.len() && #[trigger] text::texts(v@)[k] == name@;
            assert(v@[k]@ != name@);
        }
    }
    false
}

/// The sections the last run left folded, one flag a section: a
/// settings file that folded the one GEOMETRY section folds all three.
pub fn show_folds(collapsed: &Vec<String>) -> (flags: Vec<bool>)
    ensures
        flags@.len() == fold_texts().len(),
        forall|i: int|
            0 <= i < flags@.len() ==> #[trigger] flags@[i] == folded(
                text::texts(collapsed@),
                fold_texts()[i],
            ),
{
    let legacy: bool = lists(collapsed, "geometry") && !lists(collapsed, "crop") && !lists(
        collapsed,
        "rotate",
    ) && !lists(collapsed, "perspective");
    let names = fold_names();
    let mut flags: Vec<bool> = Vec::new();
    let mut i: usize = 0;
    while i < names.len()
        invariant
            i <= names@.len(),
            names@.len() == fold_texts().len(),
            forall|k: int| 0 <= k < names@.len() ==> (#[trigger] names@[k])@ == fold_texts()[k],
            legacy == folds_geometry(text::texts(collapsed@)),
            flags@.len() == i,
            forall|k: int|
                0 <= k < i ==> #[trigger] flags@[k] == folded(
                    text::texts(collapsed@),
                    fold_texts()[k],
                ),
        decreases names.len() - i,
    {
        let name = names[i];
        let three: bool = text::same_text(name, "crop") || text::same_text(name, "rotate")
            || text::same_text(name, "perspective");
        flags.push(lists(collapsed, name) || (legacy && three));
        i = i + 1;
    }
    flags
}

/// The names whose flags are up, in order.
pub open spec fn flagged(names: Seq<Seq<char>>, flags: Seq<bool>) -> Seq<Seq<char>>
    decreases flags.len(),
{
    if flags.len() == 0 {
        seq![]
    } else {
        let before = flagged(names, flags.drop_last());
        if flags.last() {
            before.push(names[flags.len() - 1])
        } else {
            before
        }
    }
}

/// The sections folded now, by name.
pub fn read_folds(flags: &Vec<bool>) -> (v: Vec<String>)
    requires
        flags@.len() == fold_texts().len(),
    ensures
        text::texts(v@) == flagged(fold_texts(), flags@),
{
    let names = fold_names();
    let mut v: Vec<String> = Vec::new();
    let mut i: usize = 0;
    assert(flags@.take(0) =~= seq![]);
    assert(text::texts(v@) =~= flagged(fold_texts(), flags@.take(0)));
    while i < flags.len()
        invariant
            i <= flags@.len(),
            flags@.len() == fold_texts().len(),
            names@.len() == fold_texts().len(),
            forall|k: int| 0 <= k < names@.len() ==> (#[trigger] names@[k])@ == fold_texts()[k],
            text::texts(v@) == flagged(fold_texts(), flags@.take(i as int)),
        decreases flags.len() - i,
    {
        let ghost before = v@;
        if flags[i] {
            v.push(names[i].to_owned());
        }
        i = i + 1;
        proof {
            let done = flags@.take(i as int);
            assert(done.drop_last() =~= flags@.take(i - 1));
            if flags@[i - 1] {
                assert(text::texts(v@) =~= text::texts(before).push(fold_texts()[i - 1]));
            }
        }
    }
    assert(flags@.take(i as int) =~= flags@);
    v
}

proof fn lemma_flagged_contains(names: Seq<Seq<char>>, flags: Seq<bool>, name: Seq<char>)
    requires
        flags.len() <= names.len(),
    ensures
        flagged(names, flags).contains(name) <==> exists|i: int|
            0 <= i < flags.len() && #[trigger] flags[i] && names[i] == name,
    decreases flags.len(),
{
    if flags.len() > 0 {
        let less = flags.drop_last();
        lemma_flagged_contains(names, less, name);
        let before = flagged(names, less);
        let all = flagged(names, flags);
        if before.contains(name) {
            let k = choose|k: int| 0 <= k < before.len() && before[k] == name;
            assert(all[k] == name);
            let i = choose|i: int| 0 <= i < less.len() && #[trigger] less[i] && names[i] == name;
            assert(flags[i]);
        }
        if flags.last() && names[flags.len() - 1] == name {
            assert(all[all.len() - 1] == name);
            assert(flags[flags.len() - 1]);
        }
        if all.contains(name) {
            let k = choose|k: int| 0 <= k < all.len() && all[k] == name;
            if k < before.len() {
                assert(before[k] == name);
            }
        }
        if exists|i: int| 0 <= i < flags.len() && #[trigger] flags[i] && names[i] == name {
            let i = choose|i: int| 0 <= i < flags.len() && #[trigger] flags[i] && names[i] == name;
            if i < less.len() {
                assert(less[i]);
            }
        }
    }
}


/// A number that tells the sections' names apart: the length and the
/// first two letters.
spec fn sign_of(s: Seq<char>) -> int {
    s.len() * 1000000 + (s[0] as int) * 1000 + s[1] as int
}

/// Which section a name's number is of.
spec fn place_of(g: int) -> int {
    if g == 9110097 { 0 }
    else if g == 7099117 { 1 }
    else if g == 9115110 { 2 }
    else if g == 7104105 { 3 }
    else if g == 11097100 { 4 }
    else if g == 13119104 { 5 }
    else if g == 5108105 { 6 }
    else if g == 5099111 { 7 }
    else if g == 6099117 { 8 }
    else if g == 5109105 { 9 }
    else if g == 15098108 { 10 }
    else if g == 7103114 { 11 }
    else if g == 4116105 { 12 }
    else if g == 5110111 { 13 }
    else if g == 4108101 { 14 }
    else if g == 6100101 { 15 }
    else if g == 7115104 { 16 }
    else if g == 8118105 { 17 }
    else if g == 5103114 { 18 }
    else if g == 5112114 { 19 }
    else if g == 7109111 { 20 }
    else if g == 4099114 { 21 }
    else if g == 6114111 { 22 }
    else if g == 11112101 { 23 }
    else if g == 8100101 { 24 }
    else if g == 6099097 { 25 }
    else if g == 4108111 { 26 }
    else if g == 7114101 { 27 }
    else if g == 7112114 { 28 }
    else { -1 }
}

proof fn lemma_place_of(i: int)
    requires
        0 <= i < fold_texts().len(),
    ensures
        place_of(sign_of(fold_texts()[i])) == i,
        fold_texts()[i] != "geometry"@,
{
    reveal_strlit("geometry");
    assert(place_of(sign_of("geometry"@)) == -1);
    if i == 0 {
        reveal_strlit("navigator");
        assert(fold_texts()[0] == "navigator"@);
    }
    if i == 1 {
        reveal_strlit("culling");
        assert(fold_texts()[1] == "culling"@);
    }
    if i == 2 {
        reveal_strlit("snapshots");
        assert(fold_texts()[2] == "snapshots"@);
    }
    if i == 3 {
        reveal_strlit("history");
        assert(fold_texts()[3] == "history"@);
    }
    if i == 4 {
        reveal_strlit("adjustments");
        assert(fold_texts()[4] == "adjustments"@);
    }
    if i == 5 {
        reveal_strlit("white-balance");
        assert(fold_texts()[5] == "white-balance"@);
    }
    if i == 6 {
        reveal_strlit("light");
        assert(fold_texts()[6] == "light"@);
    }
    if i == 7 {
        reveal_strlit("color");
        assert(fold_texts()[7] == "color"@);
    }
    if i == 8 {
        reveal_strlit("curves");
        assert(fold_texts()[8] == "curves"@);
    }
    if i == 9 {
        reveal_strlit("mixer");
        assert(fold_texts()[9] == "mixer"@);
    }
    if i == 10 {
        reveal_strlit("black-and-white");
        assert(fold_texts()[10] == "black-and-white"@);
    }
    if i == 11 {
        reveal_strlit("grading");
        assert(fold_texts()[11] == "grading"@);
    }
    if i == 12 {
        reveal_strlit("tint");
        assert(fold_texts()[12] == "tint"@);
    }
    if i == 13 {
        reveal_strlit("noise");
        assert(fold_texts()[13] == "noise"@);
    }
    if i == 14 {
        reveal_strlit("lens");
        assert(fold_texts()[14] == "lens"@);
    }
    if i == 15 {
        reveal_strlit("detail");
        assert(fold_texts()[15] == "detail"@);
    }
    if i == 16 {
        reveal_strlit("sharpen");
        assert(fold_texts()[16] == "sharpen"@);
    }
    if i == 17 {
        reveal_strlit("vignette");
        assert(fold_texts()[17] == "vignette"@);
    }
    if i == 18 {
        reveal_strlit("grain");
        assert(fold_texts()[18] == "grain"@);
    }
    if i == 19 {
        reveal_strlit("proof");
        assert(fold_texts()[19] == "proof"@);
    }
    if i == 20 {
        reveal_strlit("monitor");
        assert(fold_texts()[20] == "monitor"@);
    }
    if i == 21 {
        reveal_strlit("crop");
        assert(fold_texts()[21] == "crop"@);
    }
    if i == 22 {
        reveal_strlit("rotate");
        assert(fold_texts()[22] == "rotate"@);
    }
    if i == 23 {
        reveal_strlit("perspective");
        assert(fold_texts()[23] == "perspective"@);
    }
    if i == 24 {
        reveal_strlit("demosaic");
        assert(fold_texts()[24] == "demosaic"@);
    }
    if i == 25 {
        reveal_strlit("camera");
        assert(fold_texts()[25] == "camera"@);
    }
    if i == 26 {
        reveal_strlit("look");
        assert(fold_texts()[26] == "look"@);
    }
    if i == 27 {
        reveal_strlit("retouch");
        assert(fold_texts()[27] == "retouch"@);
    }
    if i == 28 {
        reveal_strlit("presets");
        assert(fold_texts()[28] == "presets"@);
    }
}

/// The sections folded at the end of a run are folded at the start of
/// the next.
pub proof fn folds_come_back(flags: Seq<bool>, i: int)
    requires
        flags.len() == fold_texts().len(),
        0 <= i < flags.len(),
    ensures
        folded(flagged(fold_texts(), flags), fold_texts()[i]) == flags[i],
{
    let names = fold_texts();
    let kept = flagged(names, flags);
    lemma_place_of(i);
    lemma_flagged_contains(names, flags, names[i]);
    lemma_flagged_contains(names, flags, "geometry"@);
    if kept.contains("geometry"@) {
        let k = choose|k: int| 0 <= k < flags.len() && #[trigger] flags[k] && names[k] == "geometry"@;
        lemma_place_of(k);
    }
    if kept.contains(names[i]) {
        let k = choose|k: int| 0 <= k < flags.len() && #[trigger] flags[k] && names[k] == names[i];
        lemma_place_of(k);
    }
}

// What holds of the panel and the edit.

/// Reading takes what the panel shows, whatever the edit held. With no
/// target the picture's look is the panel's, sliders and all; with one it
/// is that adjustment's sliders, switch and mask, and the picture's own
/// sliders stay. The tone curve's switch and what only the whole picture
/// has are the panel's either way, and all else is as it was.
pub proof fn reading_takes_what_the_panel_shows<N: Copy, L, G>(
    before: Edit<N, L, G>,
    w: Window<N, L, G>,
    target: Option<usize>,
    after: Edit<N, L, G>,
)
    requires
        edit_read(before, w, target, after),
    ensures
        after.picture == w.picture,
        after.look.tone == w.look.tone,
        after.patches == before.patches,
        after.adjustments@.len() == before.adjustments@.len(),
        target is None ==> after.look.sliders == w.look.sliders,
        target is Some ==> after.look.sliders == before.look.sliders,
        forall|j: int|
            0 <= j < before.adjustments@.len() && Some(j as usize) != target
                ==> #[trigger] after.adjustments@[j] == before.adjustments@[j],
        target matches Some(i) ==> (i < before.adjustments@.len() ==> {
            let (a, b) = (before.adjustments@[i as int], after.adjustments@[i as int]);
            &&& b.look.sliders == w.look.sliders
            &&& b.look.tone
            &&& b.enabled == w.adjustment_enabled
            &&& b.mask.invert == w.mask_invert
            &&& b.id == a.id
            &&& b.mask.components@.len() == a.mask.components@.len()
            &&& forall|k: int|
                0 <= k < a.mask.components@.len() && k != w.component && !(w.component < 0 && k
                    == 0) ==> #[trigger] b.mask.components@[k] == a.mask.components@[k]
            &&& 0 <= w.component < a.mask.components@.len() ==> {
                let (c, d) = (
                    a.mask.components@[w.component as int],
                    b.mask.components@[w.component as int],
                );
                &&& d.invert == w.component_invert
                &&& d.enabled == c.enabled
                &&& d.mode == c.mode
                &&& d.shape.of() == c.shape.of()
            }
        }),
{
}

/// The name typed is the target's, without the spaces round it; none typed
/// leaves the one it has.
pub proof fn reading_takes_the_name_typed<N: Copy, L, G>(
    before: Edit<N, L, G>,
    w: Window<N, L, G>,
    i: usize,
    after: Edit<N, L, G>,
)
    requires
        i < before.adjustments@.len(),
        edit_read(before, w, Some(i), after),
    ensures
        w.adjustment_name@.len() == 0 ==> after.adjustments@[i as int].name@
            == before.adjustments@[i as int].name@,
        w.adjustment_name@.len() > 0 && !text::is_space(w.adjustment_name@[0]) && !text::is_space(
            w.adjustment_name@.last(),
        ) ==> after.adjustments@[i as int].name@ == w.adjustment_name@,
{
    let s = w.adjustment_name@;
    let space = |c: char| text::is_space(c);
    if s.len() == 0 {
        text::lemma_trim_start_is(s, space, 0);
        assert(s.skip(0) =~= s);
        text::lemma_trim_end_is(s, space, 0);
        assert(s.take(0) =~= s);
    } else if !text::is_space(s[0]) && !text::is_space(s.last()) {
        text::lemma_trim_start_is(s, space, 0);
        assert(s.skip(0) =~= s);
        text::lemma_trim_end_is(s, space, s.len() as int);
        assert(s.take(s.len() as int) =~= s);
    }
}

/// An edit shown is on the panel: its picture and its tone curve's switch,
/// the sliders of the target where there is such a one and the picture's
/// own where there is none, every adjustment's name and switch in order
/// under the picture's, and the target's own.
pub proof fn showing_puts_the_edit_on_the_panel<N: Copy, L, G>(
    edit: Edit<N, L, G>,
    target: Option<usize>,
    before: Window<N, L, G>,
    after: Window<N, L, G>,
)
    requires
        countable(edit, 0),
        shows_edit(edit, target, before, after),
    ensures
        after.picture == edit.picture,
        after.look.tone == edit.look.tone,
        after.adjustment_names@.len() == edit.adjustments@.len() + 1,
        forall|j: int|
            0 <= j < edit.adjustments@.len() ==> (#[trigger] after.adjustment_names@[j + 1])@
                == edit.adjustments@[j].name@,
        after.adjustment_on@.len() == edit.adjustments@.len(),
        forall|j: int|
            0 <= j < edit.adjustments@.len() ==> #[trigger] after.adjustment_on@[j]
                == edit.adjustments@[j].enabled,
        target is None ==> after.look.sliders == edit.look.sliders && after.target == 0
            && after.target_name@.len() == 0 && after.panel_tab == before.panel_tab,
        target matches Some(i) ==> (i >= edit.adjustments@.len() ==> after.look.sliders
            == edit.look.sliders && after.target == 0),
        target matches Some(i) ==> (i < edit.adjustments@.len() ==> {
            let a = edit.adjustments@[i as int];
            &&& after.look.sliders == a.look.sliders
            &&& after.target == i + 1
            &&& after.adjustment_name@ == a.name@
            &&& after.target_name@ == a.name@
            &&& after.adjustment_enabled == a.enabled
            &&& after.mask_invert == a.mask.invert
            &&& after.panel_tab@ == "Masks"@
            &&& after.component_names@.len() == a.mask.components@.len()
            &&& after.component_on@.len() == a.mask.components@.len()
        }),
{
    reveal_strlit("");
    assert(text::texts(after.adjustment_names@).len() == after.adjustment_names@.len());
    assert forall|j: int| 0 <= j < edit.adjustments@.len() implies (
    #[trigger] after.adjustment_names@[j + 1])@ == edit.adjustments@[j].name@ by {
        assert(text::texts(after.adjustment_names@)[j + 1] == name_texts(edit)[j + 1]);
    }
    match target {
        Some(i) if i < edit.adjustments@.len() => {
            assert(text::texts(after.component_names@).len() == after.component_names@.len());
        },
        _ => {},
    }
}

/// What the panel says reaches the edit and comes back to the panel:
/// whatever was moved on it, once read and shown again the look's sliders,
/// the tone curve's switch and the picture are those that were on it.
pub proof fn what_is_moved_on_the_panel_stays_moved<N: Copy, L, G>(
    before: Edit<N, L, G>,
    w: Window<N, L, G>,
    target: Option<usize>,
    read: Edit<N, L, G>,
    bare: Window<N, L, G>,
    shown: Window<N, L, G>,
)
    requires
        countable(before, 0),
        target matches Some(i) ==> i < before.adjustments@.len(),
        edit_read(before, w, target, read),
        shows_edit(read, target, bare, shown),
    ensures
        shown.look == w.look,
        shown.picture == w.picture,
        target is Some ==> shown.adjustment_enabled == w.adjustment_enabled && shown.mask_invert
            == w.mask_invert,
{
}

/// A settings file from before the sections were parted names the one
/// section they were: its fold is then each of theirs. One that names any
/// of the parted sections speaks for itself, and no other section is
/// folded by another's name.
pub proof fn the_old_section_folds_what_it_was_parted_into(
    collapsed: Seq<Seq<char>>,
    name: Seq<char>,
)
    ensures
        was_geometry("crop"@) && was_geometry("rotate"@) && was_geometry("perspective"@),
        was_geometry(name) ==> name == "crop"@ || name == "rotate"@ || name == "perspective"@,
        !collapsed.contains("geometry"@) ==> !folds_geometry(collapsed),
        collapsed.contains("crop"@) || collapsed.contains("rotate"@) || collapsed.contains(
            "perspective"@,
        ) ==> !folds_geometry(collapsed),
        collapsed.contains("geometry"@) && !collapsed.contains("crop"@) && !collapsed.contains(
            "rotate"@,
        ) && !collapsed.contains("perspective"@) ==> folds_geometry(collapsed),
{
}

} // verus!
