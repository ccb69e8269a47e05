//! One frame of the viewport: what it is drawn from, what is drawn over
//! it, and what it lets go of.

use crate::panel::color::WhiteKey;
use crate::panel::deliver;
use crate::panel::mask::Editing;
use crate::panel::model;
use crate::panel::model::{Component, Edit, Shape, Window};
use crate::panel::placeholder;
use crate::panel::placeholder::{Desk, Screen, Shot};
use crate::panel::retouch;
use crate::panel::startup;
use crate::text;
use vstd::prelude::*;

verus! {

/// The edit a frame is drawn with.
#[derive(Debug, Clone, Copy, PartialEq, Eq, Structural)]
pub enum Basis {
    /// The one the picture still on screen was developed with: the open
    /// frame is already the next one.
    Held,
    /// The state of the history's row under the pointer.
    Peeked,
    /// The panel's.
    Panel,
}

/// The edit to draw with: a held picture's own, else the row's under the
/// pointer, else the panel's.
pub fn basis(held: bool, peeked: bool) -> (b: Basis)
    ensures
        b == if held {
            Basis::Held
        } else if peeked {
            Basis::Peeked
        } else {
            Basis::Panel
        },
{
    if held {
        Basis::Held
    } else if peeked {
        Basis::Peeked
    } else {
        Basis::Panel
    }
}

/// The size the picture on screen is drawn at: this frame's develop once
/// it has landed (`own`), and until then the one still on the GPU
/// (`shown`), which a frame chosen leaves where it is.
pub fn drawn_source(own: (u32, u32), shown: (u32, u32)) -> (r: (u32, u32))
    ensures
        r == if own.0 > 0 && own.1 > 0 {
            own
        } else {
            shown
        },
{
    if own.0 > 0 && own.1 > 0 {
        own
    } else {
        shown
    }
}

/// The white balance to preview: the row's under the pointer, else the
/// panel's. None for a held picture, which was developed at its own.
pub fn white_drawn<N: Copy>(
    held: bool,
    peeked: Option<WhiteKey<N>>,
    panel: WhiteKey<N>,
) -> (r: Option<WhiteKey<N>>)
    ensures
        r == if held {
            None
        } else {
            Some(
                match peeked {
                    Some(key) => key,
                    None => panel,
                },
            )
        },
{
    if held {
        None
    } else {
        match peeked {
            Some(key) => Some(key),
            None => Some(panel),
        }
    }
}

/// The chosen patch, while the tool is in hand, and whether it has a
/// source to draw a second handle at.
pub open spec fn patch_handles_of<N, L, G>(
    edit: Edit<N, L, G>,
    retouching: bool,
    patch: i32,
) -> Option<(usize, bool)> {
    match retouch::patch_row(patch, edit.patches@.len()) {
        Some(i) if retouching => Some((i, edit.patches@[i as int].source is Some)),
        _ => None,
    }
}

/// The chosen patch's handles: its center's, and its source's.
pub fn patch_handles<N, L, G>(edit: &Edit<N, L, G>, retouching: bool, patch: i32) -> (r: Option<
    (usize, bool),
>)
    ensures
        r == patch_handles_of(*edit, retouching, patch),
{
    match retouch::patch_at(patch, edit.patches.len()) {
        Some(i) => if retouching {
            Some((i, edit.patches[i].source.is_some()))
        } else {
            None
        },
        None => None,
    }
}

/// The patch whose outline shows: the chosen one, on the Retouch tab.
pub fn patch_outlined<N, L, G>(edit: &Edit<N, L, G>, w: &Window<N, L, G>) -> (r: Option<usize>)
    ensures
        r == if w.panel_tab@ == "Retouch"@ {
            retouch::patch_row(w.patch, edit.patches@.len())
        } else {
            None
        },
{
    if text::same_text(w.panel_tab.as_str(), "Retouch") {
        retouch::patch_at(w.patch, edit.patches.len())
    } else {
        None
    }
}

/// A shape, by its adjustment and its place in the mask.
#[derive(Debug, Clone, Copy, PartialEq, Eq, Structural)]
pub struct At {
    pub adjustment: usize,
    pub component: usize,
}

/// The shape at a place, when there is one.
pub open spec fn shape_at<N, L, G>(edit: Edit<N, L, G>, adjustment: int, component: int) -> Option<
    Component<N>,
> {
    if 0 <= adjustment < edit.adjustments@.len() && 0 <= component
        < edit.adjustments@[adjustment].mask.components@.len() {
        Some(edit.adjustments@[adjustment].mask.components@[component])
    } else {
        None
    }
}

fn is_there<N, L, G>(edit: &Edit<N, L, G>, at: At) -> (r: bool)
    ensures
        r == (shape_at(*edit, at.adjustment as int, at.component as int) is Some),
{
    at.adjustment < edit.adjustments.len() && at.component
        < edit.adjustments[at.adjustment].mask.components.len()
}

/// The shape whose handles show: the target's chosen one, while nothing
/// is being cropped or placed.
pub open spec fn chosen_of<N, L, G>(
    st: Editing<N, L, G>,
    drawn: Edit<N, L, G>,
    crop_mode: bool,
    component: i32,
) -> Option<At> {
    match st.target {
        Some(i) => if !crop_mode && st.placing is None && shape_at(
            drawn,
            i as int,
            model::row_of(component),
        ) is Some {
            Some(At { adjustment: i, component: model::row_of(component) as usize })
        } else {
            None
        },
        None => None,
    }
}

/// The shape whose handles and outline show on the view.
pub fn chosen_shape<N, L, G>(
    st: &Editing<N, L, G>,
    drawn: &Edit<N, L, G>,
    crop_mode: bool,
    component: i32,
) -> (r: Option<At>)
    ensures
        r == chosen_of(*st, *drawn, crop_mode, component),
{
    match st.target {
        Some(i) => {
            let at = At { adjustment: i, component: model::row(component) };
            if !crop_mode && st.placing.is_none() && is_there(drawn, at) {
                Some(at)
            } else {
                None
            }
        },
        None => None,
    }
}

pub open spec fn is_object<N>(c: Component<N>) -> bool {
    c.shape is Object
}

/// The object whose boxes and picks show: the chosen one, or, with the
/// tool in hand, the one it adds to.
pub open spec fn object_of<N, L, G>(
    st: Editing<N, L, G>,
    drawn: Edit<N, L, G>,
    chosen: Option<At>,
) -> Option<At> {
    let at = match st.placing {
        Some(p) => match p.component {
            Some(c) => Some(At { adjustment: p.index, component: c }),
            None => None,
        },
        None => chosen,
    };
    match at {
        Some(at) => match shape_at(drawn, at.adjustment as int, at.component as int) {
            Some(c) => if is_object(c) {
                Some(at)
            } else {
                None
            },
            None => None,
        },
        None => None,
    }
}

/// An object's boxes and picks: the chosen one's, or, with the tool in
/// hand, the one it adds to.
pub fn object_shown<N, L, G>(
    st: &Editing<N, L, G>,
    drawn: &Edit<N, L, G>,
    chosen: Option<At>,
) -> (r: Option<At>)
    ensures
        r == object_of(*st, *drawn, chosen),
{
    let at: Option<At> = match &st.placing {
        Some(p) => match p.component {
            Some(c) => Some(At { adjustment: p.index, component: c }),
            None => None,
        },
        None => chosen,
    };
    match at {
        Some(at) => {
            if !is_there(drawn, at) {
                return None;
            }
            let object: bool = match &drawn.adjustments[at.adjustment].mask.components[at.component].shape {
                Shape::Object { .. } => true,
                _ => false,
            };
            if object {
                Some(at)
            } else {
                None
            }
        },
        None => None,
    }
}

/// What a capture of the viewport waits on.
#[derive(Debug, Clone, Copy, PartialEq, Eq, Structural)]
pub struct Pending {
    /// The renderer has a picture.
    pub has_image: bool,
    /// No learned mask is still asked for.
    pub quiet: bool,
    /// The pictures the grid shows are there.
    pub grid_filled: bool,
    /// A turn is still to be pressed: a capture now would be of the frame
    /// as it was.
    pub awaiting_turn: bool,
    /// The index is still to name the chips the filter means.
    pub awaiting_index: bool,
    /// The capture is of a camera picture standing in, never of a
    /// develop.
    pub placeholder: bool,
}

/// Whether a capture of the viewport goes with this frame.
pub fn capture_ready(p: Pending) -> (r: bool)
    ensures
        r == (p.has_image && p.quiet && p.grid_filled && !p.awaiting_turn && !p.awaiting_index
            && !p.placeholder),
{
    p.has_image && p.quiet && p.grid_filled && !p.awaiting_turn && !p.awaiting_index
        && !p.placeholder
}

/// What a run capturing a placeholder does when a develop lands.
#[derive(Debug, Clone, Copy, PartialEq, Eq, Structural)]
pub enum Landed {
    Nothing,
    /// On to the next frame, so that the capture is of its camera
    /// picture.
    Steps,
    /// The capture is taken and the develop it stood in for has landed:
    /// the run ends here rather than in the middle of that develop.
    Ends,
}

/// A run that captures a placeholder steps on while the capture is still
/// to take (`waiting`), and ends once it is taken.
pub fn placeholder_landed(placeholder: bool, waiting: bool, batch: bool) -> (l: Landed)
    ensures
        l == if !placeholder {
            Landed::Nothing
        } else if waiting {
            Landed::Steps
        } else if batch {
            Landed::Ends
        } else {
            Landed::Nothing
        },
{
    if !placeholder {
        Landed::Nothing
    } else if waiting {
        Landed::Steps
    } else if batch {
        Landed::Ends
    } else {
        Landed::Nothing
    }
}

/// A develop that has landed and is yet to be drawn: which it is, and its
/// size.
#[derive(Debug, Clone, Copy, PartialEq, Eq, Structural)]
pub struct Arrived {
    pub generation: u64,
    pub width: u32,
    pub height: u32,
}

/// What a frame of the viewport draws.
#[derive(Debug, Clone, Copy, PartialEq, Eq, Structural)]
pub enum Viewed {
    /// The culling loupe, or the camera's picture standing in.
    Loupe,
    Develop,
}

/// The desk with a develop of the open frame on it: its size, in the
/// words under the picture too.
pub open spec fn develop_shown(before: Desk, a: Arrived, after: Desk) -> bool {
    &&& after.screen.shot.size@ == startup::size_words(a.width, a.height)
    &&& after == (Desk {
        source_size: (a.width, a.height),
        developed: true,
        screen: Screen {
            shot: Shot { size: after.screen.shot.size, ..before.screen.shot },
            ..before.screen
        },
        ..before
    })
}

fn show_develop(d: &mut Desk, a: Arrived)
    ensures
        develop_shown(*old(d), a, *final(d)),
{
    d.source_size = (a.width, a.height);
    d.developed = true;
    d.screen.shot.size = startup::size_text(a.width, a.height);
}

/// The desk after a develop arrived, before it is drawn.
pub open spec fn arrived(before: Desk, a: Option<Arrived>, after: Desk) -> bool {
    match a {
        Some(a) => deliver::came(before, a.generation, after),
        None => after == before,
    }
}

/// A frame of the viewport begins, with a develop that arrived since the
/// last or none. The develop the camera's picture was standing in for
/// takes its place, that one or a later one of the same frame; one asked
/// for before the frame was chosen leaves it standing. Neither culling
/// nor a camera picture standing in draws the develop.
pub fn frame_begun(d: &mut Desk, a: Option<Arrived>) -> (v: Viewed)
    requires
        old(d).wf(),
    ensures
        final(d).wf(),
        exists|t: Desk|
            {
                &&& #[trigger] arrived(*old(d), a, t)
                &&& if t.cull is Some || placeholder::stands_in(t) is Some {
                    v == Viewed::Loupe && *final(d) == t
                } else {
                    &&& v == Viewed::Develop
                    &&& match a {
                        Some(a) => develop_shown(t, a, *final(d)),
                        None => *final(d) == t,
                    }
                }
            },
{
    if let Some(a) = a {
        let _stood = placeholder::develop_landed(d, a.generation);
    }
    let ghost t = *d;
    assert(arrived(*old(d), a, t));
    if d.cull.is_some() || placeholder::standing_in(d).is_some() {
        return Viewed::Loupe;
    }
    if let Some(a) = a {
        show_develop(d, a);
    }
    Viewed::Develop
}

/// Out of culling, the develop waited on, or a later one, is what the
/// frame it arrives with draws: no camera picture stands in over it, and
/// the open frame's size is its own.
pub proof fn a_develop_drawn_is_the_one_that_arrived(before: Desk, a: Arrived, t: Desk, after: Desk)
    requires
        before.cull is None,
        before.placeholder matches Some(w) ==> a.generation >= w.generation,
        arrived(before, Some(a), t),
        develop_shown(t, a, after),
    ensures
        t.cull is None,
        placeholder::stands_in(t) is None,
        after.source_size == (a.width, a.height),
{
}

/// Handles are drawn for the repair of the chosen row, while repairs are
/// being made and there is such a row; there is a second where it has a
/// source.
pub proof fn the_handles_are_of_the_chosen_repair<N, L, G>(
    edit: Edit<N, L, G>,
    retouching: bool,
    patch: i32,
)
    ensures
        patch_handles_of(edit, retouching, patch) is Some <==> retouching && 0 <= patch
            < edit.patches@.len(),
        patch_handles_of(edit, retouching, patch) matches Some((i, two)) ==> i == patch && (two
            <==> edit.patches@[patch as int].source is Some),
{
}

/// A shape is looked up by its adjustment and its place in that mask, and
/// there is none past either end.
pub proof fn a_shape_is_where_it_stands<N, L, G>(
    edit: Edit<N, L, G>,
    adjustment: int,
    component: int,
)
    ensures
        adjustment < 0 || component < 0 || adjustment >= edit.adjustments@.len() ==> shape_at(
            edit,
            adjustment,
            component,
        ) is None,
        0 <= adjustment < edit.adjustments@.len() && component
            >= edit.adjustments@[adjustment].mask.components@.len() ==> shape_at(
            edit,
            adjustment,
            component,
        ) is None,
        0 <= adjustment < edit.adjustments@.len() && 0 <= component
            < edit.adjustments@[adjustment].mask.components@.len() ==> shape_at(
            edit,
            adjustment,
            component,
        ) == Some(edit.adjustments@[adjustment].mask.components@[component]),
{
}

/// The shape whose handles are drawn is the one chosen of the adjustment
/// in hand: it is there in the edit that is drawn, and none is drawn
/// while cropping or placing.
pub proof fn the_shape_drawn_is_the_one_in_hand<N, L, G>(
    st: Editing<N, L, G>,
    drawn: Edit<N, L, G>,
    crop_mode: bool,
    component: i32,
)
    ensures
        crop_mode || st.placing is Some || st.target is None ==> chosen_of(
            st,
            drawn,
            crop_mode,
            component,
        ) is None,
        chosen_of(st, drawn, crop_mode, component) matches Some(at) ==> {
            &&& st.target == Some(at.adjustment)
            &&& at.adjustment < drawn.adjustments@.len()
            &&& at.component < drawn.adjustments@[at.adjustment as int].mask.components@.len()
            &&& component >= 0 ==> at.component == component
            &&& component < 0 ==> at.component == 0
        },
        !crop_mode && st.placing is None && component >= 0 ==> (st.target matches Some(i) ==> (i
            < drawn.adjustments@.len() && component
            < drawn.adjustments@[i as int].mask.components@.len() ==> chosen_of(
            st,
            drawn,
            crop_mode,
            component,
        ) == Some(At { adjustment: i, component: component as usize }))),
{
}

/// The object whose picks are drawn is the one being placed, or else the
/// one chosen, and it is drawn only where an object stands there.
pub proof fn the_object_drawn_is_an_object<N, L, G>(
    st: Editing<N, L, G>,
    drawn: Edit<N, L, G>,
    chosen: Option<At>,
)
    ensures
        object_of(st, drawn, chosen) matches Some(at) ==> {
            &&& at.adjustment < drawn.adjustments@.len()
            &&& at.component < drawn.adjustments@[at.adjustment as int].mask.components@.len()
            &&& drawn.adjustments@[at.adjustment as int].mask.components@[at.component as int].shape
                is Object
            &&& st.placing is None ==> chosen == Some(at)
            &&& st.placing matches Some(p) ==> p.index == at.adjustment && p.component == Some(
                at.component,
            )
        },
        st.placing is None ==> (chosen matches Some(at) ==> (at.adjustment
            < drawn.adjustments@.len() && at.component
            < drawn.adjustments@[at.adjustment as int].mask.components@.len()
            && drawn.adjustments@[at.adjustment as int].mask.components@[at.component as int].shape
            is Object ==> object_of(st, drawn, chosen) == Some(at))),
        st.placing matches Some(p) ==> (p.component matches Some(c) ==> (p.index
            < drawn.adjustments@.len() && c
            < drawn.adjustments@[p.index as int].mask.components@.len()
            && drawn.adjustments@[p.index as int].mask.components@[c as int].shape is Object
            ==> object_of(st, drawn, chosen) == Some(At { adjustment: p.index, component: c }))),
{
}

/// A develop on the screen is there with its size, and nothing but the
/// size is said of it: the folder, the marks, what is waited on and the
/// rest of the window stay.
pub proof fn a_develop_shown_is_its_size(before: Desk, a: Arrived, after: Desk)
    requires
        develop_shown(before, a, after),
    ensures
        after.developed,
        after.source_size == (a.width, a.height),
        after.screen.shot.size@ == text::decimal(a.width as nat) + " \u{d7} "@ + text::decimal(
            a.height as nat,
        ) + " \u{b7} "@ + startup::megapixels_text(a.width * a.height) + " MP"@,
        after.screen.shot.camera == before.screen.shot.camera,
        after.screen.shot.exposure == before.screen.shot.exposure,
        after.screen.file_name == before.screen.file_name,
        after.screen.culling == before.screen.culling,
        after.screen.placeholder == before.screen.placeholder,
        after.browser == before.browser,
        after.cull == before.cull,
        after.hold == before.hold,
        after.placeholder == before.placeholder,
        after.work == before.work,
        after.hands == before.hands,
        after.fitted == before.fitted,
        after.image_size == before.image_size,
{
}

/// With no develop there is nothing new on the desk; one asked for before
/// the frame waited on leaves the wait, and that one or a later one ends
/// it.
pub proof fn a_develop_ends_the_wait_for_it(before: Desk, a: Option<Arrived>, after: Desk)
    requires
        arrived(before, a, after),
    ensures
        a is None ==> after == before,
        before.placeholder is None ==> after == before,
        a matches Some(d) ==> (before.placeholder matches Some(w) ==> (if d.generation
            < w.generation {
            after == before
        } else {
            after.placeholder is None
        })),
        after.browser == before.browser,
{
}

} // verus!
