//! Repairs: the patches on the panel, and the tool in hand.

use crate::panel::level::Level;
use crate::panel::level;
use crate::panel::mask::{Editing, Next};
use crate::panel::model::{Edit, Method, Patch, Window};
use crate::text;
use vstd::prelude::*;

verus! {

/// The repair that row `i` of the list names, when there is one.
pub open spec fn patch_row(i: i32, patches: nat) -> Option<usize> {
    if 0 <= i < patches {
        Some(i as usize)
    } else {
        None
    }
}

pub fn patch_at(i: i32, patches: usize) -> (r: Option<usize>)
    ensures
        r == patch_row(i, patches as nat),
{
    if i >= 0 && (i as u64) < patches as u64 {
        Some(i as usize)
    } else {
        None
    }
}

/// A repair's name in the list: how it repairs, and its number.
pub open spec fn patch_text<N>(p: Patch<N>) -> Seq<char> {
    p.method.text() + " "@ + text::decimal(p.id as nat)
}

/// The names the list has.
pub open spec fn patch_texts<N>(patches: Seq<Patch<N>>) -> Seq<Seq<char>> {
    patches.map_values(|p: Patch<N>| patch_text(p))
}

fn patch_names<N>(patches: &Vec<Patch<N>>) -> (v: Vec<String>)
    ensures
        text::texts(v@) == patch_texts(patches@),
{
    let mut v: Vec<String> = Vec::new();
    let mut i: usize = 0;
    while i < patches.len()
        invariant
            i <= patches@.len(),
            v@.len() == i,
            forall|k: int| 0 <= k < i ==> (#[trigger] v@[k])@ == patch_text(patches@[k]),
        decreases patches.len() - i,
    {
        let mut s = patches[i].method.name().to_owned();
        s.append(" ");
        text::put_decimal(&mut s, patches[i].id);
        v.push(s);
        i = i + 1;
    }
    assert(text::texts(v@) =~= patch_texts(patches@));
    v
}

/// A window that lists the repairs and shows the chosen one's values on
/// its sliders; none is chosen when the row it had is not there.
pub open spec fn shows_patches<N: Copy, L, G>(
    edit: Edit<N, L, G>,
    before: Window<N, L, G>,
    after: Window<N, L, G>,
) -> bool {
    &&& text::texts(after.patch_names@) == patch_texts(edit.patches@)
    &&& after == match patch_row(before.patch, edit.patches@.len()) {
        Some(i) => (Window {
            patch_names: after.patch_names,
            patch_size: edit.patches@[i as int].radius,
            patch_feather: edit.patches@[i as int].feather,
            patch_opacity: edit.patches@[i as int].opacity,
            ..before
        }),
        None => (Window { patch_names: after.patch_names, patch: -1i32, ..before }),
    }
}

/// The repairs' names in the list, and the chosen one's values on its
/// sliders.
pub fn show_patches<N: Copy, L, G>(edit: &Edit<N, L, G>, w: &mut Window<N, L, G>)
    ensures
        shows_patches(*edit, *old(w), *final(w)),
{
    w.patch_names = patch_names(&edit.patches);
    match patch_at(w.patch, edit.patches.len()) {
        Some(i) => {
            let p = &edit.patches[i];
            w.patch_size = p.radius;
            w.patch_feather = p.feather;
            w.patch_opacity = p.opacity;
        },
        None => {
            w.patch = -1;
        },
    }
}

/// The repair a button names.
pub open spec fn method_named(s: Seq<char>) -> Option<Method> {
    if s == "Heal"@ {
        Some(Method::Heal)
    } else if s == "Clone"@ {
        Some(Method::Clone)
    } else if s == "Fill"@ {
        Some(Method::Fill)
    } else {
        None
    }
}

pub fn method_of(s: &str) -> (m: Option<Method>)
    ensures
        m == method_named(s@),
{
    if text::same_text(s, "Heal") {
        Some(Method::Heal)
    } else if text::same_text(s, "Clone") {
        Some(Method::Clone)
    } else if text::same_text(s, "Fill") {
        Some(Method::Fill)
    } else {
        None
    }
}

/// What a repair's button did.
#[derive(Debug, Clone, Copy, PartialEq, Eq, Structural)]
pub enum Toggled {
    /// The tool is in hand, or down.
    Done,
    /// A fill needs its model: it is to be offered.
    Offer,
    /// A fill needs its model, and a fetch is running.
    Wait,
}

/// What the status line says with a repair in hand.
pub open spec fn repair_text() -> Seq<char> {
    "click a spot or drag a stroke to repair; scroll for size; drag the pins to move it or its source; Esc or the button when done"@
}

/// A repair's button: the tool in hand, or down when it was in hand or
/// names none. A fill needs its model (`have_fill`) and offers it first.
pub fn retouch_toggled<N, L, G>(
    st: &mut Editing<N, L, G>,
    w: &mut Window<N, L, G>,
    kind: &str,
    have_fill: bool,
    fetching: bool,
) -> (r: Toggled)
    ensures
        ({
            let method = method_named(kind@);
            if method is None || old(st).retouching == method {
                &&& r == Toggled::Done
                &&& *final(st) == (Editing { retouching: None, ..*old(st) })
                &&& *final(w) == (Window {
                    retouch_mode: final(w).retouch_mode,
                    status: final(w).status,
                    ..*old(w)
                })
                &&& final(w).retouch_mode@ == ""@
                &&& final(w).status@ == ""@
            } else if method == Some(Method::Fill) && !have_fill {
                &&& r == if fetching { Toggled::Wait } else { Toggled::Offer }
                &&& *final(st) == *old(st)
                &&& *final(w) == *old(w)
            } else {
                &&& r == Toggled::Done
                &&& *final(st) == (Editing { retouching: method, placing: None, ..*old(st) })
                &&& *final(w) == (Window {
                    placing: final(w).placing,
                    retouch_mode: final(w).retouch_mode,
                    status: final(w).status,
                    ..*old(w)
                })
                &&& final(w).placing@ == ""@
                &&& final(w).retouch_mode@ == kind@
                &&& final(w).status@ == repair_text()
            }
        }),
{
    let method = match method_of(kind) {
        Some(m) => m,
        None => {
            st.retouching = None;
            w.retouch_mode = "".to_owned();
            w.status = "".to_owned();
            return Toggled::Done;
        },
    };
    if let Some(m) = st.retouching {
        if m == method {
            st.retouching = None;
            w.retouch_mode = "".to_owned();
            w.status = "".to_owned();
            return Toggled::Done;
        }
    }
    if method == Method::Fill && !have_fill {
        if fetching {
            return Toggled::Wait;
        } else {
            return Toggled::Offer;
        }
    }
    st.retouching = Some(method);
    st.placing = None;
    w.placing = "".to_owned();
    w.retouch_mode = kind.to_owned();
    w.status =
        "click a spot or drag a stroke to repair; scroll for size; drag the pins to move it or its source; Esc or the button when done".to_owned();
    Toggled::Done
}

/// A repair chosen in the list, or let go of.
pub fn patch_changed<N: Copy, L, G>(
    st: &Editing<N, L, G>,
    w: &mut Window<N, L, G>,
    i: i32,
) -> (next: Next)
    ensures
        next == Next::Redraw,
        shows_patches(st.edit, Window { patch: i, ..*old(w) }, *final(w)),
{
    w.patch = i;
    show_patches(&st.edit, w);
    Next::Redraw
}

/// The chosen repair taken out, the one before it chosen.
pub fn delete_patch<N: Copy, L, G>(
    st: &mut Editing<N, L, G>,
    w: &mut Window<N, L, G>,
) -> (next: Next)
    ensures
        match patch_row(old(w).patch, old(st).edit.patches@.len()) {
            Some(i) => {
                &&& next == Next::DevelopSoon
                &&& *final(st) == (Editing {
                    edit: Edit { patches: final(st).edit.patches, ..old(st).edit },
                    ..*old(st)
                })
                &&& final(st).edit.patches@ == old(st).edit.patches@.remove(i as int)
                &&& shows_patches(
                    final(st).edit,
                    Window { patch: (old(w).patch - 1) as i32, ..*old(w) },
                    *final(w),
                )
            },
            None => next == Next::Nothing && *final(st) == *old(st) && *final(w) == *old(w),
        },
{
    match patch_at(w.patch, st.edit.patches.len()) {
        Some(i) => {
            let _gone = st.edit.patches.remove(i);
            w.patch = w.patch - 1;
            show_patches(&st.edit, w);
            Next::DevelopSoon
        },
        None => Next::Nothing,
    }
}

/// A repair's size within what one can be.
pub open spec fn size_held(v: Level) -> Level {
    level::held(v, level::LEAST_SIZE, level::MOST_REPAIR)
}

pub fn hold_size(v: Level) -> (r: Level)
    ensures
        r == size_held(v),
{
    level::hold(v, level::LEAST_SIZE, level::MOST_REPAIR)
}

/// A repair's feather or opacity within what one can be.
pub open spec fn part_held(v: Level) -> Level {
    level::held(v, level::ZERO, level::ONE)
}

pub fn hold_part(v: Level) -> (r: Level)
    ensures
        r == part_held(v),
{
    level::hold(v, level::ZERO, level::ONE)
}

/// The repairs with the sliders on the chosen one; with none chosen they
/// are as they were.
pub open spec fn edited<N>(
    patches: Seq<Patch<N>>,
    patch: i32,
    size: Level,
    feather: Level,
    opacity: Level,
) -> Seq<Patch<N>> {
    match patch_row(patch, patches.len()) {
        Some(i) => patches.update(
            i as int,
            Patch {
                radius: size_held(size),
                feather: part_held(feather),
                opacity: part_held(opacity),
                ..patches[i as int]
            },
        ),
        None => patches,
    }
}

/// The repair's sliders moved: the chosen repair takes them; with none
/// chosen they set the brush for the next.
pub fn patch_edited<N: Copy, L, G>(st: &mut Editing<N, L, G>, w: &Window<N, L, G>) -> (next: Next)
    ensures
        final(st).edit.patches@ == edited(
            old(st).edit.patches@,
            w.patch,
            w.patch_size,
            w.patch_feather,
            w.patch_opacity,
        ),
        match patch_row(w.patch, old(st).edit.patches@.len()) {
            Some(i) => {
                &&& next == Next::DevelopSoon
                &&& *final(st) == (Editing {
                    edit: Edit { patches: final(st).edit.patches, ..old(st).edit },
                    ..*old(st)
                })
            },
            None => next == Next::Nothing && *final(st) == *old(st),
        },
{
    match patch_at(w.patch, st.edit.patches.len()) {
        Some(i) => {
            st.edit.patches[i].radius = hold_size(w.patch_size);
            st.edit.patches[i].feather = hold_part(w.patch_feather);
            st.edit.patches[i].opacity = hold_part(w.patch_opacity);
            Next::DevelopSoon
        },
        None => Next::Nothing,
    }
}

/// A pin of a repair: its center, or where it is filled from.
#[derive(Debug, Clone, Copy, PartialEq, Eq, Structural)]
pub enum Pin {
    Center,
    Source,
}

/// The pin a press on the chosen repair's handle takes hold of: the center
/// by the first handle, and by one below it where the repair is filled
/// from somewhere.
pub fn patch_grabbed<N: Copy, L, G>(
    st: &Editing<N, L, G>,
    w: &Window<N, L, G>,
    handle: i32,
) -> (r: Option<Pin>)
    ensures
        r == match patch_row(w.patch, st.edit.patches@.len()) {
            Some(i) => if handle != 0 && st.edit.patches@[i as int].source is None {
                None
            } else if handle <= 0 {
                Some(Pin::Center)
            } else {
                Some(Pin::Source)
            },
            None => None::<Pin>,
        },
{
    match patch_at(w.patch, st.edit.patches.len()) {
        Some(i) => {
            if handle != 0 && st.edit.patches[i].source.is_none() {
                None
            } else if handle <= 0 {
                Some(Pin::Center)
            } else {
                Some(Pin::Source)
            }
        },
        None => None,
    }
}

/// A pin dragged: with one held (`pin`) the chosen repair is `moved`, as
/// the pin leaves it.
pub fn patch_dragged<N: Copy, L, G>(
    st: &mut Editing<N, L, G>,
    w: &Window<N, L, G>,
    pin: Option<Pin>,
    moved: Patch<N>,
) -> (next: Next)
    ensures
        next == if pin is Some {
            Next::Redraw
        } else {
            Next::Nothing
        },
        match patch_row(w.patch, old(st).edit.patches@.len()) {
            Some(i) if pin is Some => {
                &&& *final(st) == (Editing {
                    edit: Edit { patches: final(st).edit.patches, ..old(st).edit },
                    ..*old(st)
                })
                &&& final(st).edit.patches@ == old(st).edit.patches@.update(i as int, moved)
            },
            _ => *final(st) == *old(st),
        },
{
    if pin.is_none() {
        return Next::Nothing;
    }
    if let Some(i) = patch_at(w.patch, st.edit.patches.len()) {
        st.edit.patches.set(i, moved);
    }
    Next::Redraw
}

/// The pin let go: the repair as it now is develops, when one was held.
pub fn patch_dropped(pin: &mut Option<Pin>) -> (next: Next)
    ensures
        *final(pin) is None,
        next == if *old(pin) is Some {
            Next::DevelopSoon
        } else {
            Next::Nothing
        },
{
    let held: bool = pin.is_some();
    *pin = None;
    if held {
        Next::DevelopSoon
    } else {
        Next::Nothing
    }
}

/// With no repair chosen the sliders touch none of them; with one chosen
/// they touch no other, nor how many there are.
pub proof fn the_sliders_touch_the_chosen_repair_alone<N>(
    patches: Seq<Patch<N>>,
    patch: i32,
    size: Level,
    feather: Level,
    opacity: Level,
)
    ensures
        patch < 0 ==> edited(patches, patch, size, feather, opacity) == patches,
        edited(patches, patch, size, feather, opacity).len() == patches.len(),
        forall|k: int|
            0 <= k < patches.len() && k != patch ==> #[trigger] edited(
                patches,
                patch,
                size,
                feather,
                opacity,
            )[k] == patches[k],
{
}

/// A row of the list is a repair where there is one, and none off the list.
pub proof fn a_row_is_its_repair(i: i32, patches: nat)
    requires
        patches <= i32::MAX,
    ensures
        0 <= i < patches ==> (patch_row(i, patches) matches Some(k) && k == i),
        i < 0 || i >= patches ==> patch_row(i, patches) is None,
{
}

/// The chosen repair's sliders are its own, and with none chosen none of
/// them moves; the list has every repair, each by how it repairs and its
/// number.
pub proof fn the_chosen_repair_is_on_the_sliders<N: Copy, L, G>(
    edit: Edit<N, L, G>,
    before: Window<N, L, G>,
    after: Window<N, L, G>,
)
    requires
        edit.patches@.len() <= i32::MAX,
        shows_patches(edit, before, after),
    ensures
        0 <= before.patch < edit.patches@.len() ==> {
            let p = edit.patches@[before.patch as int];
            &&& after.patch == before.patch
            &&& after.patch_size == p.radius
            &&& after.patch_feather == p.feather
            &&& after.patch_opacity == p.opacity
        },
        before.patch < 0 || before.patch >= edit.patches@.len() ==> after.patch == -1
            && after.patch_size == before.patch_size && after.patch_feather
            == before.patch_feather && after.patch_opacity == before.patch_opacity,
        after.patch_names@.len() == edit.patches@.len(),
        forall|i: int|
            0 <= i < edit.patches@.len() ==> (#[trigger] after.patch_names@[i])@
                == edit.patches@[i].method.text() + " "@ + text::decimal(
                edit.patches@[i].id as nat,
            ),
        after.look == before.look && after.picture == before.picture,
{
    assert(text::texts(after.patch_names@).len() == after.patch_names@.len());
    assert forall|i: int| 0 <= i < edit.patches@.len() implies (
    #[trigger] after.patch_names@[i])@ == edit.patches@[i].method.text() + " "@ + text::decimal(
        edit.patches@[i].id as nat,
    ) by {
        assert(text::texts(after.patch_names@)[i] == patch_texts(edit.patches@)[i]);
    }
}

/// The sliders set the chosen repair: its size, its feather and its opacity
/// are theirs, within what a repair takes, and its place, its way and its
/// source stay.
pub proof fn the_sliders_set_the_chosen_repair<N>(
    patches: Seq<Patch<N>>,
    patch: i32,
    size: Level,
    feather: Level,
    opacity: Level,
)
    requires
        0 <= patch < patches.len() <= i32::MAX,
    ensures
        ({
            let (p, q) = (
                patches[patch as int],
                edited(patches, patch, size, feather, opacity)[patch as int],
            );
            &&& level::LEAST_SIZE <= size <= level::MOST_REPAIR ==> q.radius == size
            &&& 0 <= size < level::LEAST_SIZE ==> q.radius == level::LEAST_SIZE
            &&& level::MOST_REPAIR < size <= level::INFINITY ==> q.radius == level::MOST_REPAIR
            &&& 0 <= feather <= level::ONE ==> q.feather == feather
            &&& 0 <= opacity <= level::ONE ==> q.opacity == opacity
            &&& level::ONE < feather <= level::INFINITY ==> q.feather == level::ONE
            &&& level::ONE < opacity <= level::INFINITY ==> q.opacity == level::ONE
            &&& q.id == p.id && q.method == p.method && q.points == p.points && q.source
                == p.source
        }),
{
}

/// A button is named for the way it repairs.
pub proof fn a_button_names_its_way(m: Method)
    ensures
        method_named(m.text()) == Some(m),
        m is Heal <==> m.text() == "Heal"@,
        m is Clone <==> m.text() == "Clone"@,
        m is Fill <==> m.text() == "Fill"@,
{
    reveal_strlit("Heal");
    reveal_strlit("Clone");
    reveal_strlit("Fill");
    assert("Heal"@[0] != "Fill"@[0]);
    assert("Heal"@.len() != "Clone"@.len());
    assert("Fill"@.len() != "Clone"@.len());
}

} // verus!
