//! An edit copied whole: a frame's own is kept beside it while the panel
//! has another.

use crate::panel::model::{Adjustment, Component, Edit, Mask, Patch, Shape, Stroke};
use vstd::prelude::*;

verus! {

/// Two strokes of the same brush through the same points.
pub open spec fn same_stroke<N>(a: Stroke<N>, b: Stroke<N>) -> bool {
    a.brush == b.brush && a.points@ == b.points@
}

pub open spec fn same_shape<N>(a: Shape<N>, b: Shape<N>) -> bool {
    match (a, b) {
        (Shape::Brush { strokes: s }, Shape::Brush { strokes: t }) => {
            &&& s@.len() == t@.len()
            &&& forall|i: int| 0 <= i < s@.len() ==> same_stroke(#[trigger] s@[i], t@[i])
        },
        (Shape::Sky { picks: p }, Shape::Sky { picks: q }) => p@ == q@,
        (Shape::Object { picks: p, boxes: c }, Shape::Object { picks: q, boxes: d }) => p@ == q@
            && c@ == d@,
        _ => a == b,
    }
}

pub open spec fn same_component<N>(a: Component<N>, b: Component<N>) -> bool {
    &&& same_shape(a.shape, b.shape)
    &&& a.mode == b.mode
    &&& a.invert == b.invert
    &&& a.enabled == b.enabled
}

pub open spec fn same_mask<N>(a: Mask<N>, b: Mask<N>) -> bool {
    &&& a.invert == b.invert
    &&& a.components@.len() == b.components@.len()
    &&& forall|i: int|
        0 <= i < a.components@.len() ==> same_component(
            #[trigger] a.components@[i],
            b.components@[i],
        )
}

pub open spec fn same_adjustment<N, L>(a: Adjustment<N, L>, b: Adjustment<N, L>) -> bool {
    &&& a.id == b.id
    &&& a.name@ == b.name@
    &&& a.enabled == b.enabled
    &&& same_mask(a.mask, b.mask)
    &&& a.look == b.look
}

pub open spec fn same_patch<N>(a: Patch<N>, b: Patch<N>) -> bool {
    a.points@ == b.points@ && b == (Patch { points: b.points, ..a })
}

/// Two edits that say the same of a picture.
pub open spec fn same_edit<N, L, G>(a: Edit<N, L, G>, b: Edit<N, L, G>) -> bool {
    &&& a.look == b.look
    &&& a.picture == b.picture
    &&& a.adjustments@.len() == b.adjustments@.len()
    &&& forall|i: int|
        0 <= i < a.adjustments@.len() ==> same_adjustment(
            #[trigger] a.adjustments@[i],
            b.adjustments@[i],
        )
    &&& a.patches@.len() == b.patches@.len()
    &&& forall|i: int|
        0 <= i < a.patches@.len() ==> same_patch(#[trigger] a.patches@[i], b.patches@[i])
}

fn copy_list<T: Copy>(v: &Vec<T>) -> (r: Vec<T>)
    ensures
        r@ == v@,
{
    let mut r: Vec<T> = Vec::new();
    let mut i: usize = 0;
    while i < v.len()
        invariant
            i <= v@.len(),
            r@ == v@.take(i as int),
        decreases v.len() - i,
    {
        r.push(v[i]);
        i = i + 1;
        assert(r@ =~= v@.take(i as int));
    }
    assert(v@.take(i as int) =~= v@);
    r
}

fn copy_strokes<N: Copy>(v: &Vec<Stroke<N>>) -> (r: Vec<Stroke<N>>)
    ensures
        r@.len() == v@.len(),
        forall|i: int| 0 <= i < v@.len() ==> same_stroke(#[trigger] v@[i], r@[i]),
{
    let mut r: Vec<Stroke<N>> = Vec::new();
    let mut i: usize = 0;
    while i < v.len()
        invariant
            i <= v@.len(),
            r@.len() == i,
            forall|k: int| 0 <= k < i ==> same_stroke(#[trigger] v@[k], r@[k]),
        decreases v.len() - i,
    {
        r.push(Stroke { brush: v[i].brush, points: copy_list(&v[i].points) });
        i = i + 1;
    }
    r
}

fn copy_shape<N: Copy>(s: &Shape<N>) -> (r: Shape<N>)
    ensures
        same_shape(*s, r),
{
    match s {
        Shape::Linear { from, to } => Shape::Linear { from: *from, to: *to },
        Shape::Radial { center, radius, angle, feather } => Shape::Radial {
            center: *center,
            radius: *radius,
            angle: *angle,
            feather: *feather,
        },
        Shape::Brush { strokes } => Shape::Brush { strokes: copy_strokes(strokes) },
        Shape::Subject => Shape::Subject,
        Shape::Sky { picks } => Shape::Sky { picks: copy_list(picks) },
        Shape::Object { picks, boxes } => Shape::Object {
            picks: copy_list(picks),
            boxes: copy_list(boxes),
        },
        Shape::Luminance { range } => Shape::Luminance { range: *range },
        Shape::Color { range } => Shape::Color { range: *range },
        Shape::Unknown => Shape::Unknown,
    }
}

fn copy_mask<N: Copy>(m: &Mask<N>) -> (r: Mask<N>)
    ensures
        same_mask(*m, r),
{
    let v = &m.components;
    let mut components: Vec<Component<N>> = Vec::new();
    let mut i: usize = 0;
    while i < v.len()
        invariant
            i <= v@.len(),
            components@.len() == i,
            forall|k: int| 0 <= k < i ==> same_component(#[trigger] v@[k], components@[k]),
        decreases v.len() - i,
    {
        let c = &v[i];
        components.push(
            Component {
                shape: copy_shape(&c.shape),
                mode: c.mode,
                invert: c.invert,
                enabled: c.enabled,
            },
        );
        i = i + 1;
    }
    Mask { components, invert: m.invert }
}

fn copy_adjustments<N: Copy, L: Copy>(v: &Vec<Adjustment<N, L>>) -> (r: Vec<Adjustment<N, L>>)
    ensures
        r@.len() == v@.len(),
        forall|i: int| 0 <= i < v@.len() ==> same_adjustment(#[trigger] v@[i], r@[i]),
{
    let mut r: Vec<Adjustment<N, L>> = Vec::new();
    let mut i: usize = 0;
    while i < v.len()
        invariant
            i <= v@.len(),
            r@.len() == i,
            forall|k: int| 0 <= k < i ==> same_adjustment(#[trigger] v@[k], r@[k]),
        decreases v.len() - i,
    {
        let a = &v[i];
        r.push(
            Adjustment {
                id: a.id,
                name: a.name.clone(),
                enabled: a.enabled,
                mask: copy_mask(&a.mask),
                look: a.look,
            },
        );
        i = i + 1;
    }
    r
}

fn copy_patches<N: Copy>(v: &Vec<Patch<N>>) -> (r: Vec<Patch<N>>)
    ensures
        r@.len() == v@.len(),
        forall|i: int| 0 <= i < v@.len() ==> same_patch(#[trigger] v@[i], r@[i]),
{
    let mut r: Vec<Patch<N>> = Vec::new();
    let mut i: usize = 0;
    while i < v.len()
        invariant
            i <= v@.len(),
            r@.len() == i,
            forall|k: int| 0 <= k < i ==> same_patch(#[trigger] v@[k], r@[k]),
        decreases v.len() - i,
    {
        let p = &v[i];
        r.push(
            Patch {
                id: p.id,
                method: p.method,
                points: copy_list(&p.points),
                radius: p.radius,
                feather: p.feather,
                opacity: p.opacity,
                source: p.source,
            },
        );
        i = i + 1;
    }
    r
}

/// An edit of its own that says the same.
pub fn copy_edit<N: Copy, L: Copy, G: Copy>(e: &Edit<N, L, G>) -> (r: Edit<N, L, G>)
    ensures
        same_edit(*e, r),
{
    Edit {
        look: e.look,
        adjustments: copy_adjustments(&e.adjustments),
        patches: copy_patches(&e.patches),
        picture: e.picture,
    }
}

/// A copy of an edit has the look, the picture and every adjustment and
/// repair of it, in their order, with each adjustment's name, switch,
/// mask and look and each repair's points and way of repair.
pub proof fn a_copy_has_all_of_the_edit<N, L, G>(a: Edit<N, L, G>, b: Edit<N, L, G>, i: int, j: int)
    requires
        same_edit(a, b),
    ensures
        b.look == a.look,
        b.picture == a.picture,
        b.adjustments@.len() == a.adjustments@.len(),
        b.patches@.len() == a.patches@.len(),
        0 <= i < a.adjustments@.len() ==> {
            let (x, y) = (a.adjustments@[i], b.adjustments@[i]);
            &&& y.id == x.id
            &&& y.name@ == x.name@
            &&& y.enabled == x.enabled
            &&& y.look == x.look
            &&& y.mask.invert == x.mask.invert
            &&& y.mask.components@.len() == x.mask.components@.len()
        },
        0 <= i < a.patches@.len() ==> {
            let (x, y) = (a.patches@[i], b.patches@[i]);
            &&& y.points@ == x.points@
            &&& y.method == x.method
            &&& y.source == x.source
            &&& y == (Patch { points: y.points, ..x })
        },
        0 <= i < a.adjustments@.len() && 0 <= j < a.adjustments@[i].mask.components@.len() ==> {
            let (x, y) = (
                a.adjustments@[i].mask.components@[j],
                b.adjustments@[i].mask.components@[j],
            );
            &&& y.mode == x.mode
            &&& y.invert == x.invert
            &&& y.enabled == x.enabled
            &&& same_shape(x.shape, y.shape)
        },
{
}

/// A shape copied is the shape: of its own kind, with the strokes, picks
/// and boxes it is made of, and every number of it.
pub proof fn a_shape_copied_is_the_shape<N>(a: Shape<N>, b: Shape<N>, i: int)
    requires
        same_shape(a, b),
    ensures
        a matches Shape::Brush { strokes: s } ==> (b matches Shape::Brush { strokes: t } && t@.len()
            == s@.len() && (0 <= i < s@.len() ==> t@[i].brush == s@[i].brush && t@[i].points@
            == s@[i].points@)),
        a matches Shape::Sky { picks: p } ==> (b matches Shape::Sky { picks: q } && q@ == p@),
        a matches Shape::Object { picks: p, boxes: c } ==> (b matches Shape::Object {
            picks: q,
            boxes: d,
        } && q@ == p@ && d@ == c@),
        !(a is Brush || a is Sky || a is Object) ==> b == a,
{
}

} // verus!
