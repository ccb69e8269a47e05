//! Masks that a model finds: which have their raster, which want one,
//! and whether the model for it is asked, offered or waited for.

use crate::panel::model::{Adjustment, Kind, Method, Patch};
use crate::text;
use vstd::prelude::*;

verus! {

/// A model the editor knows.
#[derive(Debug, Clone, Copy, PartialEq, Eq, Structural)]
pub enum Model {
    Subject,
    /// The rewrite of Subject for WebGPU.
    SubjectWebGpu,
    Sky,
    Sam,
    Fill,
    /// A denoiser, by its tier.
    Denoiser(u8),
}

/// A shape of a mask: its adjustment's id and its place in that mask.
#[derive(Debug, Clone, Copy, PartialEq, Eq, Structural)]
pub struct Key {
    pub id: u64,
    pub component: usize,
}

/// A shape of a mask, as far as its raster goes.
#[derive(Debug, Clone, Copy, PartialEq, Eq, Structural)]
pub struct Part {
    /// A model finds it.
    pub learned: bool,
    /// Strokes paint it.
    pub brush: bool,
    pub enabled: bool,
    /// There is enough of it for the model to start from.
    pub prompted: bool,
    /// The raster kept for it was made for the shape as it is.
    pub made: bool,
}

/// Where a shape's raster comes from.
#[derive(Debug, Clone, Copy, PartialEq, Eq, Structural)]
pub enum Raster {
    /// It has none: it needs none, or its model has not answered.
    Bare,
    /// The model's, as kept.
    Made,
    /// Its strokes', brought up to date.
    Brushed,
}

/// An adjustment, as far as its rasters go.
#[derive(Debug)]
pub struct Local {
    pub id: u64,
    pub parts: Vec<Part>,
}

/// What the viewport's adjustments are baked from.
#[derive(Debug)]
pub struct Baked {
    pub rasters: Vec<Vec<Raster>>,
    /// The learned shapes still wanting their raster.
    pub wants: Vec<Key>,
    /// The shapes that have a raster kept; any other that is kept goes.
    pub live: Vec<Key>,
}

pub open spec fn raster_of(p: Part) -> Raster {
    if p.learned {
        if p.made {
            Raster::Made
        } else {
            Raster::Bare
        }
    } else if p.brush {
        Raster::Brushed
    } else {
        Raster::Bare
    }
}

/// A shape switched off is not worth a model's seconds; one it already
/// has is kept, so the switch comes back without the wait.
pub open spec fn wanted(p: Part) -> bool {
    p.learned && !p.made && p.enabled && p.prompted
}

pub open spec fn keeps_raster(p: Part) -> bool {
    p.learned || p.brush
}

/// The keys of the parts that `pick` holds of, in order.
pub open spec fn keys_of(id: u64, parts: Seq<Part>, pick: spec_fn(Part) -> bool) -> Seq<Key>
    decreases parts.len(),
{
    if parts.len() == 0 {
        seq![]
    } else {
        let before = keys_of(id, parts.drop_last(), pick);
        if pick(parts.last()) {
            before.push(Key { id, component: (parts.len() - 1) as usize })
        } else {
            before
        }
    }
}

/// The keys over the adjustments, in order.
pub open spec fn all_keys(locals: Seq<Local>, pick: spec_fn(Part) -> bool) -> Seq<Key>
    decreases locals.len(),
{
    if locals.len() == 0 {
        seq![]
    } else {
        all_keys(locals.drop_last(), pick) + keys_of(
            locals.last().id,
            locals.last().parts@,
            pick,
        )
    }
}

pub open spec fn at_most(locals: Seq<Local>, most: usize) -> Seq<Local> {
    if locals.len() <= most {
        locals
    } else {
        locals.take(most as int)
    }
}

fn bake_local(local: &Local, wants: &mut Vec<Key>, live: &mut Vec<Key>) -> (rasters: Vec<Raster>)
    ensures
        final(wants)@ == old(wants)@ + keys_of(local.id, local.parts@, |p: Part| wanted(p)),
        final(live)@ == old(live)@ + keys_of(local.id, local.parts@, |p: Part| keeps_raster(p)),
        rasters@ == Seq::new(local.parts@.len(), |i: int| raster_of(local.parts@[i])),
{
    let mut rasters: Vec<Raster> = Vec::new();
    let mut i: usize = 0;
    let ghost w = |p: Part| wanted(p);
    let ghost k = |p: Part| keeps_raster(p);
    assert(local.parts@.take(0) =~= seq![]);
    assert(wants@ =~= old(wants)@ + keys_of(local.id, local.parts@.take(0), w));
    assert(live@ =~= old(live)@ + keys_of(local.id, local.parts@.take(0), k));
    while i < local.parts.len()
        invariant
            i <= local.parts@.len(),
            w == (|p: Part| wanted(p)),
            k == (|p: Part| keeps_raster(p)),
            wants@ == old(wants)@ + keys_of(local.id, local.parts@.take(i as int), w),
            live@ == old(live)@ + keys_of(local.id, local.parts@.take(i as int), k),
            rasters@.len() == i,
            forall|j: int| 0 <= j < i ==> #[trigger] rasters@[j] == raster_of(local.parts@[j]),
        decreases local.parts.len() - i,
    {
        let p = local.parts[i];
        let key = Key { id: local.id, component: i };
        if p.learned {
            live.push(key);
            if p.made {
                rasters.push(Raster::Made);
            } else {
                if p.enabled && p.prompted {
                    wants.push(key);
                }
                rasters.push(Raster::Bare);
            }
        } else if p.brush {
            live.push(key);
            rasters.push(Raster::Brushed);
        } else {
            rasters.push(Raster::Bare);
        }
        i = i + 1;
        proof {
            let done = local.parts@.take(i as int);
            assert(done.drop_last() =~= local.parts@.take(i - 1));
            assert(done.last() == p);
            assert(w(p) == wanted(p) && k(p) == keeps_raster(p));
            assert(wants@ =~= old(wants)@ + keys_of(local.id, done, w));
            assert(live@ =~= old(live)@ + keys_of(local.id, done, k));
        }
    }
    assert(local.parts@.take(i as int) =~= local.parts@);
    assert(rasters@ =~= Seq::new(local.parts@.len(), |i: int| raster_of(local.parts@[i])));
    rasters
}

/// The adjustments baked for the viewport, at most `most` of them, with
/// where each shape's raster comes from; the learned shapes still
/// wanting theirs; and the shapes whose raster is kept.
pub fn bake_locals(locals: &Vec<Local>, most: usize) -> (baked: Baked)
    ensures
        baked.rasters@.len() == at_most(locals@, most).len(),
        forall|i: int|
            0 <= i < baked.rasters@.len() ==> (#[trigger] baked.rasters@[i])@ == Seq::new(
                locals@[i].parts@.len(),
                |j: int| raster_of(locals@[i].parts@[j]),
            ),
        baked.wants@ == all_keys(at_most(locals@, most), |p: Part| wanted(p)),
        baked.live@ == all_keys(at_most(locals@, most), |p: Part| keeps_raster(p)),
{
    let n: usize = if locals.len() <= most { locals.len() } else { most };
    let mut rasters: Vec<Vec<Raster>> = Vec::new();
    let mut wants: Vec<Key> = Vec::new();
    let mut live: Vec<Key> = Vec::new();
    let mut i: usize = 0;
    let ghost w = |p: Part| wanted(p);
    let ghost k = |p: Part| keeps_raster(p);
    assert(locals@.take(0) =~= seq![]);
    while i < n
        invariant
            i <= n <= locals@.len(),
            w == (|p: Part| wanted(p)),
            k == (|p: Part| keeps_raster(p)),
            wants@ == all_keys(locals@.take(i as int), w),
            live@ == all_keys(locals@.take(i as int), k),
            rasters@.len() == i,
            forall|j: int|
                0 <= j < i ==> (#[trigger] rasters@[j])@ == Seq::new(
                    locals@[j].parts@.len(),
                    |l: int| raster_of(locals@[j].parts@[l]),
                ),
        decreases n - i,
    {
        let r = bake_local(&locals[i], &mut wants, &mut live);
        rasters.push(r);
        i = i + 1;
        assert(locals@.take(i as int).drop_last() =~= locals@.take(i - 1));
    }
    assert(locals@.take(n as int) =~= at_most(locals@, most));
    Baked { rasters, wants, live }
}

/// Which of the rasters kept stay: those of a shape that still has one.
pub fn still_live(kept: &Vec<Key>, live: &Vec<Key>) -> (stay: Vec<bool>)
    ensures
        stay@.len() == kept@.len(),
        forall|i: int| 0 <= i < kept@.len() ==> #[trigger] stay@[i] == live@.contains(kept@[i]),
{
    let mut stay: Vec<bool> = Vec::new();
    let mut i: usize = 0;
    while i < kept.len()
        invariant
            i <= kept@.len(),
            stay@.len() == i,
            forall|j: int| 0 <= j < i ==> #[trigger] stay@[j] == live@.contains(kept@[j]),
        decreases kept.len() - i,
    {
        let key = kept[i];
        let mut found: bool = false;
        let mut j: usize = 0;
        while j < live.len()
            invariant
                j <= live@.len(),
                found == live@.take(j as int).contains(key),
            decreases live.len() - j,
        {
            proof {
                lemma_contains_next(live@, j as int, key);
            }
            if live[j] == key {
                found = true;
            }
            j = j + 1;
        }
        assert(live@.take(j as int) =~= live@);
        stay.push(found);
        i = i + 1;
    }
    stay
}

proof fn lemma_contains_next<T>(s: Seq<T>, i: int, x: T)
    requires
        0 <= i < s.len(),
    ensures
        s.take(i + 1).contains(x) == (s.take(i).contains(x) || s[i] == x),
{
    if s.take(i).contains(x) {
        let k = choose|k: int| 0 <= k < i && s.take(i)[k] == x;
        assert(s.take(i + 1)[k] == x);
    }
    if s[i] == x {
        assert(s.take(i + 1)[i] == x);
    }
    if s.take(i + 1).contains(x) {
        let t = s.take(i + 1);
        let k = choose|k: int| 0 <= k < t.len() && t[k] == x;
        if k < i {
            assert(s.take(i)[k] == x);
        }
    }
}

/// Whether `v` holds `m`.
pub fn holds(v: &Vec<Model>, m: Model) -> (r: bool)
    ensures
        r == v@.contains(m),
{
    let mut found: bool = false;
    let mut i: usize = 0;
    while i < v.len()
        invariant
            i <= v@.len(),
            found == v@.take(i as int).contains(m),
        decreases v.len() - i,
    {
        proof {
            lemma_contains_next(v@, i as int, m);
        }
        if v[i] == m {
            found = true;
        }
        i = i + 1;
    }
    assert(v@.take(i as int) =~= v@);
    found
}

/// The model a learned shape uses, the one to fetch where the store has
/// it not: a Subject the rewrite for WebGPU where there is one, the
/// original once that cannot be had; a Sky its prior and then the one
/// that outlines, which it can do without; an Object the one that
/// outlines. `fell_back` is whether the Subject original is on record as
/// having failed on WebGPU. None for a shape no model finds.
pub open spec fn model_of(
    kind: Kind,
    webgpu: bool,
    have: Seq<Model>,
    unavailable: Seq<Model>,
    fell_back: bool,
) -> Option<Model> {
    match kind {
        Kind::Subject => {
            let rewrite = if have.contains(Model::Subject) {
                fell_back && !unavailable.contains(Model::SubjectWebGpu)
            } else {
                !unavailable.contains(Model::SubjectWebGpu)
            };
            if webgpu && (have.contains(Model::SubjectWebGpu) || rewrite) {
                Some(Model::SubjectWebGpu)
            } else {
                Some(Model::Subject)
            }
        },
        Kind::Sky => if have.contains(Model::Sky) && !have.contains(Model::Sam)
            && !unavailable.contains(Model::Sam) {
            Some(Model::Sam)
        } else {
            Some(Model::Sky)
        },
        Kind::Object => Some(Model::Sam),
        _ => None,
    }
}

/// The model a learned shape uses, given what the store has, the models
/// declined this session and those whose fetch failed.
pub fn model_for(
    kind: Kind,
    webgpu: bool,
    have: &Vec<Model>,
    declined: &Vec<Model>,
    failed: &Vec<Model>,
    fell_back: bool,
) -> (r: Option<Model>)
    ensures
        r == model_of(kind, webgpu, have@, declined@ + failed@, fell_back),
{
    proof {
        lemma_either(declined@, failed@, Model::SubjectWebGpu);
        lemma_either(declined@, failed@, Model::Sam);
    }
    match kind {
        Kind::Subject => {
            let refused: bool = holds(declined, Model::SubjectWebGpu) || holds(
                failed,
                Model::SubjectWebGpu,
            );
            let rewrite: bool = !refused && (!holds(have, Model::Subject) || fell_back);
            if webgpu && (holds(have, Model::SubjectWebGpu) || rewrite) {
                Some(Model::SubjectWebGpu)
            } else {
                Some(Model::Subject)
            }
        },
        Kind::Sky => {
            let refused: bool = holds(declined, Model::Sam) || holds(failed, Model::Sam);
            if holds(have, Model::Sky) && !holds(have, Model::Sam) && !refused {
                Some(Model::Sam)
            } else {
                Some(Model::Sky)
            }
        },
        Kind::Object => Some(Model::Sam),
        _ => None,
    }
}

proof fn lemma_either(a: Seq<Model>, b: Seq<Model>, m: Model)
    ensures
        (a + b).contains(m) == (a.contains(m) || b.contains(m)),
{
    let both = a + b;
    if a.contains(m) {
        let i = choose|i: int| 0 <= i < a.len() && a[i] == m;
        assert(both[i] == m);
    }
    if b.contains(m) {
        let i = choose|i: int| 0 <= i < b.len() && b[i] == m;
        assert(both[a.len() + i] == m);
    }
    if both.contains(m) {
        let i = choose|i: int| 0 <= i < both.len() && both[i] == m;
        if i < a.len() {
            assert(a[i] == m);
        } else {
            assert(b[i - a.len()] == m);
        }
    }
}

/// What to do for a learned shape wanted: ask the worker for it, offer
/// its model, or wait (the sheet is busy, or every model it could use
/// was declined).
#[derive(Debug, Clone, Copy, PartialEq, Eq, Structural)]
pub enum Step {
    Ask(Model),
    /// A model to offer, and whether it is the Subject rewrite offered
    /// in place of an original already in the store (a card that
    /// original falls back to the CPU on) rather than a first-ever
    /// Subject offer, which the sheet's note reads differently.
    Offer(Model, bool),
    Wait,
}

/// The step for a shape whose model is `model`: a model in the store is
/// asked; one that is not is offered while the sheet is free, unless it
/// was declined or its fetch failed this session; and a Subject that can
/// be offered nothing uses the store's own original rather than wait.
pub open spec fn step_for(
    subject: bool,
    model: Model,
    have: Seq<Model>,
    declined: Seq<Model>,
    failed: Seq<Model>,
    sheet_free: bool,
) -> Step {
    if have.contains(model) {
        Step::Ask(model)
    } else if sheet_free && !declined.contains(model) && !failed.contains(model) {
        Step::Offer(model, model is SubjectWebGpu && have.contains(Model::Subject))
    } else if subject && have.contains(Model::Subject) {
        Step::Ask(Model::Subject)
    } else {
        Step::Wait
    }
}

/// The step for a shape, given the model it would use (none: it uses
/// none), what the store has, the models declined this session, those
/// whose fetch failed, and whether the sheet is free for an offer. A
/// model whose fetch failed is not offered again this session, as one
/// declined is not: offline, the sheet would come straight back.
pub fn step(
    subject: bool,
    model: Option<Model>,
    have: &Vec<Model>,
    declined: &Vec<Model>,
    failed: &Vec<Model>,
    sheet_free: bool,
) -> (r: Option<Step>)
    ensures
        r == match model {
            Some(m) => Some(step_for(subject, m, have@, declined@, failed@, sheet_free)),
            None => None::<Step>,
        },
{
    let m = match model {
        Some(m) => m,
        None => {
            return None;
        },
    };
    Some(
        if holds(have, m) {
            Step::Ask(m)
        } else if sheet_free && !holds(declined, m) && !holds(failed, m) {
            let rewrite: bool = match m {
                Model::SubjectWebGpu => true,
                _ => false,
            };
            Step::Offer(m, rewrite && holds(have, Model::Subject))
        } else if subject && holds(have, Model::Subject) {
            Step::Ask(Model::Subject)
        } else {
            Step::Wait
        },
    )
}

/// A learned mask wanted.
#[derive(Debug, Clone, Copy, PartialEq, Eq, Structural)]
pub struct Want {
    pub key: Key,
    /// It was asked for already, for the shape as it is.
    pub asked: bool,
    pub subject: bool,
    /// The model it would use.
    pub model: Option<Model>,
}

/// The step of each want, in turn: none for one asked for already or
/// with no model. An offer takes the sheet, so what comes after it finds
/// it busy.
pub open spec fn steps_of(
    wants: Seq<Want>,
    have: Seq<Model>,
    declined: Seq<Model>,
    failed: Seq<Model>,
    sheet_free: bool,
) -> Seq<Option<Step>>
    decreases wants.len(),
{
    if wants.len() == 0 {
        seq![]
    } else {
        let before = steps_of(wants.drop_last(), have, declined, failed, sheet_free);
        let w = wants.last();
        before.push(
            if w.asked || w.model is None {
                None
            } else {
                Some(
                    step_for(
                        w.subject,
                        w.model->0,
                        have,
                        declined,
                        failed,
                        sheet_free && !has_offer(before),
                    ),
                )
            },
        )
    }
}

pub open spec fn has_offer(steps: Seq<Option<Step>>) -> bool {
    exists|i: int| 0 <= i < steps.len() && is_offer(#[trigger] steps[i])
}

pub open spec fn is_offer(s: Option<Step>) -> bool {
    s is Some && s->0 is Offer
}

/// What to do for each learned mask wanted and not yet asked for: ask
/// the worker, or where the model is not in the store offer to fetch it.
pub fn ask_for(
    wants: &Vec<Want>,
    have: &Vec<Model>,
    declined: &Vec<Model>,
    failed: &Vec<Model>,
    sheet_free: bool,
) -> (steps: Vec<Option<Step>>)
    ensures
        steps@ == steps_of(wants@, have@, declined@, failed@, sheet_free),
{
    let mut steps: Vec<Option<Step>> = Vec::new();
    let mut free: bool = sheet_free;
    let mut i: usize = 0;
    assert(wants@.take(0) =~= seq![]);
    while i < wants.len()
        invariant
            i <= wants@.len(),
            steps@ == steps_of(wants@.take(i as int), have@, declined@, failed@, sheet_free),
            free == (sheet_free && !has_offer(steps@)),
        decreases wants.len() - i,
    {
        let w = wants[i];
        let ghost before = steps@;
        let s = if w.asked {
            None
        } else {
            step(w.subject, w.model, have, declined, failed, free)
        };
        steps.push(s);
        i = i + 1;
        proof {
            let done = wants@.take(i as int);
            assert(done.drop_last() =~= wants@.take(i - 1));
            assert(steps@ =~= steps_of(done, have@, declined@, failed@, sheet_free));
            assert(has_offer(steps@) == (has_offer(before) || is_offer(s))) by {
                if has_offer(before) {
                    let k = choose|k: int| 0 <= k < before.len() && is_offer(#[trigger] before[k]);
                    assert(is_offer(steps@[k]));
                }
                if is_offer(s) {
                    assert(is_offer(steps@[steps@.len() - 1]));
                }
                if has_offer(steps@) {
                    let k = choose|k: int| 0 <= k < steps@.len() && is_offer(#[trigger] steps@[k]);
                    if k < before.len() {
                        assert(is_offer(before[k]));
                    }
                }
            }
        }
        if let Some(Step::Offer(_, _)) = s {
            free = false;
        }
    }
    assert(wants@.take(i as int) =~= wants@);
    steps
}

/// At most one model is offered at a time.
pub proof fn one_offer_at_a_time(
    wants: Seq<Want>,
    have: Seq<Model>,
    declined: Seq<Model>,
    failed: Seq<Model>,
    sheet_free: bool,
)
    ensures
        steps_of(wants, have, declined, failed, sheet_free).len() == wants.len(),
        forall|i: int, j: int|
            0 <= i < wants.len() && 0 <= j < wants.len() && is_offer(
                #[trigger] steps_of(wants, have, declined, failed, sheet_free)[i],
            ) && is_offer(#[trigger] steps_of(wants, have, declined, failed, sheet_free)[j]) ==> i
                == j,
        !sheet_free ==> !has_offer(steps_of(wants, have, declined, failed, sheet_free)),
    decreases wants.len(),
{
    if wants.len() > 0 {
        one_offer_at_a_time(wants.drop_last(), have, declined, failed, sheet_free);
        let before = steps_of(wants.drop_last(), have, declined, failed, sheet_free);
        let steps = steps_of(wants, have, declined, failed, sheet_free);
        assert forall|i: int, j: int|
            0 <= i < wants.len() && 0 <= j < wants.len() && is_offer(#[trigger] steps[i])
                && is_offer(#[trigger] steps[j]) implies i == j by {
            if i < before.len() {
                assert(is_offer(before[i]));
                assert(has_offer(before));
            }
            if j < before.len() {
                assert(is_offer(before[j]));
                assert(has_offer(before));
            }
        }
        if !sheet_free && has_offer(steps) {
            let k = choose|k: int| 0 <= k < steps.len() && is_offer(#[trigger] steps[k]);
            if k < before.len() {
                assert(is_offer(before[k]));
            }
        }
    }
}

/// A model declined this session, or whose fetch failed, is not offered
/// again; and the Subject model is never asked for another shape.
pub proof fn an_offer_is_not_repeated(
    subject: bool,
    model: Model,
    have: Seq<Model>,
    declined: Seq<Model>,
    failed: Seq<Model>,
    sheet_free: bool,
)
    ensures
        ({
            let s = step_for(subject, model, have, declined, failed, sheet_free);
            &&& s matches Step::Offer(m, _) ==> m == model && !declined.contains(m)
                && !failed.contains(m) && !have.contains(m)
            &&& s matches Step::Ask(m) ==> have.contains(m) && (m == model || subject)
        }),
{
}

/// A shape is only ever made with a model of its own kind, and a Subject
/// whose original is in the store never waits.
pub proof fn a_shape_is_given_its_own_model(
    kind: Kind,
    webgpu: bool,
    have: Seq<Model>,
    declined: Seq<Model>,
    failed: Seq<Model>,
    fell_back: bool,
    sheet_free: bool,
)
    ensures
        model_of(kind, webgpu, have, declined + failed, fell_back) is Some <==> kind is Subject
            || kind is Sky || kind is Object,
        model_of(kind, webgpu, have, declined + failed, fell_back) matches Some(m) ==> {
            let s = step_for(kind is Subject, m, have, declined, failed, sheet_free);
            &&& s matches Step::Ask(m) ==> match kind {
                Kind::Subject => m is Subject || (m is SubjectWebGpu && webgpu),
                Kind::Sky => m is Sky,
                _ => m is Sam,
            }
            &&& kind is Subject && have.contains(Model::Subject) ==> !(s is Wait)
        },
{
}

/// `s` up to its first comma.
pub open spec fn before_comma(s: Seq<char>) -> Seq<char> {
    s.take(text::first_of(s, ',') as int)
}

/// A model's fetch failed: remember it, so a Subject turns to the
/// original, and say what happened. The status line to show.
pub fn fetch_failed(
    failed: &mut Vec<Model>,
    id: Model,
    name: &str,
    message: &str,
) -> (s: String)
    ensures
        final(failed)@ == if old(failed)@.contains(id) {
            old(failed)@
        } else {
            old(failed)@.push(id)
        },
        s@ == if id is SubjectWebGpu {
            "the GPU Subject model could not be fetched ("@ + message@
                + "); the original is offered instead"@
        } else {
            before_comma(name@) + " could not be fetched: "@ + message@
        },
{
    if !holds(failed, id) {
        failed.push(id);
    }
    match id {
        Model::SubjectWebGpu => {
            let mut s = "the GPU Subject model could not be fetched (".to_owned();
            s.append(message);
            s.append("); the original is offered instead");
            s
        },
        _ => {
            let v = text::chars_of(name);
            let comma: usize = text::find(&v, 0, ',');
            assert(v@.skip(0) =~= v@);
            let short = text::part(&v, 0, comma);
            assert(short@ =~= before_comma(name@));
            let mut s = text::string_of(&short);
            s.append(" could not be fetched: ");
            s.append(message);
            s
        },
    }
}

// What comes back from a model.

/// A shape still on in the first adjustment of its id: one switched off,
/// or deleted, while its model ran is not.
pub open spec fn is_live<N, L>(adjustments: Seq<Adjustment<N, L>>, key: Key) -> bool
    decreases adjustments.len(),
{
    if adjustments.len() == 0 {
        false
    } else if adjustments[0].id == key.id {
        let parts = adjustments[0].mask.components@;
        key.component < parts.len() && parts[key.component as int].enabled
    } else {
        is_live(adjustments.skip(1), key)
    }
}

/// Whether a shape a mask was found for is on still.
pub fn mask_live<N, L>(adjustments: &Vec<Adjustment<N, L>>, key: Key) -> (r: bool)
    ensures
        r == is_live(adjustments@, key),
{
    let mut i: usize = 0;
    assert(adjustments@.skip(0) =~= adjustments@);
    while i < adjustments.len()
        invariant
            i <= adjustments@.len(),
            is_live(adjustments@, key) == is_live(adjustments@.skip(i as int), key),
        decreases adjustments.len() - i,
    {
        assert(adjustments@.skip(i as int).skip(1) =~= adjustments@.skip(i + 1));
        if adjustments[i].id == key.id {
            let parts = &adjustments[i].mask.components;
            return key.component < parts.len() && parts[key.component].enabled;
        }
        i = i + 1;
    }
    false
}

/// A repair the fill model makes is among them.
pub open spec fn has_fill<N>(patches: Seq<Patch<N>>) -> bool {
    exists|i: int| 0 <= i < patches.len() && (#[trigger] patches[i]).method is Fill
}

/// A model the edit waits for: its denoiser's, or the fill model with a
/// fill to make.
pub open spec fn is_wanted<N>(
    model: Model,
    denoiser: Option<Model>,
    repairs_on: bool,
    patches: Seq<Patch<N>>,
) -> bool {
    denoiser == Some(model) || (model is Fill && repairs_on && has_fill(patches))
}

/// Whether the edit waits for the model that was fetched.
pub fn edit_wants<N>(
    model: Model,
    denoiser: Option<Model>,
    repairs_on: bool,
    patches: &Vec<Patch<N>>,
) -> (r: bool)
    ensures
        r == is_wanted(model, denoiser, repairs_on, patches@),
{
    if let Some(d) = denoiser {
        if d == model {
            return true;
        }
    }
    if !repairs_on || !matches!(model, Model::Fill) {
        return false;
    }
    let mut i: usize = 0;
    while i < patches.len()
        invariant
            i <= patches@.len(),
            repairs_on,
            model is Fill,
            denoiser != Some(model),
            forall|k: int| 0 <= k < i ==> !((#[trigger] patches@[k]).method is Fill),
        decreases patches.len() - i,
    {
        if matches!(patches[i].method, Method::Fill) {
            return true;
        }
        i = i + 1;
    }
    false
}

/// A shape that a model finds has the model's raster once that is made,
/// a painted one has its strokes', and no other shape has one. A raster
/// is wanted of a shape that is on and started on, and only while it has
/// none.
pub proof fn a_raster_is_the_shapes_own(p: Part)
    ensures
        raster_of(p) is Made <==> p.learned && p.made,
        raster_of(p) is Brushed <==> p.brush && !p.learned,
        wanted(p) ==> raster_of(p) is Bare && p.learned && p.enabled && p.prompted,
        p.learned && p.enabled && p.prompted && !wanted(p) ==> raster_of(p) is Made,
        keeps_raster(p) <==> p.learned || p.brush,
        !(raster_of(p) is Bare) ==> keeps_raster(p),
{
}

/// The keys of a mask are of the shapes that are picked: each is in the
/// list, no other is, and they stand in the mask's order.
pub proof fn the_keys_are_of_the_shapes_picked(
    id: u64,
    parts: Seq<Part>,
    pick: spec_fn(Part) -> bool,
)
    requires
        parts.len() <= usize::MAX,
    ensures
        forall|k: Key| #[trigger]
            keys_of(id, parts, pick).contains(k) <==> k.id == id && k.component < parts.len()
                && pick(parts[k.component as int]),
        forall|i: int, j: int|
            0 <= i < j < keys_of(id, parts, pick).len() ==> (#[trigger] keys_of(
                id,
                parts,
                pick,
            )[i]).component < (#[trigger] keys_of(id, parts, pick)[j]).component,
    decreases parts.len(),
{
    if parts.len() > 0 {
        let front = parts.drop_last();
        let before = keys_of(id, front, pick);
        let all = keys_of(id, parts, pick);
        let n = (parts.len() - 1) as usize;
        the_keys_are_of_the_shapes_picked(id, front, pick);
        assert forall|k: Key| #[trigger] all.contains(k) <==> k.id == id && k.component
            < parts.len() && pick(parts[k.component as int]) by {
            if k.component < n {
                assert(front[k.component as int] == parts[k.component as int]);
            }
            if before.contains(k) {
                let i = choose|i: int| 0 <= i < before.len() && before[i] == k;
                assert(all[i] == k);
            }
            if all.contains(k) {
                let i = choose|i: int| 0 <= i < all.len() && all[i] == k;
                if i < before.len() {
                    assert(before[i] == k);
                }
            }
            if k.id == id && k.component == n && pick(parts.last()) {
                assert(all[all.len() - 1] == k);
            }
        }
        assert forall|i: int, j: int| 0 <= i < j < all.len() implies (#[trigger] all[i]).component
            < (#[trigger] all[j]).component by {
            assert(before[i] == all[i]);
            assert(before.contains(before[i]));
            if j < before.len() {
                assert(before[j] == all[j]);
            }
        }
    } else {
        assert forall|k: Key| !#[trigger] keys_of(id, parts, pick).contains(k) by {}
    }
}

/// Over every adjustment: a key is listed when an adjustment of that id
/// has a shape picked at that place.
pub proof fn the_keys_are_of_every_adjustment(
    locals: Seq<Local>,
    pick: spec_fn(Part) -> bool,
    k: Key,
)
    ensures
        all_keys(locals, pick).contains(k) <==> exists|i: int|
            0 <= i < locals.len() && (#[trigger] locals[i]).id == k.id && k.component
                < locals[i].parts@.len() && pick(locals[i].parts@[k.component as int]),
    decreases locals.len(),
{
    if locals.len() > 0 {
        let front = locals.drop_last();
        let last = locals.last();
        let own = keys_of(last.id, last.parts@, pick);
        let before = all_keys(front, pick);
        let all = all_keys(locals, pick);
        assert(last.parts.len() <= usize::MAX);
        the_keys_are_of_every_adjustment(front, pick, k);
        the_keys_are_of_the_shapes_picked(last.id, last.parts@, pick);
        assert(all == before + own);
        if before.contains(k) {
            let i = choose|i: int|
                0 <= i < front.len() && (#[trigger] front[i]).id == k.id && k.component
                    < front[i].parts@.len() && pick(front[i].parts@[k.component as int]);
            assert(locals[i] == front[i]);
            let j = choose|j: int| 0 <= j < before.len() && before[j] == k;
            assert(all[j] == k);
        }
        if own.contains(k) {
            assert(locals[locals.len() - 1] == last);
            let j = choose|j: int| 0 <= j < own.len() && own[j] == k;
            assert(all[before.len() + j] == k);
        }
        if all.contains(k) {
            let j = choose|j: int| 0 <= j < all.len() && all[j] == k;
            if j < before.len() {
                assert(before[j] == k);
            } else {
                assert(own[j - before.len()] == k);
            }
        }
        if exists|i: int|
            0 <= i < locals.len() && (#[trigger] locals[i]).id == k.id && k.component
                < locals[i].parts@.len() && pick(locals[i].parts@[k.component as int]) {
            let i = choose|i: int|
                0 <= i < locals.len() && (#[trigger] locals[i]).id == k.id && k.component
                    < locals[i].parts@.len() && pick(locals[i].parts@[k.component as int]);
            if i < front.len() {
                assert(front[i] == locals[i]);
            }
        }
    }
}

/// The adjustments baked are the first there are, as many as there is
/// room for.
pub proof fn the_first_adjustments_are_baked(locals: Seq<Local>, most: usize)
    ensures
        at_most(locals, most).len() <= most,
        at_most(locals, most).len() <= locals.len(),
        at_most(locals, most).len() == most || at_most(locals, most).len() == locals.len(),
        forall|i: int|
            0 <= i < at_most(locals, most).len() ==> #[trigger] at_most(locals, most)[i]
                == locals[i],
{
}

/// A subject is found by the rewrite where that is in the store and the
/// card runs it, and by the plain model where the card does not. The
/// rewrite is asked for while neither is kept, or once the plain one has
/// fallen back; it is not where it was refused. Sam is asked for by a
/// sky only beside the sky's own model.
pub proof fn the_model_is_one_that_serves(
    kind: Kind,
    webgpu: bool,
    have: Seq<Model>,
    unavailable: Seq<Model>,
    fell_back: bool,
)
    ensures
        ({
            let m = model_of(kind, webgpu, have, unavailable, fell_back);
            &&& kind is Object ==> m == Some(Model::Sam)
            &&& kind is Subject && !webgpu ==> m == Some(Model::Subject)
            &&& kind is Subject && webgpu && have.contains(Model::SubjectWebGpu) ==> m == Some(
                Model::SubjectWebGpu,
            )
            &&& kind is Subject && webgpu && !have.contains(Model::Subject)
                && !unavailable.contains(Model::SubjectWebGpu) ==> m == Some(Model::SubjectWebGpu)
            &&& kind is Subject && webgpu && fell_back && !unavailable.contains(
                Model::SubjectWebGpu,
            ) ==> m == Some(Model::SubjectWebGpu)
            &&& kind is Subject && !have.contains(Model::SubjectWebGpu) && unavailable.contains(
                Model::SubjectWebGpu,
            ) ==> m == Some(Model::Subject)
            &&& kind is Subject && have.contains(Model::Subject) && !have.contains(
                Model::SubjectWebGpu,
            ) && !fell_back ==> m == Some(Model::Subject)
            &&& kind is Sky && !have.contains(Model::Sky) ==> m == Some(Model::Sky)
            &&& kind is Sky && (have.contains(Model::Sam) || unavailable.contains(Model::Sam))
                ==> m == Some(Model::Sky)
            &&& kind is Sky && have.contains(Model::Sky) && !have.contains(Model::Sam)
                && !unavailable.contains(Model::Sam) ==> m == Some(Model::Sam)
        }),
{
}

/// A model that is kept is asked. One that is not is offered while the
/// sheet is free, unless it was declined or its fetch failed. A subject
/// then still has the plain model, where that is kept, and any other
/// shape waits.
pub proof fn a_model_is_asked_offered_or_waited_for(
    subject: bool,
    model: Model,
    have: Seq<Model>,
    declined: Seq<Model>,
    failed: Seq<Model>,
    sheet_free: bool,
)
    ensures
        ({
            let s = step_for(subject, model, have, declined, failed, sheet_free);
            &&& have.contains(model) ==> s == Step::Ask(model)
            &&& s is Offer ==> sheet_free && !have.contains(model)
            &&& s is Offer <==> sheet_free && !have.contains(model) && !declined.contains(model)
                && !failed.contains(model)
            &&& s matches Step::Offer(m, falls_back) ==> m == model && (falls_back
                <==> model is SubjectWebGpu && have.contains(Model::Subject))
            &&& !(s is Offer) && !have.contains(model) && subject && have.contains(Model::Subject)
                ==> s == Step::Ask(Model::Subject)
            &&& s is Wait ==> !have.contains(model) && !(subject && have.contains(Model::Subject))
            &&& !subject && !have.contains(model) ==> !(s is Ask)
        }),
{
}

/// A shape of the edit on screen is live while it is on: the adjustment
/// of that id is the one that says, and where there is none it is not.
pub proof fn a_live_shape_is_on<N, L>(adjustments: Seq<Adjustment<N, L>>, key: Key, i: int)
    requires
        0 <= i <= adjustments.len(),
        forall|j: int| 0 <= j < i ==> (#[trigger] adjustments[j]).id != key.id,
        i < adjustments.len() ==> adjustments[i].id == key.id,
    ensures
        i == adjustments.len() ==> !is_live(adjustments, key),
        i < adjustments.len() ==> (is_live(adjustments, key) <==> key.component
            < adjustments[i].mask.components@.len()
            && adjustments[i].mask.components@[key.component as int].enabled),
    decreases i,
{
    if i > 0 {
        assert(adjustments[0].id != key.id);
        let rest = adjustments.skip(1);
        assert forall|j: int| 0 <= j < i - 1 implies (#[trigger] rest[j]).id != key.id by {
            assert(rest[j] == adjustments[j + 1]);
        }
        a_live_shape_is_on(rest, key, i - 1);
    }
}

/// An edit wants the denoiser it names, and the fill model while its
/// repairs are on and one of them is a fill. It wants no other.
pub proof fn an_edit_wants_what_it_uses<N>(
    model: Model,
    denoiser: Option<Model>,
    repairs_on: bool,
    patches: Seq<Patch<N>>,
    i: int,
)
    ensures
        denoiser == Some(model) ==> is_wanted(model, denoiser, repairs_on, patches),
        denoiser != Some(model) && !(model is Fill) ==> !is_wanted(
            model,
            denoiser,
            repairs_on,
            patches,
        ),
        denoiser != Some(model) && !repairs_on ==> !is_wanted(
            model,
            denoiser,
            repairs_on,
            patches,
        ),
        repairs_on && 0 <= i < patches.len() && patches[i].method is Fill ==> is_wanted(
            Model::Fill,
            denoiser,
            repairs_on,
            patches,
        ),
        denoiser != Some(model) && (forall|j: int|
            0 <= j < patches.len() ==> !((#[trigger] patches[j]).method is Fill)) ==> !is_wanted(
            model,
            denoiser,
            repairs_on,
            patches,
        ),
{
}

/// A model is spoken of by its name up to the comma: the first part has
/// none in it, and what is left of the name, if any, starts with it.
pub proof fn a_name_stops_at_its_comma(s: Seq<char>)
    ensures
        before_comma(s) == s.take(before_comma(s).len() as int),
        before_comma(s).len() <= s.len(),
        !before_comma(s).contains(','),
        before_comma(s).len() < s.len() ==> s[before_comma(s).len() as int] == ',',
{
    text::lemma_first_of(s, ',');
}

/// Each shape that wants a raster and has not been asked for is taken a
/// step: none is where its model was asked already or there is no model,
/// and a model that is kept is asked whatever the others come to.
pub proof fn each_shape_that_wants_is_taken_a_step(
    wants: Seq<Want>,
    have: Seq<Model>,
    declined: Seq<Model>,
    failed: Seq<Model>,
    sheet_free: bool,
    k: int,
)
    requires
        0 <= k < wants.len(),
    ensures
        ({
            let s = steps_of(wants, have, declined, failed, sheet_free);
            &&& s.len() == wants.len()
            &&& s[k] is None <==> wants[k].asked || wants[k].model is None
            &&& !wants[k].asked ==> (wants[k].model matches Some(m) ==> (have.contains(m) ==> s[k]
                == Some(Step::Ask(m))))
            &&& s[k] matches Some(Step::Offer(m, _)) ==> wants[k].model == Some(m)
            &&& k == 0 && sheet_free && !wants[0].asked ==> (wants[0].model matches Some(m) ==> (
            !have.contains(m) && !declined.contains(m) && !failed.contains(m) ==> is_offer(s[0])))
        }),
    decreases wants.len(),
{
    let front = wants.drop_last();
    let before = steps_of(front, have, declined, failed, sheet_free);
    one_offer_at_a_time(front, have, declined, failed, sheet_free);
    one_offer_at_a_time(wants, have, declined, failed, sheet_free);
    if k < front.len() {
        each_shape_that_wants_is_taken_a_step(front, have, declined, failed, sheet_free, k);
        assert(front[k] == wants[k]);
        assert(steps_of(wants, have, declined, failed, sheet_free)[k] == before[k]);
    } else {
        assert(wants[k] == wants.last());
        if k == 0 {
            assert(before.len() == 0);
            assert(!has_offer(before));
        }
    }
}

} // verus!
