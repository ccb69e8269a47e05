//! The color sections: the mixer's bands, the black and white's, the
//! grading's wheels and the white balance.

use crate::panel::level::Level;
use crate::panel::level;
use crate::text;
use vstd::prelude::*;

verus! {

/// The mixer's bands of hue.
pub const BANDS: usize = 8;

/// The grading's wheels.
pub const WHEELS: usize = 3;

/// A row held to the places there are.
pub open spec fn held_place(i: i32, places: usize) -> int {
    if i < 0 {
        0
    } else if i >= places {
        places - 1
    } else {
        i as int
    }
}

fn place(i: i32, places: usize) -> (r: usize)
    requires
        0 < places <= 100,
    ensures
        r == held_place(i, places),
        r < places,
{
    if i < 0 {
        0
    } else if i as usize >= places {
        places - 1
    } else {
        i as usize
    }
}

/// So many values, short ones padded and long ones cut.
pub open spec fn values_of<N>(model: Seq<N>, places: nat, zero: N) -> Seq<N> {
    Seq::new(
        places,
        |i: int|
            if i < model.len() {
                model[i]
            } else {
                zero
            },
    )
}

/// Values from the panel's model, short ones padded.
fn values<N: Copy>(model: &Vec<N>, places: usize, zero: N) -> (v: Vec<N>)
    ensures
        v@ == values_of(model@, places as nat, zero),
{
    let mut v: Vec<N> = Vec::new();
    let mut i: usize = 0;
    while i < places
        invariant
            i <= places,
            v@.len() == i,
            forall|k: int| 0 <= k < i ==> #[trigger] v@[k] == values_of(model@, places as nat, zero)[k],
        decreases places - i,
    {
        if i < model.len() {
            v.push(model[i]);
        } else {
            v.push(zero);
        }
        i = i + 1;
    }
    assert(v@ =~= values_of(model@, places as nat, zero));
    v
}

/// Eight band values from the panel's model, short ones padded.
pub fn band_values<N: Copy>(model: &Vec<N>, zero: N) -> (v: Vec<N>)
    ensures
        v@ == values_of(model@, BANDS as nat, zero),
        v@.len() == BANDS,
{
    values(model, BANDS, zero)
}

/// The wheels' three values as the panel holds them.
pub fn grade_values<N: Copy>(model: &Vec<N>, zero: N) -> (v: Vec<N>)
    ensures
        v@ == values_of(model@, WHEELS as nat, zero),
        v@.len() == WHEELS,
{
    values(model, WHEELS, zero)
}

fn all<N: Copy>(places: usize, n: N) -> (v: Vec<N>)
    ensures
        v@ == Seq::new(places as nat, |i: int| n),
{
    let mut v: Vec<N> = Vec::new();
    let mut i: usize = 0;
    while i < places
        invariant
            i <= places,
            v@ =~= Seq::new(i as nat, |k: int| n),
        decreases places - i,
    {
        v.push(n);
        i = i + 1;
    }
    v
}

// The mixer.

/// The mixer: every band's values, the band chosen, and its values on the
/// sliders.
#[derive(Debug)]
pub struct Mixer<N> {
    pub band: i32,
    pub hues: Vec<N>,
    pub saturations: Vec<N>,
    pub luminances: Vec<N>,
    pub hue: N,
    pub saturation: N,
    pub luminance: N,
}

/// The mixer with its sliders' values in the chosen band's place.
pub open spec fn band_stored<N>(before: Mixer<N>, zero: N, after: Mixer<N>) -> bool {
    let band = held_place(before.band, BANDS);
    let n = BANDS as nat;
    &&& after.hues@ == values_of(before.hues@, n, zero).update(band, before.hue)
    &&& after.saturations@ == values_of(before.saturations@, n, zero).update(
        band,
        before.saturation,
    )
    &&& after.luminances@ == values_of(before.luminances@, n, zero).update(band, before.luminance)
    &&& after == (Mixer {
        hues: after.hues,
        saturations: after.saturations,
        luminances: after.luminances,
        ..before
    })
}

/// The sliders' values into the chosen band's place in the arrays.
pub fn store_mixer_band<N: Copy>(m: &mut Mixer<N>, zero: N)
    ensures
        band_stored(*old(m), zero, *final(m)),
{
    let band: usize = place(m.band, BANDS);
    let mut hues = band_values(&m.hues, zero);
    let mut saturations = band_values(&m.saturations, zero);
    let mut luminances = band_values(&m.luminances, zero);
    hues.set(band, m.hue);
    saturations.set(band, m.saturation);
    luminances.set(band, m.luminance);
    m.hues = hues;
    m.saturations = saturations;
    m.luminances = luminances;
}

/// The mixer with the chosen band's values on its sliders.
pub open spec fn band_shown<N>(before: Mixer<N>, zero: N, after: Mixer<N>) -> bool {
    let band = held_place(before.band, BANDS);
    let n = BANDS as nat;
    after == (Mixer {
        hue: values_of(before.hues@, n, zero)[band],
        saturation: values_of(before.saturations@, n, zero)[band],
        luminance: values_of(before.luminances@, n, zero)[band],
        ..before
    })
}

/// Put the chosen band's values on the mixer's sliders.
pub fn show_mixer_band<N: Copy>(m: &mut Mixer<N>, zero: N)
    ensures
        band_shown(*old(m), zero, *final(m)),
{
    let band: usize = place(m.band, BANDS);
    m.hue = band_values(&m.hues, zero)[band];
    m.saturation = band_values(&m.saturations, zero)[band];
    m.luminance = band_values(&m.luminances, zero)[band];
}

/// A band stored and shown again is on the sliders as it was, and the
/// other bands stay as they were.
pub proof fn a_band_stored_comes_back<N>(
    before: Mixer<N>,
    zero: N,
    stored: Mixer<N>,
    shown: Mixer<N>,
    other: int,
)
    requires
        band_stored(before, zero, stored),
        band_shown(stored, zero, shown),
        0 <= other < BANDS,
        other != held_place(before.band, BANDS),
    ensures
        shown.hue == before.hue,
        shown.saturation == before.saturation,
        shown.luminance == before.luminance,
        stored.hues@[other] == values_of(before.hues@, BANDS as nat, zero)[other],
        stored.saturations@[other] == values_of(before.saturations@, BANDS as nat, zero)[other],
        stored.luminances@[other] == values_of(before.luminances@, BANDS as nat, zero)[other],
{
}

/// Every band of the mixer at nothing.
pub fn mixer_reset<N: Copy>(m: &mut Mixer<N>, zero: N)
    ensures
        final(m).hues@ == Seq::new(BANDS as nat, |i: int| zero),
        final(m).saturations@ == Seq::new(BANDS as nat, |i: int| zero),
        final(m).luminances@ == Seq::new(BANDS as nat, |i: int| zero),
        final(m).hue == zero,
        final(m).saturation == zero,
        final(m).luminance == zero,
        final(m).band == old(m).band,
{
    m.hues = all(BANDS, zero);
    m.saturations = all(BANDS, zero);
    m.luminances = all(BANDS, zero);
    show_mixer_band(m, zero);
}

// Black and white.

/// The black and white: its bands' weights, the band chosen, its weight
/// on the slider, the filter they are, and the switch.
#[derive(Debug)]
pub struct BlackWhite<N> {
    pub enabled: bool,
    pub band: i32,
    pub weights: Vec<N>,
    pub weight: N,
    pub strength: N,
    pub filter: String,
}

/// The chosen band's weight on the slider, and the filter its weights are
/// (`named`, nothing for none) on the row of filters. The filter is the
/// shape of the weights alone: the row says Red while the slider says how
/// much of it.
pub fn show_bw_band<N: Copy>(bw: &mut BlackWhite<N>, zero: N, named: Option<&str>)
    ensures
        final(bw).weight == values_of(old(bw).weights@, BANDS as nat, zero)[held_place(
            old(bw).band,
            BANDS,
        )],
        final(bw).filter@ == match named {
            Some(n) => n@,
            None => ""@,
        },
        *final(bw) == (BlackWhite {
            weight: final(bw).weight,
            filter: final(bw).filter,
            ..*old(bw)
        }),
{
    let band: usize = place(bw.band, BANDS);
    bw.weight = band_values(&bw.weights, zero)[band];
    bw.filter = match named {
        Some(n) => n.to_owned(),
        None => "".to_owned(),
    };
}

/// The black and white with weights laid, the chosen band's on the slider
/// and the filter they are named.
pub open spec fn weights_laid<N>(
    before: BlackWhite<N>,
    weights: Seq<N>,
    zero: N,
    named: Option<&str>,
    after: BlackWhite<N>,
) -> bool {
    &&& after.weights@ == weights
    &&& after.weight == values_of(weights, BANDS as nat, zero)[held_place(before.band, BANDS)]
    &&& after.filter@ == match named {
        Some(n) => n@,
        None => ""@,
    }
    &&& after.band == before.band
}

/// The slider's weight into the chosen band's place; `named` is the filter
/// the weights then are.
pub fn bw_changed<N: Copy>(bw: &mut BlackWhite<N>, zero: N, named: Option<&str>)
    ensures
        weights_laid(
            *old(bw),
            values_of(old(bw).weights@, BANDS as nat, zero).update(
                held_place(old(bw).band, BANDS),
                old(bw).weight,
            ),
            zero,
            named,
            *final(bw),
        ),
        final(bw).weight == old(bw).weight,
        final(bw).enabled == old(bw).enabled,
        final(bw).strength == old(bw).strength,
{
    let band: usize = place(bw.band, BANDS);
    let mut weights = band_values(&bw.weights, zero);
    weights.set(band, bw.weight);
    bw.weights = weights;
    show_bw_band(bw, zero, named);
}

/// A filter lays a whole set of weights over the bands, and turns the
/// section on rather than sitting there doing nothing; `named` is the
/// filter the weights are.
pub fn bw_filter_changed<N: Copy>(
    bw: &mut BlackWhite<N>,
    weights: Vec<N>,
    zero: N,
    named: Option<&str>,
)
    ensures
        weights_laid(*old(bw), weights@, zero, named, *final(bw)),
        final(bw).enabled,
        final(bw).strength == old(bw).strength,
{
    bw.weights = weights;
    bw.enabled = true;
    show_bw_band(bw, zero, named);
}

/// The weights at nothing, at full strength; `named` is the filter that
/// is.
pub fn bw_reset<N: Copy>(bw: &mut BlackWhite<N>, zero: N, one: N, named: Option<&str>)
    ensures
        weights_laid(
            *old(bw),
            Seq::new(BANDS as nat, |i: int| zero),
            zero,
            named,
            *final(bw),
        ),
        final(bw).weight == zero,
        final(bw).enabled == old(bw).enabled,
        final(bw).strength == one,
{
    bw.weights = all(BANDS, zero);
    bw.strength = one;
    show_bw_band(bw, zero, named);
}

// Grading.

/// The grading: the wheels' values, the wheel chosen, and its values on
/// the sliders.
#[derive(Debug)]
pub struct Grading<N> {
    pub range: i32,
    pub hues: Vec<N>,
    pub saturations: Vec<N>,
    pub hue: N,
    pub saturation: N,
    pub balance: N,
}

/// The grading with a wheel's values set.
pub open spec fn wheel_set<N>(
    before: Grading<N>,
    zero: N,
    i: int,
    hue: Option<N>,
    saturation: N,
    after: Grading<N>,
) -> bool {
    let n = WHEELS as nat;
    let hues = values_of(before.hues@, n, zero);
    &&& after.hues@ == match hue {
        Some(h) => hues.update(i, h),
        None => hues,
    }
    &&& after.saturations@ == values_of(before.saturations@, n, zero).update(i, saturation)
}

fn set_wheel<N: Copy>(g: &mut Grading<N>, zero: N, i: usize, hue: Option<N>, saturation: N)
    requires
        i < WHEELS,
    ensures
        wheel_set(*old(g), zero, i as int, hue, saturation, *final(g)),
        *final(g) == (Grading {
            hues: final(g).hues,
            saturations: final(g).saturations,
            ..*old(g)
        }),
{
    let mut hues = grade_values(&g.hues, zero);
    let mut saturations = grade_values(&g.saturations, zero);
    if let Some(h) = hue {
        hues.set(i, h);
    }
    saturations.set(i, saturation);
    g.hues = hues;
    g.saturations = saturations;
}

/// Put the chosen wheel's values on the grading's sliders.
pub fn show_grade_range<N: Copy>(g: &mut Grading<N>, zero: N)
    ensures
        ({
            let i = held_place(old(g).range, WHEELS);
            *final(g) == (Grading {
                hue: values_of(old(g).hues@, WHEELS as nat, zero)[i],
                saturation: values_of(old(g).saturations@, WHEELS as nat, zero)[i],
                ..*old(g)
            })
        }),
{
    let i: usize = place(g.range, WHEELS);
    g.hue = grade_values(&g.hues, zero)[i];
    g.saturation = grade_values(&g.saturations, zero)[i];
}

/// A press or drag on a wheel sets its hue (none at its middle) and its
/// strength from the pointer, and makes it the sliders' wheel.
pub fn grade_point<N: Copy>(g: &mut Grading<N>, zero: N, i: i32, hue: Option<N>, strength: N)
    ensures
        ({
            let w = held_place(i, WHEELS);
            &&& wheel_set(*old(g), zero, w, hue, strength, *final(g))
            &&& *final(g) == (Grading {
                hues: final(g).hues,
                saturations: final(g).saturations,
                range: w as i32,
                hue: final(g).hues@[w],
                saturation: strength,
                ..*old(g)
            })
        }),
{
    let w: usize = place(i, WHEELS);
    set_wheel(g, zero, w, hue, strength);
    g.range = w as i32;
    show_grade_range(g, zero);
}

/// The sliders' values onto the chosen wheel: the hue round the circle
/// (`round` is where one that is off it comes round to) and the saturation
/// held to its ends.
pub fn grade_changed(g: &mut Grading<Level>, round: Level)
    ensures
        wheel_set(
            *old(g),
            level::ZERO,
            held_place(old(g).range, WHEELS),
            Some(level::brought_round(old(g).hue, round)),
            level::held(old(g).saturation, level::ZERO, level::ONE),
            *final(g),
        ),
        *final(g) == (Grading {
            hues: final(g).hues,
            saturations: final(g).saturations,
            ..*old(g)
        }),
{
    let w: usize = place(g.range, WHEELS);
    let hue: Level = level::bring_round(g.hue, round);
    let saturation: Level = level::hold(g.saturation, level::ZERO, level::ONE);
    set_wheel(g, level::ZERO, w, Some(hue), saturation);
}

/// A double-click on a wheel puts it back to nothing.
pub fn grade_double<N: Copy>(g: &mut Grading<N>, zero: N, i: i32)
    ensures
        ({
            let w = held_place(i, WHEELS);
            &&& wheel_set(*old(g), zero, w, Some(zero), zero, *final(g))
            &&& *final(g) == (Grading {
                hues: final(g).hues,
                saturations: final(g).saturations,
                range: w as i32,
                hue: zero,
                saturation: zero,
                ..*old(g)
            })
        }),
{
    grade_point(g, zero, i, Some(zero), zero);
}

/// Every wheel at nothing.
pub fn grade_reset<N: Copy>(g: &mut Grading<N>, zero: N)
    ensures
        final(g).hues@ == Seq::new(WHEELS as nat, |i: int| zero),
        final(g).saturations@ == Seq::new(WHEELS as nat, |i: int| zero),
        *final(g) == (Grading {
            hues: final(g).hues,
            saturations: final(g).saturations,
            hue: zero,
            saturation: zero,
            balance: zero,
            ..*old(g)
        }),
{
    g.hues = all(WHEELS, zero);
    g.saturations = all(WHEELS, zero);
    g.balance = zero;
    show_grade_range(g, zero);
}

// The white balance.

/// A white balance: the camera's own, or one of the user's.
#[derive(Debug, Clone, Copy)]
pub enum WhiteBalance<N> {
    AsShot,
    Custom { temperature: N, tint: N },
}

/// The panel's white balance: as shot, temperature, tint.
#[derive(Debug, Clone, Copy)]
pub struct WhiteKey<N> {
    pub as_shot: bool,
    pub temperature: N,
    pub tint: N,
}

pub open spec fn key_of<N>(wb: WhiteBalance<N>, zero: N) -> WhiteKey<N> {
    match wb {
        WhiteBalance::AsShot => WhiteKey { as_shot: true, temperature: zero, tint: zero },
        WhiteBalance::Custom { temperature, tint } => WhiteKey {
            as_shot: false,
            temperature,
            tint,
        },
    }
}

pub open spec fn white_of<N>(key: WhiteKey<N>) -> WhiteBalance<N> {
    if key.as_shot {
        WhiteBalance::AsShot
    } else {
        WhiteBalance::Custom { temperature: key.temperature, tint: key.tint }
    }
}

/// The panel's white balance key for an edit's white balance.
pub fn white_key<N: Copy>(wb: WhiteBalance<N>, zero: N) -> (k: WhiteKey<N>)
    ensures
        k == key_of(wb, zero),
{
    match wb {
        WhiteBalance::AsShot => WhiteKey { as_shot: true, temperature: zero, tint: zero },
        WhiteBalance::Custom { temperature, tint } => WhiteKey {
            as_shot: false,
            temperature,
            tint,
        },
    }
}

pub fn panel_white<N: Copy>(key: WhiteKey<N>) -> (wb: WhiteBalance<N>)
    ensures
        wb == white_of(key),
{
    if key.as_shot {
        WhiteBalance::AsShot
    } else {
        WhiteBalance::Custom { temperature: key.temperature, tint: key.tint }
    }
}

/// A white balance is its key's.
pub proof fn a_white_balance_is_its_keys<N>(wb: WhiteBalance<N>, zero: N)
    ensures
        white_of(key_of(wb, zero)) == wb,
{
}

/// The camera profile the preview of the white balance is built through:
/// the name it was resolved for, and which it is. The matrix built
/// through it is kept beside it.
#[derive(Debug)]
pub struct WhiteProfile<M> {
    pub resolved: Option<(String, Through)>,
    pub cache: Option<M>,
}

#[derive(Debug, Clone, Copy, PartialEq, Eq, Structural)]
pub enum Through {
    /// The profile the edit names.
    Named,
    /// The file's own.
    Embedded,
}

/// The profile a name resolves to: the edit's own when it names one that
/// reads, else the file's.
pub open spec fn through(named: bool, embedded: bool) -> Option<Through> {
    if named {
        Some(Through::Named)
    } else if embedded {
        Some(Through::Embedded)
    } else {
        None
    }
}

/// The profile kept for a name.
pub open spec fn resolved_for<M>(st: WhiteProfile<M>, want: Seq<char>) -> Option<Through> {
    match st.resolved {
        Some(r) => if r.0@ == want {
            Some(r.1)
        } else {
            None
        },
        None => None,
    }
}

/// A profile resolved, and what is kept of it.
pub open spec fn profile_kept<M>(
    before: WhiteProfile<M>,
    want: Seq<char>,
    named: bool,
    embedded: bool,
    t: Option<Through>,
    after: WhiteProfile<M>,
) -> bool {
    if resolved_for(before, want) is Some {
        t == resolved_for(before, want) && after == before
    } else {
        &&& t == through(named, embedded)
        &&& after.cache is None
        &&& after.resolved is Some <==> t is Some
        &&& after.resolved matches Some(r) ==> r.0@ == want && Some(r.1) == t
    }
}

/// The camera profile the develop is converting through. Resolved once
/// per choice and kept; a change throws away the matrix that was built
/// through the one before.
pub fn white_profile<M>(
    st: &mut WhiteProfile<M>,
    want: &str,
    named: bool,
    embedded: bool,
) -> (t: Option<Through>)
    ensures
        profile_kept(*old(st), want@, named, embedded, t, *final(st)),
{
    let kept: Option<Through> = match &st.resolved {
        Some(r) => if text::same_text(r.0.as_str(), want) {
            Some(r.1)
        } else {
            None
        },
        None => None,
    };
    if kept.is_some() {
        return kept;
    }
    let t: Option<Through> = if named {
        Some(Through::Named)
    } else if embedded {
        Some(Through::Embedded)
    } else {
        None
    };
    st.resolved = match t {
        Some(t) => Some((want.to_owned(), t)),
        None => None,
    };
    st.cache = None;
    t
}

/// What the preview of the panel's white balance is to be.
#[derive(Debug, Clone, Copy)]
pub enum Preview<M> {
    /// Nothing to move the picture by.
    Identity,
    /// The matrix built before, for the same white balance.
    Kept(M),
    /// The matrix is to be built, and [`white_resolved`] told of it.
    Resolve,
}

/// The matrix that takes the picture from the white balance it was
/// developed at to the panel's. `same` is whether the matrix kept is of
/// the panel's white balance, and `based` whether there is a frame and
/// the white balance it was developed at. The profile comes before the
/// cache: resolving it is what notices a change of profile, and that
/// empties the cache.
pub fn preview_white<M: Copy>(
    st: &mut WhiteProfile<M>,
    want: &str,
    named: bool,
    embedded: bool,
    same: bool,
    based: bool,
) -> (p: Preview<M>)
    ensures
        exists|t: Option<Through>|
            {
                &&& #[trigger] profile_kept(*old(st), want@, named, embedded, t, *final(st))
                &&& p == if t is None {
                    Preview::Identity
                } else {
                    match final(st).cache {
                        Some(m) => if same {
                            Preview::Kept(m)
                        } else if based {
                            Preview::Resolve
                        } else {
                            Preview::Identity
                        },
                        None => if based {
                            Preview::Resolve
                        } else {
                            Preview::Identity
                        },
                    }
                }
            },
{
    let t = white_profile(st, want, named, embedded);
    if t.is_none() {
        return Preview::Identity;
    }
    match st.cache {
        Some(m) => if same {
            return Preview::Kept(m);
        },
        None => {},
    }
    if based {
        Preview::Resolve
    } else {
        Preview::Identity
    }
}

/// The matrix built, or none where the white balance or the base's matrix
/// could not be turned: that is the identity, and it is kept all the same.
pub fn white_resolved<M: Copy>(st: &mut WhiteProfile<M>, identity: M, built: Option<M>) -> (m: M)
    ensures
        m == match built {
            Some(b) => b,
            None => identity,
        },
        *final(st) == (WhiteProfile { cache: Some(m), ..*old(st) }),
{
    let m: M = match built {
        Some(b) => b,
        None => identity,
    };
    st.cache = Some(m);
    m
}

// What holds of the bands and the wheels.

/// A row off the end is the last there is, and one before the first the
/// first; any other is itself.
pub proof fn a_row_is_held_to_the_places_there_are(i: i32, places: usize)
    requires
        0 < places <= i32::MAX,
    ensures
        0 <= held_place(i, places) < places,
        0 <= i < places ==> held_place(i, places) == i,
        i < 0 ==> held_place(i, places) == 0,
        i >= places ==> held_place(i, places) == places - 1,
{
}

/// A list too short is read as nothing where it ends, and is otherwise as
/// it is.
pub proof fn a_short_list_ends_in_nothing<N>(model: Seq<N>, places: nat, zero: N, i: int)
    requires
        0 <= i < places,
    ensures
        values_of(model, places, zero).len() == places,
        i < model.len() ==> values_of(model, places, zero)[i] == model[i],
        i >= model.len() ==> values_of(model, places, zero)[i] == zero,
{
}

/// A band's sliders are stored in the band that is chosen, all three of
/// them, and in no other; and a band shown puts its three on the sliders.
pub proof fn a_band_is_stored_in_its_own_place<N>(
    before: Mixer<N>,
    zero: N,
    after: Mixer<N>,
    shown: Mixer<N>,
)
    requires
        0 <= before.band < 8,
        before.hues@.len() == 8,
        before.saturations@.len() == 8,
        before.luminances@.len() == 8,
        band_stored(before, zero, after),
        band_shown(before, zero, shown),
    ensures
        after.hues@[before.band as int] == before.hue,
        after.saturations@[before.band as int] == before.saturation,
        after.luminances@[before.band as int] == before.luminance,
        forall|k: int|
            0 <= k < 8 && k != before.band ==> after.hues@[k] == before.hues@[k]
                && after.saturations@[k] == before.saturations@[k] && after.luminances@[k]
                == before.luminances@[k],
        after.band == before.band,
        shown.hue == before.hues@[before.band as int],
        shown.saturation == before.saturations@[before.band as int],
        shown.luminance == before.luminances@[before.band as int],
        shown.hues == before.hues && shown.band == before.band,
{
}

/// The weights laid are those asked for, the slider has the chosen band's,
/// and the row of filters the name they have.
pub proof fn weights_laid_are_shown<N>(
    before: BlackWhite<N>,
    weights: Seq<N>,
    zero: N,
    named: Option<&str>,
    after: BlackWhite<N>,
)
    requires
        0 <= before.band < 8,
        weights.len() == 8,
        weights_laid(before, weights, zero, named, after),
    ensures
        after.weights@ == weights,
        after.weight == weights[before.band as int],
        after.band == before.band,
        named matches Some(n) ==> after.filter@ == n@,
        named is None ==> after.filter@.len() == 0,
{
    reveal_strlit("");
}

/// A wheel set is that wheel's hue and strength, and no other's; a point
/// with no angle to it keeps the hue there was.
pub proof fn a_wheel_is_set_alone<N>(
    before: Grading<N>,
    zero: N,
    i: int,
    hue: Option<N>,
    saturation: N,
    after: Grading<N>,
)
    requires
        0 <= i < 3,
        before.hues@.len() == 3,
        before.saturations@.len() == 3,
        wheel_set(before, zero, i, hue, saturation, after),
    ensures
        after.hues@.len() == 3 && after.saturations@.len() == 3,
        after.saturations@[i] == saturation,
        hue matches Some(h) ==> after.hues@[i] == h,
        hue is None ==> after.hues@[i] == before.hues@[i],
        forall|k: int|
            0 <= k < 3 && k != i ==> after.hues@[k] == before.hues@[k] && after.saturations@[k]
                == before.saturations@[k],
{
}

/// A white balance of the camera's own is as shot, and one of the user's
/// is its temperature and its tint.
pub proof fn a_white_balance_reads_as_its_sliders<N>(key: WhiteKey<N>, wb: WhiteBalance<N>, zero: N)
    ensures
        key.as_shot <==> white_of(key) is AsShot,
        !key.as_shot ==> white_of(key) == (WhiteBalance::Custom {
            temperature: key.temperature,
            tint: key.tint,
        }),
        key_of(wb, zero).as_shot <==> wb is AsShot,
        wb matches WhiteBalance::Custom { temperature, tint } ==> key_of(wb, zero).temperature
            == temperature && key_of(wb, zero).tint == tint,
{
}

/// The white balance is previewed through the profile the edit names, and
/// through the file's own where it names none that reads. One resolved for
/// a name is not resolved again for it, and another name lets go of the
/// matrix that was built.
pub proof fn a_profile_is_resolved_once_a_name<M>(
    before: WhiteProfile<M>,
    want: Seq<char>,
    named: bool,
    embedded: bool,
    t: Option<Through>,
    after: WhiteProfile<M>,
)
    requires
        profile_kept(before, want, named, embedded, t, after),
    ensures
        before.resolved matches Some(r) ==> (r.0@ == want ==> t == Some(r.1) && after == before),
        before.resolved is None && named ==> t == Some(Through::Named) && after.cache is None,
        before.resolved is None && !named && embedded ==> t == Some(Through::Embedded)
            && after.cache is None,
        before.resolved is None && !named && !embedded ==> t is None && after.resolved is None,
        before.resolved matches Some(r) ==> (r.0@ != want ==> after.cache is None),
        after.resolved matches Some(r) ==> r.0@ == want && Some(r.1) == t,
{
}

} // verus!
