//! What the editor fetches and keeps: the lens profiles, the models,
//! the presets, the camera profiles and the looks.

use crate::panel::deliver;
use crate::panel::learned::Model;
use crate::text;
use vstd::prelude::*;

verus! {

// The offers.

/// What the download sheet is up for.
#[derive(Debug, Clone, Copy, PartialEq, Eq, Structural)]
pub enum Fetch {
    Lenses,
    Model(Model),
}

/// The offers there are to make, and the download on its way.
#[derive(Debug)]
pub struct Offers {
    pub fetch: Option<Fetch>,
    pub fetching: bool,
    /// Models the user has said Not now to.
    pub declined: Vec<Model>,
    pub lenses_declined: bool,
    /// The lens profiles were offered this launch.
    pub lenses_asked: bool,
    /// A batch run, which nobody is watching.
    pub batch: bool,
}

/// The download sheet.
#[derive(Debug)]
pub struct FetchSheet {
    pub open: bool,
    pub title: String,
    pub text: String,
    pub note: String,
}

/// Whether to offer the lens profiles unprompted: only with no database
/// on the machine, never after a Not now, and once a launch. A user who
/// never opens the LENS section would otherwise never learn that nothing
/// is being corrected.
pub fn offer_lenses_unprompted(database: bool, declined: bool, asked: bool) -> (r: bool)
    ensures
        r == (!database && !declined && !asked),
{
    !database && !declined && !asked
}

/// The first line of the lens profiles' unprompted offer.
pub const LENSES_WHY: &'static str = "There are no lens profiles on this machine, so no lens is corrected for its distortion, color fringes or vignetting.";

/// Something to download, as a sheet tells of it.
#[derive(Debug)]
pub struct Source {
    pub bytes: u64,
    pub url: String,
    /// The license, and where it is to be read.
    pub license: String,
    pub license_url: String,
    /// Where it is kept; none with no cache directory.
    pub root: Option<String>,
}

/// `s` after its first `c`; nothing without one.
pub open spec fn after_first(s: Seq<char>, c: char) -> Option<Seq<char>> {
    let n = text::first_of(s, c);
    if n < s.len() {
        Some(s.skip((n + 1) as int))
    } else {
        None
    }
}

pub open spec fn up_to(s: Seq<char>, c: char) -> Seq<char> {
    s.take(text::first_of(s, c) as int)
}

/// The host of an address: what stands between its second slash and its
/// third; `otherwise` for an address with fewer than two.
pub open spec fn host_text(url: Seq<char>, otherwise: Seq<char>) -> Seq<char> {
    match after_first(url, '/') {
        None => otherwise,
        Some(rest) => match after_first(rest, '/') {
            None => otherwise,
            Some(rest) => up_to(rest, '/'),
        },
    }
}

pub fn host_of(url: &str, otherwise: &str) -> (s: String)
    ensures
        s@ == host_text(url@, otherwise@),
{
    let v = text::chars_of(url);
    assert(v@.skip(0) =~= v@);
    let one: usize = text::find(&v, 0, '/');
    if one >= v.len() {
        return otherwise.to_owned();
    }
    let two: usize = text::find(&v, one + 1, '/');
    if two >= v.len() {
        return otherwise.to_owned();
    }
    let three: usize = text::find(&v, two + 1, '/');
    proof {
        let rest = v@.skip(one + 1);
        assert(rest.skip(two - one) =~= v@.skip(two + 1));
        assert(v@.subrange(two + 1, three as int) =~= up_to(v@.skip(two + 1), '/'));
    }
    let host = text::part(&v, two + 1, three);
    text::string_of(&host)
}

pub open spec fn kept_text(root: Option<String>) -> Seq<char> {
    match root {
        Some(r) => r@,
        None => "no cache directory"@,
    }
}

/// The license's and the cache's lines of a sheet.
pub open spec fn terms_text(s: Source) -> Seq<char> {
    ".\nLicense: "@ + s.license@ + " ("@ + s.license_url@ + ").\nKept in "@ + kept_text(s.root)
        + "."@
}

fn put_terms(out: &mut String, s: &Source)
    ensures
        final(out)@ == old(out)@ + terms_text(*s),
{
    let mut t = ".\nLicense: ".to_owned();
    t.append(s.license.as_str());
    t.append(" (");
    t.append(s.license_url.as_str());
    t.append(").\nKept in ");
    match &s.root {
        Some(r) => {
            t.append(r.as_str());
        },
        None => {
            t.append("no cache directory");
        },
    }
    t.append(".");
    out.append(t.as_str());
}

pub open spec fn lenses_text(s: Source) -> Seq<char> {
    "The lensfun database, about "@ + text::decimal((s.bytes / 1000) as nat) + " KB from "@
        + host_text(s.url@, "its site"@) + terms_text(s)
}

pub open spec fn lenses_note() -> Seq<char> {
    "greycard does not ship the profiles; they are fetched for you under their own license."@
}

/// The download sheet up for the lens profiles; unasked, it says first
/// why it is up.
pub open spec fn lenses_sheet(s: Source, unprompted: bool, w: FetchSheet) -> bool {
    &&& w.open
    &&& w.title@ == "Download the lens profiles?"@
    &&& w.text@ == if unprompted {
        LENSES_WHY@ + "\n\n"@ + lenses_text(s)
    } else {
        lenses_text(s)
    }
    &&& w.note@ == if unprompted {
        lenses_note() + " Not now asks no more; the LENS section keeps the button."@
    } else {
        lenses_note()
    }
}

/// Open the download sheet for the lens database: `unprompted` when no
/// one asked for it, and the sheet says why it is up.
pub fn offer_lenses(st: &mut Offers, w: &mut FetchSheet, s: &Source, unprompted: bool)
    ensures
        *final(st) == (Offers { fetch: Some(Fetch::Lenses), ..*old(st) }),
        lenses_sheet(*s, unprompted, *final(w)),
{
    st.fetch = Some(Fetch::Lenses);
    w.title = "Download the lens profiles?".to_owned();
    let mut details = "The lensfun database, about ".to_owned();
    text::put_decimal(&mut details, s.bytes / 1000);
    details.append(" KB from ");
    let host = host_of(s.url.as_str(), "its site");
    details.append(host.as_str());
    put_terms(&mut details, s);
    let mut note =
        "greycard does not ship the profiles; they are fetched for you under their own license.".to_owned();
    if unprompted {
        let mut t = LENSES_WHY.to_owned();
        t.append("\n\n");
        t.append(details.as_str());
        w.text = t;
        note.append(" Not now asks no more; the LENS section keeps the button.");
    } else {
        w.text = details;
    }
    w.note = note;
    w.open = true;
}

/// Whether the lens profiles are offered with a picture up and no
/// database found.
pub open spec fn offers_lenses(st: Offers, other_sheet: bool) -> bool {
    !st.lenses_declined && !st.lenses_asked && st.fetch is None && !st.fetching && !other_sheet
        && !st.batch
}

/// The first-launch offer, when nothing else has the screen: a sheet
/// already up, a download on its way, or a batch run, whose capture a
/// sheet would spoil. Called with no database found; the offer waits for
/// a later picture when something is in the way. True when it is made.
pub fn offer_lenses_once(
    st: &mut Offers,
    w: &mut FetchSheet,
    s: &Source,
    other_sheet: bool,
) -> (r: bool)
    ensures
        r == offers_lenses(*old(st), other_sheet),
        r ==> {
            &&& *final(st) == (Offers {
                fetch: Some(Fetch::Lenses),
                lenses_asked: true,
                ..*old(st)
            })
            &&& lenses_sheet(*s, true, *final(w))
        },
        !r ==> *final(st) == *old(st) && *final(w) == *old(w),
{
    if !offer_lenses_unprompted(false, st.lenses_declined, st.lenses_asked) {
        return false;
    }
    if st.fetch.is_some() || st.fetching || other_sheet || st.batch {
        return false;
    }
    st.lenses_asked = true;
    offer_lenses(st, w, s, true);
    true
}

/// The LENS section's own button, which asks whatever was answered
/// before: nothing while another offer is up or a download on its way.
pub fn fetch_lenses(st: &mut Offers, w: &mut FetchSheet, s: &Source) -> (r: bool)
    ensures
        r == (old(st).fetch is None && !old(st).fetching),
        r ==> *final(st) == (Offers { fetch: Some(Fetch::Lenses), ..*old(st) }) && lenses_sheet(
            *s,
            false,
            *final(w),
        ),
        !r ==> *final(st) == *old(st) && *final(w) == *old(w),
{
    if st.fetch.is_none() && !st.fetching {
        offer_lenses(st, w, s, false);
        true
    } else {
        false
    }
}

/// An offer made is not made again this launch, and after a Not now in no
/// other: an offer is made only of what was never declined nor asked,
/// and never in a batch run.
pub proof fn the_lenses_are_offered_once(st: Offers, other_sheet: bool, later: bool)
    ensures
        !offers_lenses(Offers { lenses_asked: true, fetch: None, ..st }, later),
        !offers_lenses(Offers { lenses_declined: true, lenses_asked: false, ..st }, later),
        offers_lenses(st, other_sheet) ==> !st.batch && !st.fetching && st.fetch is None,
{
}

/// A size in whole MB, rounded rather than truncated: 113,778,088 bytes
/// read as 114.
pub fn mb(bytes: u64) -> (n: u64)
    requires
        bytes <= u64::MAX - 500000,
    ensures
        n == (bytes + 500000) / 1000000,
{
    (bytes + 500000) / 1000000
}

/// A model, as its sheet tells of it.
#[derive(Debug)]
pub struct About {
    pub id: Model,
    pub name: String,
    pub source: Source,
    /// This copy is changed from the original, and published here.
    pub modified: bool,
}

pub open spec fn model_note_text(m: About) -> Seq<char> {
    if m.modified {
        "greycard publishes this copy, changed from the original for speed; it is fetched for you under the original's "@
            + m.source.license@ + " license."@
    } else {
        "greycard does not ship this model; it is fetched for you under its own license."@
    }
}

/// The model sheet's note on where the model comes from: one greycard
/// changed and publishes itself says so, and under whose license.
pub fn model_note(m: &About) -> (s: String)
    ensures
        s@ == model_note_text(*m),
{
    if m.modified {
        let mut s =
            "greycard publishes this copy, changed from the original for speed; it is fetched for you under the original's ".to_owned();
        s.append(m.source.license.as_str());
        s.append(" license.");
        s
    } else {
        "greycard does not ship this model; it is fetched for you under its own license.".to_owned()
    }
}

/// The download sheet up for a model.
pub open spec fn model_sheet(m: About, falls_back: bool, w: FetchSheet) -> bool {
    let size = text::decimal(((m.source.bytes + 500000) / 1000000) as nat);
    &&& w.open
    &&& w.title@ == "Download "@ + m.name@ + "?"@
    &&& w.text@ == size + " MB from "@ + host_text(m.source.url@, "the model host"@) + terms_text(
        m.source,
    )
    &&& w.note@ == if falls_back {
        "The Subject model in your store falls back to the CPU on this card; a rewrite of the same weights runs on it, "@
            + size + " MB. "@ + model_note_text(m)
    } else {
        model_note_text(m)
    }
}

/// Open the model sheet for a model. `falls_back` is set when this offer
/// is the Subject rewrite standing in for an original already in the
/// store, one on record as falling back to the CPU on this card, which
/// the sheet's note says plainly instead of leaving the reader to guess
/// why a second Subject file is being offered at all.
pub fn offer_model(st: &mut Offers, w: &mut FetchSheet, m: &About, falls_back: bool)
    requires
        m.source.bytes <= u64::MAX - 500000,
    ensures
        *final(st) == (Offers { fetch: Some(Fetch::Model(m.id)), ..*old(st) }),
        model_sheet(*m, falls_back, *final(w)),
{
    st.fetch = Some(Fetch::Model(m.id));
    let size: u64 = mb(m.source.bytes);
    let note = model_note(m);
    if falls_back {
        let mut t =
            "The Subject model in your store falls back to the CPU on this card; a rewrite of the same weights runs on it, ".to_owned();
        text::put_decimal(&mut t, size);
        t.append(" MB. ");
        t.append(note.as_str());
        w.note = t;
    } else {
        w.note = note;
    }
    let mut title = "Download ".to_owned();
    title.append(m.name.as_str());
    title.append("?");
    w.title = title;
    let mut t = text::decimal_of(size);
    t.append(" MB from ");
    let host = host_of(m.source.url.as_str(), "the model host");
    t.append(host.as_str());
    put_terms(&mut t, &m.source);
    w.text = t;
    w.open = true;
}

/// What answering the sheet starts.
#[derive(Debug, Clone, Copy, PartialEq, Eq, Structural)]
pub enum Answered {
    /// The sheet was up for nothing.
    Nothing,
    /// The download.
    Fetches(Fetch),
    /// Nothing; `redraw` when the masks waiting on the model turn to
    /// another.
    Declined { redraw: bool },
    /// Nothing; the lens profiles' Not now is kept in the settings, but
    /// for a batch run, which leaves them alone.
    LensesDeclined { keep: bool },
}

pub open spec fn lost_text(m: Model) -> Seq<char> {
    match m {
        Model::SubjectWebGpu => "without the GPU model the original Subject model is offered"@,
        Model::Fill => "without the model a fill is left as it was"@,
        Model::Denoiser(_) => "without the model the engine's own denoise stands in"@,
        _ => "without the model the shape masks nothing"@,
    }
}

/// The download sheet answered: it closes, and a yes starts the download.
/// A no is remembered; the lens profiles' for good. The line says what is
/// lost by it.
pub fn fetch_answered(
    st: &mut Offers,
    w: &mut FetchSheet,
    yes: bool,
    status: &mut String,
) -> (a: Answered)
    ensures
        *final(w) == (FetchSheet { open: false, ..*old(w) }),
        match old(st).fetch {
            None => a is Nothing && *final(st) == *old(st) && *final(status) == *old(status),
            Some(f) => if yes {
                &&& a == Answered::Fetches(f)
                &&& *final(st) == (Offers { fetch: None, fetching: true, ..*old(st) })
                &&& *final(status) == *old(status)
            } else {
                match f {
                    Fetch::Model(m) => {
                        &&& a == (Answered::Declined { redraw: m is SubjectWebGpu })
                        &&& final(st).declined@ == old(st).declined@.push(m)
                        &&& *final(st) == (Offers {
                            fetch: None,
                            declined: final(st).declined,
                            ..*old(st)
                        })
                        &&& final(status)@ == lost_text(m)
                    },
                    Fetch::Lenses => {
                        &&& a == (Answered::LensesDeclined { keep: !old(st).batch })
                        &&& *final(st) == (Offers {
                            fetch: None,
                            lenses_declined: true,
                            ..*old(st)
                        })
                        &&& final(status)@
                            == "without the profiles the lens is corrected by hand only"@
                    },
                }
            },
        },
{
    w.open = false;
    let fetch: Fetch = match st.fetch {
        None => {
            return Answered::Nothing;
        },
        Some(f) => f,
    };
    st.fetch = None;
    if yes {
        st.fetching = true;
        return Answered::Fetches(fetch);
    }
    match fetch {
        Fetch::Model(m) => {
            st.declined.push(m);
            let (lost, redraw): (&'static str, bool) = match m {
                Model::SubjectWebGpu => (
                    "without the GPU model the original Subject model is offered",
                    true,
                ),
                Model::Fill => ("without the model a fill is left as it was", false),
                Model::Denoiser(_) => (
                    "without the model the engine's own denoise stands in",
                    false,
                ),
                _ => ("without the model the shape masks nothing", false),
            };
            *status = lost.to_owned();
            Answered::Declined { redraw }
        },
        Fetch::Lenses => {
            *status = "without the profiles the lens is corrected by hand only".to_owned();
            st.lenses_declined = true;
            Answered::LensesDeclined { keep: !st.batch }
        },
    }
}

// The presets.

pub open spec fn missing_text(store: bool, missing: Seq<Seq<char>>) -> Seq<char> {
    if !store {
        "No configuration directory to keep presets in."@
    } else if missing.len() == 0 {
        "Every default preset is in the list."@
    } else if missing.len() == 1 {
        missing[0] + " is not in the list."@
    } else {
        deliver::listed_text(missing) + " are not in the list."@
    }
}

/// The settings' words for the shipped presets not in the store.
pub fn presets_missing_words(store: bool, missing: &Vec<String>) -> (s: String)
    ensures
        s@ == missing_text(store, text::texts(missing@)),
{
    if !store {
        return "No configuration directory to keep presets in.".to_owned();
    }
    if missing.len() == 0 {
        return "Every default preset is in the list.".to_owned();
    }
    let mut s = deliver::listed(missing);
    if missing.len() == 1 {
        s.append(" is not in the list.");
    } else {
        s.append(" are not in the list.");
    }
    s
}

/// The presets on the panel.
#[derive(Debug)]
pub struct Presets {
    pub names: Vec<String>,
    /// The row whose removal waits on its Remove; below zero for none.
    pub confirm_remove: i32,
    /// How many shipped presets are not in the store, and the words.
    pub missing: i32,
    pub missing_words: String,
}

/// The store listed again, and shown. A removal waiting on its Remove is
/// dropped: the row it named may be another preset's now.
pub fn refresh_presets(w: &mut Presets, names: Vec<String>, store: bool, missing: &Vec<String>)
    requires
        missing@.len() < i32::MAX,
    ensures
        final(w).names == names,
        final(w).confirm_remove == -1,
        final(w).missing == missing@.len(),
        final(w).missing_words@ == missing_text(store, text::texts(missing@)),
{
    w.confirm_remove = -1;
    w.names = names;
    w.missing = missing.len() as i32;
    w.missing_words = presets_missing_words(store, missing);
}

/// A preset's row clicked: the question another row asked is left
/// unanswered, and the preset of that row is laid over the edit.
pub fn preset_applied(w: &mut Presets, row: i32) -> (r: Option<usize>)
    ensures
        r == if 0 <= row < old(w).names@.len() {
            Some(row as usize)
        } else {
            None
        },
        *final(w) == (Presets { confirm_remove: -1i32, ..*old(w) }),
{
    w.confirm_remove = -1;
    if row >= 0 && (row as usize) < w.names.len() {
        Some(row as usize)
    } else {
        None
    }
}

/// How bringing a preset in came out.
#[derive(Debug)]
pub enum Imported {
    /// The file could not be read, and why.
    Refused { file: String, why: String },
    /// There is nowhere to save it.
    NoStore,
    /// It is saved: its name, how many sections it carries, and what of
    /// the file has no place here.
    Saved { name: String, sections: usize, unmapped: Vec<String> },
    /// It could not be saved, and why.
    Unsaved { name: String, why: String },
}

pub open spec fn sections_text(n: nat) -> Seq<char> {
    " ("@ + text::decimal(n) + " section"@ + (if n == 1 {
        ""@
    } else {
        "s"@
    }) + ")"@
}

fn put_sections(s: &mut String, n: usize)
    ensures
        final(s)@ == old(s)@ + sections_text(n as nat),
{
    let mut t = " (".to_owned();
    text::put_decimal(&mut t, n as u64);
    t.append(" section");
    if n == 1 {
        t.append("");
    } else {
        t.append("s");
    }
    t.append(")");
    s.append(t.as_str());
}

pub open spec fn imported_text(i: Imported) -> Seq<char> {
    match i {
        Imported::Refused { file, why } => file@ + ": "@ + why@,
        Imported::NoStore => "no configuration directory to save into"@,
        Imported::Saved { name, sections, unmapped } => "imported "@ + name@ + sections_text(
            sections as nat,
        ) + (if unmapped@.len() == 0 {
            ""@
        } else {
            "; no place here for "@ + text::joined(text::texts(unmapped@), ", "@)
        }),
        Imported::Unsaved { name, why } => "saving "@ + name@ + ": "@ + why@,
    }
}

/// What is said of a preset brought in.
pub fn import_preset(i: &Imported) -> (s: String)
    ensures
        s@ == imported_text(*i),
{
    match i {
        Imported::Refused { file, why } => {
            let mut s = file.clone();
            s.append(": ");
            s.append(why.as_str());
            s
        },
        Imported::NoStore => "no configuration directory to save into".to_owned(),
        Imported::Saved { name, sections, unmapped } => {
            let mut s = "imported ".to_owned();
            s.append(name.as_str());
            put_sections(&mut s, *sections);
            let mut rest = "".to_owned();
            if unmapped.len() > 0 {
                rest = "; no place here for ".to_owned();
                let list = text::join(unmapped, ", ");
                rest.append(list.as_str());
            }
            s.append(rest.as_str());
            s
        },
        Imported::Unsaved { name, why } => {
            let mut s = "saving ".to_owned();
            s.append(name.as_str());
            s.append(": ");
            s.append(why.as_str());
            s
        },
    }
}

/// The sections of a preset to save that start on: what the edit changed,
/// of the sections a preset carries by default. Each is given by whether
/// it is carried by default and whether the edit leaves it as it was.
pub fn sections_offered(sections: &Vec<(bool, bool)>) -> (v: Vec<bool>)
    ensures
        v@ == sections@.map_values(|s: (bool, bool)| s.0 && !s.1),
{
    let mut v: Vec<bool> = Vec::new();
    let mut i: usize = 0;
    while i < sections.len()
        invariant
            i <= sections@.len(),
            v@.len() == i,
            forall|k: int| 0 <= k < i ==> #[trigger] v@[k] == (sections@[k].0 && !sections@[k].1),
        decreases sections.len() - i,
    {
        v.push(sections[i].0 && !sections[i].1);
        i = i + 1;
    }
    assert(v@ =~= sections@.map_values(|s: (bool, bool)| s.0 && !s.1));
    v
}

/// The places of the sections that are on.
pub open spec fn sections_on(on: Seq<bool>) -> Seq<usize>
    decreases on.len(),
{
    if on.len() == 0 {
        seq![]
    } else {
        let before = sections_on(on.drop_last());
        if on.last() {
            before.push((on.len() - 1) as usize)
        } else {
            before
        }
    }
}

/// A preset to save: its name and its sections, or what is wrong.
#[derive(Debug)]
pub enum Saving {
    Preset { name: String, sections: Vec<usize> },
    Says(&'static str),
}

/// A preset saved from the edit: it needs a name, and something to carry.
pub fn preset_saved(name: &str, on: &Vec<bool>) -> (s: Saving)
    ensures
        ({
            let name = text::trimmed(name@);
            let sections = sections_on(on@);
            match s {
                Saving::Preset { name: n, sections: v } => n@ == name && v@ == sections
                    && name.len() > 0 && sections.len() > 0,
                Saving::Says(t) => if name.len() == 0 {
                    t@ == "a preset needs a name"@
                } else {
                    sections.len() == 0 && t@ == "choose what the preset carries"@
                },
            }
        }),
{
    let name = text::trim_text(name);
    if name.as_str().is_empty() {
        return Saving::Says("a preset needs a name");
    }
    let mut v: Vec<usize> = Vec::new();
    let mut i: usize = 0;
    assert(on@.take(0) =~= seq![]);
    while i < on.len()
        invariant
            i <= on@.len(),
            v@ == sections_on(on@.take(i as int)),
        decreases on.len() - i,
    {
        if on[i] {
            v.push(i);
        }
        i = i + 1;
        assert(on@.take(i as int).drop_last() =~= on@.take(i - 1));
    }
    assert(on@.take(i as int) =~= on@);
    if v.len() == 0 {
        return Saving::Says("choose what the preset carries");
    }
    Saving::Preset { name, sections: v }
}

/// How a preset's saving came out: where to, or why not; none with
/// nowhere to save into.
pub fn saved_said(
    name: &str,
    sections: usize,
    saved: Option<Result<&str, &str>>,
) -> (s: String)
    ensures
        s@ == match saved {
            Some(Ok(path)) => "saved "@ + name@ + sections_text(sections as nat) + " to "@ + path@,
            Some(Err(why)) => "saving "@ + name@ + ": "@ + why@,
            None => "no configuration directory to save into"@,
        },
{
    match saved {
        Some(Ok(path)) => {
            let mut s = "saved ".to_owned();
            s.append(name);
            put_sections(&mut s, sections);
            s.append(" to ");
            s.append(path);
            s
        },
        Some(Err(why)) => {
            let mut s = "saving ".to_owned();
            s.append(name);
            s.append(": ");
            s.append(why);
            s
        },
        None => "no configuration directory to save into".to_owned(),
    }
}

/// One of the shipped presets the store is without has that name, the
/// case of its letters aside: the Restore would bring one back.
pub open spec fn is_restorable(missing: Seq<String>, name: Seq<char>) -> bool {
    exists|i: int| 0 <= i < missing.len() && text::alike(#[trigger] missing[i]@, name)
}

fn restorable(missing: &Vec<String>, name: &str) -> (r: bool)
    ensures
        r == is_restorable(missing@, name@),
{
    let mut i: usize = 0;
    while i < missing.len()
        invariant
            i <= missing@.len(),
            forall|k: int| 0 <= k < i ==> !text::alike(#[trigger] missing@[k]@, name@),
        decreases missing.len() - i,
    {
        if text::alike_text(missing[i].as_str(), name) {
            return true;
        }
        i = i + 1;
    }
    false
}

/// What is said of a preset removed: that it can be had back only when
/// the Restore would bring one of that name back. `missing` are the
/// shipped presets the store is without now.
pub fn removed_said(name: &str, missing: &Vec<String>, failed: Option<&str>) -> (s: String)
    ensures
        s@ == match failed {
            Some(why) => "removing "@ + name@ + ": "@ + why@,
            None => if is_restorable(missing@, name@) {
                name@ + " removed; Settings can restore the default one"@
            } else {
                name@ + " removed"@
            },
        },
{
    match failed {
        Some(why) => {
            let mut s = "removing ".to_owned();
            s.append(name);
            s.append(": ");
            s.append(why);
            s
        },
        None => {
            let mut s = name.to_owned();
            if restorable(missing, name) {
                s.append(" removed; Settings can restore the default one");
            } else {
                s.append(" removed");
            }
            s
        },
    }
}

/// What is said of the shipped presets restored: those written back, or
/// why not; none with nowhere to restore into.
pub fn restored_said(restored: Option<Result<&Vec<String>, &str>>) -> (s: String)
    ensures
        s@ == match restored {
            Some(Ok(names)) => if names@.len() == 0 {
                "every default preset is in the list"@
            } else {
                "restored "@ + text::joined(text::texts(names@), ", "@)
            },
            Some(Err(why)) => "restoring the default presets: "@ + why@,
            None => "no configuration directory to restore into"@,
        },
{
    match restored {
        Some(Ok(names)) => {
            if names.len() == 0 {
                return "every default preset is in the list".to_owned();
            }
            let mut s = "restored ".to_owned();
            let list = text::join(names, ", ");
            s.append(list.as_str());
            s
        },
        Some(Err(why)) => {
            let mut s = "restoring the default presets: ".to_owned();
            s.append(why);
            s
        },
        None => "no configuration directory to restore into".to_owned(),
    }
}

// The lens and the camera profiles.

/// What was found of the open file's lens.
#[derive(Debug)]
pub enum LensReport {
    NoDatabase,
    NoLensName,
    Unknown(String),
    /// A profile, with the body known or not, and whether it was measured
    /// on a smaller sensor.
    Found { lens: String, camera: bool, smaller_sensor: bool },
}

pub open spec fn lens_text(r: LensReport) -> Seq<char> {
    match r {
        LensReport::NoDatabase => "no lens profiles on this machine"@,
        LensReport::NoLensName => "the file names no lens"@,
        LensReport::Unknown(name) => "no profile for "@ + name@,
        LensReport::Found { lens, camera, smaller_sensor } => if !camera {
            lens@ + " (body unknown, its own format assumed)"@
        } else if smaller_sensor {
            lens@ + " (measured on a smaller sensor)"@
        } else {
            lens@
        },
    }
}

/// What the LENS panel says.
#[derive(Debug)]
pub struct LensPanel {
    pub available: bool,
    pub database: bool,
    pub profile: String,
}

/// What the LENS panel says of the open file: the profile found, or why
/// there is none.
pub fn show_lens(r: &LensReport) -> (p: LensPanel)
    ensures
        p.available == (r is Found),
        p.database == !(r is NoDatabase),
        p.profile@ == lens_text(*r),
{
    let profile = match r {
        LensReport::NoDatabase => "no lens profiles on this machine".to_owned(),
        LensReport::NoLensName => "the file names no lens".to_owned(),
        LensReport::Unknown(name) => {
            let mut s = "no profile for ".to_owned();
            s.append(name.as_str());
            s
        },
        LensReport::Found { lens, camera, smaller_sensor } => {
            let mut s = lens.clone();
            if !*camera {
                s.append(" (body unknown, its own format assumed)");
            } else if *smaller_sensor {
                s.append(" (measured on a smaller sensor)");
            }
            s
        },
    };
    LensPanel {
        available: matches!(r, LensReport::Found { .. }),
        database: !matches!(r, LensReport::NoDatabase),
        profile,
    }
}

/// A camera profile of the directory.
#[derive(Debug)]
pub struct ProfileEntry {
    pub name: String,
    pub label: String,
    /// It was made for the open file's camera.
    pub fits: bool,
}

/// A profile that the list shows: one for this camera, or the chosen one.
pub open spec fn listed_profile(e: ProfileEntry, chosen: Seq<char>) -> bool {
    e.fits || e.name@ == chosen
}

/// The names of the profiles shown, in order, after `EMBEDDED`'s.
pub open spec fn profile_names(entries: Seq<ProfileEntry>, chosen: Seq<char>) -> Seq<Seq<char>>
    decreases entries.len(),
{
    if entries.len() == 0 {
        seq![]
    } else {
        let before = profile_names(entries.drop_last(), chosen);
        if listed_profile(entries.last(), chosen) {
            before.push(entries.last().name@)
        } else {
            before
        }
    }
}

pub open spec fn profile_labels(entries: Seq<ProfileEntry>, chosen: Seq<char>) -> Seq<Seq<char>>
    decreases entries.len(),
{
    if entries.len() == 0 {
        seq![]
    } else {
        let before = profile_labels(entries.drop_last(), chosen);
        if listed_profile(entries.last(), chosen) {
            before.push(entries.last().label@)
        } else {
            before
        }
    }
}

/// How many profiles are there for other cameras.
pub open spec fn profiles_hidden(entries: Seq<ProfileEntry>, chosen: Seq<char>) -> nat
    decreases entries.len(),
{
    if entries.len() == 0 {
        0
    } else {
        profiles_hidden(entries.drop_last(), chosen) + if listed_profile(entries.last(), chosen) {
            0nat
        } else {
            1
        }
    }
}

/// What the CAMERA PROFILE section lists.
#[derive(Debug)]
pub struct ProfileList {
    pub names: Vec<String>,
    pub labels: Vec<String>,
    pub note: String,
}

/// A profile the edit names and the directory does not have.
pub open spec fn profile_missing(
    entries: Seq<ProfileEntry>,
    embedded_name: Seq<char>,
    chosen: Seq<char>,
    embedded: bool,
) -> bool {
    !embedded && embedded_name != chosen && !profile_names(entries, chosen).contains(chosen)
}

pub open spec fn profiles_note(
    entries: Seq<ProfileEntry>,
    chosen: Seq<char>,
    dir: Option<&str>,
) -> Seq<char> {
    let hidden = profiles_hidden(entries, chosen);
    if entries.len() == 0 {
        match dir {
            Some(d) => "No profiles yet: put DCP files in "@ + d@ + "."@,
            None => "No profile directory on this machine."@,
        }
    } else if hidden == 0 {
        ""@
    } else {
        text::decimal(hidden) + " more there, for other cameras."@
    }
}

/// What the CAMERA PROFILE section lists for the open file: the file's
/// own calibrations first (under `embedded_name`), then the profiles in
/// the directory that were made for this camera, then the chosen one when
/// it is neither, so the panel says what the edit says.
pub fn show_profiles(
    entries: &Vec<ProfileEntry>,
    embedded_name: &str,
    chosen: &str,
    embedded: bool,
    dir: Option<&str>,
) -> (l: ProfileList)
    ensures
        ({
            let gone = profile_missing(entries@, embedded_name@, chosen@, embedded);
            &&& text::texts(l.names@) == seq![embedded_name@] + profile_names(entries@, chosen@)
                + if gone {
                seq![chosen@]
            } else {
                seq![]
            }
            &&& text::texts(l.labels@) == seq!["Embedded"@] + profile_labels(entries@, chosen@)
                + if gone {
                seq![chosen@ + " (missing)"@]
            } else {
                seq![]
            }
            &&& l.note@ == profiles_note(entries@, chosen@, dir)
        }),
{
    let mut names: Vec<String> = Vec::new();
    let mut labels: Vec<String> = Vec::new();
    names.push(embedded_name.to_owned());
    labels.push("Embedded".to_owned());
    let mut hidden: usize = 0;
    let mut there: bool = text::same_text(embedded_name, chosen);
    let mut i: usize = 0;
    proof {
        assert(entries@.take(0) =~= seq![]);
        assert(text::texts(names@) =~= seq![embedded_name@] + profile_names(
            entries@.take(0),
            chosen@,
        ));
        assert(text::texts(labels@) =~= seq!["Embedded"@] + profile_labels(
            entries@.take(0),
            chosen@,
        ));
    }
    while i < entries.len()
        invariant
            i <= entries@.len(),
            hidden <= i,
            hidden == profiles_hidden(entries@.take(i as int), chosen@),
            text::texts(names@) == seq![embedded_name@] + profile_names(
                entries@.take(i as int),
                chosen@,
            ),
            text::texts(labels@) == seq!["Embedded"@] + profile_labels(
                entries@.take(i as int),
                chosen@,
            ),
            there == (embedded_name@ == chosen@ || profile_names(
                entries@.take(i as int),
                chosen@,
            ).contains(chosen@)),
        decreases entries.len() - i,
    {
        let e = &entries[i];
        let same: bool = text::same_text(e.name.as_str(), chosen);
        let ghost was = profile_names(entries@.take(i as int), chosen@);
        let ghost names0 = names@;
        let ghost labels0 = labels@;
        let listed: bool = e.fits || same;
        if listed {
            names.push(e.name.clone());
            labels.push(e.label.clone());
        } else {
            hidden = hidden + 1;
        }
        let here: bool = there || same;
        i = i + 1;
        proof {
            let done = entries@.take(i as int);
            assert(done.drop_last() =~= entries@.take(i - 1));
            assert(done.last() == entries@[i - 1]);
            let now = profile_names(done, chosen@);
            if listed {
                assert(text::texts(names@) =~= text::texts(names0).push(e.name@));
                assert(text::texts(labels@) =~= text::texts(labels0).push(e.label@));
                assert(text::texts(names@) =~= seq![embedded_name@] + now);
                assert(text::texts(labels@) =~= seq!["Embedded"@] + profile_labels(done, chosen@));
                assert(now[now.len() - 1] == e.name@);
            }
            if was.contains(chosen@) {
                let k = choose|k: int| 0 <= k < was.len() && was[k] == chosen@;
                assert(now[k] == chosen@);
            }
            if now.contains(chosen@) {
                let k = choose|k: int| 0 <= k < now.len() && now[k] == chosen@;
                if k < was.len() {
                    assert(was[k] == chosen@);
                }
            }
        }
        there = here;
    }
    assert(entries@.take(i as int) =~= entries@);
    let ghost names0 = names@;
    let ghost labels0 = labels@;
    if !embedded && !there {
        names.push(chosen.to_owned());
        let mut label = chosen.to_owned();
        label.append(" (missing)");
        labels.push(label);
        assert(text::texts(names@) =~= text::texts(names0).push(chosen@));
        assert(text::texts(labels@) =~= text::texts(labels0).push(chosen@ + " (missing)"@));
    }
    proof {
        let gone = profile_missing(entries@, embedded_name@, chosen@, embedded);
        assert(text::texts(names@) =~= seq![embedded_name@] + profile_names(entries@, chosen@)
            + if gone {
            seq![chosen@]
        } else {
            seq![]
        });
        assert(text::texts(labels@) =~= seq!["Embedded"@] + profile_labels(entries@, chosen@)
            + if gone {
            seq![chosen@ + " (missing)"@]
        } else {
            seq![]
        });
    }
    let mut note = "".to_owned();
    if entries.len() == 0 {
        match dir {
            Some(d) => {
                note = "No profiles yet: put DCP files in ".to_owned();
                note.append(d);
                note.append(".");
            },
            None => {
                note = "No profile directory on this machine.".to_owned();
            },
        }
    } else if hidden > 0 {
        note = text::decimal_of(hidden as u64);
        note.append(" more there, for other cameras.");
    }
    ProfileList { names, labels, note }
}

/// The line under the looks: what the chosen table is (`described`), or
/// where looks go when there are none.
pub fn looks_note(described: Option<&str>, looks: usize, dir: Option<&str>) -> (s: String)
    ensures
        s@ == match described {
            Some(d) => d@,
            None => if looks > 0 {
                ""@
            } else {
                match dir {
                    Some(d) => "No looks yet: put .cube or HaldCLUT .png files in "@ + d@ + "."@,
                    None => "No look directory on this machine."@,
                }
            },
        },
{
    match described {
        Some(d) => d.to_owned(),
        None => {
            if looks > 0 {
                return "".to_owned();
            }
            match dir {
                Some(d) => {
                    let mut s = "No looks yet: put .cube or HaldCLUT .png files in ".to_owned();
                    s.append(d);
                    s.append(".");
                    s
                },
                None => "No look directory on this machine.".to_owned(),
            }
        },
    }
}

/// The host said of an address is what stands between its double stroke
/// and the next one, or its end; with no double stroke it is the word
/// given for it.
pub proof fn a_host_is_between_the_strokes(
    scheme: Seq<char>,
    host: Seq<char>,
    rest: Seq<char>,
    otherwise: Seq<char>,
)
    requires
        !scheme.contains('/'),
        !host.contains('/'),
    ensures
        host_text(scheme + "//"@ + host + seq!['/'] + rest, otherwise) == host,
        host_text(scheme + "//"@ + host, otherwise) == host,
        host_text(scheme, otherwise) == otherwise,
{
    reveal_strlit("//");
    let tail = host + seq!['/'] + rest;
    lemma_host(scheme, tail, otherwise);
    assert(scheme + "//"@ + host + seq!['/'] + rest =~= scheme + "//"@ + tail);
    assert forall|i: int| 0 <= i < host.len() implies tail[i] != '/' by {
        assert(host.contains(host[i]));
    }
    text::lemma_first_of_is(tail, '/', host.len() as int);
    assert(tail.take(host.len() as int) =~= host);
    lemma_host(scheme, host, otherwise);
    assert forall|i: int| 0 <= i < host.len() implies host[i] != '/' by {
        assert(host.contains(host[i]));
    }
    text::lemma_first_of_is(host, '/', host.len() as int);
    assert(host.take(host.len() as int) =~= host);
    assert forall|i: int| 0 <= i < scheme.len() implies scheme[i] != '/' by {
        assert(scheme.contains(scheme[i]));
    }
    text::lemma_first_of_is(scheme, '/', scheme.len() as int);
}

proof fn lemma_host(scheme: Seq<char>, tail: Seq<char>, otherwise: Seq<char>)
    requires
        !scheme.contains('/'),
    ensures
        host_text(scheme + "//"@ + tail, otherwise) == up_to(tail, '/'),
{
    reveal_strlit("//");
    let url = scheme + "//"@ + tail;
    assert forall|i: int| 0 <= i < scheme.len() implies url[i] != '/' by {
        assert(scheme.contains(scheme[i]));
    }
    text::lemma_first_of_is(url, '/', scheme.len() as int);
    let rest = url.skip(scheme.len() as int + 1);
    text::lemma_first_of_is(rest, '/', 0);
    assert(rest.skip(1) =~= tail);
}

/// The terms of a download end its text: the license, where it is read,
/// and where what is fetched is kept.
pub proof fn a_download_says_its_terms(s: Source)
    ensures
        s.root matches Some(r) ==> terms_text(s) == ".\nLicense: "@ + s.license@ + " ("@
            + s.license_url@ + ").\nKept in "@ + r@ + "."@,
        s.root is None ==> terms_text(s) == ".\nLicense: "@ + s.license@ + " ("@ + s.license_url@
            + ").\nKept in "@ + "no cache directory"@ + "."@,
{
}

/// The offer of the profiles is up with their size and their terms.
/// Unprompted, it says first why it is made, and last that a refusal is
/// kept; asked for, it says neither.
pub proof fn an_offer_unasked_says_why(s: Source, asked: FetchSheet, unasked: FetchSheet)
    requires
        lenses_sheet(s, false, asked),
        lenses_sheet(s, true, unasked),
    ensures
        asked.open && unasked.open,
        asked.title@ == "Download the lens profiles?"@,
        unasked.title@ == asked.title@,
        asked.text@ == "The lensfun database, about "@ + text::decimal((s.bytes / 1000) as nat)
            + " KB from "@ + host_text(s.url@, "its site"@) + terms_text(s),
        unasked.text@ == LENSES_WHY@ + "\n\n"@ + asked.text@,
        asked.note@
            == "greycard does not ship the profiles; they are fetched for you under their own license."@,
        unasked.note@ == asked.note@
            + " Not now asks no more; the LENS section keeps the button."@,
{
}

/// The profiles are offered unasked where nothing stands in the way: not
/// after a refusal, nor twice in a launch, nor over a sheet or a download,
/// nor to a run that nobody watches.
pub proof fn nothing_is_offered_over_another(st: Offers, other_sheet: bool)
    ensures
        offers_lenses(st, other_sheet) <==> !(st.lenses_declined || st.lenses_asked || st.fetch
            is Some || st.fetching || other_sheet || st.batch),
        other_sheet ==> !offers_lenses(st, other_sheet),
        st.batch ==> !offers_lenses(st, other_sheet),
        st.lenses_declined ==> !offers_lenses(st, other_sheet),
{
}

/// A model's offer names it, its size and its terms, and says whose copy
/// it is: greycard's own, under the license of the model it was made
/// from, or another's. Where it takes the place of one that falls back,
/// the note begins with that.
pub proof fn a_model_is_offered_for_what_it_is(m: About, plain: FetchSheet, over: FetchSheet)
    requires
        model_sheet(m, false, plain),
        model_sheet(m, true, over),
    ensures
        plain.open && over.open,
        plain.title@ == "Download "@ + m.name@ + "?"@,
        over.title@ == plain.title@,
        over.text@ == plain.text@,
        plain.text@ == text::decimal(((m.source.bytes + 500000) / 1000000) as nat) + " MB from "@
            + host_text(m.source.url@, "the model host"@) + terms_text(m.source),
        m.modified ==> plain.note@
            == "greycard publishes this copy, changed from the original for speed; it is fetched for you under the original's "@
            + m.source.license@ + " license."@,
        !m.modified ==> plain.note@
            == "greycard does not ship this model; it is fetched for you under its own license."@,
        over.note@
            == "The Subject model in your store falls back to the CPU on this card; a rewrite of the same weights runs on it, "@
            + text::decimal(((m.source.bytes + 500000) / 1000000) as nat) + " MB. "@ + plain.note@,
{
}

/// What is done without is said by the model that was refused: a denoise
/// of the engine's own, a fill left as it was, the plain model, or a
/// shape that masks nothing.
pub proof fn what_is_lost_is_the_models(m: Model)
    ensures
        m is SubjectWebGpu ==> lost_text(m)
            == "without the GPU model the original Subject model is offered"@,
        m is Fill ==> lost_text(m) == "without the model a fill is left as it was"@,
        m is Denoiser ==> lost_text(m)
            == "without the model the engine's own denoise stands in"@,
        m is Subject || m is Sky || m is Sam ==> lost_text(m)
            == "without the model the shape masks nothing"@,
{
}

/// What is said of the default presets: that there is no place to keep
/// any, that none is missing, or which are.
pub proof fn what_is_missing_is_named(store: bool, missing: Seq<Seq<char>>)
    ensures
        !store ==> missing_text(store, missing)
            == "No configuration directory to keep presets in."@,
        store && missing.len() == 0 ==> missing_text(store, missing)
            == "Every default preset is in the list."@,
        store && missing.len() == 1 ==> missing_text(store, missing) == missing[0]
            + " is not in the list."@,
        store && missing.len() > 1 ==> missing_text(store, missing) == deliver::listed_text(missing)
            + " are not in the list."@,
{
}

/// An import says what came of the file: why it was refused, or what was
/// saved and how many sections of it, with the settings that have no
/// place, where there are any.
pub proof fn an_import_says_what_came(i: Imported)
    ensures
        i matches Imported::Refused { file, why } ==> imported_text(i) == file@ + ": "@ + why@,
        i is NoStore ==> imported_text(i) == "no configuration directory to save into"@,
        i matches Imported::Unsaved { name, why } ==> imported_text(i) == "saving "@ + name@ + ": "@
            + why@,
        i matches Imported::Saved { name, sections, unmapped } ==> {
            let said = "imported "@ + name@ + (" ("@ + text::decimal(sections as nat) + " section"@
                + (if sections == 1 {
                ""@
            } else {
                "s"@
            }) + ")"@);
            &&& unmapped@.len() == 0 ==> imported_text(i) == said
            &&& unmapped@.len() > 0 ==> imported_text(i) == said + ("; no place here for "@
                + text::joined(text::texts(unmapped@), ", "@))
        },
{
    match i {
        Imported::Saved { name, sections, unmapped } => {
            let said = "imported "@ + name@ + sections_text(sections as nat);
            reveal_strlit("");
            assert(said + ""@ =~= said);
        },
        _ => {},
    }
}

/// The sections a preset carries are those that are on, in their order.
pub proof fn a_preset_carries_what_is_on(on: Seq<bool>, k: usize)
    requires
        on.len() <= usize::MAX,
    ensures
        sections_on(on).contains(k) <==> k < on.len() && on[k as int],
        forall|i: int, j: int|
            0 <= i < j < sections_on(on).len() ==> #[trigger] sections_on(on)[i]
                < #[trigger] sections_on(on)[j],
        forall|i: int| 0 <= i < sections_on(on).len() ==> #[trigger] sections_on(on)[i] < on.len(),
    decreases on.len(),
{
    if on.len() > 0 {
        let front = on.drop_last();
        let before = sections_on(front);
        let all = sections_on(on);
        a_preset_carries_what_is_on(front, k);
        if k < front.len() {
            assert(front[k as int] == on[k as int]);
        }
        if before.contains(k) {
            let i = choose|i: int| 0 <= i < before.len() && before[i] == k;
            assert(all[i] == k);
        }
        if all.contains(k) {
            let i = choose|i: int| 0 <= i < all.len() && all[i] == k;
            if i < before.len() {
                assert(before[i] == k);
            }
        }
        if on.last() {
            assert(all[all.len() - 1] == (on.len() - 1) as usize);
        }
        assert forall|i: int| 0 <= i < all.len() implies #[trigger] all[i] < on.len() by {
            if i < before.len() {
                assert(before[i] == all[i]);
            }
        }
        assert forall|i: int, j: int| 0 <= i < j < all.len() implies #[trigger] all[i]
            < #[trigger] all[j] by {
            assert(before[i] == all[i]);
            if j < before.len() {
                assert(before[j] == all[j]);
            }
        }
    }
}

/// A preset removed can be restored when its name is one of the defaults'
/// that are missing, the case of its letters aside.
pub proof fn a_default_removed_can_be_restored(missing: Seq<String>, name: Seq<char>, i: int)
    ensures
        0 <= i < missing.len() && text::alike(missing[i]@, name) ==> is_restorable(missing, name),
        (forall|j: int| 0 <= j < missing.len() ==> !text::alike(#[trigger] missing[j]@, name))
            ==> !is_restorable(missing, name),
{
}

/// What the panel says of a lens: its own name where a profile was found,
/// with what is assumed of it, and why there is none where none was.
pub proof fn a_lens_is_said_as_it_was_found(r: LensReport)
    ensures
        r is NoDatabase ==> lens_text(r) == "no lens profiles on this machine"@,
        r is NoLensName ==> lens_text(r) == "the file names no lens"@,
        r matches LensReport::Unknown(name) ==> lens_text(r) == "no profile for "@ + name@,
        r matches LensReport::Found { lens, camera, smaller_sensor } ==> {
            &&& camera && !smaller_sensor ==> lens_text(r) == lens@
            &&& camera && smaller_sensor ==> lens_text(r) == lens@
                + " (measured on a smaller sensor)"@
            &&& !camera ==> lens_text(r) == lens@ + " (body unknown, its own format assumed)"@
        },
{
}

/// The profiles listed are those for the camera and the chosen one, each
/// with its own label and in the directory's order; those left out are
/// counted.
pub proof fn the_profiles_listed_are_the_cameras(
    entries: Seq<ProfileEntry>,
    chosen: Seq<char>,
    name: Seq<char>,
)
    ensures
        profile_names(entries, chosen).contains(name) <==> exists|i: int|
            0 <= i < entries.len() && (#[trigger] entries[i]).name@ == name && (entries[i].fits
                || name == chosen),
        profile_labels(entries, chosen).len() == profile_names(entries, chosen).len(),
        forall|k: int|
            0 <= k < profile_names(entries, chosen).len() ==> exists|i: int|
                0 <= i < entries.len() && (#[trigger] entries[i]).name@ == #[trigger] profile_names(
                    entries,
                    chosen,
                )[k] && entries[i].label@ == profile_labels(entries, chosen)[k],
        profile_names(entries, chosen).len() + profiles_hidden(entries, chosen) == entries.len(),
    decreases entries.len(),
{
    if entries.len() > 0 {
        let front = entries.drop_last();
        let last = entries.last();
        let (before, all) = (profile_names(front, chosen), profile_names(entries, chosen));
        let (labels, every) = (profile_labels(front, chosen), profile_labels(entries, chosen));
        the_profiles_listed_are_the_cameras(front, chosen, name);
        assert forall|i: int| 0 <= i < front.len() implies #[trigger] entries[i] == front[i] by {}
        assert(entries[entries.len() - 1] == last);
        if before.contains(name) {
            let k = choose|k: int| 0 <= k < before.len() && before[k] == name;
            assert(all[k] == name);
            let i = choose|i: int|
                0 <= i < front.len() && (#[trigger] front[i]).name@ == name && (front[i].fits
                    || name == chosen);
            assert(entries[i] == front[i]);
        }
        if all.contains(name) {
            let k = choose|k: int| 0 <= k < all.len() && all[k] == name;
            if k < before.len() {
                assert(before[k] == name);
            }
        }
        if listed_profile(last, chosen) {
            assert(all[all.len() - 1] == last.name@);
        }
        if exists|i: int|
            0 <= i < entries.len() && (#[trigger] entries[i]).name@ == name && (entries[i].fits
                || name == chosen) {
            let i = choose|i: int|
                0 <= i < entries.len() && (#[trigger] entries[i]).name@ == name && (entries[i].fits
                    || name == chosen);
            if i < front.len() {
                assert(front[i].name@ == name);
                assert(before.contains(name));
            } else {
                assert(entries[i] == last);
                assert(all.contains(name));
            }
        }
        assert forall|k: int| 0 <= k < all.len() implies exists|i: int|
            0 <= i < entries.len() && (#[trigger] entries[i]).name@ == #[trigger] all[k]
                && entries[i].label@ == every[k] by {
            if k < before.len() {
                assert(before[k] == all[k] && labels[k] == every[k]);
                let i = choose|i: int|
                    0 <= i < front.len() && (#[trigger] front[i]).name@ == before[k]
                        && front[i].label@ == labels[k];
                assert(entries[i].name@ == all[k]);
            } else {
                assert(entries[entries.len() - 1].name@ == all[k]);
            }
        }
    } else {
        assert(!profile_names(entries, chosen).contains(name));
    }
}

/// The chosen profile is said to be missing when it is not the embedded
/// one and no profile of the directory has its name.
pub proof fn a_profile_is_missing_when_nothing_has_its_name(
    entries: Seq<ProfileEntry>,
    embedded_name: Seq<char>,
    chosen: Seq<char>,
    embedded: bool,
)
    ensures
        profile_missing(entries, embedded_name, chosen, embedded) <==> !embedded && embedded_name
            != chosen && (forall|i: int|
            0 <= i < entries.len() ==> (#[trigger] entries[i]).name@ != chosen),
{
    the_profiles_listed_are_the_cameras(entries, chosen, chosen);
}

/// The note is where to put profiles, with none there, and how many are
/// for other cameras, with any such; else it is empty.
pub proof fn the_note_is_of_what_is_not_listed(
    entries: Seq<ProfileEntry>,
    chosen: Seq<char>,
    dir: Option<&str>,
)
    ensures
        entries.len() == 0 ==> (match dir {
            Some(d) => profiles_note(entries, chosen, dir) == "No profiles yet: put DCP files in "@
                + d@ + "."@,
            None => profiles_note(entries, chosen, dir)
                == "No profile directory on this machine."@,
        }),
        entries.len() > 0 && profile_names(entries, chosen).len() == entries.len()
            ==> profiles_note(entries, chosen, dir) == ""@,
        profile_names(entries, chosen).len() < entries.len() ==> profiles_note(entries, chosen, dir)
            == text::decimal((entries.len() - profile_names(entries, chosen).len()) as nat)
            + " more there, for other cameras."@,
{
    the_profiles_listed_are_the_cameras(entries, chosen, chosen);
}

} // verus!
