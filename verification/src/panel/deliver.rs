//! What the worker sends back, and the export sheet.

use crate::panel::browser::{Browser, Stand};
use crate::panel::browser;
use crate::panel::color::WhiteKey;
use crate::panel::edit::Work;
use crate::panel::learned::{Key, Model};
use crate::panel::learned;
use crate::panel::model::{Edit, Kind};
use crate::panel::placeholder::Desk;
use crate::panel::placeholder;
use crate::panel::selection;
use crate::paths;
use crate::text;
use vstd::prelude::*;

verus! {

/// Names in a sentence.
pub open spec fn listed_text(names: Seq<Seq<char>>) -> Seq<char> {
    if names.len() < 2 {
        text::joined(names, ", "@)
    } else {
        text::joined(names.drop_last(), ", "@) + " and "@ + names.last()
    }
}

/// Names in a sentence: "Fill 1", "Fill 1 and Fill 2", "Fill 1, Fill 2
/// and Fill 3".
pub fn listed(names: &Vec<String>) -> (s: String)
    ensures
        s@ == listed_text(text::texts(names@)),
{
    let mut s = String::new();
    let mut i: usize = 0;
    let ghost all = text::texts(names@);
    assert(all.take(0) =~= seq![]);
    assert(s@ =~= text::joined(all.take(0), ", "@));
    let count: usize = names.len();
    while i < count && count - i > 1
        invariant
            count == names@.len(),
            i <= names@.len(),
            i + 1 <= names@.len() || i == 0,
            all == text::texts(names@),
            s@ == text::joined(all.take(i as int), ", "@),
        decreases names.len() - i,
    {
        if i > 0 {
            s.append(", ");
        }
        s.append(names[i].as_str());
        i = i + 1;
        proof {
            let done = all.take(i as int);
            assert(done.drop_last() =~= all.take(i - 1));
            assert(done.last() == names@[i - 1]@);
            assert(s@ =~= text::joined(done, ", "@));
        }
    }
    if names.len() == 0 {
        assert(all =~= all.take(0));
        return s;
    }
    if i > 0 {
        s.append(" and ");
    }
    s.append(names[i].as_str());
    proof {
        assert(all.last() == names@[i as int]@);
        assert(all.take(i as int) =~= all.drop_last());
        assert(s@ =~= listed_text(all));
    }
    s
}


// The line a develop leaves.

/// The local contrast of a develop: its radii, and how long it took or
/// none for one kept.
#[derive(Debug)]
pub struct Detail {
    pub texture_radius: u64,
    pub clarity_radius: u64,
    pub seconds: Option<String>,
}

/// How the learned denoiser came out.
#[derive(Debug)]
pub enum LearnedReport {
    Off,
    Kept,
    Ran { version: String, provider: String, seconds: String },
    Cached { seconds: String },
    Missing(Model),
    Failed(String),
}

/// How the fills came out: those made, those left for want of the model,
/// and those the model failed on, each with why.
#[derive(Debug)]
pub struct Fills {
    pub made: Vec<String>,
    pub seconds: String,
    pub missing: Vec<String>,
    pub failed: Vec<(String, String)>,
}

/// What a develop says of itself. A number with a fraction is already in
/// words.
#[derive(Debug)]
pub struct Report {
    pub seconds: String,
    pub detail: Option<Detail>,
    /// How far it was dehazed, and to what transmission.
    pub dehaze: Option<(String, String)>,
    /// The radius it was sharpened at, and over what percentage of it.
    pub sharpen: Option<(String, String)>,
    pub learned: LearnedReport,
    pub fills: Fills,
}

pub open spec fn detail_text(d: Option<Detail>) -> Seq<char> {
    match d {
        None => ""@,
        Some(d) => ", local contrast at "@ + text::decimal(d.texture_radius as nat) + " and "@
            + text::decimal(d.clarity_radius as nat) + (match d.seconds {
            Some(s) => " px in "@ + s@ + " s"@,
            None => " px kept"@,
        }),
    }
}

fn put_detail(s: &mut String, d: &Option<Detail>)
    ensures
        final(s)@ == old(s)@ + detail_text(*d),
{
    match d {
        None => {
            s.append("");
        },
        Some(d) => {
            let mut t = ", local contrast at ".to_owned();
            text::put_decimal(&mut t, d.texture_radius);
            t.append(" and ");
            text::put_decimal(&mut t, d.clarity_radius);
            let mut u = " px kept".to_owned();
            if let Some(secs) = &d.seconds {
                u = " px in ".to_owned();
                u.append(secs.as_str());
                u.append(" s");
            }
            t.append(u.as_str());
            s.append(t.as_str());
        },
    }
}

pub open spec fn dehaze_text(d: Option<(String, String)>) -> Seq<char> {
    match d {
        None => ""@,
        Some(d) => ", dehazed "@ + d.0@ + " to a mean transmission of "@ + d.1@,
    }
}

fn put_dehaze(s: &mut String, d: &Option<(String, String)>)
    ensures
        final(s)@ == old(s)@ + dehaze_text(*d),
{
    match d {
        None => {
            s.append("");
        },
        Some(d) => {
            let mut t = ", dehazed ".to_owned();
            t.append(d.0.as_str());
            t.append(" to a mean transmission of ");
            t.append(d.1.as_str());
            s.append(t.as_str());
        },
    }
}

pub open spec fn sharpen_text(d: Option<(String, String)>) -> Seq<char> {
    match d {
        None => ""@,
        Some(d) => ", sharpened at radius "@ + d.0@ + " over "@ + d.1@ + "% of it"@,
    }
}

fn put_sharpen(s: &mut String, d: &Option<(String, String)>)
    ensures
        final(s)@ == old(s)@ + sharpen_text(*d),
{
    match d {
        None => {
            s.append("");
        },
        Some(d) => {
            let mut t = ", sharpened at radius ".to_owned();
            t.append(d.0.as_str());
            t.append(" over ");
            t.append(d.1.as_str());
            t.append("% of it");
            s.append(t.as_str());
        },
    }
}

pub open spec fn learned_text(l: LearnedReport) -> Seq<char> {
    match l {
        LearnedReport::Off => ""@,
        LearnedReport::Kept => ""@,
        LearnedReport::Ran { version, provider, seconds } => ", learned denoiser "@ + version@
            + " on "@ + provider@ + " in "@ + seconds@ + " s"@,
        LearnedReport::Cached { seconds } => ", learned denoiser from the cache in "@ + seconds@
            + " s"@,
        LearnedReport::Missing(_) => ", the engine's denoise until the model is fetched"@,
        LearnedReport::Failed(message) => ", the engine's denoise: the learned one failed ("@
            + message@ + ")"@,
    }
}

fn put_learned(s: &mut String, l: &LearnedReport)
    ensures
        final(s)@ == old(s)@ + learned_text(*l),
{
    let mut t = "".to_owned();
    match l {
        LearnedReport::Off => {},
        LearnedReport::Kept => {},
        LearnedReport::Ran { version, provider, seconds } => {
            t = ", learned denoiser ".to_owned();
            t.append(version.as_str());
            t.append(" on ");
            t.append(provider.as_str());
            t.append(" in ");
            t.append(seconds.as_str());
            t.append(" s");
        },
        LearnedReport::Cached { seconds } => {
            t = ", learned denoiser from the cache in ".to_owned();
            t.append(seconds.as_str());
            t.append(" s");
        },
        LearnedReport::Missing(_) => {
            t = ", the engine's denoise until the model is fetched".to_owned();
        },
        LearnedReport::Failed(message) => {
            t = ", the engine's denoise: the learned one failed (".to_owned();
            t.append(message.as_str());
            t.append(")");
        },
    }
    s.append(t.as_str());
}

pub open spec fn made_text(f: Fills) -> Seq<char> {
    if f.made@.len() == 0 {
        ""@
    } else {
        ", "@ + listed_text(text::texts(f.made@)) + " filled by the model in "@ + f.seconds@ + " s"@
    }
}

pub open spec fn left_text(f: Fills) -> Seq<char> {
    if f.missing@.len() == 0 {
        ""@
    } else {
        ", "@ + listed_text(text::texts(f.missing@)) + " left as "@ + (if f.missing@.len() == 1 {
            "it was"@
        } else {
            "they were"@
        }) + " until the fill model is fetched"@
    }
}

pub open spec fn fills_failed_text(failed: Seq<(String, String)>) -> Seq<char>
    decreases failed.len(),
{
    if failed.len() == 0 {
        ""@
    } else {
        fills_failed_text(failed.drop_last()) + (", "@ + failed.last().0@
            + " left as it was: the fill model failed ("@ + failed.last().1@ + ")"@)
    }
}

fn put_fills(s: &mut String, f: &Fills)
    ensures
        final(s)@ == old(s)@ + made_text(*f) + left_text(*f) + fills_failed_text(f.failed@),
{
    let mut made = "".to_owned();
    if f.made.len() > 0 {
        made = ", ".to_owned();
        let list = listed(&f.made);
        made.append(list.as_str());
        made.append(" filled by the model in ");
        made.append(f.seconds.as_str());
        made.append(" s");
    }
    s.append(made.as_str());
    let mut left = "".to_owned();
    if f.missing.len() > 0 {
        left = ", ".to_owned();
        let list = listed(&f.missing);
        left.append(list.as_str());
        left.append(" left as ");
        if f.missing.len() == 1 {
            left.append("it was");
        } else {
            left.append("they were");
        }
        left.append(" until the fill model is fetched");
    }
    s.append(left.as_str());
    let mut tail = "".to_owned();
    let mut i: usize = 0;
    assert(f.failed@.take(0) =~= seq![]);
    while i < f.failed.len()
        invariant
            i <= f.failed@.len(),
            tail@ == fills_failed_text(f.failed@.take(i as int)),
        decreases f.failed.len() - i,
    {
        let mut t = ", ".to_owned();
        t.append(f.failed[i].0.as_str());
        t.append(" left as it was: the fill model failed (");
        t.append(f.failed[i].1.as_str());
        t.append(")");
        tail.append(t.as_str());
        i = i + 1;
        assert(f.failed@.take(i as int).drop_last() =~= f.failed@.take(i - 1));
    }
    assert(f.failed@.take(i as int) =~= f.failed@);
    s.append(tail.as_str());
}

/// What a develop says: its size, how long it took, and what was done.
pub open spec fn developed_text(width: u32, height: u32, r: Report) -> Seq<char> {
    text::decimal(width as nat) + "x"@ + text::decimal(height as nat) + ", developed in "@
        + r.seconds@ + " s"@ + detail_text(r.detail) + dehaze_text(r.dehaze) + sharpen_text(
        r.sharpen,
    ) + learned_text(r.learned) + made_text(r.fills) + left_text(r.fills) + fills_failed_text(
        r.fills.failed@,
    )
}

pub fn developed_words(width: u32, height: u32, r: &Report) -> (s: String)
    ensures
        s@ == developed_text(width, height, *r),
{
    let mut s = text::decimal_of(width as u64);
    s.append("x");
    text::put_decimal(&mut s, height as u64);
    s.append(", developed in ");
    s.append(r.seconds.as_str());
    s.append(" s");
    put_detail(&mut s, &r.detail);
    put_dehaze(&mut s, &r.dehaze);
    put_sharpen(&mut s, &r.sharpen);
    put_learned(&mut s, &r.learned);
    put_fills(&mut s, &r.fills);
    s
}


// The worker's results.

/// The thumbnails: the size each was made and last asked for at, the size
/// the cells want, and the rows the grid shows.
#[derive(Debug)]
pub struct Thumbs {
    pub made: Vec<u32>,
    pub asked: Vec<u32>,
    pub want: u32,
    pub grid_shown: Option<(i32, i32)>,
}

/// What kind of run this is, and what it waits for.
#[derive(Debug, Clone, Copy, PartialEq, Eq, Structural)]
pub struct Run {
    pub batch: bool,
    /// It ends with a failure.
    pub failed: bool,
    /// The turn still to be pressed, and whether a capture waits on one.
    pub turn_at_start: Option<i32>,
    pub awaiting_turn: bool,
    /// An export of the first develop, after which the run ends.
    pub export_waits: bool,
    /// The run was for an export, and no screenshot is waited on.
    pub ends_after_export: bool,
}

/// All that a result can touch.
#[derive(Debug)]
pub struct Floor {
    pub desk: Desk,
    pub thumbs: Thumbs,
    /// The files whose learned denoiser's blend is still to be set.
    pub seed: Vec<bool>,
    pub run: Run,
    pub fetching: bool,
    /// The download sheet is up for something.
    pub offered: bool,
    pub declined: Vec<Model>,
    /// The masks asked of a model that has not answered.
    pub asked: Vec<Key>,
    /// The size of the picture the viewport draws, and the develop
    /// waiting for the frame that puts it on the GPU.
    pub shown_size: (u32, u32),
    pub pending: Option<u64>,
    pub show_mask: bool,
    pub raw_input: bool,
    pub source_note: String,
}

impl Floor {
    pub open spec fn wf(self) -> bool {
        &&& self.desk.wf()
        &&& self.thumbs.made@.len() == self.desk.browser.names@.len()
        &&& self.thumbs.asked@.len() == self.desk.browser.names@.len()
        &&& self.seed@.len() == self.desk.browser.names@.len()
    }
}

/// What a file is.
#[derive(Debug)]
pub enum SourceKind {
    Raw,
    /// A picture that is not a raw: its space, its bits and its name's
    /// extension.
    Picture { space: String, bits: u64, extension: Option<String> },
}

/// A result of the worker's. A number with a fraction is already in
/// words.
#[derive(Debug)]
pub enum Outcome {
    /// A thumbnail of the file that had that number when it was asked for;
    /// `bigger` when the cells want a larger one.
    Thumbnail { index: usize, path: String, size: u32, bigger: bool, stand: Stand },
    Opened {
        generation: u64,
        /// The learned denoiser's blend was set from the ISO.
        blend: bool,
        kind: SourceKind,
        camera: String,
        exposure: String,
        /// No lens database is on the machine.
        no_lenses: bool,
    },
    Developed {
        generation: u64,
        width: u32,
        height: u32,
        /// The engine chose sources for repairs.
        sources: bool,
        report: Report,
        /// The words of the dropper in hand, when one is.
        hint: Option<String>,
    },
    Filling { generation: u64, name: String },
    Failed { generation: u64, message: String },
    Exported { name: String, seconds: String, note: Option<String> },
    ExportSkipped { name: String },
    /// A mask found, and what it ran on, when it ran.
    Mask { key: Key, kind: Kind, provider: Option<String>, seconds: String },
    /// A mask that could not be.
    MaskFailed { key: Key, message: String },
    Fetching { name: String, done: u64, total: u64 },
    /// A model is here.
    Fetched { model: Model, name: String },
    FetchFailed { name: String, message: String },
    LensesFetching { done: u64, total: u64 },
    LensesFetched,
    LensesFetchFailed { message: String },
    ExportFailed { message: String },
}

/// What a result asks of the caller.
#[derive(Debug, Clone, Copy, PartialEq, Eq, Structural)]
pub enum Act {
    /// The result was of something since gone: nothing.
    Stale,
    /// Nothing more than what was said.
    Nothing,
    Redraw,
    /// The thumbnail made again, at the larger size.
    Thumbnail(usize),
    /// A file was opened: its blend put on the panel when it was set, its
    /// profiles listed, and the lens profiles offered when there are
    /// none.
    Opened { blend: bool, offer_lenses: bool },
    /// A develop landed: the edit saved, a model offered, the last file
    /// remembered, a turn pressed or the waiting export started.
    Developed { save: bool, offer: Option<Model>, turn: Option<i32>, export: bool },
    /// The event loop ends.
    Quit,
    /// The open file is developed again, or opened again.
    Develop(u64),
    Open { file: usize, generation: u64 },
}

/// A text in capitals, its ASCII letters alone.
pub open spec fn upper_text(s: Seq<char>) -> Seq<char> {
    s.map_values(|c: char| text::upper(c))
}

fn upper(s: &str) -> (out: String)
    ensures
        out@ == upper_text(s@),
{
    let v = text::chars_of(s);
    let mut u: Vec<char> = Vec::new();
    let mut i: usize = 0;
    while i < v.len()
        invariant
            i <= v@.len(),
            u@.len() == i,
            forall|k: int| 0 <= k < i ==> #[trigger] u@[k] == text::upper(v@[k]),
        decreases v.len() - i,
    {
        u.push(text::upper_char(v[i]));
        i = i + 1;
    }
    assert(u@ =~= upper_text(s@));
    text::string_of(&u)
}

pub open spec fn source_text(kind: SourceKind) -> Seq<char> {
    match kind {
        SourceKind::Raw => ""@,
        SourceKind::Picture { space, bits, extension } => text::decimal(bits as nat) + "-bit "@
            + (match extension {
            Some(e) => upper_text(e@),
            None => "picture"@,
        }) + " taken as "@ + space@
            + "; its white balance, demosaic and noise are as rendered"@,
    }
}

/// The line under a picture that is not a raw.
pub fn source_note(kind: &SourceKind) -> (s: String)
    ensures
        s@ == source_text(*kind),
{
    match kind {
        SourceKind::Raw => "".to_owned(),
        SourceKind::Picture { space, bits, extension } => {
            let mut s = text::decimal_of(*bits);
            s.append("-bit ");
            let what = match extension {
                Some(e) => upper(e.as_str()),
                None => "picture".to_owned(),
            };
            s.append(what.as_str());
            s.append(" taken as ");
            s.append(space.as_str());
            s.append("; its white balance, demosaic and noise are as rendered");
            s
        },
    }
}

/// A name up to its first comma, for a line.
fn short_name(name: &str) -> (s: String)
    ensures
        s@ == learned::before_comma(name@),
{
    let v = text::chars_of(name);
    assert(v@.skip(0) =~= v@);
    let comma: usize = text::find(&v, 0, ',');
    let short = text::part(&v, 0, comma);
    assert(short@ =~= learned::before_comma(name@));
    text::string_of(&short)
}

/// A kind's name in small letters.
pub open spec fn small_name(kind: Kind) -> Seq<char> {
    match kind {
        Kind::Linear => "linear"@,
        Kind::Radial => "radial"@,
        Kind::Brush => "brush"@,
        Kind::Subject => "subject"@,
        Kind::Sky => "sky"@,
        Kind::Object => "object"@,
        Kind::Luminance => "luminance"@,
        Kind::Color => "color"@,
        Kind::Unknown => "unknown"@,
    }
}

fn small(kind: Kind) -> (s: &'static str)
    ensures
        s@ == small_name(kind),
{
    match kind {
        Kind::Linear => "linear",
        Kind::Radial => "radial",
        Kind::Brush => "brush",
        Kind::Subject => "subject",
        Kind::Sky => "sky",
        Kind::Object => "object",
        Kind::Luminance => "luminance",
        Kind::Color => "color",
        Kind::Unknown => "unknown",
    }
}

/// What a result says in the status line, for those that only say.
pub open spec fn said_text(o: Outcome) -> Option<Seq<char>> {
    match o {
        Outcome::Filling { name, .. } => Some(
            "developing... the fill model is at work on "@ + name@,
        ),
        Outcome::Failed { message, .. } => Some("failed: "@ + message@),
        Outcome::Exported { name, seconds, note } => Some(
            "exported "@ + name@ + " in "@ + seconds@ + " s"@ + (match note {
                Some(n) => " ("@ + n@ + ")"@,
                None => ""@,
            }),
        ),
        Outcome::ExportSkipped { name } => Some(name@ + " is there already: nothing exported"@),
        Outcome::Mask { kind, provider, seconds, .. } => match provider {
            Some(p) => Some(small_name(kind) + " found on "@ + p@ + " in "@ + seconds@ + " s"@),
            None => None,
        },
        Outcome::MaskFailed { message, .. } => Some("mask: "@ + message@),
        Outcome::Fetching { name, done, total } => Some(
            "downloading "@ + learned::before_comma(name@) + ": "@ + text::decimal(
                (done / 1000000) as nat,
            ) + " of "@ + text::decimal((total / 1000000) as nat) + " MB"@,
        ),
        Outcome::Fetched { name, .. } => Some(learned::before_comma(name@) + " is ready"@),
        Outcome::FetchFailed { name, message } => Some(
            learned::before_comma(name@) + " could not be fetched: "@ + message@,
        ),
        Outcome::LensesFetching { done, total } => Some(
            "downloading the lens profiles: "@ + text::decimal((done / 1000) as nat) + " of "@
                + text::decimal((total / 1000) as nat) + " KB"@,
        ),
        Outcome::LensesFetched => Some("the lens profiles are ready"@),
        Outcome::LensesFetchFailed { message } => Some(
            "the lens profiles could not be fetched: "@ + message@,
        ),
        Outcome::ExportFailed { message } => Some("export failed: "@ + message@),
        _ => None,
    }
}

/// What a result says in the status line, for those that only say.
pub fn said(o: &Outcome) -> (r: Option<String>)
    ensures
        r is Some <==> said_text(*o) is Some,
        r matches Some(s) ==> said_text(*o) == Some(s@),
{
    match o {
        Outcome::Filling { name, .. } => {
            let mut s = "developing... the fill model is at work on ".to_owned();
            s.append(name.as_str());
            Some(s)
        },
        Outcome::Failed { message, .. } => {
            let mut s = "failed: ".to_owned();
            s.append(message.as_str());
            Some(s)
        },
        Outcome::Exported { name, seconds, note } => {
            let mut s = "exported ".to_owned();
            s.append(name.as_str());
            s.append(" in ");
            s.append(seconds.as_str());
            s.append(" s");
            let mut t = "".to_owned();
            if let Some(n) = note {
                t = " (".to_owned();
                t.append(n.as_str());
                t.append(")");
            }
            s.append(t.as_str());
            Some(s)
        },
        Outcome::ExportSkipped { name } => {
            let mut s = name.clone();
            s.append(" is there already: nothing exported");
            Some(s)
        },
        Outcome::Mask { kind, provider, seconds, .. } => match provider {
            Some(p) => {
                let mut s = small(*kind).to_owned();
                s.append(" found on ");
                s.append(p.as_str());
                s.append(" in ");
                s.append(seconds.as_str());
                s.append(" s");
                Some(s)
            },
            None => None,
        },
        Outcome::MaskFailed { message, .. } => {
            let mut s = "mask: ".to_owned();
            s.append(message.as_str());
            Some(s)
        },
        Outcome::Fetching { name, done, total } => {
            let mut s = "downloading ".to_owned();
            let short = short_name(name.as_str());
            s.append(short.as_str());
            s.append(": ");
            text::put_decimal(&mut s, *done / 1000000);
            s.append(" of ");
            text::put_decimal(&mut s, *total / 1000000);
            s.append(" MB");
            Some(s)
        },
        Outcome::Fetched { name, .. } => {
            let mut s = short_name(name.as_str());
            s.append(" is ready");
            Some(s)
        },
        Outcome::FetchFailed { name, message } => {
            let mut s = short_name(name.as_str());
            s.append(" could not be fetched: ");
            s.append(message.as_str());
            Some(s)
        },
        Outcome::LensesFetching { done, total } => {
            let mut s = "downloading the lens profiles: ".to_owned();
            text::put_decimal(&mut s, *done / 1000);
            s.append(" of ");
            text::put_decimal(&mut s, *total / 1000);
            s.append(" KB");
            Some(s)
        },
        Outcome::LensesFetched => Some("the lens profiles are ready".to_owned()),
        Outcome::LensesFetchFailed { message } => {
            let mut s = "the lens profiles could not be fetched: ".to_owned();
            s.append(message.as_str());
            Some(s)
        },
        Outcome::ExportFailed { message } => {
            let mut s = "export failed: ".to_owned();
            s.append(message.as_str());
            Some(s)
        },
        _ => None,
    }
}


// A thumbnail.

/// A file whose row the grid shows. A row and a file are two different
/// numbers under a filter, and it is its rows' pictures that a snapshot of
/// the grid waits for.
pub open spec fn in_grid(rows: Option<(i32, i32)>, shown: Seq<usize>, file: usize) -> bool {
    match (rows, browser::row(shown, file)) {
        (Some(rows), Some(r)) => rows.0 <= r <= rows.1,
        _ => false,
    }
}

/// A thumbnail in its slot, and on its row.
pub open spec fn thumb_put(
    before: Floor,
    index: usize,
    size: u32,
    bigger: bool,
    stand: Stand,
    after: Floor,
) -> bool {
    let b = before.desk.browser;
    let again = bigger && in_grid(before.thumbs.grid_shown, b.shown@, index);
    &&& after.thumbs.made@ == before.thumbs.made@.update(index as int, size)
    &&& after.thumbs.asked@ == if again {
        before.thumbs.asked@.update(index as int, before.thumbs.want)
    } else {
        before.thumbs.asked@
    }
    &&& after.thumbs.want == before.thumbs.want
    &&& after.thumbs.grid_shown == before.thumbs.grid_shown
    &&& after.desk.browser.pictured@ == b.pictured@.update(index as int, true)
    &&& after.desk.browser.stood@ == b.stood@.update(index as int, Some(stand))
    &&& after.desk.browser.thumbs@ == match browser::row(b.shown@, index) {
        Some(r) => b.thumbs@.update(r, browser::Thumb { picture: Some(stand), ..b.thumbs@[r] }),
        None => b.thumbs@,
    }
    &&& after.desk.browser == (Browser {
        pictured: after.desk.browser.pictured,
        stood: after.desk.browser.stood,
        thumbs: after.desk.browser.thumbs,
        ..b
    })
    &&& after.desk == (Desk { browser: after.desk.browser, ..before.desk })
    &&& after == (Floor { desk: after.desk, thumbs: after.thumbs, ..before })
}

fn put_thumb(b: &mut Browser, index: usize, stand: Stand)
    requires
        old(b).wf(),
        index < old(b).names@.len(),
    ensures
        final(b).wf(),
        old(b).told() ==> final(b).told(),
        final(b).pictured@ == old(b).pictured@.update(index as int, true),
        final(b).stood@ == old(b).stood@.update(index as int, Some(stand)),
        final(b).thumbs@ == match browser::row(old(b).shown@, index) {
            Some(r) => old(b).thumbs@.update(
                r,
                browser::Thumb { picture: Some(stand), ..old(b).thumbs@[r] },
            ),
            None => old(b).thumbs@,
        },
        *final(b) == (Browser {
            pictured: final(b).pictured,
            stood: final(b).stood,
            thumbs: final(b).thumbs,
            ..*old(b)
        }),
{
    b.pictured.set(index, true);
    proof {
        if old(b).told() {
            assert forall|r: int| 0 <= r < b.thumbs@.len() implies b.row_told(r) by {
                assert(old(b).row_told(r));
            }
        }
    }
    browser::show_thumb(b, index, stand);
}

/// A thumbnail made. One that was being made when the cells grew comes
/// back at the old size; nothing else would ask for it again until the
/// grid next moved, so it is asked for here.
fn thumbnail_made(f: &mut Floor, index: usize, size: u32, bigger: bool, stand: Stand) -> (again: bool)
    requires
        old(f).wf(),
        index < old(f).desk.browser.names@.len(),
    ensures
        final(f).wf(),
        again == (bigger && in_grid(
            old(f).thumbs.grid_shown,
            old(f).desk.browser.shown@,
            index,
        )),
        thumb_put(*old(f), index, size, bigger, stand, *final(f)),
{
    let seen: bool = match (f.thumbs.grid_shown, browser::row_of(&f.desk.browser.shown, index)) {
        (Some(rows), Some(r)) => (rows.0 < 0 || rows.0 as usize <= r) && rows.1 >= 0 && r
            <= rows.1 as usize,
        _ => false,
    };
    let again: bool = bigger && seen;
    f.thumbs.made.set(index, size);
    if again {
        f.thumbs.asked.set(index, f.thumbs.want);
    }
    put_thumb(&mut f.desk.browser, index, stand);
    again
}

// A file opened.

/// A file's blend set from its ISO, once.
pub open spec fn seeded(seed: Seq<bool>, current: Option<usize>, blend: bool) -> Seq<bool> {
    match current {
        Some(i) => if blend && i < seed.len() {
            seed.update(i as int, false)
        } else {
            seed
        },
        None => seed,
    }
}

/// The panel with a file's own words on it.
pub open spec fn source_put(
    before: Floor,
    blend: bool,
    kind: SourceKind,
    camera: Seq<char>,
    exposure: Seq<char>,
    after: Floor,
) -> bool {
    &&& after.seed@ == seeded(before.seed@, before.desk.browser.current, blend)
    &&& after.raw_input == kind is Raw
    &&& after.source_note@ == source_text(kind)
    &&& after.desk.screen.shot.camera@ == camera
    &&& after.desk.screen.shot.exposure@ == exposure
    &&& after.desk.screen.shot.size == before.desk.screen.shot.size
    &&& after.desk == (Desk {
        screen: placeholder::Screen { shot: after.desk.screen.shot, ..before.desk.screen },
        ..before.desk
    })
    &&& after == (Floor {
        desk: after.desk,
        seed: after.seed,
        raw_input: after.raw_input,
        source_note: after.source_note,
        ..before
    })
}

fn put_shot(s: &mut placeholder::Screen, camera: &str, exposure: &str)
    ensures
        final(s).shot.camera@ == camera@,
        final(s).shot.exposure@ == exposure@,
        final(s).shot.size == old(s).shot.size,
        *final(s) == (placeholder::Screen { shot: final(s).shot, ..*old(s) }),
{
    s.shot.camera = camera.to_owned();
    s.shot.exposure = exposure.to_owned();
}

fn seed_set(seed: &mut Vec<bool>, current: Option<usize>, blend: bool)
    ensures
        final(seed)@ == seeded(old(seed)@, current, blend),
{
    match current {
        Some(i) => {
            if blend && i < seed.len() {
                seed.set(i, false);
            }
        },
        None => {},
    }
}

fn file_opened(f: &mut Floor, blend: bool, kind: &SourceKind, camera: &str, exposure: &str)
    requires
        old(f).wf(),
    ensures
        final(f).wf(),
        source_put(*old(f), blend, *kind, camera@, exposure@, *final(f)),
{
    seed_set(&mut f.seed, f.desk.browser.current, blend);
    put_shot(&mut f.desk.screen, camera, exposure);
    f.raw_input = matches!(kind, SourceKind::Raw);
    f.source_note = source_note(kind);
}

// A develop landed.

/// The model that a develop's report has offered: the learned denoiser's,
/// or the fill's; none while another is offered or fetched, nor one the
/// user has declined.
pub open spec fn offer_of(f: Floor, r: Report) -> Option<Model> {
    if f.offered || f.fetching {
        None
    } else if r.learned matches LearnedReport::Missing(m) && !f.declined@.contains(m) {
        Some(r.learned->Missing_0)
    } else if r.fills.missing@.len() > 0 && !f.declined@.contains(Model::Fill) {
        Some(Model::Fill)
    } else {
        None
    }
}

fn offered(f: &Floor, r: &Report) -> (o: Option<Model>)
    ensures
        o == offer_of(*f, *r),
{
    if f.offered || f.fetching {
        return None;
    }
    if let LearnedReport::Missing(m) = &r.learned {
        if !learned::holds(&f.declined, *m) {
            return Some(*m);
        }
    }
    if r.fills.missing.len() > 0 && !learned::holds(&f.declined, Model::Fill) {
        return Some(Model::Fill);
    }
    None
}

/// The desk with a develop landed: the picture held from the last file
/// gives way, fitted; a new source, or a fit view, is centered on the
/// next frame; and the line says what was done, or keeps the words of a
/// dropper in hand.
pub open spec fn desk_developed(
    before: Desk,
    size: (u32, u32),
    status: Seq<char>,
    exports: bool,
    after: Desk,
) -> bool {
    &&& !after.hands.held
    &&& after.hands == (placeholder::Hands { held: false, ..before.hands })
    &&& after.fitted == (before.fitted || before.hands.held)
    &&& after.image_size == if after.fitted || before.source_size != size {
        (0, 0)
    } else {
        before.image_size
    }
    &&& after.work.status@ == status
    &&& after.work == (Work { busy: exports, status: after.work.status, ..before.work })
    &&& after.browser == before.browser
    &&& after.cull == before.cull
    &&& after.hold == before.hold
    &&& after.placeholder == before.placeholder
    &&& after.screen == before.screen
    &&& after.source_size == before.source_size
    &&& after.developed == before.developed
    &&& after.cull_at_start == before.cull_at_start
}

/// Whether the view is fitted and where it is centered, once a develop
/// has landed.
fn view_after(d: &Desk, size: (u32, u32)) -> (r: (bool, (u32, u32)))
    ensures
        r.0 == (d.fitted || d.hands.held),
        r.1 == if r.0 || d.source_size != size {
            (0u32, 0u32)
        } else {
            d.image_size
        },
{
    let fitted: bool = d.fitted || d.hands.held;
    let moved: bool = d.source_size.0 != size.0 || d.source_size.1 != size.1;
    if fitted || moved {
        (fitted, (0, 0))
    } else {
        (fitted, d.image_size)
    }
}

fn let_view(d: &mut Desk, fitted: bool, image_size: (u32, u32))
    ensures
        *final(d) == (Desk {
            hands: placeholder::Hands { held: false, ..old(d).hands },
            fitted,
            image_size,
            ..*old(d)
        }),
{
    d.hands.held = false;
    d.fitted = fitted;
    d.image_size = image_size;
}

fn say_done(w: &mut Work, status: String, busy: bool)
    ensures
        *final(w) == (Work { busy, status, ..*old(w) }),
{
    w.status = status;
    w.busy = busy;
}

fn develop_desk(d: &mut Desk, size: (u32, u32), status: String, exports: bool)
    ensures
        desk_developed(*old(d), size, status@, exports, *final(d)),
{
    let (fitted, image_size) = view_after(d, size);
    let_view(d, fitted, image_size);
    say_done(&mut d.work, status, exports);
}

proof fn lemma_developed_wf(before: Desk, size: (u32, u32), status: Seq<char>, exports: bool, after: Desk)
    requires
        before.wf(),
        desk_developed(before, size, status, exports, after),
    ensures
        after.wf(),
{
}

/// What the status line says once a develop has landed.
pub open spec fn landed_text(
    width: u32,
    height: u32,
    report: Report,
    hint: Option<String>,
) -> Seq<char> {
    match hint {
        Some(h) => h@,
        None => developed_text(width, height, report),
    }
}

/// The floor with a develop landed. A turn asked for is pressed now that
/// there is a picture to measure the frame by, and stays waited on; else
/// a capture may go.
pub open spec fn develop_put(
    before: Floor,
    generation: u64,
    width: u32,
    height: u32,
    report: Report,
    hint: Option<String>,
    after: Floor,
) -> bool {
    &&& desk_developed(
        before.desk,
        (width, height),
        landed_text(width, height, report, hint),
        before.run.export_waits,
        after.desk,
    )
    &&& after.run == (Run {
        awaiting_turn: before.run.awaiting_turn && before.run.turn_at_start is Some,
        export_waits: false,
        ..before.run
    })
    &&& after.offered == (before.offered || offer_of(before, report) is Some)
    &&& after == (Floor {
        desk: after.desk,
        run: after.run,
        offered: after.offered,
        shown_size: (width, height),
        pending: Some(generation),
        ..before
    })
}

fn run_after(r: Run) -> (n: Run)
    ensures
        n == (Run {
            awaiting_turn: r.awaiting_turn && r.turn_at_start is Some,
            export_waits: false,
            ..r
        }),
{
    Run { awaiting_turn: r.awaiting_turn && r.turn_at_start.is_some(), export_waits: false, ..r }
}

fn developed(
    f: &mut Floor,
    generation: u64,
    width: u32,
    height: u32,
    report: &Report,
    hint: &Option<String>,
) -> (offer: Option<Model>)
    requires
        old(f).wf(),
    ensures
        final(f).wf(),
        develop_put(*old(f), generation, width, height, *report, *hint, *final(f)),
        offer == offer_of(*old(f), *report),
{
    let offer = offered(f, report);
    let status = match hint {
        Some(h) => h.clone(),
        None => developed_words(width, height, report),
    };
    let exports: bool = f.run.export_waits;
    let ghost before = f.desk;
    develop_desk(&mut f.desk, (width, height), status, exports);
    proof {
        lemma_developed_wf(before, (width, height), status@, exports, f.desk);
    }
    f.run = run_after(f.run);
    let up: bool = f.offered || offer.is_some();
    f.offered = up;
    f.shown_size = (width, height);
    f.pending = Some(generation);
    offer
}


// A develop that failed.

/// The desk with nothing coming: the line says so, and the picture held
/// from the last file shows the panel's look.
pub open spec fn nothing_coming(before: Desk, status: Seq<char>, after: Desk) -> bool {
    &&& after.work.status@ == status
    &&& after == (Desk {
        hands: placeholder::Hands { held: false, ..before.hands },
        work: Work { busy: false, status: after.work.status, ..before.work },
        ..before
    })
}

/// The desk with a develop of a generation landed, or failed.
pub open spec fn came(before: Desk, generation: u64, after: Desk) -> bool {
    if before.placeholder matches Some(w) && generation >= w.generation {
        placeholder::dropped(before, after)
    } else {
        after == before
    }
}

pub open spec fn desk_failed(
    before: Desk,
    generation: u64,
    status: Seq<char>,
    after: Desk,
) -> bool {
    exists|t: Desk| #[trigger] nothing_coming(before, status, t) && came(t, generation, after)
}

fn stop_held(d: &mut Desk)
    ensures
        *final(d) == (Desk {
            hands: placeholder::Hands { held: false, ..old(d).hands },
            ..*old(d)
        }),
{
    d.hands.held = false;
}

fn fail_desk(d: &mut Desk, generation: u64, status: String) -> (redraw: bool)
    requires
        old(d).wf(),
    ensures
        final(d).wf(),
        desk_failed(*old(d), generation, status@, *final(d)),
        redraw == (old(d).hands.held || (old(d).placeholder matches Some(w) && generation
            >= w.generation)),
{
    let held: bool = d.hands.held;
    stop_held(d);
    say_done(&mut d.work, status, false);
    let ghost t = *d;
    assert(nothing_coming(*old(d), status@, t));
    let stood: bool = placeholder::develop_landed(d, generation);
    held || stood
}

// Everything else.

/// The floor with a line said.
pub open spec fn line_said(before: Floor, status: Seq<char>, after: Floor) -> bool {
    &&& after.desk.work.status@ == status
    &&& after == (Floor {
        desk: Desk {
            work: Work { status: after.desk.work.status, ..before.desk.work },
            ..before.desk
        },
        ..before
    })
}

fn say_line(f: &mut Floor, status: String)
    requires
        old(f).wf(),
    ensures
        final(f).wf(),
        line_said(*old(f), status@, *final(f)),
{
    f.desk.work.status = status;
}

/// The floor with a line said and the work over.
pub open spec fn line_ended(before: Floor, status: Seq<char>, after: Floor) -> bool {
    &&& after.desk.work.status@ == status
    &&& after == (Floor {
        desk: Desk {
            work: Work { busy: false, status: after.desk.work.status, ..before.desk.work },
            ..before.desk
        },
        ..before
    })
}

fn end_line(f: &mut Floor, status: String)
    requires
        old(f).wf(),
    ensures
        final(f).wf(),
        line_ended(*old(f), status@, *final(f)),
{
    say_done(&mut f.desk.work, status, false);
}

/// The floor with a develop asked for again.
pub open spec fn work_begun(before: Floor, status: Seq<char>, after: Floor) -> bool {
    &&& after.desk.work.status@ == status
    &&& after == (Floor {
        desk: Desk {
            work: Work {
                generation: (before.desk.work.generation + 1) as u64,
                busy: true,
                status: after.desk.work.status,
                ..before.desk.work
            },
            ..before.desk
        },
        fetching: false,
        ..before
    })
}

fn begin_again(w: &mut Work, status: String)
    requires
        old(w).generation < u64::MAX,
    ensures
        *final(w) == (Work {
            generation: (old(w).generation + 1) as u64,
            busy: true,
            status,
            ..*old(w)
        }),
{
    w.generation = w.generation + 1;
    w.status = status;
    w.busy = true;
}

fn work_again(f: &mut Floor, status: String)
    requires
        old(f).wf(),
        old(f).desk.work.generation < u64::MAX,
    ensures
        final(f).wf(),
        work_begun(*old(f), status@, *final(f)),
{
    f.fetching = false;
    begin_again(&mut f.desk.work, status);
}

/// The floor with the download over.
pub open spec fn fetch_over(before: Floor, status: Seq<char>, after: Floor) -> bool {
    line_said(Floor { fetching: false, ..before }, status, after)
}

fn fetch_ends(f: &mut Floor, status: String)
    requires
        old(f).wf(),
    ensures
        final(f).wf(),
        fetch_over(*old(f), status@, *final(f)),
{
    f.fetching = false;
    f.desk.work.status = status;
}

/// A mask that is shown once found, so the find can be judged: a
/// subject's that ran, unless its shape was switched off meanwhile.
pub open spec fn shows_mask(kind: Kind, live: bool, provider: Option<String>) -> bool {
    live && kind is Subject && provider is Some
}

/// The models the edit in hand is developed with: its denoiser's, when it
/// has one, and whether its repairs are on.
#[derive(Debug, Clone, Copy, PartialEq, Eq, Structural)]
pub struct Uses {
    pub denoiser: Option<Model>,
    pub repairs_on: bool,
}

/// What the edit in hand has to do with a result: the shape a mask was
/// found for is on still, or the model that came is waited for.
pub open spec fn bears<N: Copy, L, G>(edit: Edit<N, L, G>, uses: Uses, o: Outcome) -> bool {
    match o {
        Outcome::Mask { key, .. } => learned::is_live(edit.adjustments@, key),
        Outcome::Fetched { model, .. } => learned::is_wanted(
            model,
            uses.denoiser,
            uses.repairs_on,
            edit.patches@,
        ),
        _ => false,
    }
}

fn bearing<N: Copy, L, G>(edit: &Edit<N, L, G>, uses: Uses, o: &Outcome) -> (r: bool)
    ensures
        r == bears(*edit, uses, *o),
{
    match o {
        Outcome::Mask { key, .. } => learned::mask_live(&edit.adjustments, *key),
        Outcome::Fetched { model, .. } => learned::edit_wants(
            *model,
            uses.denoiser,
            uses.repairs_on,
            &edit.patches,
        ),
        _ => false,
    }
}

pub open spec fn other_than(key: Key) -> spec_fn(Key) -> bool {
    |k: Key| k != key
}

/// The masks still asked for once one was found.
pub open spec fn others(asked: Seq<Key>, key: Key) -> Seq<Key> {
    asked.filter(other_than(key))
}

fn take_asked(asked: &mut Vec<Key>, key: Key)
    ensures
        final(asked)@ == others(old(asked)@, key),
{
    let mut left: Vec<Key> = Vec::new();
    let mut i: usize = 0;
    proof {
        reveal(Seq::filter);
        assert(asked@.take(0) =~= seq![]);
    }
    while i < asked.len()
        invariant
            i <= asked@.len(),
            asked@ == old(asked)@,
            left@ == asked@.take(i as int).filter(other_than(key)),
        decreases asked.len() - i,
    {
        proof {
            reveal(Seq::filter);
            assert(asked@.take(i + 1).drop_last() =~= asked@.take(i as int));
            assert(asked@.take(i + 1).last() == asked@[i as int]);
        }
        if asked[i] != key {
            left.push(asked[i]);
        }
        i = i + 1;
    }
    assert(asked@.take(i as int) =~= asked@);
    *asked = left;
}

fn is_asked(asked: &Vec<Key>, key: Key) -> (r: bool)
    ensures
        r == asked@.contains(key),
{
    let mut i: usize = 0;
    while i < asked.len()
        invariant
            i <= asked@.len(),
            forall|k: int| 0 <= k < i ==> asked@[k] != key,
        decreases asked.len() - i,
    {
        if asked[i] == key {
            return true;
        }
        i = i + 1;
    }
    false
}

/// What each result does, and what it asks of the caller. `bears` is what
/// the edit in hand has to do with it.
pub open spec fn delivered(before: Floor, o: Outcome, bears: bool, after: Floor, act: Act) -> bool {
    let d = before.desk;
    let said = said_text(o);
    match o {
        Outcome::Thumbnail { index, path, size, bigger, stand } => if !paths::is_at(
            d.browser.paths@,
            index,
            path@,
            d.browser.separator,
        ) {
            act is Stale && after == before
        } else {
            &&& thumb_put(before, index, size, bigger, stand, after)
            &&& act == if bigger && in_grid(
                before.thumbs.grid_shown,
                before.desk.browser.shown@,
                index,
            ) {
                Act::Thumbnail(index)
            } else {
                Act::Nothing
            }
        },
        Outcome::Opened { generation, blend, kind, camera, exposure, no_lenses } => if generation
            != d.work.generation {
            act is Stale && after == before
        } else {
            &&& source_put(before, blend, kind, camera@, exposure@, after)
            &&& act == (Act::Opened { blend, offer_lenses: no_lenses })
        },
        Outcome::Developed { generation, width, height, sources, report, hint } => if generation
            != d.work.generation || d.cull is Some {
            act is Stale && after == before
        } else {
            &&& develop_put(before, generation, width, height, report, hint, after)
            &&& act == (Act::Developed {
                save: sources,
                offer: offer_of(before, report),
                turn: before.run.turn_at_start,
                export: before.run.export_waits,
            })
        },
        Outcome::Filling { generation, .. } => if generation != d.work.generation {
            act is Stale && after == before
        } else {
            line_said(before, said->0, after) && act is Nothing
        },
        Outcome::Failed { generation, .. } => if generation != d.work.generation {
            act is Stale && after == before
        } else {
            let redraws = d.hands.held || (d.placeholder matches Some(w) && generation
                >= w.generation);
            &&& desk_failed(d, generation, said->0, after.desk)
            &&& after == (Floor {
                desk: after.desk,
                run: Run { failed: before.run.failed || before.run.batch, ..before.run },
                ..before
            })
            &&& act == if before.run.batch {
                Act::Quit
            } else if redraws {
                Act::Redraw
            } else {
                Act::Nothing
            }
        },
        Outcome::Exported { .. } | Outcome::ExportSkipped { .. } => {
            &&& line_ended(before, said->0, after)
            &&& act == if before.run.ends_after_export {
                Act::Quit
            } else {
                Act::Nothing
            }
        },
        Outcome::Mask { key, kind, provider, .. } => {
            let shown = Floor {
                show_mask: before.show_mask || shows_mask(kind, bears, provider),
                asked: after.asked,
                ..before
            };
            &&& after.asked@ == others(before.asked@, key)
            &&& match said {
                Some(s) => line_said(shown, s, after),
                None => after == shown,
            }
            &&& act is Redraw
        },
        Outcome::MaskFailed { key, .. } => {
            &&& if before.asked@.contains(key) {
                line_said(before, said->0, after)
            } else {
                after == before
            }
            &&& act is Nothing
        },
        Outcome::Fetching { .. } | Outcome::LensesFetching { .. } => line_said(
            before,
            said->0,
            after,
        ) && act is Nothing,
        Outcome::Fetched { .. } => {
            let cleared = Floor { asked: after.asked, ..before };
            &&& after.asked@ == Seq::<Key>::empty()
            &&& if bears && d.cull is None {
                &&& work_begun(cleared, "developing..."@, after)
                &&& act == Act::Develop((d.work.generation + 1) as u64)
            } else {
                fetch_over(cleared, said->0, after) && act is Redraw
            }
        },
        Outcome::FetchFailed { .. } | Outcome::LensesFetchFailed { .. } => fetch_over(
            before,
            said->0,
            after,
        ) && act is Nothing,
        Outcome::LensesFetched => if d.browser.current is Some && d.cull is None {
            &&& work_begun(before, said->0, after)
            &&& act == (Act::Open {
                file: d.browser.current->0,
                generation: (d.work.generation + 1) as u64,
            })
        } else {
            fetch_over(before, said->0, after) && act is Nothing
        },
        Outcome::ExportFailed { .. } => {
            &&& line_ended(
                Floor {
                    run: Run { failed: before.run.failed || before.run.batch, ..before.run },
                    ..before
                },
                said->0,
                after,
            )
            &&& act == if before.run.batch {
                Act::Quit
            } else {
                Act::Nothing
            }
        },
    }
}

fn run_failed(r: Run) -> (n: Run)
    ensures
        n == (Run { failed: r.failed || r.batch, ..r }),
{
    Run { failed: r.failed || r.batch, ..r }
}

/// What a result says, put in words once for the ones that only say.
fn line_of(o: &Outcome) -> (s: String)
    requires
        said_text(*o) is Some,
    ensures
        s@ == said_text(*o)->0,
{
    match said(o) {
        Some(s) => s,
        None => String::new(),
    }
}

fn deliver_failed(f: &mut Floor, generation: u64, o: &Outcome) -> (act: Act)
    requires
        old(f).wf(),
        *o matches Outcome::Failed { generation: g, .. } && g == generation,
    ensures
        final(f).wf(),
        delivered(*old(f), *o, false, *final(f), act),
{
    if generation != f.desk.work.generation {
        return Act::Stale;
    }
    let line = line_of(o);
    let redraw: bool = fail_desk(&mut f.desk, generation, line);
    f.run = run_failed(f.run);
    if f.run.batch {
        Act::Quit
    } else if redraw {
        Act::Redraw
    } else {
        Act::Nothing
    }
}

fn deliver_mask(f: &mut Floor, key: Key, kind: Kind, live: bool, ran: bool, o: &Outcome) -> (act:
    Act)
    requires
        old(f).wf(),
        *o matches Outcome::Mask { key: k, kind: n, provider: p, .. } && k == key && n == kind
            && ran == p is Some,
    ensures
        final(f).wf(),
        delivered(*old(f), *o, live, *final(f), act),
{
    take_asked(&mut f.asked, key);
    let found: bool = live && ran && matches!(kind, Kind::Subject);
    let shown: bool = f.show_mask || found;
    f.show_mask = shown;
    if ran {
        let line = line_of(o);
        say_line(f, line);
    }
    Act::Redraw
}

fn deliver_fetched(f: &mut Floor, wanted: bool, o: &Outcome) -> (act: Act)
    requires
        old(f).wf(),
        old(f).desk.work.generation < u64::MAX,
        *o is Fetched,
    ensures
        final(f).wf(),
        delivered(*old(f), *o, wanted, *final(f), act),
{
    f.asked = Vec::new();
    if wanted && f.desk.cull.is_none() {
        work_again(f, "developing...".to_owned());
        return Act::Develop(f.desk.work.generation);
    }
    let line = line_of(o);
    fetch_ends(f, line);
    Act::Redraw
}

fn deliver_lenses(f: &mut Floor, o: &Outcome) -> (act: Act)
    requires
        old(f).wf(),
        old(f).desk.work.generation < u64::MAX,
        *o is LensesFetched,
    ensures
        final(f).wf(),
        delivered(*old(f), *o, false, *final(f), act),
{
    let line = line_of(o);
    match f.desk.browser.current {
        Some(file) => {
            if f.desk.cull.is_none() {
                work_again(f, line);
                return Act::Open { file, generation: f.desk.work.generation };
            }
        },
        None => {},
    }
    fetch_ends(f, line);
    Act::Nothing
}

fn deliver_export_failed(f: &mut Floor, o: &Outcome) -> (act: Act)
    requires
        old(f).wf(),
        *o is ExportFailed,
    ensures
        final(f).wf(),
        delivered(*old(f), *o, false, *final(f), act),
{
    let line = line_of(o);
    f.run = run_failed(f.run);
    end_line(f, line);
    if f.run.batch {
        Act::Quit
    } else {
        Act::Nothing
    }
}

/// A result from the worker. One of a develop or a list since gone is
/// stale and changes nothing.
pub fn deliver<N: Copy, L, G>(f: &mut Floor, edit: &Edit<N, L, G>, uses: Uses, o: &Outcome) -> (act:
    Act)
    requires
        old(f).wf(),
        old(f).desk.work.generation < u64::MAX,
    ensures
        final(f).wf(),
        delivered(*old(f), *o, bears(*edit, uses, *o), *final(f), act),
{
    match o {
        Outcome::Thumbnail { index, path, size, bigger, stand } => {
            if !paths::still_at(
                &f.desk.browser.paths,
                *index,
                path.as_str(),
                f.desk.browser.separator,
            ) {
                return Act::Stale;
            }
            let again: bool = thumbnail_made(f, *index, *size, *bigger, *stand);
            if again {
                Act::Thumbnail(*index)
            } else {
                Act::Nothing
            }
        },
        Outcome::Opened { generation, blend, kind, camera, exposure, no_lenses } => {
            if *generation != f.desk.work.generation {
                return Act::Stale;
            }
            file_opened(f, *blend, kind, camera.as_str(), exposure.as_str());
            Act::Opened { blend: *blend, offer_lenses: *no_lenses }
        },
        Outcome::Developed { generation, width, height, sources, report, hint } => {
            if *generation != f.desk.work.generation || f.desk.cull.is_some() {
                return Act::Stale;
            }
            let turn: Option<i32> = f.run.turn_at_start;
            let export: bool = f.run.export_waits;
            let offer = developed(f, *generation, *width, *height, report, hint);
            Act::Developed { save: *sources, offer, turn, export }
        },
        Outcome::Filling { generation, .. } => {
            if *generation != f.desk.work.generation {
                return Act::Stale;
            }
            let line = line_of(o);
            say_line(f, line);
            Act::Nothing
        },
        Outcome::Failed { generation, .. } => deliver_failed(f, *generation, o),
        Outcome::Exported { .. } | Outcome::ExportSkipped { .. } => {
            let line = line_of(o);
            end_line(f, line);
            if f.run.ends_after_export {
                Act::Quit
            } else {
                Act::Nothing
            }
        },
        Outcome::Mask { key, kind, provider, .. } => {
            let live: bool = bearing(edit, uses, o);
            deliver_mask(f, *key, *kind, live, provider.is_some(), o)
        },
        Outcome::MaskFailed { key, .. } => {
            if is_asked(&f.asked, *key) {
                let line = line_of(o);
                say_line(f, line);
            }
            Act::Nothing
        },
        Outcome::Fetching { .. } | Outcome::LensesFetching { .. } => {
            let line = line_of(o);
            say_line(f, line);
            Act::Nothing
        },
        Outcome::Fetched { .. } => {
            let wanted: bool = bearing(edit, uses, o);
            deliver_fetched(f, wanted, o)
        },
        Outcome::FetchFailed { .. } | Outcome::LensesFetchFailed { .. } => {
            let line = line_of(o);
            fetch_ends(f, line);
            Act::Nothing
        },
        Outcome::LensesFetched => deliver_lenses(f, o),
        Outcome::ExportFailed { .. } => deliver_export_failed(f, o),
    }
}


/// The white balance's sliders once a file is open: the frame's own is
/// shown on them where the edit takes it as shot, so a custom setting
/// starts from it; and a temperature asked for at the start is set.
pub fn white_opened<N: Copy>(
    shown: WhiteKey<N>,
    edit_as_shot: bool,
    temperature: N,
    tint: N,
    asked: Option<N>,
) -> (k: WhiteKey<N>)
    ensures
        ({
            let own = if edit_as_shot {
                WhiteKey { temperature, tint, ..shown }
            } else {
                shown
            };
            k == match asked {
                Some(t) => WhiteKey { as_shot: false, temperature: t, ..own },
                None => own,
            }
        }),
{
    let mut k = shown;
    if edit_as_shot {
        k.temperature = temperature;
        k.tint = tint;
    }
    if let Some(t) = asked {
        k.as_shot = false;
        k.temperature = t;
    }
    k
}

/// The develop that a result is of, when it is of one.
pub open spec fn generation_of(o: Outcome) -> Option<u64> {
    match o {
        Outcome::Opened { generation, .. } => Some(generation),
        Outcome::Developed { generation, .. } => Some(generation),
        Outcome::Filling { generation, .. } => Some(generation),
        Outcome::Failed { generation, .. } => Some(generation),
        _ => None,
    }
}

/// A result of a develop asked for before the last one is of another
/// picture: nothing of it reaches the panel.
pub proof fn an_older_result_is_not_heard(
    before: Floor,
    o: Outcome,
    bears: bool,
    after: Floor,
    act: Act,
)
    requires
        delivered(before, o, bears, after, act),
        generation_of(o) matches Some(g) && g != before.desk.work.generation,
    ensures
        after == before,
        act is Stale,
{
}

/// A run that ends on its result ends with a failure exactly when its
/// develop or its export failed.
pub proof fn a_batch_run_ends_on_a_failure(
    before: Floor,
    o: Outcome,
    bears: bool,
    after: Floor,
    act: Act,
)
    requires
        before.run.batch,
        !before.run.failed,
        delivered(before, o, bears, after, act),
        !(act is Stale),
    ensures
        after.run.failed == (o is Failed || o is ExportFailed),
        after.run.failed ==> act is Quit,
{
}

/// A thumbnail of a list since replaced by another folder's lands on no
/// slot: whatever number its file had there, only its own path's is taken.
pub proof fn a_thumbnail_lands_on_its_own_file(
    before: Floor,
    o: Outcome,
    bears: bool,
    after: Floor,
    act: Act,
)
    requires
        delivered(before, o, bears, after, act),
        o matches Outcome::Thumbnail { index, path, .. } && (index
            < before.desk.browser.paths@.len() ==> !paths::same_path(
            before.desk.browser.paths@[index as int]@,
            path@,
            before.desk.browser.separator,
        )),
    ensures
        after == before,
        act is Stale,
{
}

/// A picture on a row the grid shows that came back too small is asked for
/// again, whatever the filter hides: what waits for the grid's rows does
/// not wait for ever.
pub proof fn a_small_picture_on_show_is_asked_for_again(
    before: Floor,
    index: usize,
    path: String,
    size: u32,
    stand: Stand,
    row: int,
    bears: bool,
    after: Floor,
    act: Act,
)
    requires
        before.wf(),
        paths::is_at(
            before.desk.browser.paths@,
            index,
            path@,
            before.desk.browser.separator,
        ),
        browser::row(before.desk.browser.shown@, index) == Some(row),
        before.thumbs.grid_shown matches Some(rows) && rows.0 <= row <= rows.1,
        delivered(
            before,
            Outcome::Thumbnail { index, path, size, bigger: true, stand },
            bears,
            after,
            act,
        ),
    ensures
        act == Act::Thumbnail(index),
        after.thumbs.asked@[index as int] == before.thumbs.want,
{
}

// What holds of what comes back.

/// A thumbnail made is its file's: it is made, at the size it was made at,
/// stands as it should, and is on its file's row; no other file's changes.
pub proof fn a_thumbnail_made_is_its_files(
    before: Floor,
    index: usize,
    size: u32,
    bigger: bool,
    stand: Stand,
    after: Floor,
    r: int,
)
    requires
        before.wf(),
        index < before.desk.browser.names@.len(),
        thumb_put(before, index, size, bigger, stand, after),
        0 <= r < before.desk.browser.thumbs@.len(),
    ensures
        after.thumbs.made@[index as int] == size,
        after.desk.browser.pictured@[index as int],
        after.desk.browser.stood@[index as int] == Some(stand),
        before.desk.browser.shown@[r] == index ==> after.desk.browser.thumbs@[r].picture == Some(
            stand,
        ) && after.desk.browser.thumbs@[r].name == before.desk.browser.thumbs@[r].name,
        before.desk.browser.shown@[r] != index ==> after.desk.browser.thumbs@[r]
            == before.desk.browser.thumbs@[r],
        forall|f: int|
            0 <= f < before.thumbs.made@.len() && f != index ==> #[trigger] after.thumbs.made@[f]
                == before.thumbs.made@[f],
        forall|f: int|
            0 <= f < before.thumbs.asked@.len() && f != index ==> #[trigger] after.thumbs.asked@[f]
                == before.thumbs.asked@[f],
        !bigger ==> after.thumbs.asked@ == before.thumbs.asked@,
        after.desk.work == before.desk.work && after.seed == before.seed,
{
    let shown = before.desk.browser.shown@;
    selection::lemma_place(shown, index);
    browser::a_row_is_its_file(shown, r);
}

/// A develop that landed is the one waited for: it is the picture drawn
/// next, at its own size, the line says what was done, or goes on saying
/// what a dropper in hand does, and nothing is under way but an export
/// that waited for it. A picture held from the last file gives way, fitted.
pub proof fn a_develop_that_landed_is_drawn_next(
    before: Floor,
    generation: u64,
    width: u32,
    height: u32,
    report: Report,
    hint: Option<String>,
    after: Floor,
)
    requires
        develop_put(before, generation, width, height, report, hint, after),
    ensures
        after.pending == Some(generation),
        after.shown_size == (width, height),
        hint matches Some(h) ==> after.desk.work.status@ == h@,
        hint is None ==> after.desk.work.status@ == developed_text(width, height, report),
        after.desk.work.busy <==> before.run.export_waits,
        !after.run.export_waits,
        after.desk.work.generation == before.desk.work.generation,
        !after.desk.hands.held,
        before.desk.hands.held ==> after.desk.fitted,
        after.desk.browser == before.desk.browser,
        before.desk.fitted || before.desk.source_size != (width, height)
            ==> after.desk.image_size == (0u32, 0u32),
        after.thumbs == before.thumbs && after.seed == before.seed,
{
}

/// A model is offered where the edit lacks it, one at a time: not while
/// another is offered or fetched, and not one that was declined.
pub proof fn a_model_is_offered_where_it_lacks(f: Floor, r: Report)
    ensures
        f.offered || f.fetching ==> offer_of(f, r) is None,
        offer_of(f, r) matches Some(m) ==> !f.declined@.contains(m),
        !f.offered && !f.fetching ==> (r.learned matches LearnedReport::Missing(m) ==> (
        !f.declined@.contains(m) ==> offer_of(f, r) == Some(m))),
        !f.offered && !f.fetching && !(r.learned is Missing) && r.fills.missing@.len() > 0
            && !f.declined@.contains(Model::Fill) ==> offer_of(f, r) == Some(Model::Fill),
        !(r.learned is Missing) && r.fills.missing@.len() == 0 ==> offer_of(f, r) is None,
{
}

/// A develop that failed says so, leaves nothing under way, and takes the
/// picture that stood in for it down.
pub proof fn a_develop_that_failed_leaves_nothing_waiting(
    before: Desk,
    generation: u64,
    status: Seq<char>,
    after: Desk,
)
    requires
        desk_failed(before, generation, status, after),
    ensures
        after.work.status@ == status,
        !after.work.busy,
        !after.hands.held,
        after.work.generation == before.work.generation,
        before.placeholder matches Some(w) ==> (generation >= w.generation ==> after.placeholder
            is None && !after.screen.placeholder),
        before.placeholder matches Some(w) ==> (generation < w.generation ==> after.placeholder
            == before.placeholder),
        after.browser == before.browser,
{
}

/// A file opened says what it is: its camera and its exposure, whether it
/// is a raw, and what it was taken as where it is not. Its blend, once set,
/// is not set again, and no other file's is touched.
pub proof fn a_file_opened_says_what_it_is(
    before: Floor,
    blend: bool,
    kind: SourceKind,
    camera: Seq<char>,
    exposure: Seq<char>,
    after: Floor,
    f: int,
)
    requires
        before.wf(),
        0 <= f < before.seed@.len(),
        source_put(before, blend, kind, camera, exposure, after),
    ensures
        after.desk.screen.shot.camera@ == camera,
        after.desk.screen.shot.exposure@ == exposure,
        after.raw_input <==> kind is Raw,
        kind is Raw ==> after.source_note@.len() == 0,
        kind is Picture ==> after.source_note@.len() > 0,
        blend && before.desk.browser.current == Some(f as usize) ==> !after.seed@[f],
        !blend || before.desk.browser.current != Some(f as usize) ==> after.seed@[f]
            == before.seed@[f],
        after.desk.work == before.desk.work && after.desk.browser == before.desk.browser,
{
    reveal_strlit("");
    reveal_strlit("-bit ");
}

/// A line said changes the line alone; one that ends the work leaves
/// nothing under way; and one that begins it again is another develop.
pub proof fn a_line_said_changes_the_line(before: Floor, status: Seq<char>, after: Floor)
    ensures
        line_said(before, status, after) ==> after.desk.work.status@ == status
            && after.desk.work.busy == before.desk.work.busy && after.desk.work.generation
            == before.desk.work.generation && after.desk.browser == before.desk.browser
            && after.fetching == before.fetching,
        line_ended(before, status, after) ==> after.desk.work.status@ == status
            && !after.desk.work.busy && after.desk.work.generation == before.desk.work.generation
            && after.fetching == before.fetching,
        fetch_over(before, status, after) ==> after.desk.work.status@ == status && !after.fetching
            && after.desk.work.generation == before.desk.work.generation,
        work_begun(before, status, after) && before.desk.work.generation < u64::MAX
            ==> after.desk.work.generation == before.desk.work.generation + 1
            && after.desk.work.busy && !after.fetching && after.desk.work.status@ == status,
{
}

/// A mask is shown once it is found where it is a subject's, its model ran
/// and its shape is still on.
pub proof fn a_subject_found_is_shown(kind: Kind, live: bool, provider: Option<String>)
    ensures
        shows_mask(kind, live, provider) <==> live && kind is Subject && provider is Some,
{
}

/// A mask found is no longer asked for, and every other still is.
pub proof fn a_mask_found_is_no_longer_asked_for(asked: Seq<Key>, key: Key, k: Key)
    ensures
        others(asked, key).contains(k) <==> asked.contains(k) && k != key,
{
    let pick = other_than(key);
    broadcast use vstd::seq_lib::group_filter_ensures;
    if asked.contains(k) && k != key {
        let i = choose|i: int| 0 <= i < asked.len() && asked[i] == k;
        asked.lemma_filter_contains(pick, i);
    }
    if others(asked, key).contains(k) {
        asked.lemma_filter_contains_rev(pick, k);
        let i = choose|i: int|
            0 <= i < others(asked, key).len() && others(asked, key)[i] == k;
        asked.lemma_filter_pred(pick, i);
    }
}

/// What went wrong is said in the worker's own words, and what was made by
/// its own name.
pub proof fn what_is_said_names_its_thing(o: Outcome)
    ensures
        o matches Outcome::Failed { message, .. } ==> (said_text(o) matches Some(s) && s.skip(8)
            == message@),
        o matches Outcome::ExportFailed { message } ==> (said_text(o) matches Some(s) && s.skip(15)
            == message@),
        o matches Outcome::MaskFailed { message, .. } ==> (said_text(o) matches Some(s) && s.skip(6)
            == message@),
        o matches Outcome::Exported { name, .. } ==> (said_text(o) matches Some(s)
            && s.skip(9).take(name@.len() as int) == name@),
        o matches Outcome::ExportSkipped { name } ==> (said_text(o) matches Some(s) && s.take(
            name@.len() as int,
        ) == name@),
{
    reveal_strlit("failed: ");
    reveal_strlit("export failed: ");
    reveal_strlit("mask: ");
    reveal_strlit("exported ");
    match o {
        Outcome::Failed { message, .. } => {
            assert(said_text(o)->0.skip(8) =~= message@);
        },
        Outcome::ExportFailed { message } => {
            assert(said_text(o)->0.skip(15) =~= message@);
        },
        Outcome::MaskFailed { message, .. } => {
            assert(said_text(o)->0.skip(6) =~= message@);
        },
        Outcome::Exported { name, .. } => {
            assert(said_text(o)->0.skip(9).take(name@.len() as int) =~= name@);
        },
        Outcome::ExportSkipped { name } => {
            assert(said_text(o)->0.take(name@.len() as int) =~= name@);
        },
        _ => {},
    }
}

/// What came back of the develop last asked for is taken, each in its own
/// way: the one that landed is drawn, and the one that failed says so.
pub proof fn what_was_asked_for_last_is_taken(
    before: Floor,
    o: Outcome,
    bears: bool,
    after: Floor,
    act: Act,
)
    requires
        delivered(before, o, bears, after, act),
        generation_of(o) matches Some(g) && g == before.desk.work.generation,
        before.desk.cull is None,
    ensures
        !(act is Stale),
        o matches Outcome::Developed { generation, width, height, .. } ==> after.pending == Some(
            generation,
        ) && after.shown_size == (width, height) && act is Developed,
        o is Failed ==> !after.desk.work.busy,
        o is Failed && before.run.batch ==> act is Quit && after.run.failed,
        o is Opened ==> act is Opened,
{
}

/// A list of names has commas between them and an "and" before the last;
/// one name alone is itself, and two have the "and" alone.
pub proof fn a_list_ends_with_and(names: Seq<Seq<char>>)
    ensures
        names.len() == 0 ==> listed_text(names).len() == 0,
        names.len() == 1 ==> listed_text(names) == names[0],
        names.len() == 2 ==> listed_text(names) == names[0] + " and "@ + names[1],
        names.len() >= 2 ==> listed_text(names) == text::joined(names.drop_last(), ", "@) + " and "@
            + names.last(),
{
    if names.len() == 2 {
        let one = names.drop_last();
        assert(one.len() == 1 && one[0] == names[0]);
    }
}

/// A mask is called by its own kind.
pub proof fn a_mask_is_called_by_its_kind()
    ensures
        small_name(Kind::Linear) == "linear"@,
        small_name(Kind::Radial) == "radial"@,
        small_name(Kind::Brush) == "brush"@,
        small_name(Kind::Subject) == "subject"@,
        small_name(Kind::Sky) == "sky"@,
        small_name(Kind::Object) == "object"@,
        small_name(Kind::Luminance) == "luminance"@,
        small_name(Kind::Color) == "color"@,
        small_name(Kind::Unknown) == "unknown"@,
{
}

/// A frame is in the grid when its row is one of those the grid shows;
/// with the grid silent, or the frame not listed, it is not.
pub proof fn a_frame_is_in_the_grid_by_its_row(
    rows: Option<(i32, i32)>,
    shown: Seq<usize>,
    file: usize,
)
    ensures
        rows is None ==> !in_grid(rows, shown, file),
        browser::row(shown, file) is None ==> !in_grid(rows, shown, file),
        rows matches Some((a, b)) ==> (browser::row(shown, file) matches Some(r) ==> (in_grid(
            rows,
            shown,
            file,
        ) <==> a <= r <= b)),
{
}

/// What comes in bears on the edit when it is the mask of a shape that is
/// on, or a model that the edit wants; nothing else does.
pub proof fn what_comes_bears_on_an_edit_that_wants_it<N: Copy, L, G>(
    edit: Edit<N, L, G>,
    uses: Uses,
    o: Outcome,
)
    ensures
        !(o is Mask) && !(o is Fetched) ==> !bears(edit, uses, o),
        o is Mask ==> (bears(edit, uses, o) <==> learned::is_live(edit.adjustments@, o->Mask_key)),
        o is Fetched ==> (bears(edit, uses, o) <==> learned::is_wanted(
            o->model,
            uses.denoiser,
            uses.repairs_on,
            edit.patches@,
        )),
{
}

} // verus!
