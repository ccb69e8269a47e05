//! The import sheet: where the frames come from and go, what the sheet
//! says of it, and when it is ready. The card is read and the frames
//! are copied on threads of their own, which post back what is heard
//! here.

use crate::naming;
use crate::naming::Fields;
use crate::panel::edit;
use crate::paths;
use crate::text;
use vstd::prelude::*;

verus! {

// What a source holds.

/// A frame on the source: its path, its name with its extension, the
/// extension alone, and how many files go with it.
#[derive(Debug)]
pub struct Item {
    pub name: String,
    pub extension: String,
    pub companions: usize,
}

/// What a source holds: the frames, and how many files are left.
#[derive(Debug)]
pub struct Scan {
    pub items: Vec<Item>,
    pub left: usize,
}

pub open spec fn companions(items: Seq<Item>) -> nat
    decreases items.len(),
{
    if items.len() == 0 {
        0
    } else {
        companions(items.drop_last()) + items.last().companions as nat
    }
}

impl Scan {
    /// The files the frames come to, with those that go with them.
    pub open spec fn total(&self) -> nat {
        self.items@.len() + companions(self.items@)
    }

    /// The files can be counted.
    pub open spec fn counted(&self) -> bool {
        self.total() <= usize::MAX && self.items@.len() <= i32::MAX
    }

    pub fn files(&self) -> (n: usize)
        requires
            self.counted(),
        ensures
            n == self.total(),
    {
        let mut n: usize = self.items.len();
        let mut i: usize = 0;
        assert(self.items@.take(0) =~= seq![]);
        while i < self.items.len()
            invariant
                i <= self.items@.len(),
                self.counted(),
                n == self.items@.len() + companions(self.items@.take(i as int)),
            decreases self.items.len() - i,
        {
            proof {
                let done = self.items@.take(i + 1);
                assert(done.drop_last() =~= self.items@.take(i as int));
                lemma_companions_grow(self.items@, i + 1);
            }
            n = n + self.items[i].companions;
            i = i + 1;
        }
        assert(self.items@.take(i as int) =~= self.items@);
        n
    }
}

proof fn lemma_companions_grow(items: Seq<Item>, n: int)
    requires
        0 <= n <= items.len(),
    ensures
        companions(items.take(n)) <= companions(items),
    decreases items.len() - n,
{
    if n == items.len() {
        assert(items.take(n) =~= items);
    } else {
        lemma_companions_grow(items, n + 1);
        assert(items.take(n + 1).drop_last() =~= items.take(n));
    }
}

/// So many frames.
pub open spec fn frames_text(n: nat) -> Seq<char> {
    text::decimal(n) + if n == 1 { " frame"@ } else { " frames"@ }
}

pub fn frames(n: usize) -> (s: String)
    ensures
        s@ == frames_text(n as nat),
{
    let mut s = text::decimal_of(n as u64);
    if n == 1 {
        s.append(" frame");
    } else {
        s.append(" frames");
    }
    s
}

pub open spec fn note_of(scan: Scan) -> Seq<char> {
    let n = scan.items@.len();
    if n == 0 {
        "no frames here the editor opens"@
    } else {
        let counted = if scan.total() > n {
            frames_text(n) + (", "@ + text::decimal(scan.total())
                + " files with the JPEGs and XMPs that go with their raws"@)
        } else {
            frames_text(n)
        };
        if scan.left > 0 {
            counted + ("; "@ + text::decimal(scan.left as nat)
                + " left on the card (videos, and files the editor does not open)"@)
        } else {
            counted
        }
    }
}

/// What the note under the source says of what it holds.
pub fn note_text(scan: &Scan) -> (s: String)
    requires
        scan.counted(),
    ensures
        s@ == note_of(*scan),
{
    let n: usize = scan.items.len();
    if n == 0 {
        return "no frames here the editor opens".to_owned();
    }
    let files: usize = scan.files();
    let mut s = frames(n);
    if files > n {
        let mut more = ", ".to_owned();
        text::put_decimal(&mut more, files as u64);
        more.append(" files with the JPEGs and XMPs that go with their raws");
        s.append(more.as_str());
    }
    if scan.left > 0 {
        let mut more = "; ".to_owned();
        text::put_decimal(&mut more, scan.left as u64);
        more.append(" left on the card (videos, and files the editor does not open)");
        s.append(more.as_str());
    }
    s
}

// Paths as the sheet shows them.

/// The machine's folders: the user's own, when it is known, and what
/// stands between the parts of a path.
#[derive(Debug)]
pub struct Places {
    pub home: Option<String>,
    pub separator: char,
}

/// A path with the home folder as `~`, so the end of a long path, which
/// is the part that differs, has the room.
pub open spec fn tilde_text(p: Seq<char>, places: Places) -> Seq<char> {
    match places.home {
        None => p,
        Some(h) => match paths::under(p, h@, places.separator) {
            None => p,
            Some(rest) => if rest.len() == 0 {
                p
            } else {
                seq!['~', places.separator] + rest
            },
        },
    }
}

/// A path as the sheet shows it: the home folder as `~`.
pub fn tilde(p: &str, places: &Places) -> (s: String)
    ensures
        s@ == tilde_text(p@, *places),
{
    let h = match &places.home {
        None => {
            return p.to_owned();
        },
        Some(h) => h,
    };
    match paths::rest_under(p, h.as_str(), places.separator) {
        None => p.to_owned(),
        Some(rest) => {
            if rest.len() == 0 {
                return p.to_owned();
            }
            let mut s = String::new();
            s.push('~');
            s.push(places.separator);
            text::put_chars(&mut s, &rest);
            assert(s@ =~= seq!['~', places.separator] + rest@);
            s
        },
    }
}

pub open spec fn path_of(p: Option<String>, places: Places) -> Seq<char> {
    match p {
        Some(p) => tilde_text(p@, places),
        None => seq![],
    }
}

fn path_text(p: &Option<String>, places: &Places) -> (s: String)
    ensures
        s@ == path_of(*p, *places),
{
    match p {
        Some(p) => tilde(p.as_str(), places),
        None => String::new(),
    }
}

/// `a` with `b` under it.
pub open spec fn joined(a: Seq<char>, b: Seq<char>, sep: char) -> Seq<char> {
    if a.len() == 0 || a.last() == sep {
        a + b
    } else {
        a.push(sep) + b
    }
}

fn join(a: &str, b: &str, sep: char) -> (s: String)
    ensures
        s@ == joined(a@, b@, sep),
{
    let v = text::chars_of(a);
    let mut s = a.to_owned();
    if v.len() > 0 && v[v.len() - 1] != sep {
        s.push(sep);
    }
    s.append(b);
    s
}

/// The folders and the file's name under them, as one path.
pub open spec fn laid(levels: Seq<Seq<char>>, file: Seq<char>, sep: char) -> Seq<char>
    decreases levels.len(),
{
    if levels.len() == 0 {
        file
    } else {
        joined(levels[0], laid(levels.drop_first(), file, sep), sep)
    }
}

/// Where a frame goes under the destination, from the two patterns; or
/// what is wrong with the first of them that is not one.
pub open spec fn relative_to(
    subfolder: Seq<char>,
    name: Seq<char>,
    f: Fields,
    extension: Seq<char>,
    sep: char,
) -> naming::Filled {
    match naming::expansion(subfolder, f) {
        naming::Filled::Text(folders) => match naming::expansion(name, f) {
            naming::Filled::Text(stem) => naming::Filled::Text(
                laid(
                    naming::levels(folders),
                    naming::named(stem, f.name@, naming::tail_of(extension)),
                    sep,
                ),
            ),
            other => other,
        },
        other => other,
    }
}

/// Where a frame goes under the destination.
pub fn relative(
    subfolder: &str,
    name: &str,
    f: &Fields,
    extension: &str,
    sep: char,
) -> (r: Result<String, naming::PatternError>)
    ensures
        naming::filled(r) == relative_to(subfolder@, name@, *f, extension@, sep),
{
    let folders = match naming::folders(subfolder, f) {
        Ok(v) => v,
        Err(e) => {
            return Err(e);
        },
    };
    let file = match naming::file_name(name, f, extension) {
        Ok(s) => s,
        Err(e) => {
            return Err(e);
        },
    };
    let mut path = file;
    let ghost levels = text::texts(folders@);
    let mut i: usize = folders.len();
    assert(levels.skip(i as int) =~= seq![]);
    while i > 0
        invariant
            i <= folders@.len(),
            levels == text::texts(folders@),
            path@ == laid(levels.skip(i as int), file@, sep),
        decreases i,
    {
        i = i - 1;
        path = join(folders[i].as_str(), path.as_str(), sep);
        assert(levels.skip(i as int).drop_first() =~= levels.skip(i + 1));
        assert(levels.skip(i as int)[0] == folders@[i as int]@);
    }
    assert(levels.skip(0) =~= levels);
    Ok(path)
}

/// What the error of a pattern says.
pub open spec fn fault_text(f: naming::Filled) -> Seq<char> {
    match f {
        naming::Filled::Text(_) => seq![],
        naming::Filled::Unknown(t) => seq!['{'] + t + "} is not a token; "@ + naming::tokens_text(),
        naming::Filled::Unclosed => "a { with no } after it"@,
    }
}

/// Where the first frame would go, in words, or why nothing can; and
/// whether the sheet could import.
pub open spec fn preview_of(
    source: bool,
    destination: Option<String>,
    subfolder: Seq<char>,
    name: Seq<char>,
    scan: Option<Scan>,
    first: Option<Fields>,
    places: Places,
) -> (Seq<char>, bool) {
    if !source || scan is None || first is None || scan->0.items@.len() == 0 {
        (seq![], false)
    } else {
        let item = scan->0.items@[0];
        match relative_to(subfolder, name, first->0, item.extension@, places.separator) {
            naming::Filled::Text(rel) => match destination {
                None => (item.name@ + " becomes "@ + rel, false),
                Some(d) => (
                    item.name@ + " becomes "@ + tilde_text(
                        joined(d@, rel, places.separator),
                        places,
                    ),
                    true,
                ),
            },
            fault => ("Not a pattern: "@ + fault_text(fault), false),
        }
    }
}

/// Where the first frame would go, or why nothing can; and whether
/// the sheet is ready to import.
pub fn preview(
    source: bool,
    destination: &Option<String>,
    subfolder: &str,
    name: &str,
    scan: &Option<Scan>,
    first: &Option<Fields>,
    places: &Places,
) -> (r: (String, bool))
    ensures
        (r.0@, r.1) == preview_of(
            source,
            *destination,
            subfolder@,
            name@,
            *scan,
            *first,
            *places,
        ),
{
    if !source {
        return (String::new(), false);
    }
    let (scan, first) = match (scan, first) {
        (Some(s), Some(f)) => (s, f),
        _ => {
            return (String::new(), false);
        },
    };
    if scan.items.len() == 0 {
        return (String::new(), false);
    }
    let item = &scan.items[0];
    match relative(subfolder, name, first, item.extension.as_str(), places.separator) {
        Err(e) => {
            let mut s = "Not a pattern: ".to_owned();
            let why = e.message();
            s.append(why.as_str());
            (s, false)
        },
        Ok(rel) => {
            let mut s = item.name.clone();
            s.append(" becomes ");
            match destination {
                None => {
                    s.append(rel.as_str());
                    (s, false)
                },
                Some(d) => {
                    let whole = join(d.as_str(), rel.as_str(), places.separator);
                    let shown = tilde(whole.as_str(), places);
                    s.append(shown.as_str());
                    (s, true)
                },
            }
        },
    }
}


// The sheet.

/// The sheet's side of the state.
#[derive(Debug)]
pub struct Sheet {
    pub source: Option<String>,
    pub destination: Option<String>,
    pub backup: Option<String>,
    /// What the source holds, and its first frame's tokens, once read.
    pub scan: Option<Scan>,
    pub first: Option<Fields>,
    /// The source reading the window last asked for, so an older one
    /// that answers late says nothing.
    pub generation: u64,
    /// The remembered choices are on the sheet already.
    pub filled: bool,
    /// An import is running.
    pub running: bool,
    /// It was told to stop after the frame in hand.
    pub canceled: bool,
    /// Whether the destination and the backup are there; none until
    /// looked at. And whether the two are on one drive.
    pub destination_there: Option<bool>,
    pub backup_there: Option<bool>,
    pub same_drive: bool,
    pub folders_generation: u64,
    /// The frame being copied, for the words while the window waits
    /// on it to close.
    pub in_hand: String,
    /// The window was asked to close and waits for the frame in hand;
    /// or gave up waiting on it.
    pub closing: bool,
    pub gave_up: bool,
    /// The folder the browser showed when the import began.
    pub folder_at_start: Option<String>,
}

/// What the window has of the sheet.
#[derive(Debug)]
pub struct Shown {
    pub source: String,
    pub destination: String,
    pub backup: String,
    pub folders_note: String,
    pub count: i32,
    pub note: String,
    pub preview: String,
    pub ready: bool,
    pub subfolder: String,
    pub name: String,
    pub preset: String,
    pub presets: Vec<String>,
    pub open: bool,
    pub running: bool,
    pub stopping: bool,
    /// The status line, and the import's words in the grid's header,
    /// which covers it.
    pub status: String,
    pub import_status: String,
}

pub open spec fn folders_note_of(st: Sheet) -> Seq<char> {
    if st.destination is Some && st.destination_there == Some(false) {
        "The destination folder is not there: is its drive connected? It is not made anew here."@
    } else if st.backup is Some && st.backup_there == Some(false) {
        "The backup folder is not there: is its drive connected? It is not made anew here."@
    } else if st.backup is Some && st.same_drive {
        "The backup is on the same drive as the destination: one failing drive takes both."@
    } else {
        ""@
    }
}

/// What the folders note says: a folder that is not there is said so,
/// and never made; a backup on the destination's drive is warned of.
fn folders_note(st: &Sheet) -> (s: &'static str)
    ensures
        s@ == folders_note_of(*st),
{
    if st.destination.is_some() && is_false(st.destination_there) {
        "The destination folder is not there: is its drive connected? It is not made anew here."
    } else if st.backup.is_some() && is_false(st.backup_there) {
        "The backup folder is not there: is its drive connected? It is not made anew here."
    } else if st.backup.is_some() && st.same_drive {
        "The backup is on the same drive as the destination: one failing drive takes both."
    } else {
        ""
    }
}

fn is_false(b: Option<bool>) -> (r: bool)
    ensures
        r == (b == Some(false)),
{
    match b {
        Some(b) => !b,
        None => false,
    }
}

fn is_true(b: Option<bool>) -> (r: bool)
    ensures
        r == (b == Some(true)),
{
    match b {
        Some(b) => b,
        None => false,
    }
}

/// How many frames the sheet has.
pub open spec fn count_of(st: Sheet) -> nat {
    match st.scan {
        Some(s) => s.items@.len(),
        None => 0,
    }
}

/// The folders are all there.
pub open spec fn folders_there(st: Sheet) -> bool {
    st.destination_there == Some(true) && (st.backup is None || st.backup_there == Some(true))
}

/// A window with what the sheet's state knows on it: the folders, the
/// notes, the preview and whether Import is on.
pub open spec fn shows(st: Sheet, places: Places, before: Shown, after: Shown) -> bool {
    let p = preview_of(
        st.source is Some,
        st.destination,
        before.subfolder@,
        before.name@,
        st.scan,
        st.first,
        places,
    );
    &&& after.source@ == path_of(st.source, places)
    &&& after.destination@ == path_of(st.destination, places)
    &&& after.backup@ == path_of(st.backup, places)
    &&& after.folders_note@ == folders_note_of(st)
    &&& after.count == count_of(st)
    &&& after.preview@ == p.0
    &&& after.ready == (p.1 && folders_there(st) && count_of(st) > 0 && !st.running)
    &&& after == (Shown {
        source: after.source,
        destination: after.destination,
        backup: after.backup,
        folders_note: after.folders_note,
        count: after.count,
        preview: after.preview,
        ready: after.ready,
        ..before
    })
}

/// What the source holds can be counted.
pub open spec fn scan_counted(scan: Option<Scan>) -> bool {
    scan matches Some(s) ==> s.counted()
}

/// Put what the state knows on the sheet: the folders, the note, the
/// preview and whether Import is on.
pub fn show(st: &Sheet, places: &Places, w: &mut Shown)
    requires
        scan_counted(st.scan),
    ensures
        shows(*st, *places, *old(w), *final(w)),
{
    w.source = path_text(&st.source, places);
    w.destination = path_text(&st.destination, places);
    w.backup = path_text(&st.backup, places);
    w.folders_note = folders_note(st).to_owned();
    let count: usize = match &st.scan {
        Some(s) => s.items.len(),
        None => 0,
    };
    w.count = count as i32;
    let (text, ready) = preview(
        st.source.is_some(),
        &st.destination,
        w.subfolder.as_str(),
        w.name.as_str(),
        &st.scan,
        &st.first,
        places,
    );
    w.preview = text;
    let folders: bool = is_true(st.destination_there) && (st.backup.is_none() || is_true(
        st.backup_there,
    ));
    w.ready = ready && folders && count > 0 && !st.running;
}

/// Nothing is ready before the folders have been looked at and are
/// there, a frame was found, its name can be made, and nothing runs.
pub proof fn ready_means_ready(st: Sheet, places: Places, before: Shown, after: Shown)
    requires
        shows(st, places, before, after),
        after.ready,
    ensures
        st.source is Some,
        st.destination is Some,
        st.destination_there == Some(true),
        st.backup is Some ==> st.backup_there == Some(true),
        count_of(st) > 0,
        !st.running,
        relative_to(
            before.subfolder@,
            before.name@,
            st.first->0,
            st.scan->0.items@[0].extension@,
            places.separator,
        ) is Text,
{
}

/// A new look at the folders begun: what was known of them is not.
pub open spec fn looking(before: Sheet, after: Sheet) -> bool {
    after == (Sheet {
        folders_generation: (before.folders_generation + 1) as u64,
        destination_there: None,
        backup_there: None,
        same_drive: false,
        ..before
    })
}

/// Look at whether the destination and the backup are there, on a
/// thread; the answer is heard by [`folders_looked`] under the number
/// this gives.
pub fn look_at_folders(st: &mut Sheet, places: &Places, w: &mut Shown) -> (generation: u64)
    requires
        old(st).folders_generation < u64::MAX,
        scan_counted(old(st).scan),
    ensures
        generation == old(st).folders_generation + 1,
        looking(*old(st), *final(st)),
        shows(*final(st), *places, *old(w), *final(w)),
{
    st.folders_generation = st.folders_generation + 1;
    st.destination_there = None;
    st.backup_there = None;
    st.same_drive = false;
    show(st, places, w);
    st.folders_generation
}

/// What a look at the folders finds: the destination there, the backup
/// there, the two on one drive.
#[derive(Debug, Clone, Copy, PartialEq, Eq, Structural)]
pub struct Looked {
    pub destination: Option<bool>,
    pub backup: Option<bool>,
    pub same_drive: bool,
}

/// What a look at the folders comes to, from what each is: none is not
/// asked for. Only two folders that are there are compared.
pub fn look(destination: Option<bool>, backup: Option<bool>, same_drive: bool) -> (l: Looked)
    ensures
        l == (Looked {
            destination,
            backup,
            same_drive: destination == Some(true) && backup == Some(true) && same_drive,
        }),
{
    Looked {
        destination,
        backup,
        same_drive: is_true(destination) && is_true(backup) && same_drive,
    }
}

/// The folders have been looked at. An older look that answers late
/// says nothing.
pub fn folders_looked(
    st: &mut Sheet,
    places: &Places,
    w: &mut Shown,
    generation: u64,
    looked: Looked,
)
    requires
        scan_counted(old(st).scan),
    ensures
        generation != old(st).folders_generation ==> *final(st) == *old(st) && *final(w) == *old(w),
        generation == old(st).folders_generation ==> {
            &&& *final(st) == (Sheet {
                destination_there: looked.destination,
                backup_there: looked.backup,
                same_drive: looked.same_drive,
                ..*old(st)
            })
            &&& shows(*final(st), *places, *old(w), *final(w))
        },
{
    if generation != st.folders_generation {
        return ;
    }
    st.destination_there = looked.destination;
    st.backup_there = looked.backup;
    st.same_drive = looked.same_drive;
    show(st, places, w);
}

/// A source reading begun.
pub open spec fn reading(
    before: Sheet,
    source: Seq<char>,
    places: Places,
    before_w: Shown,
    after: Sheet,
    after_w: Shown,
) -> bool {
    &&& after.source is Some
    &&& after.source->0@ == source
    &&& after == (Sheet {
        generation: (before.generation + 1) as u64,
        source: after.source,
        scan: None,
        first: None,
        ..before
    })
    &&& after_w.note@ == "reading "@ + source + "..."@
    &&& shows(after, places, Shown { note: after_w.note, ..before_w }, after_w)
}

/// Read what `source` holds, on a thread; the answer is heard by
/// [`scanned`] under the number this gives, unless another reading was
/// asked for since.
pub fn read_source(st: &mut Sheet, places: &Places, w: &mut Shown, source: String) -> (generation: u64)
    requires
        old(st).generation < u64::MAX,
    ensures
        generation == old(st).generation + 1,
        reading(*old(st), source@, *places, *old(w), *final(st), *final(w)),
{
    st.generation = st.generation + 1;
    let mut note = "reading ".to_owned();
    note.append(source.as_str());
    note.append("...");
    st.source = Some(source);
    st.scan = None;
    st.first = None;
    w.note = note;
    show(st, places, w);
    st.generation
}

/// What a source reading found: what it holds and the first frame's
/// tokens, or why it could not be read.
#[derive(Debug)]
pub enum Read {
    Holds(Scan, Option<Fields>),
    Failed(String),
}

/// What the source reading found, on the window's thread. A reading
/// that another was asked for since says nothing.
pub fn scanned(st: &mut Sheet, places: &Places, w: &mut Shown, generation: u64, read: Read)
    requires
        read matches Read::Holds(scan, _) ==> scan.counted(),
    ensures
        generation != old(st).generation ==> *final(st) == *old(st) && *final(w) == *old(w),
        generation == old(st).generation ==> {
            &&& *final(st) == match read {
                Read::Holds(scan, first) => (Sheet { scan: Some(scan), first, ..*old(st) }),
                Read::Failed(_) => (Sheet { scan: None, first: None, ..*old(st) }),
            }
            &&& final(w).note@ == match read {
                Read::Holds(scan, _) => note_of(scan),
                Read::Failed(e) => e@,
            }
            &&& shows(*final(st), *places, Shown { note: final(w).note, ..*old(w) }, *final(w))
        },
{
    if generation != st.generation {
        return ;
    }
    match read {
        Read::Holds(scan, first) => {
            w.note = note_text(&scan);
            st.scan = Some(scan);
            st.first = first;
        },
        Read::Failed(e) => {
            w.note = e;
            st.scan = None;
            st.first = None;
        },
    }
    show(st, places, w);
}

/// What a card search leads to.
#[derive(Debug, Clone, Copy, PartialEq, Eq, Structural)]
pub enum Found {
    /// A source was chosen by hand meanwhile, and wins.
    Ignored,
    /// The card is read, under this number.
    Reads(u64),
    /// There is no card.
    NoCard,
}

/// What the card search found, on the window's thread. A source
/// chosen by hand meanwhile wins.
pub fn found(st: &mut Sheet, places: &Places, w: &mut Shown, card: Option<String>) -> (f: Found)
    requires
        old(st).generation < u64::MAX,
        scan_counted(old(st).scan),
    ensures
        old(st).source is Some ==> f == Found::Ignored && *final(st) == *old(st) && *final(w)
            == *old(w),
        old(st).source is None ==> match card {
            Some(c) => {
                &&& f == Found::Reads((old(st).generation + 1) as u64)
                &&& reading(*old(st), c@, *places, *old(w), *final(st), *final(w))
            },
            None => {
                &&& f == Found::NoCard
                &&& *final(st) == *old(st)
                &&& final(w).note@ == "no card found; choose the folder to import from"@
                &&& shows(*final(st), *places, Shown { note: final(w).note, ..*old(w) }, *final(w))
            },
        },
{
    if st.source.is_some() {
        return Found::Ignored;
    }
    match card {
        Some(c) => {
            let generation: u64 = read_source(st, places, w, c);
            Found::Reads(generation)
        },
        None => {
            w.note = "no card found; choose the folder to import from".to_owned();
            show(st, places, w);
            Found::NoCard
        },
    }
}


/// The choices kept from the last import.
#[derive(Debug)]
pub struct Kept {
    pub destination: String,
    pub subfolder: String,
    pub name: String,
    pub backup: String,
    pub preset: String,
}

/// A path kept as a text: none for an empty one.
pub open spec fn kept_path(s: Seq<char>) -> Option<Seq<char>> {
    if s.len() == 0 {
        None
    } else {
        Some(s)
    }
}

/// A path's text, where there is one.
pub open spec fn text_of(p: Option<String>) -> Option<Seq<char>> {
    match p {
        Some(s) => Some(s@),
        None => None,
    }
}

/// The sheet filled with the remembered choices, the first time: where
/// the last import went, else the desktop's pictures.
pub open spec fn filled_from(
    kept: Kept,
    pictures: Option<String>,
    before: Sheet,
    before_w: Shown,
    after: Sheet,
    after_w: Shown,
) -> bool {
    if before.filled {
        after == before && after_w == before_w
    } else {
        &&& text_of(after.destination) == match text_of(before.destination) {
            Some(d) => Some(d),
            None => match kept_path(kept.destination@) {
                Some(d) => Some(d),
                None => text_of(pictures),
            },
        }
        &&& text_of(after.backup) == match text_of(before.backup) {
            Some(b) => Some(b),
            None => kept_path(kept.backup@),
        }
        &&& after == (Sheet {
            filled: true,
            destination: after.destination,
            backup: after.backup,
            ..before
        })
        &&& after_w.subfolder@ == kept.subfolder@
        &&& after_w.name@ == kept.name@
        &&& after_w.preset@ == if kept.preset@.len() == 0 {
            "None"@
        } else {
            kept.preset@
        }
        &&& after_w == (Shown {
            subfolder: after_w.subfolder,
            name: after_w.name,
            preset: after_w.preset,
            ..before_w
        })
    }
}

fn fill(st: &mut Sheet, w: &mut Shown, kept: &Kept, pictures: &Option<String>)
    ensures
        filled_from(*kept, *pictures, *old(st), *old(w), *final(st), *final(w)),
{
    if st.filled {
        return ;
    }
    st.filled = true;
    if st.destination.is_none() {
        if !kept.destination.as_str().is_empty() {
            st.destination = Some(kept.destination.clone());
        } else {
            match pictures {
                Some(p) => {
                    st.destination = Some(p.clone());
                },
                None => {},
            }
        }
    }
    if st.backup.is_none() && !kept.backup.as_str().is_empty() {
        st.backup = Some(kept.backup.clone());
    }
    w.subfolder = kept.subfolder.clone();
    w.name = kept.name.clone();
    w.preset = if kept.preset.as_str().is_empty() {
        "None".to_owned()
    } else {
        kept.preset.clone()
    };
}

/// The presets the picker offers: none first.
pub open spec fn preset_texts(presets: Seq<String>) -> Seq<Seq<char>> {
    seq!["None"@] + text::texts(presets)
}

/// What the sheet's opening begins.
#[derive(Debug, Clone, Copy, PartialEq, Eq, Structural)]
pub enum Asked {
    /// An import is running: the sheet stays shut.
    Nothing,
    /// The folders are looked at, and the source read.
    Reads { folders: u64, generation: u64 },
    /// The folders are looked at, and a card looked for.
    Searches { folders: u64 },
}

/// Open the sheet: the remembered choices the first time, a card
/// looked for when no source is chosen yet, the source read again
/// when one is (a card taken out and another put in).
pub fn ask(
    st: &mut Sheet,
    places: &Places,
    w: &mut Shown,
    kept: &Kept,
    pictures: &Option<String>,
    presets: &Vec<String>,
) -> (a: Asked)
    requires
        old(st).generation < u64::MAX,
        old(st).folders_generation < u64::MAX,
        scan_counted(old(st).scan),
    ensures
        old(st).running ==> a == Asked::Nothing && *final(st) == *old(st) && *final(w) == *old(w),
        !old(st).running ==> exists|
            filled: Sheet,
            filled_w: Shown,
            opened: Shown,
            looked: Sheet,
            looked_w: Shown,
        |
            {
                let folders = (old(st).folders_generation + 1) as u64;
                &&& opened == (Shown {
                    preset: opened.preset,
                    presets: opened.presets,
                    open: true,
                    ..filled_w
                })
                &&& #[trigger] filled_from(*kept, *pictures, *old(st), *old(w), filled, filled_w)
                // A preset that is gone is none.
                &&& text::texts(opened.presets@) == preset_texts(presets@)
                &&& opened.preset@ == if preset_texts(presets@).contains(filled_w.preset@) {
                    filled_w.preset@
                } else {
                    "None"@
                }
                &&& looking(filled, looked)
                &&& #[trigger] shows(looked, *places, opened, looked_w)
                &&& match old(st).source {
                    Some(source) => {
                        &&& a == Asked::Reads {
                            folders,
                            generation: (old(st).generation + 1) as u64,
                        }
                        &&& reading(looked, source@, *places, looked_w, *final(st), *final(w))
                    },
                    None => {
                        &&& a == Asked::Searches { folders }
                        &&& *final(st) == looked
                        &&& final(w).note@ == "looking for a card..."@
                        &&& shows(
                            looked,
                            *places,
                            Shown { note: final(w).note, ..looked_w },
                            *final(w),
                        )
                    },
                }
            },
{
    if st.running {
        return Asked::Nothing;
    }
    fill(st, w, kept, pictures);
    let ghost filled = *st;
    let ghost filled_w = *w;
    let mut names: Vec<String> = Vec::new();
    names.push("None".to_owned());
    let mut i: usize = 0;
    while i < presets.len()
        invariant
            i <= presets@.len(),
            names@.len() == i + 1,
            forall|k: int| 0 <= k <= i ==> (#[trigger] names@[k])@ == preset_texts(presets@)[k],
        decreases presets.len() - i,
    {
        names.push(presets[i].clone());
        i = i + 1;
    }
    assert(text::texts(names@) =~= preset_texts(presets@));
    if !edit::lists(&names, w.preset.as_str()) {
        w.preset = "None".to_owned();
    }
    w.presets = names;
    w.open = true;
    let ghost opened = *w;
    let folders: u64 = look_at_folders(st, places, w);
    let ghost looked = *st;
    let ghost looked_w = *w;
    assert(shows(looked, *places, opened, looked_w));
    assert(filled_from(*kept, *pictures, *old(st), *old(w), filled, filled_w));
    let source: Option<String> = match &st.source {
        Some(s) => Some(s.clone()),
        None => None,
    };
    match source {
        Some(source) => {
            let generation: u64 = read_source(st, places, w, source);
            Asked::Reads { folders, generation }
        },
        None => {
            w.note = "looking for a card...".to_owned();
            show(st, places, w);
            Asked::Searches { folders }
        },
    }
}

// The import.

/// The import's words: on the status line, and in the grid's header.
pub fn say(w: &mut Shown, line: &str)
    ensures
        final(w).status@ == line@,
        final(w).import_status@ == line@,
        *final(w) == (Shown {
            status: final(w).status,
            import_status: final(w).import_status,
            ..*old(w)
        }),
{
    w.status = line.to_owned();
    w.import_status = line.to_owned();
}

/// Whether the sheet makes an import: it has a source, a destination
/// and what the source holds.
pub fn makes_import(st: &Sheet) -> (r: bool)
    ensures
        r == (st.source is Some && st.destination is Some && st.scan is Some),
{
    st.source.is_some() && st.destination.is_some() && st.scan.is_some()
}

/// What an import is made with.
#[derive(Debug)]
pub struct Options {
    pub source: String,
    pub destination: String,
    pub subfolder: String,
    pub name: String,
    /// The preset to put on the frames, by its place in the list.
    pub preset: Option<usize>,
    pub backup: Option<String>,
    /// The index to enter them in.
    pub library: Option<String>,
    pub verify: bool,
    /// Whether the sidecars go in a folder of their own; none where none
    /// are written.
    pub placement: Option<bool>,
}

/// The place of the first of the names that is `name`, or none where
/// none is.
pub open spec fn is_place(names: Seq<Seq<char>>, name: Seq<char>, r: Option<usize>) -> bool {
    match r {
        Some(k) => {
            &&& k < names.len()
            &&& names[k as int] == name
            &&& forall|j: int| 0 <= j < k ==> names[j] != name
        },
        None => !names.contains(name),
    }
}

/// The options a sheet makes, when it makes any.
pub open spec fn is_options(
    st: Sheet,
    w: Shown,
    presets: Seq<Seq<char>>,
    library: Option<String>,
    verify: bool,
    placement: Option<bool>,
    o: Options,
) -> bool {
    &&& st.source matches Some(source) && o.source@ == source@
    &&& st.destination matches Some(destination) && o.destination@ == destination@
    &&& o.subfolder@ == w.subfolder@
    &&& o.name@ == w.name@
    &&& is_place(presets, w.preset@, o.preset)
    &&& text_of(o.backup) == text_of(st.backup)
    &&& o.library == library
    &&& o.verify == verify
    &&& o.placement == placement
}

fn copied(p: &Option<String>) -> (r: Option<String>)
    ensures
        text_of(r) == text_of(*p),
{
    match p {
        Some(s) => Some(s.clone()),
        None => None,
    }
}

fn place(names: &Vec<String>, name: &str) -> (r: Option<usize>)
    ensures
        is_place(text::texts(names@), name@, r),
{
    let ghost t = text::texts(names@);
    let mut i: usize = 0;
    while i < names.len()
        invariant
            i <= names@.len(),
            t == text::texts(names@),
            forall|k: int| 0 <= k < i ==> t[k] != name@,
        decreases names.len() - i,
    {
        if text::same_text(names[i].as_str(), name) {
            return Some(i);
        }
        i = i + 1;
    }
    None
}

/// The options the sheet makes, when it makes any: it has a source and a
/// destination. A preset that is not listed is none.
pub fn options(
    st: &Sheet,
    w: &Shown,
    presets: &Vec<String>,
    library: Option<String>,
    verify: bool,
    placement: Option<bool>,
) -> (r: Option<Options>)
    ensures
        r is Some <==> st.source is Some && st.destination is Some,
        r matches Some(o) ==> is_options(
            *st,
            *w,
            text::texts(presets@),
            library,
            verify,
            placement,
            o,
        ),
{
    match (&st.source, &st.destination) {
        (Some(source), Some(destination)) => Some(
            Options {
                source: source.clone(),
                destination: destination.clone(),
                subfolder: w.subfolder.clone(),
                name: w.name.clone(),
                preset: place(presets, w.preset.as_str()),
                backup: copied(&st.backup),
                library,
                verify,
                placement,
            },
        ),
        _ => None,
    }
}

/// The folder cameras keep their frames under on a card.
pub const FRAMES_FOLDER: &'static str = "DCIM";

/// A card's root: the source, or the folder it is in where it is the
/// card's frames folder.
pub open spec fn card_of(source: Seq<char>, sep: char) -> Seq<char> {
    let tail = seq![sep] + FRAMES_FOLDER@;
    if source.len() >= tail.len() && source.skip(source.len() - tail.len()) == tail {
        if source.len() == tail.len() {
            source.take(1)
        } else {
            source.take(source.len() - tail.len())
        }
    } else {
        source
    }
}

/// A folder is on the card that `source` is on.
pub open spec fn on_card(folder: Seq<char>, source: Seq<char>, sep: char) -> bool {
    paths::under(folder, card_of(source, sep), sep) is Some
}

fn is_on_card(folder: &str, source: &str, sep: char) -> (r: bool)
    ensures
        r == on_card(folder@, source@, sep),
{
    proof {
        reveal_strlit("DCIM");
    }
    let s = text::chars_of(source);
    let n: usize = s.len();
    let ghost tail = seq![sep] + FRAMES_FOLDER@;
    assert(tail.len() == 5);
    let is_frames: bool = n >= 5 && s[n - 5] == sep && s[n - 4] == 'D' && s[n - 3] == 'C' && s[n - 2]
        == 'I' && s[n - 1] == 'M';
    proof {
        if n >= 5 {
            let end = source@.skip(n - 5);
            assert forall|k: int| 0 <= k < 5 implies #[trigger] end[k] == s@[n - 5 + k] by {}
            if is_frames {
                assert(end =~= tail);
            } else if end == tail {
                assert(end[0] == tail[0] && end[1] == tail[1] && end[2] == tail[2] && end[3]
                    == tail[3] && end[4] == tail[4]);
            }
        }
    }
    let card = if is_frames {
        let m: usize = if n == 5 {
            1
        } else {
            n - 5
        };
        let head = text::part(&s, 0, m);
        assert(head@ =~= source@.take(m as int));
        head
    } else {
        s
    };
    let card = text::string_of(&card);
    paths::rest_under(folder, card.as_str(), sep).is_some()
}

/// Whether an import can be made: nothing goes onto the card it is read
/// from, neither the frames nor their backup. Asked before a folder is
/// made.
pub fn check(source: &str, destination: &str, backup: Option<&str>, sep: char) -> (r: Result<
    (),
    String,
>)
    ensures
        if on_card(destination@, source@, sep) {
            r matches Err(e) && e@ == destination@ + " is on the card"@
        } else {
            match backup {
                Some(b) => if on_card(b@, source@, sep) {
                    r matches Err(e) && e@ == "the backup "@ + b@ + " is on the card"@
                } else {
                    r is Ok
                },
                None => r is Ok,
            }
        },
{
    if is_on_card(destination, source, sep) {
        let mut e = destination.to_owned();
        e.append(" is on the card");
        return Err(e);
    }
    if let Some(b) = backup {
        if is_on_card(b, source, sep) {
            let mut e = "the backup ".to_owned();
            e.append(b);
            e.append(" is on the card");
            return Err(e);
        }
    }
    Ok(())
}

/// The preset an import with no window was told to put on: none where
/// none was named, and a name that finds none is an error.
pub fn named_preset(name: Option<&str>, found: Option<usize>) -> (r: Result<Option<usize>, String>)
    ensures
        match name {
            None => r == Ok::<Option<usize>, String>(None),
            Some(n) => match found {
                Some(k) => r == Ok::<Option<usize>, String>(Some(k)),
                None => r matches Err(e) && e@ == "no preset called "@ + n@,
            },
        },
{
    match name {
        None => Ok(None),
        Some(n) => match found {
            Some(k) => Ok(Some(k)),
            None => {
                let mut e = "no preset called ".to_owned();
                e.append(n);
                Err(e)
            },
        },
    }
}

/// What pressing Import did.
#[derive(Debug, Clone, Copy, PartialEq, Eq, Structural)]
pub enum Started {
    Nothing,
    /// Something is in the way of it, and the sheet says what.
    Refused,
    Running,
}

/// Start the import the sheet describes, on a thread; the sheet goes.
/// `refused` is why the options cannot be imported with, when they
/// cannot; `browsed` is the folder the browser shows.
pub fn start(
    st: &mut Sheet,
    w: &mut Shown,
    refused: Option<String>,
    browsed: Option<String>,
) -> (s: Started)
    requires
        scan_counted(old(st).scan),
    ensures
        !(old(st).source is Some && old(st).destination is Some && old(st).scan is Some) ==> s
            == Started::Nothing && *final(st) == *old(st) && *final(w) == *old(w),
        old(st).source is Some && old(st).destination is Some && old(st).scan is Some
            ==> match refused {
            Some(why) => {
                &&& s == Started::Refused
                &&& *final(st) == *old(st)
                &&& *final(w) == (Shown { preview: why, ready: false, ..*old(w) })
            },
            None => {
                let line = "importing "@ + frames_text(old(st).scan->0.items@.len()) + "..."@;
                &&& s == Started::Running
                &&& *final(st) == (Sheet {
                    running: true,
                    canceled: false,
                    folder_at_start: browsed,
                    closing: false,
                    gave_up: false,
                    ..*old(st)
                })
                &&& final(w).status@ == line
                &&& final(w).import_status@ == line
                &&& *final(w) == (Shown {
                    open: false,
                    running: true,
                    stopping: false,
                    status: final(w).status,
                    import_status: final(w).import_status,
                    ..*old(w)
                })
            },
        },
{
    if !makes_import(st) {
        return Started::Nothing;
    }
    let n: usize = match &st.scan {
        Some(scan) => scan.items.len(),
        None => 0,
    };
    if let Some(why) = refused {
        w.preview = why;
        w.ready = false;
        return Started::Refused;
    }
    st.running = true;
    st.canceled = false;
    st.folder_at_start = browsed;
    st.closing = false;
    st.gave_up = false;
    w.open = false;
    w.running = true;
    w.stopping = false;
    let mut line = "importing ".to_owned();
    let so_many = frames(n);
    line.append(so_many.as_str());
    line.append("...");
    say(w, line.as_str());
    Started::Running
}

/// A frame has come to hand: its name is kept, and the line said unless
/// the window is closing or the import is over.
pub fn progress(st: &mut Sheet, w: &mut Shown, name: String, line: &str)
    ensures
        *final(st) == (Sheet { in_hand: name, ..*old(st) }),
        old(w).running && !old(st).closing ==> {
            &&& final(w).status@ == line@
            &&& final(w).import_status@ == line@
            &&& *final(w) == (Shown {
                status: final(w).status,
                import_status: final(w).import_status,
                ..*old(w)
            })
        },
        !(old(w).running && !old(st).closing) ==> *final(w) == *old(w),
{
    st.in_hand = name;
    if w.running && !st.closing {
        say(w, line);
    }
}

/// What the end of an import leads to.
#[derive(Debug, Clone, Copy, PartialEq, Eq, Structural)]
pub enum Ended {
    /// The window was asked to close and waited for this.
    Quit,
    /// The folder that took the most frames is opened, and then the
    /// line said.
    Open,
    /// The line is said.
    Say,
}

/// Whether two folders are the same one.
pub open spec fn same_folder(a: Option<String>, b: Option<String>, sep: char) -> bool {
    match (a, b) {
        (Some(a), Some(b)) => paths::same_path(a@, b@, sep),
        (None, None) => true,
        _ => false,
    }
}

fn is_same_folder(a: &Option<String>, b: &Option<String>, sep: char) -> (r: bool)
    ensures
        r == same_folder(*a, *b, sep),
{
    match (a, b) {
        (Some(a), Some(b)) => paths::is_same_path(a.as_str(), b.as_str(), sep),
        (None, None) => true,
        _ => false,
    }
}

/// The import is done, however it went: what is said and what opens.
/// Nothing new is nothing to open; and a user who went to another
/// folder while it ran is not taken away from it, but told where the
/// frames are. `line` is the report's own, `folder` the folder that took
/// the most frames.
pub fn finished(
    st: &mut Sheet,
    w: &mut Shown,
    places: &Places,
    browsed: &Option<String>,
    frames: usize,
    folder: &Option<String>,
    line: &str,
) -> (r: (Ended, String))
    ensures
        *final(st) == (Sheet { running: false, closing: false, ..*old(st) }),
        *final(w) == (Shown { running: false, stopping: false, ..*old(w) }),
        ({
            let moved = !same_folder(*browsed, old(st).folder_at_start, places.separator);
            let opens = frames > 0 && folder is Some;
            &&& r.0 == if old(st).closing {
                Ended::Quit
            } else if opens && !moved {
                Ended::Open
            } else {
                Ended::Say
            }
            &&& r.1@ == if !old(st).closing && opens && moved {
                line@ + ("; open "@ + tilde_text(folder->0@, *places) + " to see them"@)
            } else {
                line@
            }
        }),
{
    let moved: bool = !is_same_folder(browsed, &st.folder_at_start, places.separator);
    let closing: bool = st.closing;
    st.running = false;
    st.closing = false;
    w.running = false;
    w.stopping = false;
    let mut said = line.to_owned();
    if closing {
        return (Ended::Quit, said);
    }
    if frames > 0 {
        if let Some(f) = folder {
            if moved {
                let mut more = "; open ".to_owned();
                let shown = tilde(f.as_str(), places);
                more.append(shown.as_str());
                more.append(" to see them");
                said.append(more.as_str());
            } else {
                return (Ended::Open, said);
            }
        }
    }
    (Ended::Say, said)
}

/// The end of the import said, after the open, whose own words would
/// stand over these; and the sheet as it now is.
pub fn finish_said(st: &Sheet, places: &Places, w: &mut Shown, line: &str)
    requires
        scan_counted(st.scan),
    ensures
        final(w).status@ == line@,
        final(w).import_status@ == line@,
        shows(
            *st,
            *places,
            Shown {
                status: final(w).status,
                import_status: final(w).import_status,
                ..*old(w)
            },
            *final(w),
        ),
{
    say(w, line);
    show(st, places, w);
}

/// The grid's header goes back to the selection after a while, unless
/// another import runs or says something else by then; the status line
/// keeps the words until the next.
pub fn header_rests(w: &mut Shown, line: &str)
    ensures
        !old(w).running && old(w).import_status@ == line@ ==> {
            &&& final(w).import_status@ == ""@
            &&& *final(w) == (Shown { import_status: final(w).import_status, ..*old(w) })
        },
        !(!old(w).running && old(w).import_status@ == line@) ==> *final(w) == *old(w),
{
    if !w.running && text::same_text(w.import_status.as_str(), line) {
        w.import_status = "".to_owned();
    }
}

/// How long a closing window waits for the frame in hand before it
/// gives up and says so in the log, in seconds. A 100 MB raw off a slow
/// card reader at 10 MB/s is ten seconds; a read that hangs is forever.
pub const CLOSE_WAIT: u64 = 60;

/// The window's close asked for while an import runs: the import is
/// stopped after the frame in hand, the window stays up saying so, and
/// closes itself once that frame lands. Whether the window stays.
pub fn close_asked(st: &mut Sheet, w: &mut Shown) -> (stays: bool)
    ensures
        stays == old(st).running,
        !stays ==> *final(st) == *old(st) && *final(w) == *old(w),
        stays ==> {
            let line = "finishing "@ + old(st).in_hand@
                + "... the window closes once it has landed"@;
            &&& *final(st) == (Sheet { canceled: true, closing: true, ..*old(st) })
            &&& final(w).status@ == line
            &&& final(w).import_status@ == line
            &&& *final(w) == (Shown {
                stopping: true,
                status: final(w).status,
                import_status: final(w).import_status,
                ..*old(w)
            })
        },
{
    if !st.running {
        return false;
    }
    st.canceled = true;
    st.closing = true;
    w.stopping = true;
    let mut line = "finishing ".to_owned();
    line.append(st.in_hand.as_str());
    line.append("... the window closes once it has landed");
    say(w, line.as_str());
    true
}

/// The wait for the frame in hand is over: whether the window closes
/// without it. One that has closed already, or no longer means to, does
/// not.
pub fn close_waited(st: &mut Sheet) -> (quits: bool)
    ensures
        quits == old(st).closing,
        *final(st) == (Sheet { gave_up: old(st).gave_up || old(st).closing, ..*old(st) }),
{
    if !st.closing {
        return false;
    }
    st.gave_up = true;
    true
}

/// Stop asked for: after the frame in hand. Nothing where none runs.
pub fn stop(st: &mut Sheet, w: &mut Shown)
    ensures
        !old(st).running ==> *final(st) == *old(st) && *final(w) == *old(w),
        old(st).running ==> {
            let line = "stopping the import after the frame in hand..."@;
            &&& *final(st) == (Sheet { canceled: true, ..*old(st) })
            &&& final(w).status@ == line
            &&& final(w).import_status@ == line
            &&& *final(w) == (Shown {
                stopping: true,
                status: final(w).status,
                import_status: final(w).import_status,
                ..*old(w)
            })
        },
{
    if st.running {
        st.canceled = true;
        w.stopping = true;
        say(w, "stopping the import after the frame in hand...");
    }
}

/// Whether the wait for an import's thread goes on once the window has
/// closed: while it has not finished, up to the limit, and not at all
/// where the window gave up on it.
pub fn waits_on(gave_up: bool, thread_done: bool, waited_ms: u64, limit_ms: u64) -> (r: bool)
    ensures
        r == (!gave_up && !thread_done && waited_ms < limit_ms),
{
    !gave_up && !thread_done && waited_ms < limit_ms
}

/// A folder of the sheet's.
#[derive(Debug, Clone, Copy, PartialEq, Eq, Structural)]
pub enum Which {
    Source,
    Destination,
    Backup,
}

pub open spec fn which_named(s: Seq<char>) -> Which {
    if s == "source"@ {
        Which::Source
    } else if s == "destination"@ {
        Which::Destination
    } else {
        Which::Backup
    }
}

pub fn which_of(s: &str) -> (w: Which)
    ensures
        w == which_named(s@),
{
    if text::same_text(s, "source") {
        Which::Source
    } else if text::same_text(s, "destination") {
        Which::Destination
    } else {
        Which::Backup
    }
}

/// The chooser's title.
pub fn chooser_title(which: Which) -> (s: &'static str)
    ensures
        s@ == match which {
            Which::Source => "Import from"@,
            Which::Destination => "Import to"@,
            Which::Backup => "Back up to"@,
        },
{
    match which {
        Which::Source => "Import from",
        Which::Destination => "Import to",
        Which::Backup => "Back up to",
    }
}

/// What a folder chosen begins.
#[derive(Debug, Clone, Copy, PartialEq, Eq, Structural)]
pub enum Chosen {
    /// The source is read, under this number.
    Reads(u64),
    /// The folders are looked at, under this number.
    Looks(u64),
}

/// A folder chosen for the sheet.
pub fn folder_chosen(
    st: &mut Sheet,
    places: &Places,
    w: &mut Shown,
    which: Which,
    folder: String,
) -> (c: Chosen)
    requires
        old(st).generation < u64::MAX,
        old(st).folders_generation < u64::MAX,
        scan_counted(old(st).scan),
    ensures
        match which {
            Which::Source => {
                &&& c == Chosen::Reads((old(st).generation + 1) as u64)
                &&& reading(*old(st), folder@, *places, *old(w), *final(st), *final(w))
            },
            Which::Destination => {
                &&& c == Chosen::Looks((old(st).folders_generation + 1) as u64)
                &&& looking(Sheet { destination: Some(folder), ..*old(st) }, *final(st))
                &&& shows(*final(st), *places, *old(w), *final(w))
            },
            Which::Backup => {
                &&& c == Chosen::Looks((old(st).folders_generation + 1) as u64)
                &&& looking(Sheet { backup: Some(folder), ..*old(st) }, *final(st))
                &&& shows(*final(st), *places, *old(w), *final(w))
            },
        },
{
    match which {
        Which::Source => {
            let generation: u64 = read_source(st, places, w, folder);
            Chosen::Reads(generation)
        },
        Which::Destination => {
            st.destination = Some(folder);
            let generation: u64 = look_at_folders(st, places, w);
            Chosen::Looks(generation)
        },
        Which::Backup => {
            st.backup = Some(folder);
            let generation: u64 = look_at_folders(st, places, w);
            Chosen::Looks(generation)
        },
    }
}

/// The folder chooser's answer.
#[derive(Debug)]
pub enum Answer {
    Folder(String),
    /// Closed with nothing chosen.
    Nothing,
    /// The desktop offered none.
    Refused,
}

/// The chooser answered: a folder is taken, no chooser is said so, and the
/// sheet is shown again whatever came. What the folder begins.
pub fn chooser_answered(
    st: &mut Sheet,
    places: &Places,
    w: &mut Shown,
    which: Which,
    answer: Answer,
) -> (c: Option<Chosen>)
    requires
        old(st).generation < u64::MAX,
        old(st).folders_generation < u64::MAX,
        scan_counted(old(st).scan),
    ensures
        match answer {
            Answer::Folder(folder) => match which {
                Which::Source => {
                    &&& c == Some(Chosen::Reads((old(st).generation + 1) as u64))
                    &&& reading(*old(st), folder@, *places, *old(w), *final(st), *final(w))
                },
                Which::Destination => {
                    &&& c == Some(Chosen::Looks((old(st).folders_generation + 1) as u64))
                    &&& looking(Sheet { destination: Some(folder), ..*old(st) }, *final(st))
                    &&& shows(*final(st), *places, *old(w), *final(w))
                },
                Which::Backup => {
                    &&& c == Some(Chosen::Looks((old(st).folders_generation + 1) as u64))
                    &&& looking(Sheet { backup: Some(folder), ..*old(st) }, *final(st))
                    &&& shows(*final(st), *places, *old(w), *final(w))
                },
            },
            Answer::Nothing => {
                &&& c is None
                &&& *final(st) == *old(st)
                &&& shows(*old(st), *places, *old(w), *final(w))
            },
            Answer::Refused => {
                &&& c is None
                &&& *final(st) == *old(st)
                &&& final(w).note@ == "the desktop offered no folder chooser"@
                &&& shows(
                    *old(st),
                    *places,
                    Shown { note: final(w).note, ..*old(w) },
                    *final(w),
                )
            },
        },
{
    match answer {
        Answer::Folder(folder) => Some(folder_chosen(st, places, w, which, folder)),
        Answer::Nothing => {
            show(st, places, w);
            None
        },
        Answer::Refused => {
            w.note = "the desktop offered no folder chooser".to_owned();
            show(st, places, w);
            None
        },
    }
}

/// The backup let go of.
pub fn backup_cleared(st: &mut Sheet, places: &Places, w: &mut Shown) -> (generation: u64)
    requires
        old(st).folders_generation < u64::MAX,
        scan_counted(old(st).scan),
    ensures
        generation == old(st).folders_generation + 1,
        looking(Sheet { backup: None, ..*old(st) }, *final(st)),
        shows(*final(st), *places, *old(w), *final(w)),
{
    st.backup = None;
    look_at_folders(st, places, w)
}

/// The folder the browser shows: its first file's.
pub fn browsed_folder(parents: &Vec<Option<String>>) -> (f: Option<String>)
    ensures
        f == if parents@.len() > 0 {
            parents@[0]
        } else {
            None
        },
{
    if parents.len() > 0 {
        match &parents[0] {
            Some(s) => Some(s.clone()),
            None => None,
        }
    } else {
        None
    }
}

/// An answer that another was asked for since says nothing, whatever it
/// holds: the numbers a sheet gives out go up by one each time.
pub proof fn an_older_answer_is_not_heard(
    places: Places,
    a: Sheet,
    a_w: Shown,
    source: Seq<char>,
    b: Sheet,
    b_w: Shown,
    generation: u64,
)
    requires
        a.generation < u64::MAX,
        reading(a, source, places, a_w, b, b_w),
        generation <= a.generation,
    ensures
        generation != b.generation,
{
}


/// The choices kept for the next import: where this one's frames went,
/// kept when it starts, so a run that ends badly still remembers. A
/// preset that is not there is none.
pub fn choices(st: &Sheet, w: &Shown, presets: &Vec<String>) -> (k: Kept)
    requires
        st.destination is Some,
    ensures
        k.destination@ == st.destination->0@,
        k.subfolder@ == w.subfolder@,
        k.name@ == w.name@,
        k.backup@ == match st.backup {
            Some(b) => b@,
            None => ""@,
        },
        k.preset@ == if text::texts(presets@).contains(w.preset@) {
            w.preset@
        } else {
            ""@
        },
{
    let destination = match &st.destination {
        Some(d) => d.clone(),
        None => String::new(),
    };
    let backup = match &st.backup {
        Some(b) => b.clone(),
        None => "".to_owned(),
    };
    let preset = if edit::lists(presets, w.preset.as_str()) {
        w.preset.clone()
    } else {
        "".to_owned()
    };
    Kept {
        destination,
        subfolder: w.subfolder.clone(),
        name: w.name.clone(),
        backup,
        preset,
    }
}

/// A look at whether the sheet has become ready.
#[derive(Debug, Clone, Copy, PartialEq, Eq, Structural)]
pub enum Wait {
    Press,
    /// Look again, so many times more.
    Again(u32),
    GiveUp,
}

/// Import pressed once the source has been read, looking up to `tries`
/// times more.
pub fn start_when_read(ready: bool, tries: u32) -> (r: Wait)
    ensures
        r == if ready {
            Wait::Press
        } else if tries > 0 {
            Wait::Again((tries - 1) as u32)
        } else {
            Wait::GiveUp
        },
{
    if ready {
        Wait::Press
    } else if tries > 0 {
        Wait::Again(tries - 1)
    } else {
        Wait::GiveUp
    }
}

// What holds of the sheet.

/// The files of a scan are its frames and what goes with each, and a frame
/// more is one more and its own.
pub proof fn a_scan_counts_its_frames_and_what_goes_with_them(items: Seq<Item>, item: Item)
    ensures
        companions(Seq::<Item>::empty()) == 0,
        companions(items.push(item)) == companions(items) + item.companions,
{
    assert(items.push(item).drop_last() =~= items);
}

/// A count of frames is said as it is, in the singular for one alone.
pub proof fn a_count_of_frames_is_said_as_it_is(n: nat)
    ensures
        frames_text(n).take(text::decimal(n).len() as int) == text::decimal(n),
        n == 1 ==> frames_text(n).len() == text::decimal(n).len() + 6,
        n != 1 ==> frames_text(n).len() == text::decimal(n).len() + 7,
{
    reveal_strlit(" frame");
    reveal_strlit(" frames");
    assert(frames_text(n).take(text::decimal(n).len() as int) =~= text::decimal(n));
}

/// A path that is not under the home folder is shown as it is, and so is
/// the home folder itself; one under it is the rest of it, after `~`.
pub proof fn a_path_is_shown_under_the_home_folder(p: Seq<char>, places: Places)
    ensures
        places.home is None ==> tilde_text(p, places) == p,
        places.home matches Some(h) ==> (paths::under(p, h@, places.separator) is None
            ==> tilde_text(p, places) == p),
        places.home matches Some(h) ==> (paths::under(p, h@, places.separator) matches Some(rest)
            ==> (rest.len() > 0 ==> {
            let t = tilde_text(p, places);
            t[0] == '~' && t[1] == places.separator && t.skip(2) == rest
        })),
{
    match places.home {
        Some(h) => match paths::under(p, h@, places.separator) {
            Some(rest) => {
                if rest.len() > 0 {
                    assert(tilde_text(p, places).skip(2) =~= rest);
                }
            },
            None => {},
        },
        None => {},
    }
}

/// Two parts of a path are joined by one separator, and nothing is before
/// a path with no folder.
pub proof fn parts_are_joined_by_one_separator(a: Seq<char>, b: Seq<char>, sep: char)
    ensures
        a.len() == 0 ==> joined(a, b, sep) == b,
        a.len() > 0 && a.last() != sep ==> joined(a, b, sep).len() == a.len() + 1 + b.len()
            && joined(a, b, sep).take(a.len() as int) == a && joined(a, b, sep)[a.len() as int]
            == sep && joined(a, b, sep).skip(a.len() as int + 1) == b,
        a.len() > 0 && a.last() == sep ==> joined(a, b, sep) == a + b,
{
    if a.len() == 0 {
        assert(joined(a, b, sep) =~= b);
    } else if a.last() != sep {
        assert(joined(a, b, sep).take(a.len() as int) =~= a);
        assert(joined(a, b, sep).skip(a.len() as int + 1) =~= b);
    }
}

/// A frame goes in its folders, one in the next, and under its name last;
/// with no folders it is the name alone.
pub proof fn a_frame_goes_in_its_folders(levels: Seq<Seq<char>>, file: Seq<char>, sep: char)
    ensures
        levels.len() == 0 ==> laid(levels, file, sep) == file,
        laid(levels, file, sep).len() >= file.len(),
        laid(levels, file, sep).skip(laid(levels, file, sep).len() - file.len()) == file,
        levels.len() > 0 ==> laid(levels, file, sep).take(levels[0].len() as int) == levels[0],
    decreases levels.len(),
{
    if levels.len() == 0 {
        assert(file.skip(0) =~= file);
    } else {
        let rest = laid(levels.drop_first(), file, sep);
        a_frame_goes_in_its_folders(levels.drop_first(), file, sep);
        let all = laid(levels, file, sep);
        assert(all.skip(all.len() - file.len()) =~= rest.skip(rest.len() - file.len()));
        assert(all.take(levels[0].len() as int) =~= levels[0]);
    }
}

/// A sheet is ready as soon as it can import: with a source read that has
/// frames, a pattern that fills, a destination that is there, its backup
/// there where it has one, and no import running.
pub proof fn a_sheet_that_can_import_is_ready(
    st: Sheet,
    places: Places,
    before: Shown,
    after: Shown,
)
    requires
        shows(st, places, before, after),
        st.source is Some,
        st.destination is Some,
        st.destination_there == Some(true),
        st.backup is Some ==> st.backup_there == Some(true),
        st.scan matches Some(s) && s.items@.len() > 0,
        st.first is Some,
        !st.running,
        relative_to(
            before.subfolder@,
            before.name@,
            st.first->0,
            st.scan->0.items@[0].extension@,
            places.separator,
        ) is Text,
    ensures
        after.ready,
        after.count == st.scan->0.items@.len(),
{
}

/// The sheet shows its own folders, how many frames there are, and where
/// the first would go: its name now, and then the name it would have.
pub proof fn the_sheet_shows_where_the_first_would_go(
    st: Sheet,
    places: Places,
    before: Shown,
    after: Shown,
)
    requires
        shows(st, places, before, after),
    ensures
        st.source matches Some(p) ==> after.source@ == tilde_text(p@, places),
        st.source is None ==> after.source@.len() == 0,
        st.destination matches Some(p) ==> after.destination@ == tilde_text(p@, places),
        st.destination is None ==> after.destination@.len() == 0,
        st.backup matches Some(p) ==> after.backup@ == tilde_text(p@, places),
        st.backup is None ==> after.backup@.len() == 0,
        st.scan matches Some(s) ==> after.count == s.items@.len(),
        st.scan is None ==> after.count == 0 && after.preview@.len() == 0 && !after.ready,
        st.running ==> !after.ready,
        st.destination is None ==> !after.ready,
        st.source is Some && st.first is Some && st.destination is Some ==> (st.scan matches Some(s)
            ==> (s.items@.len() > 0 ==> (relative_to(
            before.subfolder@,
            before.name@,
            st.first->0,
            s.items@[0].extension@,
            places.separator,
        ) matches naming::Filled::Text(rel) ==> after.preview@ == s.items@[0].name@ + " becomes "@
            + tilde_text(joined(st.destination->0@, rel, places.separator), places)))),
{
}

/// A folder that is not there is said, the destination's before the
/// backup's, and a backup on the destination's own drive where both are.
pub proof fn a_folder_that_is_not_there_is_said(st: Sheet)
    ensures
        st.destination is Some && st.destination_there == Some(false) ==> folders_note_of(st).len()
            > 0,
        st.backup is Some && st.backup_there == Some(false) ==> folders_note_of(st).len() > 0,
        st.backup is Some && st.same_drive ==> folders_note_of(st).len() > 0,
        st.backup is None && st.destination_there != Some(false) ==> folders_note_of(st).len() == 0,
        st.destination_there != Some(false) && st.backup_there != Some(false) && !st.same_drive
            ==> folders_note_of(st).len() == 0,
{
    reveal_strlit("");
    reveal_strlit(
        "The destination folder is not there: is its drive connected? It is not made anew here.",
    );
    reveal_strlit(
        "The backup folder is not there: is its drive connected? It is not made anew here.",
    );
    reveal_strlit(
        "The backup is on the same drive as the destination: one failing drive takes both.",
    );
}

/// A look at the folders forgets what the last one found, and is another
/// look; a source read is another source's, with nothing of the last one.
pub proof fn a_new_look_forgets_the_last(
    before: Sheet,
    after: Sheet,
    source: Seq<char>,
    places: Places,
    before_w: Shown,
    read: Sheet,
    read_w: Shown,
)
    requires
        before.folders_generation < u64::MAX,
        before.generation < u64::MAX,
        looking(before, after),
        reading(before, source, places, before_w, read, read_w),
    ensures
        after.folders_generation == before.folders_generation + 1,
        after.destination_there is None && after.backup_there is None && !after.same_drive,
        after.destination == before.destination && after.backup == before.backup && after.source
            == before.source,
        read.generation == before.generation + 1,
        read.source matches Some(s) && s@ == source,
        read.scan is None && read.first is None,
        read.destination == before.destination,
        !read_w.ready,
{
}

/// The sheet is filled from the last run once: a folder chosen since stays,
/// else the last run's, else for the destination the pictures'; the
/// patterns and the preset are the last run's.
pub proof fn the_sheet_is_filled_once(
    kept: Kept,
    pictures: Option<String>,
    before: Sheet,
    before_w: Shown,
    after: Sheet,
    after_w: Shown,
)
    requires
        filled_from(kept, pictures, before, before_w, after, after_w),
    ensures
        after.filled,
        before.filled ==> after == before && after_w == before_w,
        before.destination matches Some(d) ==> (after.destination matches Some(e) && e@ == d@),
        !before.filled && before.destination is None && kept.destination@.len() > 0 ==> (
        after.destination matches Some(e) && e@ == kept.destination@),
        !before.filled && before.destination is None && kept.destination@.len() == 0 ==> (
        pictures matches Some(p) ==> (after.destination matches Some(e) && e@ == p@)),
        before.backup matches Some(d) ==> (after.backup matches Some(e) && e@ == d@),
        !before.filled && before.backup is None && kept.backup@.len() > 0 ==> (
        after.backup matches Some(e) && e@ == kept.backup@),
        !before.filled && before.backup is None && kept.backup@.len() == 0 ==> after.backup is None,
        !before.filled ==> after_w.subfolder@ == kept.subfolder@ && after_w.name@ == kept.name@,
        !before.filled && kept.preset@.len() > 0 ==> after_w.preset@ == kept.preset@,
        !before.filled && kept.preset@.len() == 0 ==> after_w.preset@ == "None"@,
        after.source == before.source && after.scan == before.scan,
{
}

/// An import is of what the sheet says: its folders, its patterns, its
/// backup, and the preset of its name, the first of that name.
pub proof fn an_import_is_of_what_the_sheet_says(
    st: Sheet,
    w: Shown,
    presets: Seq<Seq<char>>,
    library: Option<String>,
    verify: bool,
    placement: Option<bool>,
    o: Options,
)
    requires
        is_options(st, w, presets, library, verify, placement, o),
    ensures
        st.source matches Some(s) && o.source@ == s@,
        st.destination matches Some(d) && o.destination@ == d@,
        st.backup matches Some(b) ==> (o.backup matches Some(c) && c@ == b@),
        st.backup is None ==> o.backup is None,
        o.subfolder@ == w.subfolder@ && o.name@ == w.name@,
        o.preset matches Some(k) ==> k < presets.len() && presets[k as int] == w.preset@,
        o.preset is None ==> !presets.contains(w.preset@),
        o.verify == verify,
        o.placement == placement,
{
}

/// A folder under the source is on the card, and so is one beside the
/// card's frames folder, the source being that.
pub proof fn what_is_under_the_source_is_on_the_card(
    folder: Seq<char>,
    source: Seq<char>,
    sep: char,
)
    requires
        source.len() < 5 || source.skip(source.len() - 5) != seq![sep, 'D', 'C', 'I', 'M'],
    ensures
        card_of(source, sep) == source,
        on_card(folder, source, sep) <==> paths::under(folder, source, sep) is Some,
        source.len() > 0 ==> card_of(source + seq![sep, 'D', 'C', 'I', 'M'], sep) == source,
{
    reveal_strlit("DCIM");
    let tail = seq![sep] + FRAMES_FOLDER@;
    assert(tail =~= seq![sep, 'D', 'C', 'I', 'M']);
    let whole = source + seq![sep, 'D', 'C', 'I', 'M'];
    if source.len() > 0 {
        assert(whole.skip(whole.len() - tail.len()) =~= tail);
        assert(whole.take(whole.len() - tail.len()) =~= source);
    }
}

/// A row of the sheet is named for what it chooses.
pub proof fn a_row_is_named_for_what_it_chooses(s: Seq<char>)
    ensures
        which_named(s) is Source <==> s == "source"@,
        which_named(s) is Destination <==> s == "destination"@,
        which_named(s) is Backup <==> s != "source"@ && s != "destination"@,
{
    reveal_strlit("source");
    reveal_strlit("destination");
    assert("source"@.len() != "destination"@.len());
}

/// A scan is told by the frames it found, the files that go with them,
/// where there are more of those, and what is left on the card, where
/// anything is. With no frames, nothing else is said.
pub proof fn a_scan_is_told_by_what_it_found(scan: Scan)
    ensures
        scan.items@.len() == 0 ==> note_of(scan) == "no frames here the editor opens"@,
        scan.items@.len() > 0 && scan.total() <= scan.items@.len() && scan.left == 0 ==> note_of(
            scan,
        ) == frames_text(scan.items@.len()),
        scan.items@.len() > 0 && scan.total() > scan.items@.len() && scan.left == 0 ==> note_of(
            scan,
        ) == frames_text(scan.items@.len()) + (", "@ + text::decimal(scan.total())
            + " files with the JPEGs and XMPs that go with their raws"@),
        scan.items@.len() > 0 && scan.total() <= scan.items@.len() && scan.left > 0 ==> note_of(
            scan,
        ) == frames_text(scan.items@.len()) + ("; "@ + text::decimal(scan.left as nat)
            + " left on the card (videos, and files the editor does not open)"@),
{
}

/// Two folders are the same when both are there and their paths are, or
/// when neither is there.
pub proof fn a_folder_is_the_same_by_its_path(a: Option<String>, b: Option<String>, sep: char)
    ensures
        a is None && b is None ==> same_folder(a, b, sep),
        a is Some && b is None ==> !same_folder(a, b, sep),
        a is None && b is Some ==> !same_folder(a, b, sep),
        a matches Some(x) ==> (b matches Some(y) ==> same_folder(a, b, sep) == paths::same_path(
            x@,
            y@,
            sep,
        )),
{
}

} // verus!
