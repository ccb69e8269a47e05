//! The run's beginning and end: what the command line and the last run's
//! settings come to, and what is kept for the next.

use crate::panel::export;
use crate::panel::export::{ExportPreset, Sheet};
use crate::panel::prefs::Placement;
use crate::text;
use vstd::prelude::*;
use vstd::std_specs::cmp::PartialEqSpec;

verus! {

// The picture's size.

/// Which way a size halfway between two tenths goes, `n` of them in
/// twentieths: the way that the double nearest to it lies from it, and
/// to the even tenth where it is one. (In binary a twentieth does not
/// end, and how the rest falls goes round with the power of two.)
pub open spec fn half_goes_up(n: int) -> bool {
    let c = if n < 2 {
        3int
    } else if n < 5 {
        2
    } else if n < 10 {
        1
    } else if n < 20 {
        3
    } else if n < 40 {
        4
    } else if n < 80 {
        2
    } else if n < 160 {
        1
    } else {
        3
    };
    let r = (n * c) % 5;
    r == 3 || r == 4 || (r == 0 && ((n - 1) / 2) % 2 == 1)
}

/// The megapixels in tenths, rounded to the nearest.
pub open spec fn tenths(pixels: int) -> int {
    let t = pixels / 100000;
    let over = pixels % 100000;
    if over > 50000 || (over == 50000 && half_goes_up(pixels / 50000)) {
        t + 1
    } else {
        t
    }
}

/// The megapixels as a camera is named: whole ones, rounded to the
/// nearest, and to a tenth below ten.
pub open spec fn megapixels_text(pixels: int) -> Seq<char> {
    if pixels < 10000000 {
        let t = tenths(pixels);
        text::decimal((t / 10) as nat) + "."@ + text::decimal((t % 10) as nat)
    } else {
        text::decimal(((pixels + 500000) / 1000000) as nat)
    }
}

fn half_up(n: u64) -> (r: bool)
    requires
        n < 200,
        n >= 1,
    ensures
        r == half_goes_up(n as int),
{
    let c: u64 = if n < 2 {
        3
    } else if n < 5 {
        2
    } else if n < 10 {
        1
    } else if n < 20 {
        3
    } else if n < 40 {
        4
    } else if n < 80 {
        2
    } else if n < 160 {
        1
    } else {
        3
    };
    assert(n * c <= 200 * 4) by (nonlinear_arith)
        requires
            n < 200,
            c <= 4,
    ;
    let r: u64 = (n * c) % 5;
    r == 3 || r == 4 || (r == 0 && ((n - 1) / 2) % 2 == 1)
}

/// A picture's size in words: its sides, and its megapixels.
pub open spec fn size_words(width: u32, height: u32) -> Seq<char> {
    text::decimal(width as nat) + " \u{d7} "@ + text::decimal(height as nat) + " \u{b7} "@
        + megapixels_text(width * height) + " MP"@
}

/// The picture's size for the panel: "6000 \u{d7} 4000 \u{b7} 24 MP".
/// The megapixels are rounded to the nearest whole one, as a camera
/// is named, and to a tenth below ten, where a whole one would be
/// coarse.
pub fn size_text(width: u32, height: u32) -> (s: String)
    ensures
        s@ == size_words(width, height),
{
    assert(0 <= width * height <= 4294967295 * 4294967295) by (nonlinear_arith)
        requires
            0 <= width <= 4294967295,
            0 <= height <= 4294967295,
    ;
    let p: u64 = width as u64 * height as u64;
    let mut mp = String::new();
    if p < 10000000 {
        let t: u64 = p / 100000;
        let over: u64 = p % 100000;
        let up: bool = over > 50000 || (over == 50000 && half_up(p / 50000));
        let t: u64 = if up { t + 1 } else { t };
        text::put_decimal(&mut mp, t / 10);
        mp.append(".");
        text::put_decimal(&mut mp, t % 10);
        assert(mp@ =~= megapixels_text(p as int));
    } else {
        text::put_decimal(&mut mp, (p + 500000) / 1000000);
        assert(mp@ =~= megapixels_text(p as int));
    }
    let mut s = text::decimal_of(width as u64);
    s.append(" \u{d7} ");
    text::put_decimal(&mut s, height as u64);
    s.append(" \u{b7} ");
    s.append(mp.as_str());
    s.append(" MP");
    s
}

// The rows of a list.

/// Whether row `i` is written when a list takes new ones: it is beyond
/// the ones there were, or is not equal to the one that was there.
pub open spec fn is_written<T: PartialEq>(i: int, had: Seq<T>, rows: Seq<T>) -> bool {
    i >= had.len() || !had[i].eq_spec(&rows[i])
}

/// The first `count` rows' places, of those that are written, in order.
pub open spec fn rewritten<T: PartialEq>(count: nat, had: Seq<T>, rows: Seq<T>) -> Seq<usize>
    decreases count,
{
    if count == 0 {
        Seq::empty()
    } else {
        let before = rewritten((count - 1) as nat, had, rows);
        if is_written(count - 1, had, rows) {
            before.push((count - 1) as usize)
        } else {
            before
        }
    }
}

/// `rows` into `model`, in place and only where they differ, so the
/// view is not rebuilt for a row that stayed. The rows that were written.
pub fn sync_rows<T: PartialEq>(model: &mut Vec<T>, rows: Vec<T>) -> (written: Vec<usize>)
    ensures
        final(model)@.len() == rows@.len(),
        T::obeys_eq_spec() ==> forall|i: int|
            0 <= i < rows@.len() ==> #[trigger] final(model)@[i] == if is_written(
                i,
                old(model)@,
                rows@,
            ) {
                rows@[i]
            } else {
                old(model)@[i]
            },
        T::obeys_eq_spec() ==> written@ == rewritten(rows@.len(), old(model)@, rows@),
{
    let ghost had = model@;
    let ghost all = rows@;
    let mut rows = rows;
    model.truncate(rows.len());
    let kept: usize = model.len();
    let mut written: Vec<usize> = Vec::new();
    let mut stays: Vec<bool> = Vec::new();
    let mut i: usize = 0;
    while i < rows.len()
        invariant
            i <= rows@.len(),
            rows@ == all,
            kept <= all.len(),
            kept == all.len() || kept == had.len(),
            kept <= had.len(),
            model@ == had.take(kept as int),
            stays@.len() == i,
            T::obeys_eq_spec() ==> forall|k: int|
                0 <= k < i ==> #[trigger] stays@[k] == !is_written(k, had, all),
            T::obeys_eq_spec() ==> written@ == rewritten(i as nat, had, all),
        decreases rows.len() - i,
    {
        let same: bool = i < kept && model[i] == rows[i];
        stays.push(same);
        if !same {
            written.push(i);
        }
        i = i + 1;
    }
    let mut more = rows.split_off(kept);
    assert(rows@ =~= all.take(kept as int));
    let mut at: usize = kept;
    while at > 0
        invariant
            rows@ == all.take(at as int),
            at <= kept,
            kept <= all.len(),
            kept <= had.len(),
            model@.len() == kept,
            stays@.len() == all.len(),
            forall|k: int| 0 <= k < at ==> #[trigger] model@[k] == had[k],
            forall|k: int|
                at <= k < kept ==> #[trigger] model@[k] == if stays@[k] {
                    had[k]
                } else {
                    all[k]
                },
        decreases at,
    {
        at = at - 1;
        if let Some(row) = rows.pop() {
            if !stays[at] {
                model.set(at, row);
            }
        }
        assert(rows@ =~= all.take(at as int));
    }
    model.append(&mut more);
    written
}

// The command line.

/// The first choice that is made: the command line's, else the last
/// run's, else the default.
pub fn opening_scope<T: Copy>(flag: Option<T>, remembered: Option<T>, default: T) -> (t: T)
    ensures
        t == match flag {
            Some(f) => f,
            None => match remembered {
                Some(r) => r,
                None => default,
            },
        },
{
    match flag {
        Some(f) => f,
        None => match remembered {
            Some(r) => r,
            None => default,
        },
    }
}

/// The presets' names, as a list is written.
pub open spec fn names_text<N>(presets: Seq<ExportPreset<N>>) -> Seq<char> {
    text::joined(presets.map_values(|p: ExportPreset<N>| p.name@), ", "@)
}

fn names_of<N>(presets: &Vec<ExportPreset<N>>) -> (s: String)
    ensures
        s@ == names_text(presets@),
{
    let mut v: Vec<String> = Vec::new();
    let mut i: usize = 0;
    while i < presets.len()
        invariant
            i <= presets@.len(),
            v@.len() == i,
            forall|k: int| 0 <= k < i ==> (#[trigger] v@[k])@ == presets@[k].name@,
        decreases presets.len() - i,
    {
        v.push(presets[i].name.clone());
        i = i + 1;
    }
    assert(text::texts(v@) =~= presets@.map_values(|p: ExportPreset<N>| p.name@));
    text::join(&v, ", ")
}

/// A sheet with the command line's size (`custom` names a size typed in)
/// and answer over its own.
pub open spec fn overruled<N>(
    base: Sheet<N>,
    long_edge: Option<u32>,
    custom: Seq<char>,
    on_exists: Option<Seq<char>>,
    s: Sheet<N>,
) -> bool {
    &&& match long_edge {
        Some(edge) => s.size@ == custom && s.custom@ == text::decimal(edge as nat),
        None => s.size@ == base.size@ && s.custom@ == base.custom@,
    }
    &&& s.on_exists@ == match on_exists {
        Some(p) => p,
        None => base.on_exists@,
    }
    &&& export::same_sheet(
        s,
        (Sheet { size: s.size, custom: s.custom, on_exists: s.on_exists, ..base }),
    )
}

/// The export sheet to open with, and the preset it is: the last run's,
/// or the preset the command line names, with the flags' size and answer
/// over either. A preset the settings do not have is an error that lists
/// them, not a quiet export at whatever the sheet was left at.
pub fn opening_sheet<N: Copy>(
    named: Option<&str>,
    presets: &Vec<ExportPreset<N>>,
    remembered: &Sheet<N>,
    remembered_preset: &str,
    long_edge: Option<u32>,
    custom: &str,
    on_exists: Option<&str>,
) -> (r: Result<(Sheet<N>, Option<String>), String>)
    ensures
        match named {
            Some(name) => match export::preset_of(presets@, name@) {
                Some(i) => {
                    &&& r is Ok
                    &&& overruled(
                        presets@[i].sheet,
                        long_edge,
                        custom@,
                        export::text_of(on_exists),
                        r->Ok_0.0,
                    )
                    &&& r->Ok_0.1 is Some
                    &&& r->Ok_0.1->0@ == presets@[i].name@
                },
                None => {
                    &&& r is Err
                    &&& r->Err_0@ == "no export preset called "@ + name@ + "; there are "@
                        + names_text(presets@)
                },
            },
            None => {
                &&& r is Ok
                &&& overruled(
                    *remembered,
                    long_edge,
                    custom@,
                    export::text_of(on_exists),
                    r->Ok_0.0,
                )
                &&& r->Ok_0.1 is Some <==> remembered_preset@.len() > 0
                &&& r->Ok_0.1 matches Some(s) ==> s@ == remembered_preset@
            },
        },
{
    let (mut s, preset): (Sheet<N>, Option<String>) = match named {
        Some(name) => match export::find(presets, name) {
            Some(i) => (export::copy_sheet(&presets[i].sheet), Some(presets[i].name.clone())),
            None => {
                let mut e = "no export preset called ".to_owned();
                e.append(name);
                e.append("; there are ");
                e.append(names_of(presets).as_str());
                return Err(e);
            },
        },
        None => {
            if remembered_preset.is_empty() {
                (export::copy_sheet(remembered), None)
            } else {
                (export::copy_sheet(remembered), Some(remembered_preset.to_owned()))
            }
        },
    };
    if let Some(edge) = long_edge {
        s.size = custom.to_owned();
        s.custom = text::decimal_of(edge as u64);
    }
    if let Some(p) = on_exists {
        s.on_exists = p.to_owned();
    }
    Ok((s, preset))
}

/// What a path to export to is.
#[derive(Debug, Clone, Copy, PartialEq, Eq, Structural)]
pub struct Target {
    /// A folder that is there.
    pub is_dir: bool,
    /// It ends in a separator, which asks for a folder.
    pub ends_open: bool,
    pub exists: bool,
    /// It names a picture format.
    pub names_format: bool,
}

/// Whether an export's path names a folder for the set rather than a
/// file for one frame: a folder that is there, or a path that ends in a
/// separator. With a set, a path that is not there and names no picture
/// format is a folder too: a set has no one file to go to.
pub fn export_folder(path: Target, set: bool) -> (r: bool)
    ensures
        r == (path.is_dir || path.ends_open || (set && !path.exists && !path.names_format)),
{
    path.is_dir || path.ends_open || (set && !path.exists && !path.names_format)
}

/// The first of `rows` that a folder of `files` has not got.
pub open spec fn first_beyond(rows: Seq<usize>, files: usize) -> Option<usize>
    decreases rows.len(),
{
    if rows.len() == 0 {
        None
    } else if rows[0] >= files {
        Some(rows[0])
    } else {
        first_beyond(rows.drop_first(), files)
    }
}

pub open spec fn one_file_text(path: Seq<char>) -> Seq<char> {
    "--also names a set, and --export "@ + path
        + " is one frame's file: give a folder (one that is there, or a path ending in a separator)"@
}

pub open spec fn beyond_text(row: usize, files: usize) -> Seq<char> {
    "--also "@ + text::decimal(row as nat) + ": there "@ + (if files == 1 {
        "is"@
    } else {
        "are"@
    }) + " "@ + text::decimal(files as nat) + " frame"@ + (if files == 1 {
        ""@
    } else {
        "s"@
    }) + " to export (rows from 0); open the folder, not a file, to export a set"@
}

fn find_beyond(rows: &Vec<usize>, files: usize) -> (r: Option<usize>)
    ensures
        r == first_beyond(rows@, files),
{
    let mut i: usize = 0;
    assert(rows@.skip(0) =~= rows@);
    while i < rows.len()
        invariant
            i <= rows@.len(),
            first_beyond(rows@, files) == first_beyond(rows@.skip(i as int), files),
        decreases rows.len() - i,
    {
        assert(rows@.skip(i as int).drop_first() =~= rows@.skip(i + 1));
        if rows[i] >= files {
            return Some(rows[i]);
        }
        i = i + 1;
    }
    None
}

/// More rows with an export names a set: an error, not a quiet export
/// of one frame, when the export is to one file or a row is not in the
/// folder (rows from 0, as the browser has them). Without an export the
/// rows are not checked.
pub fn check_also(
    export: Option<&str>,
    also: &Vec<usize>,
    into_folder: bool,
    files: usize,
) -> (r: Result<(), String>)
    ensures
        ({
            let checked = export is Some && also@.len() > 0;
            &&& r is Ok <==> !checked || (into_folder && first_beyond(also@, files) is None)
            &&& r matches Err(e) ==> e@ == if !into_folder {
                one_file_text(export->0@)
            } else {
                beyond_text(first_beyond(also@, files)->0, files)
            }
        }),
{
    let path = match export {
        Some(p) => p,
        None => {
            return Ok(());
        },
    };
    if also.len() == 0 {
        return Ok(());
    }
    if !into_folder {
        let mut s = "--also names a set, and --export ".to_owned();
        s.append(path);
        s.append(
            " is one frame's file: give a folder (one that is there, or a path ending in a separator)",
        );
        return Err(s);
    }
    match find_beyond(also, files) {
        None => Ok(()),
        Some(row) => {
            let mut s = "--also ".to_owned();
            text::put_decimal(&mut s, row as u64);
            s.append(": there ");
            if files == 1 {
                s.append("is");
            } else {
                s.append("are");
            }
            s.append(" ");
            text::put_decimal(&mut s, files as u64);
            s.append(" frame");
            if files == 1 {
                s.append("");
            } else {
                s.append("s");
            }
            s.append(" to export (rows from 0); open the folder, not a file, to export a set");
            Err(s)
        },
    }
}

/// No refused row is in the folder, and a set that is let by is all in
/// it.
pub proof fn a_set_let_by_is_all_there(rows: Seq<usize>, files: usize)
    ensures
        first_beyond(rows, files) is None <==> forall|i: int|
            0 <= i < rows.len() ==> #[trigger] rows[i] < files,
        first_beyond(rows, files) matches Some(r) ==> r >= files && rows.contains(r),
    decreases rows.len(),
{
    if rows.len() > 0 {
        if rows[0] >= files {
            assert(rows.contains(rows[0]));
        } else {
            let rest = rows.drop_first();
            a_set_let_by_is_all_there(rest, files);
            match first_beyond(rest, files) {
                Some(r) => {
                    let k = choose|k: int| 0 <= k < rest.len() && rest[k] == r;
                    assert(rows[k + 1] == r);
                },
                None => {
                    assert forall|i: int| 0 <= i < rows.len() implies #[trigger] rows[i] < files by {
                        if i > 0 {
                            assert(rest[i - 1] == rows[i]);
                        }
                    }
                },
            }
        }
    }
}

// What a run is.

/// The flags that say what kind of run this is.
#[derive(Debug, Clone, Copy, PartialEq, Eq, Structural)]
pub struct Flags {
    pub snapshot: bool,
    pub screenshot: bool,
    pub export: bool,
    pub no_sidecars: bool,
    pub xmp_sidecars: bool,
    pub sidecar_folder: bool,
    pub cull: bool,
    pub cull_compare: Option<u32>,
    pub time_cull: bool,
    pub cull_develop: bool,
    pub ask_rejects: bool,
    pub move_rejects: bool,
    pub show_mask: Option<usize>,
    pub patch: Option<usize>,
    pub turn: Option<i32>,
}

/// What the last run left, as far as that goes.
#[derive(Debug, Clone, Copy, PartialEq, Eq, Structural)]
pub struct Remembered {
    pub xmp_sidecars: bool,
    pub sidecars_in_folder: bool,
}

/// What the run is.
#[derive(Debug, Clone, Copy, PartialEq, Eq, Structural)]
pub struct Opening {
    /// A capture or an export, which leaves the user's settings alone.
    pub batch: bool,
    pub write_sidecars: bool,
    pub xmp_sidecars: bool,
    pub placement: Placement,
    /// The frames the run culls side by side from the start, if it does.
    pub cull_at_start: Option<u32>,
    pub ask_rejects: bool,
    /// The adjustment and the repair to start on, from zero.
    pub show_mask: Option<usize>,
    pub show_patch: Option<usize>,
    /// The turn to press at the start: none that comes to nothing.
    pub turn_at_start: Option<i32>,
}

pub open spec fn less_one(n: Option<usize>) -> Option<usize> {
    match n {
        Some(n) => if n > 0 {
            Some((n - 1) as usize)
        } else {
            None
        },
        None => None,
    }
}

fn from_one(n: Option<usize>) -> (r: Option<usize>)
    ensures
        r == less_one(n),
{
    match n {
        Some(n) => if n > 0 {
            Some(n - 1)
        } else {
            None
        },
        None => None,
    }
}

/// How many quarters clockwise a turn comes to: none to three.
pub open spec fn quarters(q: i32) -> int {
    q as int % 4
}

pub fn quarters_of(q: i32) -> (r: u8)
    ensures
        r == quarters(q),
        r < 4,
{
    let m: i64 = ((q as i64) + 4294967296) % 4;
    m as u8
}

/// What the flags and the last run's settings come to: a flag says more
/// than the settings, and never less.
pub fn opening(flags: &Flags, remembered: &Remembered) -> (o: Opening)
    ensures
        o == (Opening {
            batch: flags.snapshot || flags.screenshot || flags.export,
            write_sidecars: !flags.no_sidecars,
            xmp_sidecars: flags.xmp_sidecars || remembered.xmp_sidecars,
            placement: if flags.sidecar_folder || remembered.sidecars_in_folder {
                Placement::Folder
            } else {
                Placement::Beside
            },
            cull_at_start: if flags.cull || flags.cull_compare is Some || flags.time_cull
                || flags.cull_develop || flags.ask_rejects || flags.move_rejects {
                Some(
                    match flags.cull_compare {
                        Some(n) => n,
                        None => 1,
                    },
                )
            } else {
                None
            },
            ask_rejects: flags.ask_rejects || flags.move_rejects,
            show_mask: less_one(flags.show_mask),
            show_patch: less_one(flags.patch),
            turn_at_start: match flags.turn {
                Some(q) => if quarters(q) != 0 {
                    Some(q)
                } else {
                    None
                },
                None => None,
            },
        }),
{
    let culls: bool = flags.cull || flags.cull_compare.is_some() || flags.time_cull
        || flags.cull_develop || flags.ask_rejects || flags.move_rejects;
    let compare: u32 = match flags.cull_compare {
        Some(n) => n,
        None => 1,
    };
    let turn_at_start: Option<i32> = match flags.turn {
        Some(q) => if quarters_of(q) != 0 {
            Some(q)
        } else {
            None
        },
        None => None,
    };
    Opening {
        batch: flags.snapshot || flags.screenshot || flags.export,
        write_sidecars: !flags.no_sidecars,
        xmp_sidecars: flags.xmp_sidecars || remembered.xmp_sidecars,
        placement: if flags.sidecar_folder || remembered.sidecars_in_folder {
            Placement::Folder
        } else {
            Placement::Beside
        },
        cull_at_start: if culls {
            Some(compare)
        } else {
            None
        },
        ask_rejects: flags.ask_rejects || flags.move_rejects,
        show_mask: from_one(flags.show_mask),
        show_patch: from_one(flags.patch),
        turn_at_start,
    }
}

/// What the files to open come to.
#[derive(Debug, Clone, Copy, PartialEq, Eq, Structural)]
pub enum Begin {
    /// The command line named a path with no pictures at it.
    NoPictures,
    /// Open on this file.
    At(usize),
    /// Nothing yet: the desktop's folder chooser is asked for one.
    Choose,
}

/// What is wrong with a path on the command line that has no pictures.
pub fn no_pictures(path: &str) -> (s: String)
    ensures
        s@ == "no RAW files at "@ + path@,
{
    let mut s = "no RAW files at ".to_owned();
    s.append(path);
    s
}

/// The file to start on. The command line's path when there is one, a
/// folder on the last file open in it and a file on its own; without
/// one, the last file's folder when it is still there. `last` is where
/// the last file open stands in the list, the first when it does not.
pub fn begin(path: Option<bool>, files: usize, last: usize) -> (b: Begin)
    ensures
        b == match path {
            Some(is_dir) => if files == 0 {
                Begin::NoPictures
            } else if is_dir {
                Begin::At(last)
            } else {
                Begin::At(0)
            },
            None => if files == 0 {
                Begin::Choose
            } else {
                Begin::At(last)
            },
        },
{
    match path {
        Some(is_dir) => if files == 0 {
            Begin::NoPictures
        } else if is_dir {
            Begin::At(last)
        } else {
            Begin::At(0)
        },
        None => if files == 0 {
            Begin::Choose
        } else {
            Begin::At(last)
        },
    }
}

/// What a filter's word on the command line is.
#[derive(Debug, Clone, Copy, PartialEq, Eq, Structural)]
pub enum Filtering {
    All,
    /// One of the three names the old Show went by.
    Named,
    /// One of them in the wrong case: a mistyped name, and everything
    /// shows.
    Mistyped,
    /// The filter language.
    Typed,
}

pub fn filter_word(word: bool, named: bool, named_in_another_case: bool) -> (f: Filtering)
    ensures
        f == if !word {
            Filtering::All
        } else if named {
            Filtering::Named
        } else if named_in_another_case {
            Filtering::Mistyped
        } else {
            Filtering::Typed
        },
{
    if !word {
        Filtering::All
    } else if named {
        Filtering::Named
    } else if named_in_another_case {
        Filtering::Mistyped
    } else {
        Filtering::Typed
    }
}

/// Whether the last file open is kept for the next run to jump back to:
/// not from a capture or an export, which leave the user's settings
/// alone, and only when it has changed.
pub fn remember_last_file(
    batch: bool,
    captures: bool,
    current: Option<&str>,
    kept: &str,
) -> (r: bool)
    ensures
        r == (!batch && !captures && current is Some && current->0@ != kept@),
{
    if batch || captures {
        return false;
    }
    match current {
        Some(path) => !text::same_text(path, kept),
        None => false,
    }
}

/// A preset laid over the first file at the start.
#[derive(Debug, Clone, Copy, PartialEq, Eq, Structural)]
pub struct Laid {
    /// It is laid over the edit as one step named for it.
    pub recorded: bool,
    /// The learned denoiser's blend was set from the file's ISO first.
    pub seeded: bool,
    /// The sidecar is written.
    pub written: bool,
}

/// What a preset at the start does: one that changes nothing records
/// and writes nothing. A raw still waiting on its ISO's blend (`seed`)
/// is given it first where its ISO can be had (`probed`): the step makes
/// the edit no longer the default, and once written the next launch
/// would take that to mean the blend was seeded already. One that will
/// not say its ISO keeps waiting.
pub fn preset_at_start(
    changes: bool,
    seed: &mut bool,
    picture: bool,
    probed: bool,
    news: bool,
    writes: bool,
) -> (l: Laid)
    ensures
        ({
            let seeded = changes && *old(seed) && !picture && probed;
            &&& l == (Laid {
                recorded: changes && news,
                seeded,
                written: changes && news && writes,
            })
            &&& *final(seed) == (*old(seed) && !seeded)
        }),
{
    if !changes {
        return Laid { recorded: false, seeded: false, written: false };
    }
    let seeded: bool = *seed && !picture && probed;
    if seeded {
        *seed = false;
    }
    Laid { recorded: news, seeded, written: news && writes }
}

// The monitor's profile.

/// The panel's names for a profile that is colord's, and for one that is
/// a file.
pub const SYSTEM: &'static str = "System";

pub const FILE: &'static str = "File";

/// A monitor colord knows, and its profile's path when it has one.
#[derive(Debug)]
pub struct Monitor {
    pub model: String,
    pub profile: Option<String>,
}

/// The profile the screen is drawn through.
#[derive(Debug)]
pub enum Profile {
    Srgb,
    /// One of the standards, by its place in their list.
    Standard(usize),
    File(String),
}

/// The monitor whose profile is taken: the one named when it has one,
/// else the first that has.
pub open spec fn monitor_picked(monitors: Seq<Monitor>, wanted: Seq<char>) -> Option<int> {
    if exists|i: int| is_wanted(monitors, wanted, i) {
        Some(first_where(monitors, is_named(wanted)))
    } else if exists|i: int| has_profile(monitors, i) {
        Some(first_where(monitors, is_known()))
    } else {
        None
    }
}

/// A screen with a profile.
pub open spec fn is_known() -> spec_fn(Monitor) -> bool {
    |m: Monitor| m.profile is Some
}

/// A screen of that model with a profile.
pub open spec fn is_named(wanted: Seq<char>) -> spec_fn(Monitor) -> bool {
    |m: Monitor| m.profile is Some && m.model@ == wanted
}

pub open spec fn has_profile(monitors: Seq<Monitor>, i: int) -> bool {
    0 <= i < monitors.len() && monitors[i].profile is Some
}

pub open spec fn is_wanted(monitors: Seq<Monitor>, wanted: Seq<char>, i: int) -> bool {
    has_profile(monitors, i) && monitors[i].model@ == wanted
}

/// The first that `pick` holds of; the length for none.
pub open spec fn first_where(monitors: Seq<Monitor>, pick: spec_fn(Monitor) -> bool) -> int
    decreases monitors.len(),
{
    if monitors.len() == 0 || pick(monitors[0]) {
        0
    } else {
        1 + first_where(monitors.drop_first(), pick)
    }
}

proof fn lemma_first_where(monitors: Seq<Monitor>, pick: spec_fn(Monitor) -> bool, n: int)
    requires
        0 <= n < monitors.len(),
        pick(monitors[n]),
        forall|i: int| 0 <= i < n ==> !pick(#[trigger] monitors[i]),
    ensures
        first_where(monitors, pick) == n,
    decreases n,
{
    if n > 0 {
        assert(!pick(monitors[0]));
        let rest = monitors.drop_first();
        assert forall|i: int| 0 <= i < n - 1 implies !pick(#[trigger] rest[i]) by {
            assert(!pick(monitors[i + 1]));
        }
        lemma_first_where(rest, pick, n - 1);
    }
}

fn pick_monitor(monitors: &Vec<Monitor>, wanted: &str) -> (r: Option<usize>)
    ensures
        r is Some <==> monitor_picked(monitors@, wanted@) is Some,
        r matches Some(i) ==> monitor_picked(monitors@, wanted@) == Some(i as int) && i
            < monitors@.len() && monitors@[i as int].profile is Some,
{
    let mut first: Option<usize> = None;
    let mut i: usize = 0;
    let ghost known = is_known();
    let ghost named = is_named(wanted@);
    while i < monitors.len()
        invariant
            i <= monitors@.len(),
            known == is_known(),
            named == is_named(wanted@),
            forall|k: int| 0 <= k < i ==> !named(#[trigger] monitors@[k]),
            first is None ==> forall|k: int| 0 <= k < i ==> !known(#[trigger] monitors@[k]),
            first matches Some(f) ==> {
                &&& f < i
                &&& known(monitors@[f as int])
                &&& forall|k: int| 0 <= k < f ==> !known(#[trigger] monitors@[k])
            },
        decreases monitors.len() - i,
    {
        if monitors[i].profile.is_some() {
            if text::same_text(monitors[i].model.as_str(), wanted) {
                proof {
                    lemma_first_where(monitors@, named, i as int);
                    assert(is_wanted(monitors@, wanted@, i as int));
                }
                return Some(i);
            }
            if first.is_none() {
                first = Some(i);
            }
        }
        i = i + 1;
    }
    proof {
        assert forall|k: int| !is_wanted(monitors@, wanted@, k) by {
            if has_profile(monitors@, k) {
                assert(!named(monitors@[k]));
            }
        }
        match first {
            Some(f) => {
                lemma_first_where(monitors@, known, f as int);
                assert(has_profile(monitors@, f as int));
            },
            None => {
                assert forall|k: int| !has_profile(monitors@, k) by {
                    if 0 <= k < monitors@.len() {
                        assert(!known(monitors@[k]));
                    }
                }
            },
        }
    }
    first
}

/// Where `name` stands among the standards; the length for none.
pub open spec fn standard_place(standards: Seq<String>, name: Seq<char>) -> nat
    decreases standards.len(),
{
    if standards.len() == 0 || standards[0]@ == name {
        0
    } else {
        1 + standard_place(standards.drop_first(), name)
    }
}

fn find_standard(standards: &Vec<String>, name: &str) -> (r: usize)
    ensures
        r == standard_place(standards@, name@),
        r <= standards@.len(),
{
    let mut i: usize = 0;
    assert(standards@.skip(0) =~= standards@);
    while i < standards.len()
        invariant
            i <= standards@.len(),
            standard_place(standards@, name@) == i + standard_place(
                standards@.skip(i as int),
                name@,
            ),
        decreases standards.len() - i,
    {
        assert(standards@.skip(i as int).drop_first() =~= standards@.skip(i + 1));
        if text::same_text(standards[i].as_str(), name) {
            return i;
        }
        i = i + 1;
    }
    i
}

/// The monitor's profile as the panel has it, and where it is from,
/// for the panel's note: colord's for the monitor named (the first when
/// none is, or the name is stale), a standard, or a file (`file_label`
/// is its name without its folder, when it has one).
pub fn monitor_settings(
    choice: &str,
    wanted: &str,
    monitors: &Vec<Monitor>,
    file: &str,
    file_label: Option<&str>,
    standards: &Vec<String>,
) -> (r: (Profile, String))
    ensures
        choice@ == SYSTEM@ ==> match monitor_picked(monitors@, wanted@) {
            Some(i) => {
                &&& r.0 is File
                &&& r.0->File_0@ == monitors@[i].profile->0@
                &&& r.1@ == monitors@[i].model@ + "'s profile from colord"@
            },
            None => r.0 is Srgb && r.1@ == "colord knows no display profile"@,
        },
        choice@ == FILE@ ==> if file@.len() == 0 {
            r.0 is Srgb && r.1@ == "No profile chosen"@
        } else {
            &&& r.0 is File
            &&& r.0->File_0@ == file@
            &&& r.1@ == match file_label {
                Some(l) => l@,
                None => file@,
            }
        },
        choice@ != SYSTEM@ && choice@ != FILE@ ==> if standard_place(standards@, choice@)
            < standards@.len() {
            r.0 == Profile::Standard(standard_place(standards@, choice@) as usize) && r.1@
                == choice@
        } else {
            r.0 is Srgb && r.1@ == "sRGB"@
        },
{
    proof {
        reveal_strlit("System");
        reveal_strlit("File");
        assert("System"@.len() != "File"@.len());
    }
    if text::same_text(choice, SYSTEM) {
        return match pick_monitor(monitors, wanted) {
            Some(i) => {
                let m = &monitors[i];
                let mut from = m.model.clone();
                from.append("'s profile from colord");
                let path = match &m.profile {
                    Some(p) => p.clone(),
                    None => String::new(),
                };
                (Profile::File(path), from)
            },
            None => (Profile::Srgb, "colord knows no display profile".to_owned()),
        };
    }
    if text::same_text(choice, FILE) {
        if file.is_empty() {
            return (Profile::Srgb, "No profile chosen".to_owned());
        }
        let label = match file_label {
            Some(l) => l.to_owned(),
            None => file.to_owned(),
        };
        return (Profile::File(file.to_owned()), label);
    }
    let k: usize = find_standard(standards, choice);
    if k < standards.len() {
        (Profile::Standard(k), choice.to_owned())
    } else {
        (Profile::Srgb, "sRGB".to_owned())
    }
}

/// How the monitor's profile turned out.
#[derive(Debug)]
pub enum Table {
    /// There is none to read: sRGB.
    Plain,
    /// At most so many of 255 from sRGB, as that is written.
    Built(String),
    /// It cannot be read.
    Failed,
}

/// A line for the panel on what the monitor's profile does.
pub fn monitor_note(from: &str, table: &Table) -> (s: String)
    ensures
        s@ == match table {
            Table::Plain => from@ + ": nothing changed on the way to the screen"@,
            Table::Built(d) => from@ + ": up to "@ + d@ + " of 255 from sRGB"@,
            Table::Failed => from@ + ": cannot be read; nothing changed on the way to the screen"@,
        },
{
    let mut s = from.to_owned();
    match table {
        Table::Plain => {
            s.append(": nothing changed on the way to the screen");
        },
        Table::Built(d) => {
            s.append(": up to ");
            s.append(d.as_str());
            s.append(" of 255 from sRGB");
        },
        Table::Failed => {
            s.append(": cannot be read; nothing changed on the way to the screen");
        },
    }
    s
}

// What holds of the beginning.

/// The megapixels said are the nearest tenth, and from ten up the nearest
/// whole one.
pub proof fn the_size_said_is_the_nearest(pixels: int)
    requires
        pixels >= 0,
    ensures
        -50000 <= pixels - 100000 * tenths(pixels) <= 50000,
        pixels >= 10000000 ==> megapixels_text(pixels) == text::decimal(
            ((pixels + 500000) / 1000000) as nat,
        ),
        -500000 <= pixels - 1000000 * ((pixels + 500000) / 1000000) <= 500000,
{
}

/// The rows written are exactly those that were not there or differ, in
/// order and once each.
pub proof fn a_row_is_written_where_it_differs<T: PartialEq>(
    count: nat,
    had: Seq<T>,
    rows: Seq<T>,
    i: usize,
)
    requires
        count <= usize::MAX,
    ensures
        rewritten(count, had, rows).contains(i) <==> i < count && (i >= had.len()
            || !had[i as int].eq_spec(&rows[i as int])),
        rewritten(count, had, rows).len() <= count,
    decreases count,
{
    if count > 0 {
        a_row_is_written_where_it_differs((count - 1) as nat, had, rows, i);
        let was = rewritten((count - 1) as nat, had, rows);
        let x = (count - 1) as usize;
        if is_written(count - 1, had, rows) {
            let now = was.push(x);
            assert(now[was.len() as int] == x);
            if was.contains(i) {
                let k = choose|k: int| 0 <= k < was.len() && was[k] == i;
                assert(now[k] == i);
            }
            if now.contains(i) && i != x {
                let k = choose|k: int| 0 <= k < now.len() && now[k] == i;
                assert(was[k] == i);
            }
        }
    }
}

/// The command line's edge and its word for a file that is there go over
/// the sheet, and the rest of the sheet is as it was.
pub proof fn the_command_line_goes_over_the_sheet<N>(
    base: Sheet<N>,
    long_edge: Option<u32>,
    custom: Seq<char>,
    on_exists: Option<Seq<char>>,
    s: Sheet<N>,
)
    requires
        overruled(base, long_edge, custom, on_exists, s),
    ensures
        long_edge matches Some(e) ==> s.size@ == custom && s.custom@ == text::decimal(e as nat),
        long_edge is None ==> s.size@ == base.size@ && s.custom@ == base.custom@,
        on_exists matches Some(p) ==> s.on_exists@ == p,
        on_exists is None ==> s.on_exists@ == base.on_exists@,
        s.format@ == base.format@,
        s.quality == base.quality,
{
}

/// A row of the command line counts from one: the first is the first, and
/// none is before it.
pub proof fn the_command_line_counts_from_one(n: Option<usize>)
    ensures
        n matches Some(k) ==> (k > 0 ==> (less_one(n) matches Some(i) && i + 1 == k)),
        n == Some(0usize) || n is None ==> less_one(n) is None,
{
}

/// A number of quarter turns is within a whole turn, and as far round.
pub proof fn a_whole_turn_is_none(q: i32)
    ensures
        0 <= quarters(q) < 4,
        (q - quarters(q)) % 4 == 0,
{
}

proof fn lemma_first_is(monitors: Seq<Monitor>, pick: spec_fn(Monitor) -> bool)
    ensures
        0 <= first_where(monitors, pick) <= monitors.len(),
        first_where(monitors, pick) < monitors.len() ==> pick(
            monitors[first_where(monitors, pick)],
        ),
        forall|i: int| 0 <= i < first_where(monitors, pick) ==> !pick(#[trigger] monitors[i]),
    decreases monitors.len(),
{
    if monitors.len() > 0 && !pick(monitors[0]) {
        let rest = monitors.drop_first();
        lemma_first_is(rest, pick);
        assert forall|i: int| 0 <= i < first_where(monitors, pick) implies !pick(
            #[trigger] monitors[i],
        ) by {
            if i > 0 {
                assert(monitors[i] == rest[i - 1]);
            }
        }
    }
}

/// The screen's profile is that of the one that was asked for, where it
/// has one, and else the first that has one; none where none has.
pub proof fn the_screen_asked_for_is_picked(monitors: Seq<Monitor>, wanted: Seq<char>)
    ensures
        (exists|i: int|
            0 <= i < monitors.len() && (#[trigger] monitors[i]).profile is Some
                && monitors[i].model@ == wanted) ==> (monitor_picked(monitors, wanted) matches Some(
            k,
        ) && 0 <= k < monitors.len() && monitors[k].profile is Some && monitors[k].model@
            == wanted),
        (exists|i: int| 0 <= i < monitors.len() && (#[trigger] monitors[i]).profile is Some) ==> (
        monitor_picked(monitors, wanted) matches Some(k) && 0 <= k < monitors.len()
            && monitors[k].profile is Some),
        (forall|i: int| 0 <= i < monitors.len() ==> (#[trigger] monitors[i]).profile is None)
            ==> monitor_picked(monitors, wanted) is None,
{
    let has = is_known();
    let fits = is_named(wanted);
    lemma_first_is(monitors, has);
    lemma_first_is(monitors, fits);
    if exists|j: int| is_wanted(monitors, wanted, j) {
        let j = choose|j: int| is_wanted(monitors, wanted, j);
        assert(fits(monitors[j]));
        let k = first_where(monitors, fits);
        assert(k <= j);
        assert(fits(monitors[k]));
        assert(monitor_picked(monitors, wanted) == Some(k));
    } else {
        assert forall|i: int|
            0 <= i < monitors.len() && (
            #[trigger] monitors[i]).profile is Some implies monitors[i].model@ != wanted by {
            assert(!is_wanted(monitors, wanted, i));
        }
        if exists|i: int| has_profile(monitors, i) {
            let i = choose|i: int| has_profile(monitors, i);
            assert(has(monitors[i]));
            let k = first_where(monitors, has);
            assert(k <= i);
            assert(has(monitors[k]));
            assert(monitor_picked(monitors, wanted) == Some(k));
        } else {
            assert forall|i: int| 0 <= i < monitors.len() implies (
            #[trigger] monitors[i]).profile is None by {
                assert(!has_profile(monitors, i));
            }
        }
    }
}

/// A standard is the first of its name.
pub proof fn a_standard_is_found_by_its_name(standards: Seq<String>, name: Seq<char>)
    ensures
        standard_place(standards, name) <= standards.len(),
        standard_place(standards, name) < standards.len() ==> standards[standard_place(
            standards,
            name,
        ) as int]@ == name,
        forall|i: int|
            0 <= i < standard_place(standards, name) ==> (#[trigger] standards[i])@ != name,
    decreases standards.len(),
{
    if standards.len() > 0 && standards[0]@ != name {
        let rest = standards.drop_first();
        a_standard_is_found_by_its_name(rest, name);
        assert forall|i: int| 0 <= i < standard_place(standards, name) implies (
        #[trigger] standards[i])@ != name by {
            if i > 0 {
                assert(standards[i] == rest[i - 1]);
            }
        }
    }
}

/// A row asked for beyond the frames is told with how many there are.
pub proof fn a_row_beyond_is_told_with_how_many(row: usize, files: usize)
    ensures
        files == 1 ==> beyond_text(row, files) == "--also "@ + text::decimal(row as nat)
            + ": there "@ + "is"@ + " "@ + text::decimal(1) + " frame"@ + ""@
            + " to export (rows from 0); open the folder, not a file, to export a set"@,
        files != 1 ==> beyond_text(row, files) == "--also "@ + text::decimal(row as nat)
            + ": there "@ + "are"@ + " "@ + text::decimal(files as nat) + " frame"@ + "s"@
            + " to export (rows from 0); open the folder, not a file, to export a set"@,
{
}

} // verus!
