//! The settings sheet: the sidecars' place and the XMP switch, which
//! are the installation's rather than a picture's, and the move that
//! puts an open folder's sidecars where the place says.

use crate::panel::selection;
use crate::text;
use vstd::prelude::*;

verus! {

/// Where sidecars are kept.
#[derive(Debug, Clone, Copy, PartialEq, Eq, Structural)]
pub enum Placement {
    Beside,
    Folder,
}

/// The sheet's words for the two places.
pub open spec fn place_text(p: Placement) -> Seq<char> {
    match p {
        Placement::Beside => "Beside the raw"@,
        Placement::Folder => "Hidden folder"@,
    }
}

pub fn placement_name(placement: Placement) -> (s: &'static str)
    ensures
        s@ == place_text(placement),
{
    match placement {
        Placement::Beside => "Beside the raw",
        Placement::Folder => "Hidden folder",
    }
}

/// The place the row names; beside for anything else, the default.
pub fn placement_named(name: &str) -> (p: Placement)
    ensures
        p == if name@ == place_text(Placement::Folder) {
            Placement::Folder
        } else {
            Placement::Beside
        },
{
    if text::same_text(name, "Hidden folder") {
        Placement::Folder
    } else {
        Placement::Beside
    }
}

/// The row's words name the places: each place's word is its own.
pub proof fn the_words_name_the_places()
    ensures
        place_text(Placement::Beside) != place_text(Placement::Folder),
{
    reveal_strlit("Beside the raw");
    reveal_strlit("Hidden folder");
    assert("Beside the raw"@.len() != "Hidden folder"@.len());
}

/// A file's sidecar, as it is on disk.
#[derive(Debug, Clone, Copy, PartialEq, Eq, Structural)]
pub struct Found {
    /// The place of the one that is read, when there is one.
    pub read: Option<Placement>,
    /// An older copy is left in the other place.
    pub stale: bool,
}

/// A sidecar is in the place `placement` does not name: the one that is
/// read, or a stale copy.
pub open spec fn is_misplaced(f: Found, placement: Placement) -> bool {
    match f.read {
        Some(p) => p != placement || f.stale,
        None => false,
    }
}

pub fn misplaced(f: Found, placement: Placement) -> (r: bool)
    ensures
        r == is_misplaced(f, placement),
{
    match f.read {
        Some(p) => p != placement || f.stale,
        None => false,
    }
}

/// Which of the files have a sidecar in the place `placement` does not
/// name.
pub open spec fn astray(files: Seq<Found>, placement: Placement) -> Seq<bool> {
    files.map_values(|f: Found| is_misplaced(f, placement))
}

/// How many of `files` have a sidecar in the place `placement` does not
/// name: what the sheet's move would settle.
pub fn sidecars_elsewhere(files: &Vec<Found>, placement: Placement) -> (n: usize)
    ensures
        n == selection::count(astray(files@, placement)),
{
    let mut n: usize = 0;
    let mut i: usize = 0;
    let ghost flags = astray(files@, placement);
    assert(flags.take(0) =~= seq![]);
    while i < files.len()
        invariant
            i <= files@.len(),
            flags == astray(files@, placement),
            n == selection::count(flags.take(i as int)),
            n <= i,
        decreases files.len() - i,
    {
        if misplaced(files[i], placement) {
            n = n + 1;
        }
        i = i + 1;
        assert(flags.take(i as int).drop_last() =~= flags.take(i - 1));
    }
    assert(flags.take(i as int) =~= flags);
    n
}

/// What settles one file's sidecar.
#[derive(Debug, Clone, Copy, PartialEq, Eq, Structural)]
pub enum Settled {
    /// Nothing does: it is where it belongs, or there is none.
    InPlace,
    /// The one read is renamed into place.
    Moved,
    /// The one read was in place already; the stale copy is removed.
    Dropped,
}

pub open spec fn settling(f: Found, placement: Placement) -> Settled {
    match f.read {
        Some(p) => if p != placement {
            Settled::Moved
        } else if f.stale {
            Settled::Dropped
        } else {
            Settled::InPlace
        },
        None => Settled::InPlace,
    }
}

/// What puts a file's sidecar where `placement` says.
pub fn settle(f: Found, placement: Placement) -> (r: Settled)
    ensures
        r == settling(f, placement),
{
    match f.read {
        Some(p) => if p != placement {
            Settled::Moved
        } else if f.stale {
            Settled::Dropped
        } else {
            Settled::InPlace
        },
        None => Settled::InPlace,
    }
}

/// A file's sidecar once it is settled: the one that was read is in
/// place, and no other is left.
pub open spec fn in_place(f: Found, placement: Placement) -> Found {
    match f.read {
        Some(p) => Found { read: Some(placement), stale: false },
        None => f,
    }
}

/// The files after a move: one that could not be settled (`errors`, one a
/// file) is as it was.
pub open spec fn after_move(
    files: Seq<Found>,
    placement: Placement,
    errors: Seq<Option<String>>,
) -> Seq<Found> {
    Seq::new(
        files.len(),
        |i: int|
            if errors[i] is None {
                in_place(files[i], placement)
            } else {
                files[i]
            },
    )
}

/// What a move did: the sidecars renamed into place, the stale copies
/// removed from the other place (the one read was in place already), and
/// the frames that could not be settled, each with why.
#[derive(Debug, PartialEq)]
pub struct Moved {
    pub moved: usize,
    pub dropped: usize,
    pub failed: Vec<(usize, String)>,
}

/// Which of the files were settled by `how`.
pub open spec fn settled_by(
    files: Seq<Found>,
    placement: Placement,
    errors: Seq<Option<String>>,
    how: Settled,
) -> Seq<bool> {
    Seq::new(files.len(), |i: int| errors[i] is None && settling(files[i], placement) == how)
}

/// The frames that could not be settled, in order, with why.
pub open spec fn failures(errors: Seq<Option<String>>) -> Seq<(int, Seq<char>)>
    decreases errors.len(),
{
    if errors.len() == 0 {
        seq![]
    } else {
        let before = failures(errors.drop_last());
        match errors.last() {
            Some(e) => before.push((errors.len() - 1, e@)),
            None => before,
        }
    }
}

/// A move's counts, and the frames it could not settle.
pub open spec fn is_moved(
    m: Moved,
    files: Seq<Found>,
    placement: Placement,
    errors: Seq<Option<String>>,
) -> bool {
    &&& m.moved == selection::count(settled_by(files, placement, errors, Settled::Moved))
    &&& m.dropped == selection::count(settled_by(files, placement, errors, Settled::Dropped))
    &&& Seq::new(m.failed@.len(), |i: int| (m.failed@[i].0 as int, m.failed@[i].1@)) == failures(
        errors,
    )
}

/// Put every one of `files`' sidecars where `placement` says, each as
/// [`settle`] has it; `errors` has, a file, why it could not be. One that
/// fails is said and the rest go on.
pub fn move_sidecars(
    files: &mut Vec<Found>,
    placement: Placement,
    errors: &Vec<Option<String>>,
) -> (m: Moved)
    requires
        old(files)@.len() == errors@.len(),
    ensures
        is_moved(m, old(files)@, placement, errors@),
        final(files)@ == after_move(old(files)@, placement, errors@),
{
    let mut moved: usize = 0;
    let mut dropped: usize = 0;
    let mut failed: Vec<(usize, String)> = Vec::new();
    let mut i: usize = 0;
    let ghost first = files@;
    let ghost ups = settled_by(first, placement, errors@, Settled::Moved);
    let ghost downs = settled_by(first, placement, errors@, Settled::Dropped);
    assert(ups.take(0) =~= seq![]);
    assert(downs.take(0) =~= seq![]);
    assert(errors@.take(0) =~= seq![]);
    while i < files.len()
        invariant
            i <= files@.len(),
            files@.len() == errors@.len(),
            first.len() == files@.len(),
            ups == settled_by(first, placement, errors@, Settled::Moved),
            downs == settled_by(first, placement, errors@, Settled::Dropped),
            moved == selection::count(ups.take(i as int)),
            dropped == selection::count(downs.take(i as int)),
            moved <= i,
            dropped <= i,
            Seq::new(failed@.len(), |k: int| (failed@[k].0 as int, failed@[k].1@)) =~= failures(
                errors@.take(i as int),
            ),
            forall|k: int|
                0 <= k < i ==> #[trigger] files@[k] == after_move(first, placement, errors@)[k],
            forall|k: int| i <= k < files@.len() ==> #[trigger] files@[k] == first[k],
        decreases files.len() - i,
    {
        match &errors[i] {
            None => {
                match settle(files[i], placement) {
                    Settled::Moved => {
                        moved = moved + 1;
                    },
                    Settled::Dropped => {
                        dropped = dropped + 1;
                    },
                    Settled::InPlace => {},
                }
                if files[i].read.is_some() {
                    files.set(i, Found { read: Some(placement), stale: false });
                }
            },
            Some(e) => {
                failed.push((i, e.clone()));
            },
        }
        i = i + 1;
        assert(ups.take(i as int).drop_last() =~= ups.take(i - 1));
        assert(downs.take(i as int).drop_last() =~= downs.take(i - 1));
        assert(errors@.take(i as int).drop_last() =~= errors@.take(i - 1));
    }
    assert(ups.take(i as int) =~= ups);
    assert(downs.take(i as int) =~= downs);
    assert(errors@.take(i as int) =~= errors@);
    assert(files@ =~= after_move(first, placement, errors@));
    Moved { moved, dropped, failed }
}

pub open spec fn moved_text(moved: nat, dropped: nat, failed: nat, place: Placement) -> Seq<char> {
    let first = "Moved "@ + text::decimal(moved) + " sidecar"@ + (if moved == 1 {
        ""@
    } else {
        "s"@
    }) + " "@ + (match place {
        Placement::Beside => "beside their raws"@,
        Placement::Folder => "into the hidden folder"@,
    }) + "."@;
    let second = if dropped > 0 {
        first + (" Removed "@ + text::decimal(dropped) + " older cop"@ + (if dropped == 1 {
            "y"@
        } else {
            "ies"@
        }) + " left in the other place."@)
    } else {
        first
    };
    if failed > 0 {
        second + (" "@ + text::decimal(failed) + " could not be moved; the log says why."@)
    } else {
        second
    }
}

/// The move's report, for the sheet.
pub fn moved_words(moved: &Moved, placement: Placement) -> (s: String)
    ensures
        s@ == moved_text(
            moved.moved as nat,
            moved.dropped as nat,
            moved.failed@.len(),
            placement,
        ),
{
    let mut words = "Moved ".to_owned();
    text::put_decimal(&mut words, moved.moved as u64);
    words.append(" sidecar");
    if moved.moved == 1 {
        words.append("");
    } else {
        words.append("s");
    }
    words.append(" ");
    match placement {
        Placement::Beside => {
            words.append("beside their raws");
        },
        Placement::Folder => {
            words.append("into the hidden folder");
        },
    }
    words.append(".");
    if moved.dropped > 0 {
        let mut more = " Removed ".to_owned();
        text::put_decimal(&mut more, moved.dropped as u64);
        more.append(" older cop");
        if moved.dropped == 1 {
            more.append("y");
        } else {
            more.append("ies");
        }
        more.append(" left in the other place.");
        words.append(more.as_str());
    }
    if moved.failed.len() > 0 {
        let mut more = " ".to_owned();
        text::put_decimal(&mut more, moved.failed.len() as u64);
        more.append(" could not be moved; the log says why.");
        words.append(more.as_str());
    }
    words
}

/// What the window has of the sheet.
#[derive(Debug)]
pub struct Prefs {
    pub placement: String,
    pub xmp_sidecars: bool,
    pub note: String,
    pub open_frames: i32,
    pub elsewhere: i32,
    pub sidecars_written: bool,
    pub open: bool,
}

/// The installation's settings, as this run has them.
#[derive(Debug, Clone, Copy, PartialEq, Eq, Structural)]
pub struct Kept {
    pub placement: Placement,
    pub xmp_sidecars: bool,
    pub write_sidecars: bool,
    /// A batch run or a test, which leaves the user's settings alone.
    pub batch: bool,
}

/// A window with the sheet's count on it.
pub open spec fn shows_elsewhere(st: Kept, files: Seq<Found>, before: Prefs, after: Prefs) -> bool {
    after == (Prefs {
        open_frames: files.len() as i32,
        elsewhere: selection::count(astray(files, st.placement)) as i32,
        sidecars_written: st.write_sidecars,
        ..before
    })
}

/// The sheet's count, over the open frames as they are on disk now: the
/// list the move runs over. And whether a move may run at all.
pub fn show_elsewhere(st: &Kept, files: &Vec<Found>, w: &mut Prefs)
    requires
        files@.len() <= i32::MAX,
    ensures
        shows_elsewhere(*st, files@, *old(w), *final(w)),
{
    proof {
        selection::lemma_count(astray(files@, st.placement));
    }
    w.open_frames = files.len() as i32;
    w.elsewhere = sidecars_elsewhere(files, st.placement) as i32;
    w.sidecars_written = st.write_sidecars;
}

/// The sheet asked for: the count first, then the sheet.
pub fn settings_asked(st: &Kept, files: &Vec<Found>, w: &mut Prefs)
    requires
        files@.len() <= i32::MAX,
    ensures
        final(w).placement@ == place_text(st.placement),
        final(w).note@ == ""@,
        shows_elsewhere(
            *st,
            files@,
            Prefs {
                placement: final(w).placement,
                xmp_sidecars: st.xmp_sidecars,
                note: final(w).note,
                open: true,
                ..*old(w)
            },
            *final(w),
        ),
{
    w.placement = placement_name(st.placement).to_owned();
    w.xmp_sidecars = st.xmp_sidecars;
    w.note = "".to_owned();
    show_elsewhere(st, files, w);
    w.open = true;
}

/// The place flipped: from now on each save writes there, and nothing
/// moves until it is asked to; only the count changes. The place to keep
/// in the settings file, when this run keeps any.
pub fn placement_changed(st: &mut Kept, files: &Vec<Found>, w: &mut Prefs) -> (keep: Option<
    Placement,
>)
    requires
        files@.len() <= i32::MAX,
    ensures
        *final(st) == (Kept { placement: final(st).placement, ..*old(st) }),
        final(st).placement == if old(w).placement@ == place_text(Placement::Folder) {
            Placement::Folder
        } else {
            Placement::Beside
        },
        keep == if old(st).batch {
            None
        } else {
            Some(final(st).placement)
        },
        final(w).note@ == ""@,
        shows_elsewhere(
            *final(st),
            files@,
            Prefs { note: final(w).note, ..*old(w) },
            *final(w),
        ),
{
    st.placement = placement_named(w.placement.as_str());
    w.note = "".to_owned();
    show_elsewhere(st, files, w);
    if st.batch {
        None
    } else {
        Some(st.placement)
    }
}

/// The XMP switch thrown. The switch to keep in the settings file, when
/// this run keeps any.
pub fn xmp_changed(st: &mut Kept, on: bool) -> (keep: Option<bool>)
    ensures
        *final(st) == (Kept { xmp_sidecars: on, ..*old(st) }),
        keep == if old(st).batch {
            None
        } else {
            Some(on)
        },
{
    st.xmp_sidecars = on;
    if st.batch {
        None
    } else {
        Some(on)
    }
}

/// The folder's sidecars put where the setting says, confirmed: done,
/// reported and counted again. A run that promised not to touch them
/// holds to it.
pub fn sidecars_move(
    st: &Kept,
    files: &mut Vec<Found>,
    errors: &Vec<Option<String>>,
    w: &mut Prefs,
) -> (m: Option<Moved>)
    requires
        old(files)@.len() == errors@.len() <= i32::MAX,
    ensures
        m is Some == st.write_sidecars,
        match m {
            Some(m) => {
                &&& is_moved(m, old(files)@, st.placement, errors@)
                &&& final(files)@ == after_move(old(files)@, st.placement, errors@)
                &&& final(w).note@ == moved_text(
                    m.moved as nat,
                    m.dropped as nat,
                    m.failed@.len(),
                    st.placement,
                )
                &&& shows_elsewhere(
                    *st,
                    final(files)@,
                    Prefs { note: final(w).note, ..*old(w) },
                    *final(w),
                )
            },
            None => *final(files) == *old(files) && *final(w) == *old(w),
        },
{
    if !st.write_sidecars {
        return None;
    }
    let m = move_sidecars(files, st.placement, errors);
    w.note = moved_words(&m, st.placement);
    show_elsewhere(st, files, w);
    Some(m)
}

/// Every frame is accounted for: moved, dropped, failed or in place.
pub proof fn every_sidecar_is_accounted_for(
    files: Seq<Found>,
    placement: Placement,
    errors: Seq<Option<String>>,
)
    requires
        files.len() == errors.len(),
    ensures
        selection::count(settled_by(files, placement, errors, Settled::Moved)) + selection::count(
            settled_by(files, placement, errors, Settled::Dropped),
        ) + failures(errors).len() + selection::count(
            settled_by(files, placement, errors, Settled::InPlace),
        ) == files.len(),
    decreases files.len(),
{
    if files.len() > 0 {
        let (f, e) = (files.drop_last(), errors.drop_last());
        every_sidecar_is_accounted_for(f, placement, e);
        assert(settled_by(files, placement, errors, Settled::Moved).drop_last() =~= settled_by(
            f,
            placement,
            e,
            Settled::Moved,
        ));
        assert(settled_by(files, placement, errors, Settled::Dropped).drop_last() =~= settled_by(
            f,
            placement,
            e,
            Settled::Dropped,
        ));
        assert(settled_by(files, placement, errors, Settled::InPlace).drop_last() =~= settled_by(
            f,
            placement,
            e,
            Settled::InPlace,
        ));
    }
}

/// What is left elsewhere after a move is what could not be settled; a
/// second move where nothing fails finds nothing more to do than that.
/// A sidecar that is read is read still, and none is made.
pub proof fn a_move_leaves_none_elsewhere(
    files: Seq<Found>,
    placement: Placement,
    errors: Seq<Option<String>>,
)
    requires
        files.len() == errors.len(),
    ensures
        forall|i: int|
            0 <= i < files.len() && errors[i] is None ==> !is_misplaced(
                #[trigger] after_move(files, placement, errors)[i],
                placement,
            ) && settling(after_move(files, placement, errors)[i], placement)
                == Settled::InPlace,
        selection::count(astray(after_move(files, placement, errors), placement)) <= failures(errors).len(),
        forall|i: int|
            0 <= i < files.len() ==> (#[trigger] after_move(files, placement, errors)[i].read
                is Some <==> files[i].read is Some),
    decreases files.len(),
{
    if files.len() > 0 {
        let (f, e) = (files.drop_last(), errors.drop_last());
        a_move_leaves_none_elsewhere(f, placement, e);
        assert(astray(after_move(files, placement, errors), placement).drop_last() =~= astray(
            after_move(f, placement, e),
            placement,
        ));
    }
}

/// The count the sheet offers a move over is what the move would settle.
pub proof fn the_count_is_what_a_move_settles(files: Seq<Found>, placement: Placement)
    ensures
        forall|i: int|
            0 <= i < files.len() ==> (is_misplaced(#[trigger] files[i], placement) <==> settling(
                files[i],
                placement,
            ) != Settled::InPlace),
{
}

/// The place is said in words, and the words name it again.
pub proof fn a_place_said_is_the_place(p: Placement)
    ensures
        p is Folder <==> place_text(p) == "Hidden folder"@,
        p is Beside <==> place_text(p) == "Beside the raw"@,
{
    reveal_strlit("Beside the raw");
    reveal_strlit("Hidden folder");
    assert("Beside the raw"@[0] != "Hidden folder"@[0]);
}

/// A sidecar is settled by moving it, where the one read is in the other
/// place, and by dropping the older copy where it is not. A frame with
/// none, or with one where it belongs and no copy, is left.
pub proof fn a_sidecar_is_settled_where_it_belongs(f: Found, placement: Placement)
    ensures
        f.read is None ==> settling(f, placement) is InPlace && !is_misplaced(f, placement),
        f.read matches Some(p) ==> {
            &&& p != placement ==> settling(f, placement) is Moved && is_misplaced(f, placement)
            &&& p == placement && f.stale ==> settling(f, placement) is Dropped && is_misplaced(
                f,
                placement,
            )
            &&& p == placement && !f.stale ==> settling(f, placement) is InPlace && !is_misplaced(
                f,
                placement,
            )
        },
{
}

/// A frame whose sidecar was settled has it in the place asked, with no
/// copy left, and one whose move failed has it where it was. A frame with
/// none is given none.
pub proof fn a_move_is_of_the_frames_that_did_not_fail(
    files: Seq<Found>,
    placement: Placement,
    errors: Seq<Option<String>>,
    i: int,
)
    requires
        0 <= i < files.len(),
        files.len() == errors.len(),
    ensures
        after_move(files, placement, errors).len() == files.len(),
        errors[i] is Some ==> after_move(files, placement, errors)[i] == files[i],
        files[i].read is None ==> after_move(files, placement, errors)[i] == files[i],
        errors[i] is None && files[i].read is Some ==> {
            &&& after_move(files, placement, errors)[i].read == Some(placement)
            &&& !after_move(files, placement, errors)[i].stale
        },
        astray(files, placement).len() == files.len(),
        astray(files, placement)[i] <==> (files[i].read is Some && (files[i].read != Some(placement)
            || files[i].stale)),
{
}

/// The frames that failed are told with the words of their own failure,
/// and no other frame is.
pub proof fn each_failure_is_told(errors: Seq<Option<String>>, i: int, why: Seq<char>)
    ensures
        failures(errors).contains((i, why)) <==> 0 <= i < errors.len() && (errors[i] matches Some(e)
            && e@ == why),
        failures(errors).len() <= errors.len(),
    decreases errors.len(),
{
    if errors.len() > 0 {
        let front = errors.drop_last();
        let before = failures(front);
        let all = failures(errors);
        each_failure_is_told(front, i, why);
        if i < front.len() && i >= 0 {
            assert(front[i] == errors[i]);
        }
        if before.contains((i, why)) {
            let k = choose|k: int| 0 <= k < before.len() && before[k] == (i, why);
            assert(all[k] == (i, why));
        }
        if all.contains((i, why)) {
            let k = choose|k: int| 0 <= k < all.len() && all[k] == (i, why);
            if k < before.len() {
                assert(before[k] == (i, why));
            }
        }
        match errors.last() {
            Some(e) => {
                assert(all[all.len() - 1] == (errors.len() - 1, e@));
            },
            None => {},
        }
    }
}

/// What a move is said to have done: how many went where, then the copies
/// dropped, where any were, then those that failed, where any did.
pub proof fn a_move_is_told_in_its_counts(moved: nat, dropped: nat, failed: nat, place: Placement)
    ensures
        moved_text(moved, 0, 0, place) == "Moved "@ + text::decimal(moved) + " sidecar"@ + (if moved
            == 1 {
            ""@
        } else {
            "s"@
        }) + " "@ + (if place is Beside {
            "beside their raws"@
        } else {
            "into the hidden folder"@
        }) + "."@,
        dropped == 1 ==> moved_text(moved, dropped, 0, place) == moved_text(moved, 0, 0, place) + (
        " Removed "@ + text::decimal(1) + " older cop"@ + "y"@ + " left in the other place."@),
        dropped > 1 ==> moved_text(moved, dropped, 0, place) == moved_text(moved, 0, 0, place) + (
        " Removed "@ + text::decimal(dropped) + " older cop"@ + "ies"@
            + " left in the other place."@),
        failed > 0 ==> moved_text(moved, dropped, failed, place) == moved_text(
            moved,
            dropped,
            0,
            place,
        ) + (" "@ + text::decimal(failed) + " could not be moved; the log says why."@),
{
}

/// The sheet counts the open frames and those whose sidecar is elsewhere:
/// none where every one is in its place, and all of them where none is.
pub proof fn the_sheet_counts_what_is_elsewhere(
    st: Kept,
    files: Seq<Found>,
    before: Prefs,
    after: Prefs,
)
    requires
        files.len() <= i32::MAX,
        shows_elsewhere(st, files, before, after),
    ensures
        after.open_frames == files.len(),
        0 <= after.elsewhere <= files.len(),
        after.sidecars_written == st.write_sidecars,
        after.placement == before.placement,
        after.xmp_sidecars == before.xmp_sidecars,
        after.note == before.note,
        after.open == before.open,
        (forall|i: int|
            0 <= i < files.len() ==> ((#[trigger] files[i]).read is None || (files[i].read == Some(
                st.placement,
            ) && !files[i].stale))) ==> after.elsewhere == 0,
        (forall|i: int|
            0 <= i < files.len() ==> ((#[trigger] files[i]).read is Some && (files[i].read != Some(
                st.placement,
            ) || files[i].stale))) ==> after.elsewhere == files.len(),
{
    let v = astray(files, st.placement);
    selection::lemma_count(v);
    selection::a_count_is_of_those_that_are(v);
    assert forall|i: int| 0 <= i < v.len() implies v[i] == is_misplaced(
        #[trigger] files[i],
        st.placement,
    ) by {}
    if forall|i: int|
        0 <= i < files.len() ==> ((#[trigger] files[i]).read is None || (files[i].read == Some(
            st.placement,
        ) && !files[i].stale)) {
        assert forall|i: int| 0 <= i < v.len() implies !v[i] by {
            assert(v[i] == is_misplaced(files[i], st.placement));
        }
    }
    if forall|i: int|
        0 <= i < files.len() ==> ((#[trigger] files[i]).read is Some && (files[i].read != Some(
            st.placement,
        ) || files[i].stale)) {
        assert forall|i: int| 0 <= i < v.len() implies v[i] by {
            assert(v[i] == is_misplaced(files[i], st.placement));
        }
    }
}

/// What a move reports of a frame is what was done to it: counted as moved
/// or dropped where it was, and told as failed where it failed.
pub proof fn a_report_is_of_what_was_done(
    files: Seq<Found>,
    placement: Placement,
    errors: Seq<Option<String>>,
    i: int,
)
    requires
        files.len() == errors.len(),
        0 <= i < files.len(),
    ensures
        settled_by(files, placement, errors, Settled::Moved)[i] <==> errors[i] is None
            && files[i].read is Some && files[i].read != Some(placement),
        settled_by(files, placement, errors, Settled::Dropped)[i] <==> errors[i] is None
            && files[i].read == Some(placement) && files[i].stale,
{
}

/// The report of a move counts what was moved and dropped, and holds the
/// failures in their order.
pub proof fn a_report_holds_the_failures(
    m: Moved,
    files: Seq<Found>,
    placement: Placement,
    errors: Seq<Option<String>>,
    k: int,
)
    requires
        is_moved(m, files, placement, errors),
    ensures
        m.moved == selection::count(settled_by(files, placement, errors, Settled::Moved)),
        m.dropped == selection::count(settled_by(files, placement, errors, Settled::Dropped)),
        m.failed@.len() == failures(errors).len(),
        0 <= k < m.failed@.len() ==> failures(errors)[k] == (
            m.failed@[k].0 as int,
            m.failed@[k].1@,
        ),
{
    let told = Seq::new(m.failed@.len(), |i: int| (m.failed@[i].0 as int, m.failed@[i].1@));
    assert(told == failures(errors));
    if 0 <= k < m.failed@.len() {
        assert(told[k] == (m.failed@[k].0 as int, m.failed@[k].1@));
    }
}

} // verus!
