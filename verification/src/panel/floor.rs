//! The lists kept beside the open folder's files, when the files change:
//! the rejects moved out, or another folder opened.

use crate::panel::browser::{Loaded, Stand};
use crate::panel::browser;
use crate::panel::cull::After;
use crate::panel::cull;
use crate::panel::deliver::{Floor, Thumbs};
use crate::panel::edit;
use crate::panel::mask::Editing;
use crate::panel::meta::Meta;
use crate::panel::model::{Edit, Window};
use crate::panel::open;
use crate::panel::placeholder::Desk;
use crate::panel::selection;
use vstd::prelude::*;

verus! {

// The rejects moved out.

/// The frame on screen under its new number; none when it went.
pub open spec fn still_current(current: Option<usize>, gone: Seq<usize>) -> Option<usize> {
    match current {
        Some(c) => match selection::renumbered(gone, c) {
            Some(n) => Some(n as usize),
            None => None,
        },
        None => None,
    }
}

/// Every list kept beside the files is the old one less the files that
/// went, in order, and the frame on screen is the one it was.
pub open spec fn lists_without(before: Floor, gone: Seq<usize>, after: Floor) -> bool {
    let (b, a) = (before.desk.browser, after.desk.browser);
    &&& a.paths@ == selection::without(b.paths@, gone)
    &&& a.names@ == selection::without(b.names@, gone)
    &&& a.metas@ == selection::without(b.metas@, gone)
    &&& a.pictured@ == selection::without(b.pictured@, gone)
    &&& a.stood@.len() == a.names@.len()
    &&& a.current == still_current(b.current, gone)
    &&& after.seed@ == selection::without(before.seed@, gone)
    &&& after.thumbs.made@ == selection::without(before.thumbs.made@, gone)
    &&& after.thumbs.asked@ == selection::without(before.thumbs.asked@, gone)
    &&& after == (Floor {
        desk: after.desk,
        thumbs: Thumbs {
            made: after.thumbs.made,
            asked: after.thumbs.asked,
            ..before.thumbs
        },
        seed: after.seed,
        ..before
    })
}

/// The rejects are out of the folder: every list kept beside the files
/// loses theirs, and the desk is as [`cull::rejects_moved`] leaves it.
pub fn floor_rejects_moved(
    f: &mut Floor,
    gone: &Vec<usize>,
    passes: &Vec<bool>,
    stands: &Vec<Stand>,
    status: String,
) -> (r: (After, Vec<usize>))
    requires
        old(f).wf(),
        selection::ordered(gone@),
        selection::below(gone@, old(f).desk.browser.names@.len() as int),
        passes@.len() == old(f).desk.browser.names@.len() - gone@.len(),
        stands@.len() == passes@.len(),
    ensures
        final(f).wf(),
        lists_without(*old(f), gone@, *final(f)),
        gone@.len() == 0 ==> only_said(*old(f), *final(f)),
        final(f).seed@ == selection::without(old(f).seed@, gone@),
        final(f).thumbs.made@ == selection::without(old(f).thumbs.made@, gone@),
        final(f).thumbs.asked@ == selection::without(old(f).thumbs.asked@, gone@),
        cull::desk_without(
            old(f).desk,
            gone@,
            passes@,
            stands@,
            status,
            final(f).desk,
            r.0,
            r.1@,
        ),
{
    proof {
        if gone@.len() == 0 {
            match f.desk.browser.current {
                Some(c) => {
                    assert(selection::place(gone@, c) == 0);
                },
                None => {},
            }
        }
        selection::lemma_without_len(f.desk.browser.names@, gone@);
    }
    let r = cull::rejects_moved(&mut f.desk, gone, passes, stands, status);
    if gone.len() == 0 {
        return r;
    }
    selection::take_out(&mut f.thumbs.made, gone);
    selection::take_out(&mut f.thumbs.asked, gone);
    selection::take_out(&mut f.seed, gone);
    r
}

/// What the move on disk came to: the files moved, in order, how many
/// sidecars went with them, and how many files were left.
#[derive(Debug)]
pub struct MovedOut {
    pub files: Vec<usize>,
    pub sidecars: usize,
    pub skipped: usize,
}

/// A floor on which nothing but the line changed.
pub open spec fn only_said(before: Floor, after: Floor) -> bool {
    after == (Floor {
        desk: Desk {
            work: edit::Work { status: after.desk.work.status, ..before.desk.work },
            ..before.desk
        },
        ..before
    })
}

/// The rejects' move has answered: said, and what went taken out of every
/// list. A move that failed, or moved nothing, leaves all of them as they
/// were.
pub fn rejects_answered(
    f: &mut Floor,
    moved: Result<MovedOut, String>,
    dir: &str,
    passes: &Vec<bool>,
    stands: &Vec<Stand>,
) -> (r: (After, Vec<usize>))
    requires
        old(f).wf(),
        moved matches Ok(m) ==> {
            &&& selection::ordered(m.files@)
            &&& selection::below(m.files@, old(f).desk.browser.names@.len() as int)
            &&& passes@.len() == old(f).desk.browser.names@.len() - m.files@.len()
            &&& stands@.len() == passes@.len()
        },
    ensures
        final(f).wf(),
        final(f).desk.work.status@ == match moved {
            Ok(m) => cull::moved_text(
                m.files@.len(),
                m.sidecars as nat,
                dir@,
                m.skipped as nat,
            ),
            Err(why) => "the rejects could not be moved: "@ + why@,
        },
        match moved {
            Ok(m) => {
                &&& lists_without(*old(f), m.files@, *final(f))
                &&& cull::desk_without(
                    old(f).desk,
                    m.files@,
                    passes@,
                    stands@,
                    final(f).desk.work.status,
                    final(f).desk,
                    r.0,
                    r.1@,
                )
                &&& m.files@.len() == 0 ==> only_said(*old(f), *final(f))
            },
            Err(_) => only_said(*old(f), *final(f)) && r.0 is Stays && r.1@.len() == 0,
        },
{
    match moved {
        Ok(m) => {
            let status = cull::moved_words(m.files.len(), m.sidecars, dir, m.skipped);
            floor_rejects_moved(f, &m.files, passes, stands, status)
        },
        Err(why) => {
            f.desk.work.status = cull::move_failed(why.as_str());
            (After::Stays, Vec::new())
        },
    }
}

/// What is kept beside a file that stays is kept beside it still, under
/// its new number, and the files that stay are in the order they were in.
pub proof fn a_file_that_stays_keeps_its_own(
    before: Floor,
    gone: Seq<usize>,
    after: Floor,
    x: usize,
    y: usize,
)
    requires
        before.wf(),
        selection::ordered(gone),
        selection::below(gone, before.desk.browser.names@.len() as int),
        lists_without(before, gone, after),
        x < y < before.desk.browser.names@.len(),
        !gone.contains(x),
        !gone.contains(y),
    ensures
        selection::renumbered(gone, x) is Some,
        selection::renumbered(gone, y) is Some,
        ({
            let (n, m) = (selection::renumbered(gone, x)->0, selection::renumbered(gone, y)->0);
            &&& 0 <= n < m < after.desk.browser.names@.len()
            &&& after.desk.browser.paths@[n] == before.desk.browser.paths@[x as int]
            &&& after.desk.browser.names@[n] == before.desk.browser.names@[x as int]
            &&& after.desk.browser.metas@[n] == before.desk.browser.metas@[x as int]
            &&& after.desk.browser.pictured@[n] == before.desk.browser.pictured@[x as int]
            &&& after.seed@[n] == before.seed@[x as int]
            &&& after.thumbs.made@[n] == before.thumbs.made@[x as int]
            &&& after.thumbs.asked@[n] == before.thumbs.asked@[x as int]
        }),
        after.desk.browser.names@.len() == before.desk.browser.names@.len() - gone.len(),
{
    let (b, a) = (before.desk.browser, after.desk.browser);
    selection::what_stays_keeps_its_own(b.paths@, gone, x);
    selection::what_stays_keeps_its_own(b.names@, gone, x);
    selection::what_stays_keeps_its_own(b.names@, gone, y);
    selection::what_stays_keeps_its_own(b.metas@, gone, x);
    selection::what_stays_keeps_its_own(b.pictured@, gone, x);
    selection::what_stays_keeps_its_own(before.seed@, gone, x);
    selection::what_stays_keeps_its_own(before.thumbs.made@, gone, x);
    selection::what_stays_keeps_its_own(before.thumbs.asked@, gone, x);
    selection::what_stays_keeps_its_order(gone, x, y);
}

// Another folder.

/// Which of the files' blends are still to be set.
pub open spec fn seeds(loaded: Seq<Loaded>) -> Seq<bool> {
    loaded.map_values(|l: Loaded| l.seed)
}

/// The lists made anew for a folder: no picture made, each asked for at
/// the first size, which is the size the cells want, and the grid yet to
/// say what it shows.
pub open spec fn lists_anew(
    before: Floor,
    loaded: Seq<Loaded>,
    width: u32,
    after: Floor,
) -> bool {
    &&& after.thumbs.made@ == Seq::new(loaded.len(), |i: int| 0u32)
    &&& after.thumbs.asked@ == Seq::new(loaded.len(), |i: int| width)
    &&& after.thumbs.want == width
    &&& after.thumbs.grid_shown is None
    &&& after.seed@ == seeds(loaded)
    &&& after == (Floor { desk: after.desk, thumbs: after.thumbs, seed: after.seed, ..before })
}

fn all_at(n: usize, size: u32) -> (v: Vec<u32>)
    ensures
        v@ == Seq::new(n as nat, |i: int| size),
{
    let mut v: Vec<u32> = Vec::new();
    let mut i: usize = 0;
    while i < n
        invariant
            i <= n,
            v@ =~= Seq::new(i as nat, |k: int| size),
        decreases n - i,
    {
        v.push(size);
        i = i + 1;
    }
    v
}

fn seeds_of(loaded: &Vec<Loaded>) -> (v: Vec<bool>)
    ensures
        v@ == seeds(loaded@),
{
    let mut v: Vec<bool> = Vec::new();
    let mut i: usize = 0;
    while i < loaded.len()
        invariant
            i <= loaded@.len(),
            v@ =~= seeds(loaded@).take(i as int),
        decreases loaded.len() - i,
    {
        v.push(loaded[i].seed);
        i = i + 1;
    }
    assert(seeds(loaded@).take(i as int) =~= seeds(loaded@));
    v
}

/// Another folder's files: the desk with them on it, and the lists made
/// anew at the thumbnails' first size (`width`). Where the filter shows
/// none of them the line says so (`nothing`). The result is whether the
/// edit on the panel is to be recorded, and the row to open.
pub fn floor_opened(
    f: &mut Floor,
    files: Vec<String>,
    metas: Vec<Meta>,
    loaded: &Vec<Loaded>,
    passes: &Vec<bool>,
    select: usize,
    width: u32,
    nothing: &str,
) -> (r: (bool, Option<usize>))
    requires
        old(f).wf(),
        files@.len() < i32::MAX,
        metas@.len() == files@.len(),
        loaded@.len() == files@.len(),
        passes@.len() == files@.len(),
    ensures
        final(f).wf(),
        lists_anew(*old(f), loaded@, width, *final(f)),
        open::desk_opened(
            old(f).desk,
            files@,
            metas@,
            passes@,
            nothing@,
            r.1 is Some,
            final(f).desk,
        ),
        r.0 == (old(f).desk.browser.current is Some && old(f).desk.cull is None),
        r.1 is Some <==> browser::opening_row(final(f).desk.browser.shown@, select) is Some,
        r.1 matches Some(row) ==> browser::opening_row(final(f).desk.browser.shown@, select)
            == Some(row as int) && row < final(f).desk.browser.shown@.len(),
{
    let n: usize = files.len();
    f.seed = seeds_of(loaded);
    f.thumbs = Thumbs {
        made: all_at(n, 0),
        asked: all_at(n, width),
        want: width,
        grid_shown: None,
    };
    open::open_files(&mut f.desk, files, metas, passes, select, nothing)
}

/// Another folder reached: the panel's edit comes back with the number of
/// the frame it was of, to be recorded there, and the new folder's edits
/// take the place of the old one's. In culling the panel is not the
/// frame's, and nothing is recorded.
pub fn folder_reached<N: Copy, L: Copy, G: Copy>(
    f: &mut Floor,
    st: &Editing<N, L, G>,
    w: &Window<N, L, G>,
    kept: &mut Vec<Edit<N, L, G>>,
    edits: Vec<Edit<N, L, G>>,
    files: Vec<String>,
    metas: Vec<Meta>,
    loaded: &Vec<Loaded>,
    passes: &Vec<bool>,
    select: usize,
    width: u32,
    nothing: &str,
) -> (r: (Option<(usize, Edit<N, L, G>)>, Option<usize>))
    requires
        old(f).wf(),
        files@.len() < i32::MAX,
        edits@.len() == files@.len(),
        metas@.len() == files@.len(),
        loaded@.len() == files@.len(),
        passes@.len() == files@.len(),
    ensures
        final(f).wf(),
        *final(kept) == edits,
        match old(f).desk.browser.current {
            Some(c) if old(f).desk.cull is None => r.0 matches Some((n, e)) && n == c
                && open::panel_edit(*st, *w, e),
            _ => r.0 is None,
        },
        lists_anew(*old(f), loaded@, width, *final(f)),
        open::desk_opened(
            old(f).desk,
            files@,
            metas@,
            passes@,
            nothing@,
            r.1 is Some,
            final(f).desk,
        ),
        r.1 is Some <==> browser::opening_row(final(f).desk.browser.shown@, select) is Some,
        r.1 matches Some(row) ==> browser::opening_row(final(f).desk.browser.shown@, select)
            == Some(row as int) && row < final(f).desk.browser.shown@.len(),
{
    let left = match f.desk.browser.current {
        Some(c) => if f.desk.cull.is_none() {
            Some((c, open::outgoing(st, w)))
        } else {
            None
        },
        None => None,
    };
    let (_save, row) = floor_opened(f, files, metas, loaded, passes, select, width, nothing);
    *kept = edits;
    (left, row)
}

/// The frame on screen is still on screen after some leave, at the place
/// it moves to, unless it is one that left.
pub proof fn the_frame_on_screen_stays_on_screen(
    before: Floor,
    gone: Seq<usize>,
    after: Floor,
    c: usize,
)
    requires
        before.wf(),
        selection::ordered(gone),
        selection::below(gone, before.desk.browser.names@.len() as int),
        lists_without(before, gone, after),
        c < before.desk.browser.names@.len(),
    ensures
        before.desk.browser.current is None ==> after.desk.browser.current is None,
        before.desk.browser.current == Some(c) && gone.contains(c) ==> after.desk.browser.current
            is None,
        before.desk.browser.current == Some(c) && !gone.contains(c) ==> (
        after.desk.browser.current matches Some(n) && n < after.desk.browser.paths@.len()
            && after.desk.browser.paths@[n as int] == before.desk.browser.paths@[c as int]
            && after.desk.browser.names@[n as int] == before.desk.browser.names@[c as int]),
{
    if before.desk.browser.current == Some(c) && !gone.contains(c) {
        let b = before.desk.browser;
        selection::what_stays_keeps_its_own(b.paths@, gone, c);
        selection::what_stays_keeps_its_own(b.names@, gone, c);
    }
}

/// What the lists do not hold stays as it was when frames leave: the run,
/// the downloads and what is asked of a model.
pub proof fn frames_leaving_leave_the_rest(before: Floor, gone: Seq<usize>, after: Floor)
    requires
        lists_without(before, gone, after),
    ensures
        after.run == before.run,
        after.fetching == before.fetching,
        after.offered == before.offered,
        after.declined == before.declined,
        after.asked == before.asked,
        after.shown_size == before.shown_size,
        after.pending == before.pending,
        after.show_mask == before.show_mask,
        after.thumbs.want == before.thumbs.want,
        after.thumbs.grid_shown == before.thumbs.grid_shown,
{
}

/// A folder's lists start over: no frame has its picture, each is asked
/// for at the first width, which is the one wanted, and the blend is to
/// be set for the frames whose sidecar does not hold it.
pub proof fn a_folders_lists_start_over(
    before: Floor,
    loaded: Seq<Loaded>,
    width: u32,
    after: Floor,
    i: int,
)
    requires
        lists_anew(before, loaded, width, after),
        0 <= i < loaded.len(),
    ensures
        after.thumbs.made@.len() == loaded.len(),
        after.thumbs.asked@.len() == loaded.len(),
        after.seed@.len() == loaded.len(),
        after.thumbs.made@[i] == 0,
        after.thumbs.asked@[i] == width,
        after.seed@[i] == loaded[i].seed,
        after.thumbs.want == width,
        after.thumbs.grid_shown is None,
        after.run == before.run,
        after.fetching == before.fetching,
        after.declined == before.declined,
        after.asked == before.asked,
        after.show_mask == before.show_mask,
{
}

/// A status alone changes nothing else on the desk or about it.
pub proof fn a_word_said_changes_nothing(before: Floor, after: Floor)
    requires
        only_said(before, after),
    ensures
        after.desk.browser == before.desk.browser,
        after.desk.cull == before.desk.cull,
        after.desk.placeholder == before.desk.placeholder,
        after.desk.screen == before.desk.screen,
        after.desk.hands == before.desk.hands,
        after.desk.source_size == before.desk.source_size,
        after.thumbs == before.thumbs,
        after.seed == before.seed,
        after.run == before.run,
        after.asked == before.asked,
{
}

} // verus!
