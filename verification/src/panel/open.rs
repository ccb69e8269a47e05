//! Opening a frame, and a folder of them.

use crate::panel::browser::Browser;
use crate::panel::browser;
use crate::panel::copied;
use crate::panel::cull::Entered;
use crate::panel::cull;
use crate::panel::edit;
use crate::panel::mask::Editing;
use crate::panel::meta::Meta;
use crate::panel::model::{Edit, Window};
use crate::panel::placeholder::{Cull, Desk, Hands, Screen, Want};
use crate::panel::placeholder;
use crate::panel::selection;
use crate::paths;
use crate::text;
use vstd::prelude::*;

verus! {

// A row.

/// The set with a row's frame chosen: that frame alone, or with what it
/// held.
pub open spec fn picks(b: Browser, file: usize, extend: bool) -> Seq<usize> {
    if extend {
        selection::with(selection::chosen(b.picked@, b.current), file)
    } else {
        seq![file]
    }
}

pub open spec fn row_chosen(before: Desk, file: usize, extend: bool, after: Desk) -> bool {
    &&& after.browser.picked@ == picks(before.browser, file, extend)
    &&& after == (Desk {
        browser: Browser { picked: after.browser.picked, ..before.browser },
        ..before
    })
}

fn choose_row(d: &mut Desk, file: usize, extend: bool)
    requires
        old(d).wf(),
        file < old(d).browser.names@.len(),
    ensures
        final(d).wf(),
        row_chosen(*old(d), file, extend, *final(d)),
        old(d).browser.told() ==> final(d).browser.told(),
{
    let ghost n = d.browser.names@.len() as int;
    let picked: Vec<usize> = if extend {
        let mut v = browser::chosen_frames(&d.browser.picked, d.browser.current);
        proof {
            browser::lemma_chosen(d.browser.picked@, d.browser.current, n);
            selection::a_set_takes_a_file_in_order(v@, file, n);
        }
        selection::put(&mut v, file);
        v
    } else {
        let mut v: Vec<usize> = Vec::new();
        v.push(file);
        assert(v@ =~= seq![file]);
        v
    };
    d.browser.picked = picked;
    proof {
        if old(d).browser.told() {
            assert forall|r: int| 0 <= r < d.browser.thumbs@.len() implies d.browser.row_told(r) by {
                assert(old(d).browser.row_told(r));
            }
        }
    }
}

/// What is left of the frame before: its picture stays on screen under
/// its look until the new one's comes, and with no develop of it yet the
/// view is fitted.
pub open spec fn hands_after(d: Desk) -> Hands {
    Hands {
        placing: false,
        guiding: false,
        held: d.hands.held || (d.browser.current is Some && d.developed),
        ..d.hands
    }
}

/// The desk with a frame on it whose decode is under way. The source's
/// size is not known until its develop lands: a turn before that must not
/// map this frame's masks by the last frame's shape.
pub open spec fn on_screen(before: Desk, file: usize, row: i32, after: Desk) -> bool {
    &&& after.browser == (Browser { current: Some(file), selected: row, ..before.browser })
    &&& after.work.status@ == "decoding..."@
    &&& after.work == (edit::Work {
        generation: (before.work.generation + 1) as u64,
        busy: true,
        status: after.work.status,
        ..before.work
    })
    &&& after.screen.file_name@ == before.browser.names@[file as int]@
    &&& cull::no_shot(after.screen.shot)
    &&& after.screen == (Screen {
        file_name: after.screen.file_name,
        shot: after.screen.shot,
        ..before.screen
    })
    &&& after.hands == hands_after(before)
    &&& after.fitted == (before.fitted || (before.browser.current is Some && !before.developed))
    &&& after.source_size == (0u32, 0u32)
    &&& after.image_size == before.image_size
    &&& after.cull == before.cull
    &&& after.hold == before.hold
    &&& after.placeholder == before.placeholder
    &&& after.developed == before.developed
    &&& after.cull_at_start == before.cull_at_start
}

fn begin_work(w: &mut edit::Work)
    requires
        old(w).generation < u64::MAX,
    ensures
        final(w).status@ == "decoding..."@,
        *final(w) == (edit::Work {
            generation: (old(w).generation + 1) as u64,
            busy: true,
            status: final(w).status,
            ..*old(w)
        }),
{
    w.generation = w.generation + 1;
    w.status = "decoding...".to_owned();
    w.busy = true;
}

/// The frame on the desk.
fn put_on_screen(d: &mut Desk, file: usize, row: i32)
    requires
        old(d).wf(),
        file < old(d).browser.names@.len(),
        old(d).work.generation < u64::MAX,
    ensures
        final(d).wf(),
        on_screen(*old(d), file, row, *final(d)),
        old(d).browser.told() ==> final(d).browser.told(),
{
    let leaves: bool = d.browser.current.is_some();
    let held: bool = d.hands.held || (leaves && d.developed);
    let hands: Hands = Hands { placing: false, guiding: false, held, ..d.hands };
    d.hands = hands;
    let fitted: bool = d.fitted || (leaves && !d.developed);
    d.fitted = fitted;
    d.source_size = (0, 0);
    begin_work(&mut d.work);
    d.screen.file_name = d.browser.names[file].clone();
    d.screen.shot = cull::blank_shot();
    d.browser.current = Some(file);
    d.browser.selected = row;
    proof {
        if old(d).browser.told() {
            assert forall|r: int| 0 <= r < d.browser.thumbs@.len() implies d.browser.row_told(r) by {
                assert(old(d).browser.row_told(r));
            }
        }
    }
}

/// The set on the rows.
pub open spec fn set_put(before: Desk, after: Desk) -> bool {
    &&& browser::set_shown(before.browser, after.browser)
    &&& after == (Desk { browser: after.browser, ..before })
}

fn put_set(d: &mut Desk)
    requires
        old(d).wf(),
    ensures
        final(d).wf(),
        set_put(*old(d), *final(d)),
        old(d).browser.told() ==> final(d).browser.told(),
{
    browser::show_set(&mut d.browser);
}

/// The camera's picture asked for, or put up.
pub open spec fn picture_begun(
    before: Desk,
    file: usize,
    size: u32,
    window: Seq<usize>,
    worth: bool,
    line: Seq<char>,
    after: Desk,
    want: Option<Want>,
) -> bool {
    exists|t: Desk|
        {
            &&& #[trigger] placeholder::trimmed(
                before,
                size,
                placeholder::window_about(before.browser.shown@, window, file),
                file,
                t,
            )
            &&& placeholder::started(t, file, size, worth, line, after, want)
        }
}

/// What the camera's picture of a frame is asked for by.
#[derive(Debug, Clone, Copy)]
pub struct StandIn {
    /// The long edge it is made at.
    pub size: u32,
    /// The file is one to stand in for: a raw.
    pub worth: bool,
}

/// A frame opened for a develop.
pub open spec fn opened(
    before: Desk,
    file: usize,
    row: i32,
    extend: bool,
    stand: StandIn,
    window: Seq<usize>,
    line: Seq<char>,
    after: Desk,
    want: Option<Want>,
) -> bool {
    exists|a: Desk, b: Desk, c: Desk|
        {
            &&& #[trigger] row_chosen(before, file, extend, a)
            &&& #[trigger] on_screen(a, file, row, b)
            &&& #[trigger] picture_begun(
                b,
                file,
                stand.size,
                window,
                stand.worth,
                line,
                c,
                want,
            )
            &&& set_put(c, after)
        }
}

fn open_frame(
    d: &mut Desk,
    file: usize,
    row: i32,
    extend: bool,
    stand: StandIn,
    window: &Vec<usize>,
    line: &str,
) -> (want: Option<Want>)
    requires
        old(d).wf(),
        file < old(d).browser.names@.len(),
        old(d).work.generation < u64::MAX,
        selection::ordered(window@),
    ensures
        final(d).wf(),
        opened(*old(d), file, row, extend, stand, window@, line@, *final(d), want),
{
    choose_row(d, file, extend);
    let ghost a = *d;
    put_on_screen(d, file, row);
    let ghost b = *d;
    let want = placeholder::start_placeholder(d, file, stand.size, window, stand.worth, line);
    let ghost c = *d;
    put_set(d);
    proof {
        assert(row_chosen(*old(d), file, extend, a));
        assert(on_screen(a, file, row, b));
        assert(picture_begun(b, file, stand.size, window@, stand.worth, line@, c, want));
    }
    want
}


/// A mask and a patch asked for on the command line, which are the first
/// file's to show.
#[derive(Debug, Clone, Copy)]
pub struct First {
    pub mask: Option<usize>,
    pub patch: Option<usize>,
}

/// The target the panel opens with: the command line's mask on the first
/// file, when it has one of that number.
pub open spec fn first_target<N, L, G>(
    first: First,
    opening: bool,
    edit: Edit<N, L, G>,
) -> Option<usize> {
    match first.mask {
        Some(m) => if opening && m < edit.adjustments@.len() {
            Some(m)
        } else {
            None
        },
        None => None,
    }
}

/// The window before the edit goes on it: nothing being placed, and what
/// the command line asked to see.
pub open spec fn made_ready<N, L, G>(
    before: Window<N, L, G>,
    first: First,
    opening: bool,
    edit: Edit<N, L, G>,
    after: Window<N, L, G>,
) -> bool {
    &&& after.placing@ == ""@
    &&& after == (Window {
        placing: after.placing,
        show_mask: before.show_mask || first_target(first, opening, edit) is Some,
        patch: match first.patch {
            Some(p) if opening => p as i32,
            _ => before.patch,
        },
        ..before
    })
}

/// A frame's edit on the panel.
fn show_frame<N: Copy, L: Copy, G: Copy>(
    w: &mut Window<N, L, G>,
    edit: &Edit<N, L, G>,
    first: &mut First,
    opening: bool,
) -> (target: Option<usize>)
    requires
        edit::countable(*edit, 0),
        old(first).patch matches Some(p) ==> p <= i32::MAX,
    ensures
        target == first_target(*old(first), opening, *edit),
        *final(first) == if opening {
            First { mask: None, patch: None }
        } else {
            *old(first)
        },
        exists|t: Window<N, L, G>|
            #[trigger] made_ready(*old(w), *old(first), opening, *edit, t) && edit::shows_edit(
                *edit,
                target,
                t,
                *final(w),
            ),
{
    let target: Option<usize> = match first.mask {
        Some(m) => if opening && m < edit.adjustments.len() {
            Some(m)
        } else {
            None
        },
        None => None,
    };
    let show_mask: bool = w.show_mask || target.is_some();
    w.show_mask = show_mask;
    let patch: i32 = match first.patch {
        Some(p) => if opening {
            p as i32
        } else {
            w.patch
        },
        None => w.patch,
    };
    w.patch = patch;
    w.placing = "".to_owned();
    if opening {
        *first = First { mask: None, patch: None };
    }
    let ghost t = *w;
    assert(made_ready(*old(w), *old(first), opening, *edit, t));
    edit::show_edit(edit, w, target);
    target
}

/// What opening a row comes to.
#[derive(Debug, Clone, Copy)]
pub enum RowOpened {
    /// There is no such row.
    Nothing,
    /// In culling: the frame's JPEG shows. `entered` is what entering the
    /// mode asks, when this entered it.
    Culled { file: usize, entered: Option<Entered> },
    /// The frame is decoded and developed. `save` is whether the edit the
    /// panel held is recorded and written first, `target` what the panel
    /// edits of the new one, and `want` the camera's picture to decode.
    Opened { file: usize, save: bool, target: Option<usize>, want: Option<Want> },
}

/// The frame shown in the mode, and the set on the rows.
pub open spec fn culled(
    before: Desk,
    file: usize,
    anchor: usize,
    after: Desk,
) -> bool {
    exists|a: Desk| #[trigger] cull::selected(before, file, anchor, a) && set_put(a, after)
}

fn cull_row(d: &mut Desk, file: usize, anchor: usize)
    requires
        old(d).wf(),
    ensures
        final(d).wf(),
        culled(*old(d), file, anchor, *final(d)),
{
    let _shown: bool = cull::cull_select(d, file, anchor);
    let ghost a = *d;
    put_set(d);
    assert(cull::selected(*old(d), file, anchor, a));
}

/// The desk with the mode just begun by the first file.
pub open spec fn begun(before: Desk, size: u32, tab: Seq<char>, after: Desk) -> bool {
    cull::entered(
        Desk { cull_at_start: None, ..before },
        before.cull_at_start->0,
        size,
        tab,
        after,
    )
}

/// What opening a row does: `edit` is the frame's own.
pub open spec fn row_open<N: Copy, L, G>(
    before: Desk,
    w: Window<N, L, G>,
    edit: Edit<N, L, G>,
    first: First,
    row: i32,
    extend: bool,
    stand: StandIn,
    window: Seq<usize>,
    anchor: usize,
    line: Seq<char>,
    after: Desk,
    after_w: Window<N, L, G>,
    after_first: First,
    r: RowOpened,
) -> bool {
    match browser::file_at(before.browser.shown@, row) {
        None => r is Nothing && after == before && after_w == w && after_first
            == first,
        Some(file) => {
            let culling = before.cull is Some;
            if culling || before.cull_at_start is Some {
                &&& r is Culled
                &&& r->Culled_file == file
                &&& after_first == first
                &&& if culling {
                    &&& r->entered is None
                    &&& after_w == w
                    &&& exists|a: Desk|
                        #[trigger] row_chosen(before, file, extend, a) && culled(
                            Desk { cull_at_start: None, ..a },
                            file,
                            anchor,
                            after,
                        )
                } else {
                    &&& r->entered == Some(
                        Entered {
                            save: before.browser.current is Some,
                            select: before.browser.current,
                        },
                    )
                    &&& cull::window_in(w, after_w)
                    &&& exists|a: Desk, b: Desk|
                        #[trigger] row_chosen(before, file, extend, a) && #[trigger] begun(
                            a,
                            stand.size,
                            w.panel_tab@,
                            b,
                        ) && culled(b, file, anchor, after)
                }
            } else {
                let opening = before.browser.current is None;
                &&& r is Opened
                &&& r->Opened_file == file
                &&& r->save == !opening
                &&& r->target == first_target(first, opening, edit)
                &&& opened(
                    before,
                    file,
                    row,
                    extend,
                    stand,
                    window,
                    line,
                    after,
                    r->want,
                )
                &&& exists|t: Window<N, L, G>|
                    #[trigger] made_ready(w, first, opening, edit, t)
                        && edit::shows_edit(edit, r->target, t, after_w)
                &&& after_first == if opening {
                    First { mask: None, patch: None }
                } else {
                    first
                }
            }
        },
    }
}

/// Open the frame on browser row `row`: decode and develop it on the
/// worker, or in culling show its JPEG. It becomes the current frame; the
/// set becomes that frame alone, or with `extend` keeps what it held and
/// takes this frame as well. `edit` is the frame's own, its migration
/// done; the panel shows it, the old one's edit to be read off the panel
/// before (`save`). `window` are the files whose pictures are kept about
/// it, `anchor` the first row compared with it in culling, and `line`
/// what its picture is.
pub fn open_row<N: Copy, L: Copy, G: Copy>(
    d: &mut Desk,
    w: &mut Window<N, L, G>,
    edit: &Edit<N, L, G>,
    first: &mut First,
    row: i32,
    extend: bool,
    stand: StandIn,
    window: &Vec<usize>,
    anchor: usize,
    line: &str,
) -> (r: RowOpened)
    requires
        old(d).wf(),
        old(d).work.generation < u64::MAX,
        selection::ordered(window@),
        edit::countable(*edit, 0),
        old(first).patch matches Some(p) ==> p <= i32::MAX,
    ensures
        final(d).wf(),
        row_open(
            *old(d),
            *old(w),
            *edit,
            *old(first),
            row,
            extend,
            stand,
            window@,
            anchor,
            line@,
            *final(d),
            *final(w),
            *final(first),
            r,
        ),
{
    let file: usize = match browser::file_on_row(&d.browser.shown, row) {
        Some(f) => f,
        None => {
            return RowOpened::Nothing;
        },
    };
    assert(d.browser.shown@[row as int] < d.browser.names@.len());
    if d.cull.is_some() || d.cull_at_start.is_some() {
        let entered = cull_opened(d, w, file, extend, stand.size, anchor);
        return RowOpened::Culled { file, entered };
    }
    let opening: bool = d.browser.current.is_none();
    let want = open_frame(d, file, row, extend, stand, window, line);
    let target = show_frame(w, edit, first, opening);
    RowOpened::Opened { file, save: !opening, target, want }
}

/// A row opened in culling, or into it at the start of a run.
fn cull_opened<N, L, G>(
    d: &mut Desk,
    w: &mut Window<N, L, G>,
    file: usize,
    extend: bool,
    size: u32,
    anchor: usize,
) -> (entered: Option<Entered>)
    requires
        old(d).wf(),
        old(d).work.generation < u64::MAX,
        file < old(d).browser.names@.len(),
        old(d).cull is Some || old(d).cull_at_start is Some,
    ensures
        final(d).wf(),
        if old(d).cull is Some {
            &&& entered is None
            &&& *final(w) == *old(w)
            &&& exists|a: Desk|
                #[trigger] row_chosen(*old(d), file, extend, a) && culled(
                    Desk { cull_at_start: None, ..a },
                    file,
                    anchor,
                    *final(d),
                )
        } else {
            &&& entered == Some(
                Entered {
                    save: old(d).browser.current is Some,
                    select: old(d).browser.current,
                },
            )
            &&& cull::window_in(*old(w), *final(w))
            &&& exists|a: Desk, b: Desk|
                #[trigger] row_chosen(*old(d), file, extend, a) && #[trigger] begun(
                    a,
                    size,
                    old(w).panel_tab@,
                    b,
                ) && culled(b, file, anchor, *final(d))
        },
{
    choose_row(d, file, extend);
    let ghost a = *d;
    assert(row_chosen(*old(d), file, extend, a));
    let compare: u32 = match d.cull_at_start {
        Some(n) => n,
        None => 1,
    };
    d.cull_at_start = None;
    let entered = cull::enter_cull(d, w, compare, size);
    let ghost b = *d;
    cull_row(d, file, anchor);
    proof {
        if old(d).cull is None {
            assert(begun(a, size, old(w).panel_tab@, b));
        }
    }
    entered
}

// The frame before.

/// The panel's edit, as it is recorded: the one in hand with what the panel
/// shows of it.
pub open spec fn panel_edit<N: Copy, L, G>(
    st: Editing<N, L, G>,
    w: Window<N, L, G>,
    out: Edit<N, L, G>,
) -> bool {
    exists|e: Edit<N, L, G>|
        #[trigger] copied::same_edit(st.edit, e) && edit::edit_read(e, w, st.target, out)
}

/// The frames' edits with the panel's recorded as the open frame's.
pub open spec fn recorded<N: Copy, L, G>(
    kept: Seq<Edit<N, L, G>>,
    current: Option<usize>,
    st: Editing<N, L, G>,
    w: Window<N, L, G>,
    after: Seq<Edit<N, L, G>>,
) -> bool {
    match current {
        Some(c) => {
            &&& after == kept.update(c as int, after[c as int])
            &&& panel_edit(st, w, after[c as int])
        },
        None => after == kept,
    }
}

/// Every frame's edit can be counted.
pub open spec fn all_countable<N, L, G>(kept: Seq<Edit<N, L, G>>) -> bool {
    forall|i: int| 0 <= i < kept.len() ==> edit::countable(#[trigger] kept[i], 0)
}

proof fn lemma_read_counts<N: Copy, L, G>(
    st: Editing<N, L, G>,
    e: Edit<N, L, G>,
    w: Window<N, L, G>,
    out: Edit<N, L, G>,
)
    requires
        edit::countable(st.edit, 0),
        copied::same_edit(st.edit, e),
        edit::edit_read(e, w, st.target, out),
    ensures
        edit::countable(out, 0),
{
    assert forall|i: int| 0 <= i < out.adjustments@.len() implies (
    #[trigger] out.adjustments@[i]).mask.components@.len() < i32::MAX by {
        let a = st.edit.adjustments@[i];
        assert(copied::same_adjustment(a, e.adjustments@[i]));
        assert(a.mask.components@.len() < i32::MAX);
    }
}

/// The panel's edit, to be recorded.
pub fn outgoing<N: Copy, L: Copy, G: Copy>(st: &Editing<N, L, G>, w: &Window<N, L, G>) -> (out: Edit<
    N,
    L,
    G,
>)
    ensures
        panel_edit(*st, *w, out),
        edit::countable(st.edit, 0) ==> edit::countable(out, 0),
{
    let mut out = copied::copy_edit(&st.edit);
    let ghost e = out;
    edit::read_edit(w, &mut out, st.target);
    proof {
        assert(copied::same_edit(st.edit, e));
        if edit::countable(st.edit, 0) {
            lemma_read_counts(*st, e, *w, out);
        }
    }
    out
}

/// The panel's edit recorded as the open frame's, when there is one.
fn record<N: Copy, L: Copy, G: Copy>(
    kept: &mut Vec<Edit<N, L, G>>,
    current: Option<usize>,
    st: &Editing<N, L, G>,
    w: &Window<N, L, G>,
)
    requires
        current matches Some(c) ==> c < old(kept)@.len(),
        all_countable(old(kept)@),
        edit::countable(st.edit, 0),
    ensures
        final(kept)@.len() == old(kept)@.len(),
        all_countable(final(kept)@),
        recorded(old(kept)@, current, *st, *w, final(kept)@),
{
    if let Some(c) = current {
        let out = outgoing(st, w);
        kept.set(c, out);
    }
}

/// The frames' edits once one was opened: its picture brought up to date
/// where that was waited for.
pub open spec fn brought_up<N, L, G>(
    kept: Seq<Edit<N, L, G>>,
    file: usize,
    migrated: Option<G>,
) -> Seq<Edit<N, L, G>> {
    match migrated {
        Some(g) => kept.update(file as int, Edit { picture: g, ..kept[file as int] }),
        None => kept,
    }
}

fn bring_up<N, L, G: Copy>(kept: &mut Vec<Edit<N, L, G>>, file: usize, migrated: Option<G>)
    requires
        file < old(kept)@.len(),
    ensures
        final(kept)@ == brought_up(old(kept)@, file, migrated),
{
    if let Some(g) = migrated {
        kept[file].picture = g;
        assert(kept@ =~= brought_up(old(kept)@, file, migrated));
    }
}

/// A row reached with a frame open: the panel's edit is recorded as that
/// frame's, then the row's own goes on the panel and is the one in hand.
/// The row of the open frame itself takes what the panel had. `kept` are
/// the frames' edits, and `migrated` is the picture of the row's brought
/// up to date, where its sidecar waited for the frame's shape. In culling
/// the panel is not the frame's, and nothing is recorded.
pub fn row_reached<N: Copy, L: Copy, G: Copy>(
    d: &mut Desk,
    st: &mut Editing<N, L, G>,
    w: &mut Window<N, L, G>,
    kept: &mut Vec<Edit<N, L, G>>,
    migrated: Option<G>,
    first: &mut First,
    row: i32,
    extend: bool,
    stand: StandIn,
    window: &Vec<usize>,
    anchor: usize,
    line: &str,
) -> (r: RowOpened)
    requires
        old(d).wf(),
        old(d).work.generation < u64::MAX,
        old(kept)@.len() == old(d).browser.names@.len(),
        all_countable(old(kept)@),
        edit::countable(old(st).edit, 0),
        selection::ordered(window@),
        old(first).patch matches Some(p) ==> p <= i32::MAX,
    ensures
        final(d).wf(),
        all_countable(final(kept)@),
        match browser::file_at(old(d).browser.shown@, row) {
            None => {
                &&& r is Nothing
                &&& *final(d) == *old(d)
                &&& *final(st) == *old(st)
                &&& *final(w) == *old(w)
                &&& *final(kept) == *old(kept)
                &&& *final(first) == *old(first)
            },
            Some(file) => {
                &&& exists|edit: Edit<N, L, G>|
                    {
                        &&& #[trigger] copied::same_edit(final(kept)@[file as int], edit)
                        &&& row_open(
                            *old(d),
                            *old(w),
                            edit,
                            *old(first),
                            row,
                            extend,
                            stand,
                            window@,
                            anchor,
                            line@,
                            *final(d),
                            *final(w),
                            *final(first),
                            r,
                        )
                        &&& *final(st) == if r is Opened {
                            Editing { edit, target: r->target, placing: None, ..*old(st) }
                        } else if old(d).cull is None {
                            Editing {
                                placing: None,
                                retouching: None,
                                picking: false,
                                ..*old(st)
                            }
                        } else {
                            *old(st)
                        }
                    }
                &&& if old(d).cull is Some {
                    final(kept)@ == old(kept)@
                } else {
                    exists|mid: Seq<Edit<N, L, G>>|
                        {
                            &&& #[trigger] recorded(
                                old(kept)@,
                                old(d).browser.current,
                                *old(st),
                                *old(w),
                                mid,
                            )
                            &&& final(kept)@ == if r is Opened {
                                brought_up(mid, file, migrated)
                            } else {
                                mid
                            }
                        }
                }
            },
        },
{
    let file: usize = match browser::file_on_row(&d.browser.shown, row) {
        Some(f) => f,
        None => {
            return RowOpened::Nothing;
        },
    };
    assert(d.browser.shown@[row as int] < d.browser.names@.len());
    let opens: bool = d.cull.is_none() && d.cull_at_start.is_none();
    let was_off: bool = d.cull.is_none();
    if was_off {
        record(kept, d.browser.current, st, w);
    }
    let ghost mid = kept@;
    if opens {
        bring_up(kept, file, migrated);
        proof {
            assert forall|i: int| 0 <= i < kept@.len() implies edit::countable(
                #[trigger] kept@[i],
                0,
            ) by {
                assert(edit::countable(mid[i], 0));
            }
        }
    }
    let edit = copied::copy_edit(&kept[file]);
    proof {
        lemma_copy_counts(kept@[file as int], edit);
    }
    let r = open_row(d, w, &edit, first, row, extend, stand, window, anchor, line);
    assert(copied::same_edit(kept@[file as int], edit));
    match r {
        RowOpened::Opened { target, .. } => {
            st.edit = edit;
            st.target = target;
            st.placing = None;
        },
        _ => {
            if was_off {
                st.placing = None;
                st.retouching = None;
                st.picking = false;
            }
        },
    }
    r
}

proof fn lemma_copy_counts<N, L, G>(a: Edit<N, L, G>, b: Edit<N, L, G>)
    requires
        edit::countable(a, 0),
        copied::same_edit(a, b),
    ensures
        edit::countable(b, 0),
{
    assert forall|i: int| 0 <= i < b.adjustments@.len() implies (
    #[trigger] b.adjustments@[i]).mask.components@.len() < i32::MAX by {
        assert(copied::same_adjustment(a.adjustments@[i], b.adjustments@[i]));
    }
}

/// Culling mode entered from the develop view: the panel's edit is recorded
/// as the open frame's, then whatever is in hand is put down and the mode
/// is on. Nothing in the mode already.
pub fn mode_entered<N: Copy, L: Copy, G: Copy>(
    d: &mut Desk,
    st: &mut Editing<N, L, G>,
    w: &mut Window<N, L, G>,
    kept: &mut Vec<Edit<N, L, G>>,
    compare: u32,
    size: u32,
) -> (r: Option<Entered>)
    requires
        old(d).wf(),
        old(d).work.generation < u64::MAX,
        old(kept)@.len() == old(d).browser.names@.len(),
        all_countable(old(kept)@),
        edit::countable(old(st).edit, 0),
    ensures
        final(d).wf(),
        all_countable(final(kept)@),
        r is None <==> old(d).cull is Some,
        r is None ==> *final(d) == *old(d) && *final(w) == *old(w) && *final(st) == *old(st)
            && *final(kept) == *old(kept),
        r matches Some(e) ==> {
            &&& cull::entered(*old(d), compare, size, old(w).panel_tab@, *final(d))
            &&& cull::window_in(*old(w), *final(w))
            &&& recorded(
                old(kept)@,
                old(d).browser.current,
                *old(st),
                *old(w),
                final(kept)@,
            )
            &&& *final(st) == (Editing {
                placing: None,
                retouching: None,
                picking: false,
                ..*old(st)
            })
            &&& e == (Entered {
                save: old(d).browser.current is Some,
                select: old(d).browser.current,
            })
        },
{
    if d.cull.is_some() {
        return None;
    }
    record(kept, d.browser.current, st, w);
    st.placing = None;
    st.retouching = None;
    st.picking = false;
    cull::enter_cull(d, w, compare, size)
}

/// A frame left for another is recorded as the panel had it, and what is
/// done to the other, and its own recording, leave that as it is.
pub proof fn a_frame_left_keeps_its_edit<N: Copy, L, G>(
    kept: Seq<Edit<N, L, G>>,
    c: usize,
    st: Editing<N, L, G>,
    w: Window<N, L, G>,
    mid: Seq<Edit<N, L, G>>,
    file: usize,
    migrated: Option<G>,
    other_st: Editing<N, L, G>,
    other_w: Window<N, L, G>,
    later: Seq<Edit<N, L, G>>,
)
    requires
        c < kept.len(),
        file < kept.len(),
        file != c,
        recorded(kept, Some(c), st, w, mid),
        recorded(brought_up(mid, file, migrated), Some(file), other_st, other_w, later),
    ensures
        panel_edit(st, w, later[c as int]),
{
}

// A folder.

/// The desk with the mode, when it is on, at its first row.
pub open spec fn at_first_row(d: Desk) -> Desk {
    Desk {
        cull: match d.cull {
            Some(c) => Some(Cull { anchor: 0, ..c }),
            None => None,
        },
        ..d
    }
}

/// The desk with the last folder left, its pictures let go.
pub open spec fn folder_left(before: Desk, after: Desk) -> bool {
    exists|t: Desk| #[trigger] panel_left(before, t) && cull::pictures_gone(at_first_row(t), after)
}

fn to_first_row(d: &mut Desk)
    requires
        old(d).wf(),
    ensures
        final(d).wf(),
        *final(d) == at_first_row(*old(d)),
{
    match &mut d.cull {
        Some(c) => {
            c.anchor = 0;
        },
        None => {},
    }
}

/// The desk with the frame before let go of the panel.
pub open spec fn panel_left(before: Desk, after: Desk) -> bool {
    let leaves = before.browser.current is Some && before.cull is None;
    &&& after.hands.held == (before.hands.held || (leaves && before.developed))
    &&& after.hands == (Hands { held: after.hands.held, ..before.hands })
    &&& after.fitted == (before.fitted || (leaves && !before.developed))
    &&& after == (Desk { hands: after.hands, fitted: after.fitted, ..before })
}

/// What is held over and whether the view is fitted, for a frame left.
fn left_held(d: &Desk, leaves: bool) -> (r: (bool, bool))
    ensures
        r.0 == (d.hands.held || (leaves && d.developed)),
        r.1 == (d.fitted || (leaves && !d.developed)),
{
    (d.hands.held || (leaves && d.developed), d.fitted || (leaves && !d.developed))
}

/// Whether the panel holds the open frame's edit.
pub fn panel_owned(d: &Desk) -> (r: bool)
    ensures
        r == (d.browser.current is Some && d.cull is None),
{
    d.browser.current.is_some() && d.cull.is_none()
}

fn leave_panel(d: &mut Desk)
    ensures
        panel_left(*old(d), *final(d)),
{
    let leaves: bool = panel_owned(d);
    let (held, fitted) = left_held(d, leaves);
    d.hands.held = held;
    d.fitted = fitted;
}

proof fn lemma_wf(before: Desk, after: Desk)
    requires
        before.wf(),
        panel_left(before, after),
    ensures
        after.wf(),
{
}

fn leave_folder(d: &mut Desk)
    requires
        old(d).wf(),
    ensures
        final(d).wf(),
        folder_left(*old(d), *final(d)),
{
    leave_panel(d);
    let ghost t = *d;
    proof {
        lemma_wf(*old(d), t);
    }
    to_first_row(d);
    cull::let_pictures_go(d);
    assert(panel_left(*old(d), t));
}

/// A desk with another folder's files on it, and nothing open: the last
/// folder left, the rows those that pass, and the line saying `nothing`
/// where there is none to open.
pub open spec fn desk_opened(
    before: Desk,
    files: Seq<String>,
    metas: Seq<Meta>,
    passes: Seq<bool>,
    nothing: Seq<char>,
    opens: bool,
    after: Desk,
) -> bool {
    let b = after.browser;
    &&& b.paths@ == files
    &&& b.separator == before.browser.separator
    &&& text::texts(b.names@) == paths::names_of(files, b.separator)
    &&& b.metas@ == metas
    &&& b.told()
    &&& b.shown@ == browser::passing(passes)
    &&& b.current is None
    &&& b.picked@ == Seq::<usize>::empty()
    &&& b.selected == -1
    &&& b.pictured@ == Seq::new(files.len(), |i: int| false)
    &&& b.stood@ == Seq::new(files.len(), |i: int| None::<browser::Stand>)
    &&& after.work.status@ == if opens {
        before.work.status@
    } else {
        nothing
    }
    &&& after.work == (edit::Work { status: after.work.status, ..before.work })
    &&& exists|t: Desk|
        #[trigger] folder_left(before, t) && after == (Desk {
            browser: after.browser,
            work: after.work,
            ..t
        })
}

/// A new list of files in the browser: the old file left as a normal
/// selection would, its edit to be recorded (`save`) and its picture held
/// on screen until the new one develops. In culling the panel is not the
/// frame's and there is nothing to save; the mode stays on for the new
/// folder. The row to open on is that of `select`, or hidden by the
/// filter the nearest one shown; with nothing shown the line says so
/// (`nothing`).
pub fn open_files(
    d: &mut Desk,
    files: Vec<String>,
    metas: Vec<Meta>,
    passes: &Vec<bool>,
    select: usize,
    nothing: &str,
) -> (r: (bool, Option<usize>))
    requires
        old(d).wf(),
        files@.len() < i32::MAX,
        metas@.len() == files@.len(),
        passes@.len() == files@.len(),
    ensures
        final(d).wf(),
        desk_opened(
            *old(d),
            files@,
            metas@,
            passes@,
            nothing@,
            r.1 is Some,
            *final(d),
        ),
        r.0 == (old(d).browser.current is Some && old(d).cull is None),
        r.1 is Some <==> browser::opening_row(final(d).browser.shown@, select) is Some,
        r.1 matches Some(row) ==> browser::opening_row(final(d).browser.shown@, select) == Some(
            row as int,
        ) && row < final(d).browser.shown@.len(),
{
    let save: bool = panel_owned(d);
    leave_folder(d);
    let ghost t = *d;
    assert(folder_left(*old(d), t));
    let open = browser::new_folder(&mut d.browser, files, metas, passes, select);
    if open.is_none() {
        d.work.status = nothing.to_owned();
    }
    (save, open)
}

// What holds of an opened row.

/// A row opened is the frame on screen: its file is the current one, its
/// row the one selected, its name on the window, and a develop of it asked
/// for. The set is that frame alone, or with what it held.
pub proof fn a_row_opened_is_the_frame_on_screen(
    before: Desk,
    file: usize,
    row: i32,
    extend: bool,
    stand: StandIn,
    window: Seq<usize>,
    line: Seq<char>,
    after: Desk,
    want: Option<Want>,
)
    requires
        before.wf(),
        before.work.generation < u64::MAX,
        file < before.browser.names@.len(),
        opened(before, file, row, extend, stand, window, line, after, want),
    ensures
        after.browser.current == Some(file),
        after.browser.selected == row,
        after.screen.file_name@ == before.browser.names@[file as int]@,
        after.work.generation == before.work.generation + 1,
        after.work.busy,
        after.source_size == (0u32, 0u32),
        !extend ==> (forall|f: usize| #[trigger] after.browser.picked@.contains(f) <==> f == file),
        extend ==> after.browser.picked@.contains(file),
        extend && before.browser.current is Some ==> (forall|f: usize| #[trigger]
            after.browser.picked@.contains(f) <==> before.browser.picked@.contains(f)
                || before.browser.current == Some(f) || f == file),
        after.browser.metas == before.browser.metas && after.browser.names == before.browser.names
            && after.browser.shown == before.browser.shown,
{
    let (a, b, c) = choose|a: Desk, b: Desk, c: Desk|
        {
            &&& #[trigger] row_chosen(before, file, extend, a)
            &&& #[trigger] on_screen(a, file, row, b)
            &&& #[trigger] picture_begun(
                b,
                file,
                stand.size,
                window,
                stand.worth,
                line,
                c,
                want,
            )
            &&& set_put(c, after)
        };
    let n = before.browser.names@.len() as int;
    assert(c.browser == b.browser);
    assert(c.work == b.work);
    let had = selection::chosen(before.browser.picked@, before.browser.current);
    browser::lemma_chosen(before.browser.picked@, before.browser.current, n);
    selection::the_set_has_the_frame_on_screen(before.browser.picked@, before.browser.current);
    selection::a_set_takes_a_file_in_order(had, file, n);
    let picked = picks(before.browser, file, extend);
    if !extend {
        assert(picked[0] == file);
        assert(selection::ordered(picked));
    }
    selection::the_set_has_the_frame_on_screen(picked, Some(file));
    assert forall|f: usize| picked.contains(f) && !extend implies f == file by {
        assert(picked.len() == 1);
    }
}

/// A row that is not there opens nothing; one that is opens its own file,
/// in culling as its JPEG, and the panel then shows that frame's edit.
pub proof fn a_row_opens_its_own_file<N: Copy, L, G>(
    before: Desk,
    w: Window<N, L, G>,
    edit: Edit<N, L, G>,
    first: First,
    row: i32,
    extend: bool,
    stand: StandIn,
    window: Seq<usize>,
    anchor: usize,
    line: Seq<char>,
    after: Desk,
    after_w: Window<N, L, G>,
    after_first: First,
    r: RowOpened,
)
    requires
        edit::countable(edit, 0),
        row_open(
            before,
            w,
            edit,
            first,
            row,
            extend,
            stand,
            window,
            anchor,
            line,
            after,
            after_w,
            after_first,
            r,
        ),
    ensures
        row < 0 || row >= before.browser.shown@.len() ==> r is Nothing && after == before
            && after_w == w,
        0 <= row < before.browser.shown@.len() && before.cull is None && before.cull_at_start
            is None ==> {
            &&& r is Opened
            &&& r->Opened_file == before.browser.shown@[row as int]
            &&& r->save <==> before.browser.current is Some
            &&& after_w.picture == edit.picture
            &&& after_w.look.tone == edit.look.tone
            &&& r->target is None ==> after_w.look == edit.look
            &&& before.browser.current is Some ==> r->target is None
            &&& after_w.placing@.len() == 0
        },
        0 <= row < before.browser.shown@.len() && before.cull is Some ==> {
            &&& r is Culled
            &&& r->Culled_file == before.browser.shown@[row as int]
            &&& after_w == w
        },
{
    reveal_strlit("");
    if 0 <= row < before.browser.shown@.len() && before.cull is None && before.cull_at_start
        is None {
        let opening = before.browser.current is None;
        let t = choose|t: Window<N, L, G>|
            #[trigger] made_ready(w, first, opening, edit, t) && edit::shows_edit(
                edit,
                r->target,
                t,
                after_w,
            );
        edit::showing_puts_the_edit_on_the_panel(edit, r->target, t, after_w);
        edit::lemma_showing_keeps(edit, r->target, t, after_w);
    }
}

/// The panel's edit, as it is recorded, is what the panel shows.
pub proof fn what_is_recorded_is_what_the_panel_shows<N: Copy, L, G>(
    kept: Seq<Edit<N, L, G>>,
    c: usize,
    st: Editing<N, L, G>,
    w: Window<N, L, G>,
    after: Seq<Edit<N, L, G>>,
)
    requires
        c < kept.len(),
        recorded(kept, Some(c), st, w, after),
    ensures
        after.len() == kept.len(),
        after[c as int].picture == w.picture,
        after[c as int].look.tone == w.look.tone,
        st.target is None ==> after[c as int].look.sliders == w.look.sliders,
        st.target matches Some(i) ==> (i < st.edit.adjustments@.len() ==> after[c as int].adjustments@.len()
            == st.edit.adjustments@.len() && after[c as int].adjustments@[i as int].look.sliders
            == w.look.sliders),
        forall|i: int| 0 <= i < kept.len() && i != c ==> #[trigger] after[i] == kept[i],
{
    let out = after[c as int];
    let e = choose|e: Edit<N, L, G>|
        #[trigger] copied::same_edit(st.edit, e) && edit::edit_read(e, w, st.target, out);
    edit::reading_takes_what_the_panel_shows(e, w, st.target, out);
    assert forall|i: int| 0 <= i < kept.len() && i != c implies #[trigger] after[i] == kept[i] by {
        assert(after[i] == kept.update(c as int, after[c as int])[i]);
    }
}

/// A folder opened has its files, in order and under their own names, none
/// of them open, chosen or pictured, and the rows are those that pass.
pub proof fn a_folder_opened_has_its_files(
    before: Desk,
    files: Seq<String>,
    metas: Seq<Meta>,
    passes: Seq<bool>,
    nothing: Seq<char>,
    opens: bool,
    after: Desk,
)
    requires
        passes.len() == files.len() <= usize::MAX,
        desk_opened(before, files, metas, passes, nothing, opens, after),
    ensures
        after.browser.paths@ == files,
        after.browser.metas@ == metas,
        after.browser.names@.len() == files.len(),
        forall|i: int|
            0 <= i < files.len() ==> (#[trigger] after.browser.names@[i])@ == paths::name_of(
                files[i]@,
                before.browser.separator,
            ),
        forall|f: usize| #[trigger]
            after.browser.shown@.contains(f) <==> f < files.len() && passes[f as int],
        after.browser.current is None,
        after.browser.picked@.len() == 0,
        forall|i: int| 0 <= i < files.len() ==> !#[trigger] after.browser.pictured@[i],
        !opens ==> after.work.status@ == nothing,
        opens ==> after.work.status@ == before.work.status@,
        after.work.generation == before.work.generation,
        after.hold is None && after.placeholder is None,
{
    browser::the_rows_are_what_passes(passes);
    let b = after.browser;
    assert(text::texts(b.names@).len() == b.names@.len());
    assert forall|i: int| 0 <= i < files.len() implies (#[trigger] b.names@[i])@
        == paths::name_of(files[i]@, before.browser.separator) by {
        assert(text::texts(b.names@)[i] == paths::names_of(files, b.separator)[i]);
    }
}

/// A row opened out of culling is the frame on screen, with its row
/// selected and its name on the window, and a develop of it on its way;
/// the first file's targets are used once.
pub proof fn an_opened_row_is_on_screen<N: Copy, L, G>(
    before: Desk,
    w: Window<N, L, G>,
    edit: Edit<N, L, G>,
    first: First,
    row: i32,
    extend: bool,
    stand: StandIn,
    window: Seq<usize>,
    anchor: usize,
    line: Seq<char>,
    after: Desk,
    after_w: Window<N, L, G>,
    after_first: First,
    r: RowOpened,
)
    requires
        before.wf(),
        before.work.generation < u64::MAX,
        0 <= row < before.browser.shown@.len(),
        before.browser.shown@[row as int] < before.browser.names@.len(),
        before.cull is None,
        before.cull_at_start is None,
        row_open(
            before,
            w,
            edit,
            first,
            row,
            extend,
            stand,
            window,
            anchor,
            line,
            after,
            after_w,
            after_first,
            r,
        ),
    ensures
        ({
            let file = before.browser.shown@[row as int];
            &&& after.browser.current == Some(file)
            &&& after.browser.selected == row
            &&& after.screen.file_name@ == before.browser.names@[file as int]@
            &&& after.work.generation == before.work.generation + 1
            &&& after.browser.picked@.contains(file)
            &&& !extend ==> (forall|f: usize| #[trigger]
                after.browser.picked@.contains(f) <==> f == file)
        }),
        before.browser.current is None ==> after_first.mask is None && after_first.patch is None,
        before.browser.current is Some ==> after_first == first,
{
    let file = before.browser.shown@[row as int];
    a_row_opened_is_the_frame_on_screen(
        before,
        file,
        row,
        extend,
        stand,
        window,
        line,
        after,
        r->want,
    );
    assert(!extend ==> after.browser.picked@.contains(file));
}

/// The repair and the adjustment asked for at the start are taken up by
/// the first file opened and by no later one, the mask shown with its
/// adjustment, and a tool in hand is put down.
pub proof fn what_was_asked_at_the_start_is_for_the_first_file<N, L, G>(
    before: Window<N, L, G>,
    first: First,
    opening: bool,
    edit: Edit<N, L, G>,
    after: Window<N, L, G>,
)
    requires
        made_ready(before, first, opening, edit, after),
    ensures
        after.placing@ == ""@,
        !opening ==> after.patch == before.patch && after.show_mask == before.show_mask
            && first_target(first, opening, edit) is None,
        first.patch is None ==> after.patch == before.patch,
        opening ==> (first.patch matches Some(p) ==> (p <= i32::MAX ==> after.patch == p)),
        opening ==> (first.mask matches Some(m) ==> (if m < edit.adjustments@.len() {
            first_target(first, opening, edit) == Some(m) && after.show_mask
        } else {
            first_target(first, opening, edit) is None && after.show_mask == before.show_mask
        })),
        first.mask is None ==> first_target(first, opening, edit) is None && after.show_mask
            == before.show_mask,
        after.look == before.look,
        after.panel_tab == before.panel_tab,
{
}

/// A row chosen while culling is the frame shown: its file is the current
/// one, its row the one selected and its name on the window.
pub proof fn a_row_culled_is_the_frame_shown(
    before: Desk,
    file: usize,
    anchor: usize,
    after: Desk,
)
    requires
        culled(before, file, anchor, after),
        browser::row(before.browser.shown@, file) is Some,
    ensures
        after.browser.current == Some(file),
        after.browser.selected == browser::row(before.browser.shown@, file)->0 as i32,
        after.screen.file_name@ == before.browser.names@[file as int]@,
        after.cull is Some <==> before.cull is Some,
        after.work == before.work,
        after.browser.metas == before.browser.metas,
{
    let a = choose|a: Desk| #[trigger] cull::selected(before, file, anchor, a) && set_put(a, after);
    assert(cull::selected(before, file, anchor, a));
}

} // verus!
