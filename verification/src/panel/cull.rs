//! Culling: the camera's JPEG of each frame in the viewport, the ones
//! about the selection decoded ahead of the arrow, and no develop until
//! the mode is left.

use crate::panel::browser::{Browser, Stand};
use crate::panel::browser;
use crate::panel::edit;
use crate::panel::filter::Filter;
use crate::panel::filter;
use crate::panel::mask::Editing;
use crate::panel::mask;
use crate::panel::meta::{Flag, Meta};
use crate::panel::model::{Edit, Window};
use crate::panel::placeholder::{Cache, Cull, Desk, Hands, Screen, Shot, Wait, Want};
use crate::panel::placeholder;
use crate::panel::selection;
use crate::text;
use vstd::prelude::*;

verus! {

/// The panel's tab while culling, which the tab bar does not list: the
/// develop sections go away by their own condition and the CULLING
/// section takes their place.
pub const CULL_TAB: &'static str = "Cull";

/// The least long edge a preview is made at.
pub const LEAST_SIZE: u32 = 1024;

/// The long edge previews are made at: the view's, and no smaller than a
/// strip would be laughable at.
pub open spec fn size_for(width: i32, height: i32) -> int {
    let long = if width > height {
        width as int
    } else {
        height as int
    };
    if long > LEAST_SIZE {
        long
    } else {
        LEAST_SIZE as int
    }
}

pub fn preview_size(width: i32, height: i32) -> (s: u32)
    ensures
        s == size_for(width, height),
{
    let long: i32 = if width > height {
        width
    } else {
        height
    };
    if long > LEAST_SIZE as i32 {
        long as u32
    } else {
        LEAST_SIZE
    }
}

/// How many frames side by side: two or four, and one for anything else.
pub open spec fn side_by_side(n: int) -> int {
    if n == 2 || n == 4 {
        n
    } else {
        1
    }
}

fn compared(n: u32) -> (r: usize)
    ensures
        r == side_by_side(n as int),
{
    match n {
        2 => 2,
        4 => 4,
        _ => 1,
    }
}

// The selection in the mode.

/// The mode with the selection moved to a file.
pub open spec fn moved_to(
    before: Cull,
    was: Option<usize>,
    file: usize,
    anchor: usize,
    after: Cull,
) -> bool {
    &&& after.failed@ == before.failed@.remove(file)
    &&& after == (Cull {
        cache: Cache {
            full: if before.cache.full == Some(file) {
                Some(file)
            } else {
                None
            },
            ..before.cache
        },
        failed: after.failed,
        full_asked: None,
        anchor,
        forward: was is None || file >= was->0,
        switched: true,
        ..before
    })
}

/// The shot line with nothing on it.
pub open spec fn no_shot(s: Shot) -> bool {
    s.camera@ == ""@ && s.exposure@ == ""@ && s.size@ == ""@
}

pub fn blank_shot() -> (s: Shot)
    ensures
        no_shot(s),
{
    Shot { camera: "".to_owned(), exposure: "".to_owned(), size: "".to_owned() }
}

/// The desk with the selection moved to a file in the mode.
pub open spec fn selected(before: Desk, file: usize, anchor: usize, after: Desk) -> bool {
    match browser::row(before.browser.shown@, file) {
        Some(row) => {
            &&& after.screen.file_name@ == before.browser.names@[file as int]@
            &&& no_shot(after.screen.shot)
            &&& match before.cull {
                Some(c) => after.cull is Some && moved_to(
                    c,
                    before.browser.current,
                    file,
                    anchor,
                    after.cull->0,
                ),
                None => after.cull is None,
            }
            &&& after == (Desk {
                browser: Browser {
                    current: Some(file),
                    selected: row as i32,
                    ..before.browser
                },
                cull: after.cull,
                screen: Screen {
                    file_name: after.screen.file_name,
                    shot: after.screen.shot,
                    ..before.screen
                },
                ..before
            })
        },
        None => after == before,
    }
}

/// The selection moves to `file` in culling mode: no develop, the panel
/// left as it is, the frame's JPEG shown from the cache or asked for.
/// `anchor` is the first row of the compared frames for its row. A
/// decode that failed is tried again when the frame comes round: a file
/// being written, a moment's shortage. True when a row shows it.
pub fn cull_select(d: &mut Desk, file: usize, anchor: usize) -> (r: bool)
    requires
        old(d).wf(),
    ensures
        final(d).wf(),
        selected(*old(d), file, anchor, *final(d)),
        r == old(d).browser.shown@.contains(file),
        old(d).browser.told() ==> final(d).browser.told(),
{
    broadcast use vstd::std_specs::hash::group_hash_axioms;

    proof {
        selection::lemma_fits(d.browser.shown@, d.browser.names@.len() as int);
    }
    let row: usize = match browser::row_of(&d.browser.shown, file) {
        Some(row) => row,
        None => {
            return false;
        },
    };
    let was: Option<usize> = d.browser.current;
    assert(d.browser.shown@[row as int] < d.browser.names@.len());
    d.browser.current = Some(file);
    d.browser.selected = row as i32;
    d.screen.file_name = d.browser.names[file].clone();
    d.screen.shot = blank_shot();
    match &mut d.cull {
        Some(c) => {
            c.forward = match was {
                Some(w) => file >= w,
                None => true,
            };
            c.anchor = anchor;
            c.switched = true;
            // A full-size copy is the frame's own; the next one asks for
            // its own if 1:1 is still on.
            c.cache.drop_full_unless(file);
            c.full_asked = None;
            let _why = c.failed.remove(&file);
        },
        None => {},
    }
    proof {
        if old(d).browser.told() {
            assert forall|r: int| 0 <= r < d.browser.thumbs@.len() implies d.browser.row_told(r) by {
                assert(old(d).browser.row_told(r));
            }
        }
    }
    true
}

// The decodes.

/// The rows to decode, in order: the compared frames first, then those
/// about the selection, none twice.
pub open spec fn in_order(rows: Seq<usize>, about: Seq<usize>) -> Seq<usize>
    decreases about.len(),
{
    if about.len() == 0 {
        rows
    } else {
        let before = in_order(rows, about.drop_last());
        if before.contains(about.last()) {
            before
        } else {
            before.push(about.last())
        }
    }
}

/// Whether one of a list is `x`.
fn among(v: &Vec<usize>, x: usize) -> (r: bool)
    ensures
        r == v@.contains(x),
{
    let mut i: usize = 0;
    while i < v.len()
        invariant
            i <= v@.len(),
            forall|k: int| 0 <= k < i ==> #[trigger] v@[k] != x,
        decreases v.len() - i,
    {
        if v[i] == x {
            assert(v@[i as int] == x);
            return true;
        }
        i = i + 1;
    }
    false
}

fn order(rows: &Vec<usize>, about: &Vec<usize>) -> (v: Vec<usize>)
    ensures
        v@ == in_order(rows@, about@),
{
    let mut v = selection::copy(rows);
    let mut i: usize = 0;
    assert(about@.take(0) =~= seq![]);
    while i < about.len()
        invariant
            i <= about@.len(),
            v@ == in_order(rows@, about@.take(i as int)),
        decreases about.len() - i,
    {
        if !among(&v, about[i]) {
            v.push(about[i]);
        }
        i = i + 1;
        assert(about@.take(i as int).drop_last() =~= about@.take(i - 1));
    }
    assert(about@.take(i as int) =~= about@);
    v
}

/// The files of rows, as a set.
pub open spec fn files_of(shown: Seq<usize>, rows: Seq<usize>) -> Seq<usize>
    decreases rows.len(),
{
    if rows.len() == 0 {
        seq![]
    } else {
        selection::with(files_of(shown, rows.drop_last()), shown[rows.last() as int])
    }
}

/// Every row is one there is.
pub open spec fn rows_in(rows: Seq<usize>, count: nat) -> bool {
    forall|i: int| 0 <= i < rows.len() ==> #[trigger] rows[i] < count
}

fn files_on(shown: &Vec<usize>, rows: &Vec<usize>) -> (v: Vec<usize>)
    requires
        rows_in(rows@, shown@.len()),
    ensures
        v@ == files_of(shown@, rows@),
        selection::ordered(v@),
{
    let mut v: Vec<usize> = Vec::new();
    let mut i: usize = 0;
    assert(rows@.take(0) =~= seq![]);
    while i < rows.len()
        invariant
            i <= rows@.len(),
            rows_in(rows@, shown@.len()),
            selection::ordered(v@),
            v@ == files_of(shown@, rows@.take(i as int)),
        decreases rows.len() - i,
    {
        selection::put(&mut v, shown[rows[i]]);
        i = i + 1;
        assert(rows@.take(i as int).drop_last() =~= rows@.take(i - 1));
    }
    assert(rows@.take(i as int) =~= rows@);
    v
}

/// The files of `rows` to decode at the view's size: those not in hand
/// and not known to have no picture.
pub open spec fn missing(
    shown: Seq<usize>,
    rows: Seq<usize>,
    c: Cull,
) -> Seq<Want>
    decreases rows.len(),
{
    if rows.len() == 0 {
        seq![]
    } else {
        let before = missing(shown, rows.drop_last(), c);
        let f = shown[rows.last() as int];
        if c.cache.screen@.contains(f) || c.failed@.contains_key(f) {
            before
        } else {
            before.push(Want { file: f, size: c.size })
        }
    }
}

/// The decodes wanted: a full-size copy of a frame at a zoom before any
/// of them, then those of the rows.
pub open spec fn wanted(
    shown: Seq<usize>,
    rows: Seq<usize>,
    c: Cull,
    file: usize,
    fitted: bool,
    own_size: bool,
) -> Seq<Want> {
    let full: Seq<Want> = if !fitted && !own_size && !c.failed@.contains_key(file) {
        seq![Want { file, size: 0 }]
    } else {
        seq![]
    };
    full + missing(shown, rows, c)
}

/// The mode with only the window's pictures kept.
pub open spec fn kept_in(before: Cull, window: Seq<usize>, file: usize, after: Cull) -> bool {
    &&& after.cache.screen@ == selection::pruned(before.cache.screen@, window)
    &&& after.cache.full == if before.cache.full == Some(file) {
        Some(file)
    } else {
        None
    }
    &&& after.textured@ == selection::pruned(before.textured@, window)
    &&& after == (Cull { cache: after.cache, textured: after.textured, ..before })
}

fn put_missing(shown: &Vec<usize>, rows: &Vec<usize>, c: &Cull, wants: &mut Vec<Want>)
    requires
        rows_in(rows@, shown@.len()),
        c.wf(),
    ensures
        final(wants)@ == old(wants)@ + missing(shown@, rows@, *c),
{
    broadcast use vstd::std_specs::hash::group_hash_axioms;

    let mut i: usize = 0;
    assert(rows@.take(0) =~= seq![]);
    assert(wants@ =~= old(wants)@ + missing(shown@, rows@.take(0), *c));
    while i < rows.len()
        invariant
            i <= rows@.len(),
            rows_in(rows@, shown@.len()),
            c.wf(),
            wants@ == old(wants)@ + missing(shown@, rows@.take(i as int), *c),
        decreases rows.len() - i,
    {
        let f: usize = shown[rows[i]];
        let ghost before = wants@;
        if !(selection::has(&c.cache.screen, f) || c.failed.contains_key(&f)) {
            wants.push(Want { file: f, size: c.size });
        }
        i = i + 1;
        proof {
            let done = rows@.take(i as int);
            assert(done.drop_last() =~= rows@.take(i - 1));
            assert(wants@ =~= old(wants)@ + missing(shown@, done, *c));
        }
    }
    assert(rows@.take(i as int) =~= rows@);
}

/// The decodes wanted now, in order: the compared frames (`rows`) first,
/// then the window about the selection outward (`about`), the way the
/// arrow went first; a full-size copy of the frame at a zoom before any
/// of them, unless its picture in hand is at its own size already. The
/// whole list every time, less what is in hand. What is on neither a
/// `kept` row nor a compared one is dropped. Nothing changes with no
/// frame shown.
pub fn cull_refresh(
    d: &mut Desk,
    rows: &Vec<usize>,
    about: &Vec<usize>,
    kept: &Vec<usize>,
    own_size: bool,
) -> (wants: Option<Vec<Want>>)
    requires
        old(d).wf(),
        rows_in(rows@, old(d).browser.shown@.len()),
        rows_in(about@, old(d).browser.shown@.len()),
        rows_in(kept@, old(d).browser.shown@.len()),
    ensures
        final(d).wf(),
        ({
            let b = old(d).browser;
            &&& wants is Some <==> old(d).cull is Some && b.current is Some && b.shown@.contains(
                b.current->0,
            )
            &&& wants is None ==> *final(d) == *old(d)
            &&& wants matches Some(v) ==> {
                let c = b.current->0;
                &&& final(d).cull is Some
                &&& *final(d) == (Desk { cull: final(d).cull, ..*old(d) })
                &&& kept_in(
                    old(d).cull->0,
                    files_of(b.shown@, kept@ + rows@),
                    c,
                    final(d).cull->0,
                )
                &&& v@ == wanted(
                    b.shown@,
                    in_order(rows@, about@),
                    final(d).cull->0,
                    c,
                    old(d).fitted,
                    own_size,
                )
            }
        }),
{
    broadcast use vstd::std_specs::hash::group_hash_axioms;

    let file: usize = match d.browser.current {
        Some(c) => c,
        None => {
            return None;
        },
    };
    if !selection::has(&d.browser.shown, file) || d.cull.is_none() {
        return None;
    }
    let fitted: bool = d.fitted;
    let mut all: Vec<usize> = selection::copy(kept);
    let mut i: usize = 0;
    while i < rows.len()
        invariant
            i <= rows@.len(),
            all@ =~= kept@ + rows@.take(i as int),
        decreases rows.len() - i,
    {
        all.push(rows[i]);
        i = i + 1;
    }
    assert(rows@.take(i as int) =~= rows@);
    let window = files_on(&d.browser.shown, &all);
    let list = order(rows, about);
    proof {
        lemma_order_in(rows@, about@, d.browser.shown@.len());
    }
    let mut wants: Vec<Want> = Vec::new();
    match &mut d.cull {
        Some(c) => {
            proof {
                selection::a_hidden_frame_leaves_the_set(c.textured@, window@, usize::MAX + 1);
            }
            c.cache.keep(&window, file);
            c.textured = selection::prune(&c.textured, &window);
            if !fitted && !own_size && !c.failed.contains_key(&file) {
                wants.push(Want { file, size: 0 });
            }
            put_missing(&d.browser.shown, &list, c, &mut wants);
        },
        None => {},
    }
    assert(wants@ =~= wanted(
        old(d).browser.shown@,
        in_order(rows@, about@),
        d.cull->0,
        file,
        fitted,
        own_size,
    ));
    Some(wants)
}

proof fn lemma_order_in(rows: Seq<usize>, about: Seq<usize>, count: nat)
    requires
        rows_in(rows, count),
        rows_in(about, count),
    ensures
        rows_in(in_order(rows, about), count),
    decreases about.len(),
{
    if about.len() > 0 {
        let less = about.drop_last();
        assert(rows_in(less, count)) by {
            assert forall|i: int| 0 <= i < less.len() implies #[trigger] less[i] < count by {
                assert(about[i] < count);
            }
        }
        lemma_order_in(rows, less, count);
        let all = in_order(rows, about);
        assert forall|i: int| 0 <= i < all.len() implies #[trigger] all[i] < count by {
            assert(about[about.len() - 1] < count);
            let before = in_order(rows, less);
            if i < before.len() {
                assert(before[i] < count);
            }
        }
    }
}


/// Nothing in hand is decoded again, nor a file that has no picture, and
/// every file wanted is one of the rows'.
pub proof fn what_is_in_hand_is_not_wanted(shown: Seq<usize>, rows: Seq<usize>, c: Cull, k: int)
    requires
        0 <= k < missing(shown, rows, c).len(),
    ensures
        ({
            let w = missing(shown, rows, c)[k];
            &&& !c.cache.screen@.contains(w.file)
            &&& !c.failed@.contains_key(w.file)
            &&& exists|i: int| 0 <= i < rows.len() && w.file == shown[#[trigger] rows[i] as int]
        }),
    decreases rows.len(),
{
    let less = rows.drop_last();
    let before = missing(shown, less, c);
    if k < before.len() {
        what_is_in_hand_is_not_wanted(shown, less, c, k);
        let i = choose|i: int|
            0 <= i < less.len() && before[k].file == shown[#[trigger] less[i] as int];
        assert(rows[i] == less[i]);
    } else {
        assert(rows[rows.len() - 1] == rows.last());
    }
}

// In and out.

/// The desk just in the mode, before the selection is shown.
pub open spec fn entered(
    before: Desk,
    compare: u32,
    size: u32,
    tab: Seq<char>,
    after: Desk,
) -> bool {
    let n = side_by_side(compare as int);
    exists|d: Desk|
        {
            &&& #[trigger] placeholder::dropped(before, d)
            &&& after.cull matches Some(c) && {
                &&& c.wf()
                &&& c.tab_kept@ == tab
                &&& c.cache.screen@.len() == 0
                &&& c.cache.full is None
                &&& c.failed@ == Map::<usize, String>::empty()
                &&& c.textured@.len() == 0
                &&& c.status@ == ""@
                &&& c.compare == n
                &&& c.anchor == 0
                &&& c.forward
                &&& c.size == size
                &&& c.full_asked is None
                &&& !c.switched
                &&& !c.turned
            }
            &&& after == (Desk {
                cull: after.cull,
                hold: None,
                hands: Hands::bare(),
                work: edit::Work {
                    generation: (before.work.generation + 1) as u64,
                    busy: false,
                    ..d.work
                },
                screen: Screen {
                    culling: true,
                    compare: n as i32,
                    navigator: false,
                    scopes: false,
                    ..d.screen
                },
                fitted: before.fitted || before.browser.current is Some,
                image_size: (0, 0),
                ..d
            })
        }
}

/// The window in the mode: nothing in hand, and the Cull tab.
pub open spec fn window_in<N, L, G>(before: Window<N, L, G>, after: Window<N, L, G>) -> bool {
    &&& after.placing@ == ""@
    &&& after.retouch_mode@ == ""@
    &&& after.picking@ == ""@
    &&& after.panel_tab@ == CULL_TAB@
    &&& after == (Window {
        placing: after.placing,
        retouch_mode: after.retouch_mode,
        picking: after.picking,
        panel_tab: after.panel_tab,
        ..before
    })
}

/// What entering the mode asks of the caller.
#[derive(Debug, Clone, Copy, PartialEq, Eq, Structural)]
pub struct Entered {
    /// The panel's edit is the open frame's: it is recorded and written.
    pub save: bool,
    /// The frame to show from its JPEG.
    pub select: Option<usize>,
}

/// Into culling mode: whatever is in hand is put down and the edit on the
/// panel written, since neither can act on the camera's picture; a
/// develop on its way is dropped; the panel shows the CULLING section in
/// place of the develop tabs'; and the frame the selection is on is to
/// be shown from its JPEG, at a long edge of `size`. Nothing in the mode
/// already. At the start the command line's zoom stands.
pub fn enter_cull<N, L, G>(
    d: &mut Desk,
    w: &mut Window<N, L, G>,
    compare: u32,
    size: u32,
) -> (r: Option<Entered>)
    requires
        old(d).wf(),
        old(d).work.generation < u64::MAX,
    ensures
        final(d).wf(),
        r is None <==> old(d).cull is Some,
        r is None ==> *final(d) == *old(d) && *final(w) == *old(w),
        r matches Some(e) ==> {
            &&& entered(*old(d), compare, size, old(w).panel_tab@, *final(d))
            &&& window_in(*old(w), *final(w))
            &&& e == (Entered {
                save: old(d).browser.current is Some,
                select: old(d).browser.current,
            })
        },
{
    if d.cull.is_some() {
        return None;
    }
    w.placing = "".to_owned();
    w.retouch_mode = "".to_owned();
    w.picking = "".to_owned();
    let tab = w.panel_tab.clone();
    w.panel_tab = CULL_TAB.to_owned();
    let _was = placeholder::drop_placeholder(d);
    let ghost dropped = *d;
    d.hands = Hands::empty();
    d.hold = None;
    d.work.generation = d.work.generation + 1;
    d.work.busy = false;
    d.screen.navigator = false;
    d.screen.scopes = false;
    d.screen.culling = true;
    let mut c = Cull::new(tab, size);
    c.compare = compared(compare);
    d.screen.compare = c.compare as i32;
    d.cull = Some(c);
    // Fitted, as a file opens.
    if d.browser.current.is_some() {
        d.fitted = true;
    }
    d.image_size = (0, 0);
    assert(placeholder::dropped(*old(d), dropped));
    Some(Entered { save: d.browser.current.is_some(), select: d.browser.current })
}

/// What leaving the mode asks of the caller.
#[derive(Debug, Clone, Copy, PartialEq, Eq, Structural)]
pub enum Left {
    /// It was not on.
    Nothing,
    /// It is off, with nothing open.
    Blank,
    /// The frame is opened and developed; with a control's change on it,
    /// it is written once the panel rests.
    Develop { file: usize, generation: u64, save: bool },
}

/// The mode's pictures held for the frame it was left on.
pub open spec fn held_for(before: Cull, file: usize, after: Cull) -> bool {
    &&& after.textured@ == selection::pruned(before.textured@, seq![file])
    &&& after == (Cull { compare: 1, textured: after.textured, ..before })
}

/// The window out of the mode, with the camera's picture up where there
/// is one.
pub open spec fn screen_left(before: Screen, up: bool, line: Seq<char>, after: Screen) -> bool {
    let off = Screen { culling: false, ..before };
    if up {
        &&& after.placeholder_status@ == line
        &&& after == (Screen {
            placeholder_status: after.placeholder_status,
            ..placeholder::overlays(off, true)
        })
    } else {
        after == off
    }
}

/// The desk out of the mode on a frame, whose develop is asked for: the
/// camera's picture stays up until that lands, where the loupe had one.
pub open spec fn left_on(before: Desk, file: usize, line: Seq<char>, after: Desk) -> bool {
    let generation = (before.work.generation + 1) as u64;
    let up = before.cull->0.cache.has_best(file);
    &&& after.cull is None
    &&& after.hold is Some
    &&& held_for(before.cull->0, file, after.hold->0)
    &&& after.placeholder == if up {
        Some(Wait { file, generation, showing: Some(file) })
    } else {
        before.placeholder
    }
    &&& after.work.status@ == "developing..."@
    &&& after.work == (edit::Work {
        generation,
        busy: true,
        status: after.work.status,
        ..before.work
    })
    &&& screen_left(before.screen, up, line, after.screen)
    &&& after.fitted
    &&& after.image_size == (0u32, 0u32)
    &&& after.browser == before.browser
    &&& after.hands == before.hands
    &&& after.source_size == before.source_size
    &&& after.developed == before.developed
    &&& after.cull_at_start == before.cull_at_start
}

/// The desk out of the mode with nothing open.
pub open spec fn left_blank(before: Desk, after: Desk) -> bool {
    &&& after.cull is None
    &&& after.hold is None
    &&& after.placeholder is None
    &&& after.work.status@ == ""@
    &&& after.work == (edit::Work { status: after.work.status, ..before.work })
    &&& if before.placeholder is Some {
        &&& after.screen.placeholder_status@ == ""@
        &&& after.screen == (Screen {
            culling: false,
            placeholder: false,
            placeholder_status: after.screen.placeholder_status,
            ..before.screen
        })
    } else {
        after.screen == (Screen { culling: false, ..before.screen })
    }
    &&& after.fitted == before.fitted
    &&& after.image_size == before.image_size
    &&& after.browser == before.browser
    &&& after.hands == before.hands
    &&& after.source_size == before.source_size
    &&& after.developed == before.developed
    &&& after.cull_at_start == before.cull_at_start
}

fn hold_for(c: &mut Cull, file: usize)
    requires
        old(c).wf(),
    ensures
        final(c).wf(),
        held_for(*old(c), file, *final(c)),
{
    let mut one: Vec<usize> = Vec::new();
    one.push(file);
    assert(one@ =~= seq![file]);
    proof {
        selection::a_hidden_frame_leaves_the_set(c.textured@, one@, usize::MAX + 1);
    }
    c.compare = 1;
    c.textured = selection::prune(&c.textured, &one);
}

/// Out of the mode with nothing open.
fn leave_blank(d: &mut Desk)
    requires
        old(d).wf(),
    ensures
        final(d).wf(),
        left_blank(*old(d), *final(d)),
{
    let _was = placeholder::drop_placeholder(d);
    d.cull = None;
    d.screen.culling = false;
    d.hold = None;
    d.work.status = "".to_owned();
}

/// The mode's pictures into the develop view's keeping; whether there is
/// one of the frame.
fn hand_over(d: &mut Desk, file: usize) -> (up: bool)
    requires
        old(d).wf(),
        old(d).cull is Some,
    ensures
        final(d).wf(),
        final(d).hold is Some,
        held_for(old(d).cull->0, file, final(d).hold->0),
        *final(d) == (Desk { cull: None, hold: final(d).hold, ..*old(d) }),
        up == old(d).cull->0.cache.has_best(file),
{
    let mut cull: Option<Cull> = None;
    std::mem::swap(&mut cull, &mut d.cull);
    let mut up: bool = false;
    match &mut cull {
        Some(c) => {
            up = c.cache.best(file);
            // Only the one frame's picture is needed until the develop
            // lands.
            hold_for(c, file);
        },
        None => {},
    }
    d.hold = cull;
    up
}

fn leave_screen(s: &mut Screen, up: bool, line: &str)
    ensures
        screen_left(*old(s), up, line@, *final(s)),
{
    s.culling = false;
    if up {
        placeholder::show_overlays(s, true);
        placeholder::say_placeholder(s, line);
    }
}

/// Out of the mode on a frame.
fn leave_on(d: &mut Desk, file: usize, line: &str)
    requires
        old(d).wf(),
        old(d).cull is Some,
        old(d).work.generation < u64::MAX,
    ensures
        final(d).wf(),
        left_on(*old(d), file, line@, *final(d)),
{
    let up: bool = hand_over(d, file);
    let job = edit::develop_now(&mut d.work, 0);
    let wait: Option<Wait> = if up {
        Some(Wait::held(file, job.generation))
    } else {
        d.placeholder
    };
    d.placeholder = wait;
    leave_screen(&mut d.screen, up, line);
    d.fitted = true;
    d.image_size = (0, 0);
}

/// Out of culling mode, on to the frame the selection is on: the panel's
/// tab comes back, the frame's edit (or that edit plus the control that
/// was reached for) goes on the panel, and its real develop is asked
/// for. The camera's picture stays on screen until that lands, when the
/// viewport swaps to ours in one frame: they differ by design, and a
/// blend would hide that. A mode left before its first decode has
/// nothing standing in. `differs` is whether the edit is not the
/// sidecar's; `line` says what the picture is.
pub fn leave_cull<N: Copy, L: Copy, G: Copy>(
    d: &mut Desk,
    w: &mut Window<N, L, G>,
    edit: &Edit<N, L, G>,
    differs: bool,
    line: &str,
) -> (l: Left)
    requires
        old(d).wf(),
        old(d).work.generation < u64::MAX,
        edit::countable(*edit, 0),
    ensures
        final(d).wf(),
        match old(d).cull {
            None => l is Nothing && *final(d) == *old(d) && *final(w) == *old(w),
            Some(c) => match old(d).browser.current {
                None => {
                    &&& l is Blank
                    &&& left_blank(*old(d), *final(d))
                    &&& final(w).panel_tab@ == c.tab_kept@
                    &&& *final(w) == (Window { panel_tab: final(w).panel_tab, ..*old(w) })
                },
                Some(file) => {
                    &&& l == (Left::Develop {
                        file,
                        generation: (old(d).work.generation + 1) as u64,
                        save: differs,
                    })
                    &&& left_on(*old(d), file, line@, *final(d))
                    &&& exists|tab: String|
                        #[trigger] tab_back(c, tab) && edit::shows_edit(
                            *edit,
                            None,
                            Window { panel_tab: tab, ..*old(w) },
                            *final(w),
                        )
                },
            },
        },
{
    match &d.cull {
        None => {
            return Left::Nothing;
        },
        Some(c) => {
            w.panel_tab = c.tab_kept.clone();
        },
    }
    assert(tab_back(d.cull->0, w.panel_tab));
    match d.browser.current {
        None => {
            leave_blank(d);
            Left::Blank
        },
        Some(file) => {
            leave_on(d, file, line);
            edit::show_edit(edit, w, None);
            Left::Develop { file, generation: d.work.generation, save: differs }
        },
    }
}

/// The tab before the mode.
pub open spec fn tab_back(c: Cull, tab: String) -> bool {
    tab@ == c.tab_kept@
}

/// The panel back on a frame's edit, on another tab than the one it was
/// left on.
pub open spec fn back_on<N: Copy, L, G>(
    c: Cull,
    edit: Edit<N, L, G>,
    before: Window<N, L, G>,
    tab: Seq<char>,
    after: Window<N, L, G>,
) -> bool {
    &&& after.panel_tab@ == tab
    &&& exists|kept: String, shown: Window<N, L, G>|
        {
            &&& #[trigger] tab_back(c, kept)
            &&& #[trigger] edit::shows_edit(
                edit,
                None,
                Window { panel_tab: kept, ..before },
                shown,
            )
            &&& after == (Window { panel_tab: after.panel_tab, ..shown })
        }
}

/// A control moved. Out of culling the edit in hand takes what the panel
/// shows. In culling it is the way out of it: the frame develops with that
/// control as set (`edit`, which takes the place of the one in hand).
pub fn control_moved<N: Copy, L: Copy, G: Copy>(
    d: &mut Desk,
    st: &mut Editing<N, L, G>,
    w: &mut Window<N, L, G>,
    edit: Edit<N, L, G>,
    differs: bool,
    line: &str,
) -> (l: Left)
    requires
        old(d).wf(),
        old(d).work.generation < u64::MAX,
        edit::countable(edit, 0),
    ensures
        final(d).wf(),
        match old(d).cull {
            None => {
                &&& l is Nothing
                &&& *final(d) == *old(d)
                &&& *final(w) == *old(w)
                &&& edit::edit_read(old(st).edit, *old(w), old(st).target, final(st).edit)
                &&& *final(st) == (Editing { edit: final(st).edit, ..*old(st) })
            },
            Some(c) => match old(d).browser.current {
                None => {
                    &&& l is Blank
                    &&& left_blank(*old(d), *final(d))
                    &&& final(w).panel_tab@ == c.tab_kept@
                    &&& *final(w) == (Window { panel_tab: final(w).panel_tab, ..*old(w) })
                    &&& *final(st) == *old(st)
                },
                Some(file) => {
                    &&& l == (Left::Develop {
                        file,
                        generation: (old(d).work.generation + 1) as u64,
                        save: differs,
                    })
                    &&& left_on(*old(d), file, line@, *final(d))
                    &&& *final(st) == (Editing { edit, target: None, ..*old(st) })
                    &&& exists|tab: String|
                        #[trigger] tab_back(c, tab) && edit::shows_edit(
                            edit,
                            None,
                            Window { panel_tab: tab, ..*old(w) },
                            *final(w),
                        )
                },
            },
        },
{
    let l = leave_cull(d, w, &edit, differs, line);
    match l {
        Left::Nothing => {
            edit::read_edit(w, &mut st.edit, st.target);
        },
        Left::Blank => {},
        Left::Develop { .. } => {
            st.target = None;
            st.edit = edit;
        },
    }
    l
}

/// A tab reached. In culling it is the way out of it, on to that tab, with
/// the frame's edit (`edit`, which takes the place of the one in hand) on
/// the panel.
pub fn tab_reached<N: Copy, L: Copy, G: Copy>(
    d: &mut Desk,
    st: &mut Editing<N, L, G>,
    w: &mut Window<N, L, G>,
    edit: Edit<N, L, G>,
    differs: bool,
    line: &str,
    tab: &str,
) -> (l: Left)
    requires
        old(d).wf(),
        old(d).work.generation < u64::MAX,
        edit::countable(old(st).edit, 0),
        edit::countable(edit, 0),
    ensures
        final(d).wf(),
        match old(d).cull {
            None => {
                &&& l is Nothing
                &&& *final(d) == *old(d)
                &&& mask::tabbed(*old(st), *old(w), tab@, *final(st), *final(w))
            },
            Some(c) => match old(d).browser.current {
                None => {
                    &&& l is Blank
                    &&& left_blank(*old(d), *final(d))
                    &&& exists|mid: Window<N, L, G>|
                        {
                            &&& mid.panel_tab@ == tab@
                            &&& mid == (Window { panel_tab: mid.panel_tab, ..*old(w) })
                            &&& #[trigger] mask::tabbed(
                                *old(st),
                                mid,
                                tab@,
                                *final(st),
                                *final(w),
                            )
                        }
                },
                Some(file) => {
                    &&& l == (Left::Develop {
                        file,
                        generation: (old(d).work.generation + 1) as u64,
                        save: differs,
                    })
                    &&& left_on(*old(d), file, line@, *final(d))
                    &&& exists|mid_st: Editing<N, L, G>, mid: Window<N, L, G>|
                        {
                            &&& back_on(c, edit, *old(w), tab@, mid)
                            &&& mid_st == (Editing { edit, target: None, ..*old(st) })
                            &&& #[trigger] mask::tabbed(
                                mid_st,
                                mid,
                                tab@,
                                *final(st),
                                *final(w),
                            )
                        }
                },
            },
        },
{
    let ghost c = d.cull;
    let l = leave_cull(d, w, &edit, differs, line);
    match l {
        Left::Nothing => {},
        Left::Blank => {
            w.panel_tab = tab.to_owned();
        },
        Left::Develop { .. } => {
            let ghost shown = *w;
            st.target = None;
            st.edit = edit;
            w.panel_tab = tab.to_owned();
            proof {
                let kept = choose|kept: String|
                    #[trigger] tab_back(c->0, kept) && edit::shows_edit(
                        edit,
                        None,
                        Window { panel_tab: kept, ..*old(w) },
                        shown,
                    );
                assert(tab_back(c->0, kept));
                assert(back_on(c->0, edit, *old(w), tab@, *w));
            }
        },
    }
    let ghost mid = *w;
    let ghost mid_st = *st;
    let _next = mask::tab_changed(st, w, tab);
    assert(mask::tabbed(mid_st, mid, tab@, *st, *w));
    l
}

/// What the culling key does.
#[derive(Debug, Clone, Copy, PartialEq, Eq, Structural)]
pub enum Toggled {
    Leave,
    Enter,
    /// There is nothing to cull, and the line says so.
    Empty,
}

pub fn cull_toggled(d: &mut Desk) -> (t: Toggled)
    ensures
        t == if old(d).cull is Some {
            Toggled::Leave
        } else if old(d).browser.current is Some {
            Toggled::Enter
        } else {
            Toggled::Empty
        },
        t is Empty ==> {
            &&& final(d).work.status@ == "nothing to cull: open a folder"@
            &&& *final(d) == (Desk {
                work: edit::Work { status: final(d).work.status, ..old(d).work },
                ..*old(d)
            })
        },
        !(t is Empty) ==> *final(d) == *old(d),
{
    if d.cull.is_some() {
        Toggled::Leave
    } else if d.browser.current.is_some() {
        Toggled::Enter
    } else {
        d.work.status = "nothing to cull: open a folder".to_owned();
        Toggled::Empty
    }
}

/// The compare view changed to `n` frames: the row and the key agree with
/// the count whether or not the mode takes it. In the mode the tiles are
/// another size: fitted afresh, from row `anchor`.
pub fn compare_changed(d: &mut Desk, n: u32, anchor: usize)
    requires
        old(d).wf(),
    ensures
        final(d).wf(),
        ({
            let count = side_by_side(n as int);
            let screen = Screen { compare: count as i32, ..old(d).screen };
            match old(d).cull {
                Some(c) => *final(d) == (Desk {
                    cull: Some(Cull { compare: count as usize, anchor, ..c }),
                    screen,
                    fitted: true,
                    image_size: (0, 0),
                    ..*old(d)
                }),
                None => *final(d) == (Desk { screen, ..*old(d) }),
            }
        }),
{
    let count: usize = compared(n);
    d.screen.compare = count as i32;
    match &mut d.cull {
        Some(c) => {
            c.compare = count;
            c.anchor = anchor;
        },
        None => {
            return;
        },
    }
    d.fitted = true;
    d.image_size = (0, 0);
}


// What the loupe says.

/// A picture of a frame as the loupe has it.
#[derive(Debug, Clone, Copy)]
pub struct Seen {
    pub width: u32,
    pub height: u32,
    /// A small preview, and not the camera's JPEG.
    pub small: bool,
    /// Its own pixels, and not a screen-size copy.
    pub own_size: bool,
}

pub open spec fn mode_text(compare: usize) -> Seq<char> {
    if compare > 1 {
        "culling, "@ + text::decimal(compare as nat) + " up"@
    } else {
        "culling"@
    }
}

/// What is on screen.
pub open spec fn what_text(p: Seen) -> Seq<char> {
    (if p.small {
        "a small camera preview, "@
    } else {
        "the camera JPEG, "@
    }) + text::decimal(p.width as nat) + " \u{d7} "@ + text::decimal(p.height as nat)
}

/// How it is: fitted, or at a percentage of its own pixels.
pub open spec fn at_text(percent: Option<u32>, own_size: bool) -> Seq<char> {
    match percent {
        None => "fitted"@,
        Some(n) => text::decimal(n as nat) + "% of its own pixels"@ + (if own_size {
            ""@
        } else {
            ", the screen-size copy until the full one is decoded"@
        }),
    }
}

pub open spec fn status_text(
    compare: usize,
    failed: Option<Seq<char>>,
    seen: Option<Seen>,
    percent: Option<u32>,
) -> Seq<char> {
    let mode = mode_text(compare);
    match failed {
        Some(why) => mode + ": no camera preview ("@ + why + "); Enter develops the frame"@,
        None => match seen {
            None => mode + ": decoding the camera JPEG..."@,
            Some(p) => mode + ": "@ + what_text(p) + ", "@ + at_text(percent, p.own_size)
                + ", through the monitor profile only; Enter develops"@,
        },
    }
}

/// The culling loupe's status line: what mode the viewport is in, what is
/// shown of the frame and at what, and what a small preview is. `failed`
/// is why the frame has no picture, `seen` the picture on screen, and
/// `percent` the zoom, none for a fitted view.
pub fn cull_status(
    compare: usize,
    failed: Option<&str>,
    seen: Option<Seen>,
    percent: Option<u32>,
) -> (s: String)
    ensures
        s@ == status_text(
            compare,
            match failed {
                Some(why) => Some(why@),
                None => None,
            },
            seen,
            percent,
        ),
{
    let mut s = "culling".to_owned();
    if compare > 1 {
        s = "culling, ".to_owned();
        text::put_decimal(&mut s, compare as u64);
        s.append(" up");
    }
    assert(s@ == mode_text(compare));
    if let Some(why) = failed {
        s.append(": no camera preview (");
        s.append(why);
        s.append("); Enter develops the frame");
        return s;
    }
    let p: Seen = match seen {
        Some(p) => p,
        None => {
            s.append(": decoding the camera JPEG...");
            return s;
        },
    };
    s.append(": ");
    let mut what = if p.small {
        "a small camera preview, ".to_owned()
    } else {
        "the camera JPEG, ".to_owned()
    };
    text::put_decimal(&mut what, p.width as u64);
    what.append(" \u{d7} ");
    text::put_decimal(&mut what, p.height as u64);
    let mut at = "fitted".to_owned();
    if let Some(n) = percent {
        at = text::decimal_of(n as u64);
        at.append("% of its own pixels");
        if p.own_size {
            at.append("");
        } else {
            at.append(", the screen-size copy until the full one is decoded");
        }
    }
    s.append(what.as_str());
    s.append(", ");
    s.append(at.as_str());
    s.append(", through the monitor profile only; Enter develops");
    s
}

/// What the camera's picture standing in for a develop is, in the culling
/// loupe's words.
pub fn placeholder_status(width: u32, height: u32, small: bool) -> (s: String)
    ensures
        s@ == "camera preview: "@ + what_text(Seen { width, height, small, own_size: false })
            + ", fitted, through the monitor profile only; developing..."@,
{
    let mut what = if small {
        "a small camera preview, ".to_owned()
    } else {
        "the camera JPEG, ".to_owned()
    };
    text::put_decimal(&mut what, width as u64);
    what.append(" \u{d7} ");
    text::put_decimal(&mut what, height as u64);
    let mut s = "camera preview: ".to_owned();
    s.append(what.as_str());
    s.append(", fitted, through the monitor profile only; developing...");
    s
}

// The rejects.

pub open spec fn plural(n: nat) -> Seq<char> {
    if n == 1 {
        ""@
    } else {
        "s"@
    }
}

fn put_plural(s: &mut String, n: usize)
    ensures
        final(s)@ == old(s)@ + plural(n as nat),
{
    if n == 1 {
        s.append("");
    } else {
        s.append("s");
    }
}

/// The move-rejects sheet.
#[derive(Debug)]
pub enum Sheet {
    /// It opens, with these words.
    Opens(String),
    /// It does not: there is nothing to move, and the line says so.
    Says(String),
    Nothing,
}

pub open spec fn rejects_text(n: nat, dir: Seq<char>) -> Seq<char> {
    text::decimal(n) + " frame"@ + plural(n) + " flagged reject, with "@ + (if n == 1 {
        "its"@
    } else {
        "their"@
    }) + " sidecar"@ + plural(n) + ", will be moved to "@ + dir + "."@
}

/// The move-rejects sheet: how many frames and where they would go.
pub fn ask_rejects(metas: &Vec<Meta>, dir: Option<&str>) -> (r: Sheet)
    ensures
        ({
            let n = browser::rejects(metas@);
            match r {
                Sheet::Says(s) => n == 0 && s@ == "no frames are flagged reject"@,
                Sheet::Nothing => n > 0 && dir is None,
                Sheet::Opens(s) => n > 0 && (dir matches Some(dir) && s@ == rejects_text(n, dir@)),
            }
        }),
{
    let n: usize = browser::reject_count(metas);
    if n == 0 {
        return Sheet::Says("no frames are flagged reject".to_owned());
    }
    let dir = match dir {
        Some(dir) => dir,
        None => {
            return Sheet::Nothing;
        },
    };
    let mut s = text::decimal_of(n as u64);
    s.append(" frame");
    put_plural(&mut s, n);
    s.append(" flagged reject, with ");
    if n == 1 {
        s.append("its");
    } else {
        s.append("their");
    }
    s.append(" sidecar");
    put_plural(&mut s, n);
    s.append(", will be moved to ");
    s.append(dir);
    s.append(".");
    Sheet::Opens(s)
}

/// The frames flagged reject, in order.
pub open spec fn rejected_of(metas: Seq<Meta>) -> Seq<usize>
    decreases metas.len(),
{
    if metas.len() == 0 {
        seq![]
    } else {
        let before = rejected_of(metas.drop_last());
        if metas.last().flag == Flag::Reject {
            before.push((metas.len() - 1) as usize)
        } else {
            before
        }
    }
}

/// The frames flagged reject, which the move takes.
pub fn rejected(metas: &Vec<Meta>) -> (v: Vec<usize>)
    ensures
        v@ == rejected_of(metas@),
{
    let mut v: Vec<usize> = Vec::new();
    let mut i: usize = 0;
    assert(metas@.take(0) =~= seq![]);
    while i < metas.len()
        invariant
            i <= metas@.len(),
            v@ == rejected_of(metas@.take(i as int)),
        decreases metas.len() - i,
    {
        if metas[i].flag == Flag::Reject {
            v.push(i);
        }
        i = i + 1;
        assert(metas@.take(i as int).drop_last() =~= metas@.take(i - 1));
    }
    assert(metas@.take(i as int) =~= metas@);
    v
}

/// As many frames are moved as the sheet says.
pub proof fn the_sheet_counts_what_moves(metas: Seq<Meta>)
    ensures
        rejected_of(metas).len() == browser::rejects(metas),
    decreases metas.len(),
{
    if metas.len() > 0 {
        the_sheet_counts_what_moves(metas.drop_last());
    }
}

pub open spec fn moved_text(files: nat, sidecars: nat, dir: Seq<char>, skipped: nat) -> Seq<char> {
    "moved "@ + text::decimal(files) + " frame"@ + plural(files) + " and "@ + text::decimal(
        sidecars,
    ) + " sidecar"@ + plural(sidecars) + " to "@ + dir + (if skipped == 0 {
        ""@
    } else {
        "; "@ + text::decimal(skipped) + " left where "@ + (if skipped == 1 {
            "it was"@
        } else {
            "they were"@
        }) + " (a file of that name is there already)"@
    })
}

/// The status line for rejects moved out.
pub fn moved_words(files: usize, sidecars: usize, dir: &str, skipped: usize) -> (s: String)
    ensures
        s@ == moved_text(files as nat, sidecars as nat, dir@, skipped as nat),
{
    let mut s = "moved ".to_owned();
    text::put_decimal(&mut s, files as u64);
    s.append(" frame");
    put_plural(&mut s, files);
    s.append(" and ");
    text::put_decimal(&mut s, sidecars as u64);
    s.append(" sidecar");
    put_plural(&mut s, sidecars);
    s.append(" to ");
    s.append(dir);
    let mut left = "".to_owned();
    if skipped > 0 {
        left = "; ".to_owned();
        text::put_decimal(&mut left, skipped as u64);
        left.append(" left where ");
        if skipped == 1 {
            left.append("it was");
        } else {
            left.append("they were");
        }
        left.append(" (a file of that name is there already)");
    }
    s.append(left.as_str());
    s
}

/// The words for rejects that could not be moved.
pub fn move_failed(why: &str) -> (s: String)
    ensures
        s@ == "the rejects could not be moved: "@ + why@,
{
    let mut s = "the rejects could not be moved: ".to_owned();
    s.append(why);
    s
}

/// The folder without the files moved out of it, before its rows are
/// made again: what is said of each file that stays is under its new
/// number.
pub open spec fn taken_out(before: Browser, gone: Seq<usize>, after: Browser) -> bool {
    &&& after.paths@ == selection::without(before.paths@, gone)
    &&& after.names@ == selection::without(before.names@, gone)
    &&& after.metas@ == selection::without(before.metas@, gone)
    &&& after.pictured@ == selection::without(before.pictured@, gone)
    &&& after.stood@ == selection::without(before.stood@, gone)
    &&& after.current == match before.current {
        Some(c) => match selection::renumbered(gone, c) {
            Some(n) => Some(n as usize),
            None => None,
        },
        None => None,
    }
    &&& after == (Browser {
        paths: after.paths,
        names: after.names,
        metas: after.metas,
        pictured: after.pictured,
        stood: after.stood,
        current: after.current,
        ..before
    })
}

/// The row that takes the place of a frame that was moved out: the
/// nearest one left.
pub open spec fn taking_its_place(
    current: Option<usize>,
    gone: Seq<usize>,
    shown: Seq<usize>,
) -> Option<int> {
    match current {
        Some(c) => if gone.contains(c) {
            selection::nearest(shown, (c - selection::place(gone, c)) as usize)
        } else {
            None
        },
        None => None,
    }
}

/// The files moved out, taken out of the browser's list (`passes` and
/// `stands` are of those that stay). The frame the selection was on, if
/// it went, gives way to the nearest one left, whose row comes back.
pub fn move_rejects(
    b: &mut Browser,
    gone: &Vec<usize>,
    passes: &Vec<bool>,
    stands: &Vec<Stand>,
) -> (open: Option<usize>)
    requires
        old(b).wf(),
        selection::ordered(gone@),
        selection::below(gone@, old(b).names@.len() as int),
        passes@.len() == old(b).names@.len() - gone@.len(),
        stands@.len() == passes@.len(),
    ensures
        final(b).wf(),
        final(b).told(),
        exists|t: Browser|
            #[trigger] taken_out(*old(b), gone@, t) && browser::rebuilt(
                t,
                passes@,
                stands@,
                *final(b),
            ),
        open is Some <==> taking_its_place(old(b).current, gone@, final(b).shown@) is Some,
        open matches Some(r) ==> taking_its_place(old(b).current, gone@, final(b).shown@) == Some(
            r as int,
        ) && r < final(b).shown@.len(),
{
    let was: Option<usize> = b.current;
    proof {
        match was {
            Some(c) => {
                selection::lemma_place(gone@, c);
                selection::lemma_place_fits(gone@, c);
                if !gone@.contains(c) {
                    selection::what_stays_keeps_its_own(b.names@, gone@, c);
                }
            },
            None => {},
        }
    }
    selection::take_out(&mut b.paths, gone);
    selection::take_out(&mut b.names, gone);
    selection::take_out(&mut b.metas, gone);
    selection::take_out(&mut b.pictured, gone);
    selection::take_out(&mut b.stood, gone);
    b.current = match was {
        Some(c) => selection::renumber(gone, c),
        None => None,
    };
    let ghost t = *b;
    assert(taken_out(*old(b), gone@, t));
    let _next: Option<usize> = browser::rebuild_browser(b, passes, stands);
    match was {
        Some(c) => {
            if selection::has(gone, c) {
                let p: usize = selection::find(gone, c);
                selection::nearest_row(&b.shown, c - p)
            } else {
                None
            }
        },
        None => None,
    }
}


/// The mode with none of its pictures: the numbers they were kept by have
/// moved.
pub open spec fn emptied(before: Option<Cull>, after: Option<Cull>) -> bool {
    match before {
        Some(c) => {
            &&& after is Some
            &&& after->0.wf()
            &&& after->0.cache.screen@.len() == 0
            &&& after->0.cache.full is None
            &&& after->0.textured@.len() == 0
            &&& after->0.failed@ == Map::<usize, String>::empty()
            &&& after->0 == (Cull {
                cache: after->0.cache,
                textured: after->0.textured,
                failed: after->0.failed,
                ..c
            })
        },
        None => after is None,
    }
}

fn empty(cull: &mut Option<Cull>)
    requires
        placeholder::cull_wf(*old(cull)),
    ensures
        emptied(*old(cull), *final(cull)),
{
    match cull {
        Some(c) => {
            c.cache.clear();
            c.textured = Vec::new();
            c.failed.clear();
        },
        None => {},
    }
}

/// The files with no picture made yet, which is still owed and is asked
/// for again.
pub open spec fn owed(pictured: Seq<bool>) -> Seq<usize>
    decreases pictured.len(),
{
    if pictured.len() == 0 {
        seq![]
    } else {
        let before = owed(pictured.drop_last());
        if pictured.last() {
            before
        } else {
            before.push((pictured.len() - 1) as usize)
        }
    }
}

fn still_owed(pictured: &Vec<bool>) -> (v: Vec<usize>)
    ensures
        v@ == owed(pictured@),
{
    let mut v: Vec<usize> = Vec::new();
    let mut i: usize = 0;
    assert(pictured@.take(0) =~= seq![]);
    while i < pictured.len()
        invariant
            i <= pictured@.len(),
            v@ == owed(pictured@.take(i as int)),
        decreases pictured.len() - i,
    {
        if !pictured[i] {
            v.push(i);
        }
        i = i + 1;
        assert(pictured@.take(i as int).drop_last() =~= pictured@.take(i - 1));
    }
    assert(pictured@.take(i as int) =~= pictured@);
    v
}

/// The desk with every picture let go that is kept by a file's number: no
/// camera's picture stands in, none is held, and the mode has none.
pub open spec fn pictures_gone(before: Desk, after: Desk) -> bool {
    exists|t: Desk|
        {
            &&& #[trigger] placeholder::dropped(before, t)
            &&& emptied(before.cull, after.cull)
            &&& after == (Desk { hold: None, cull: after.cull, ..t })
        }
}

pub(crate) fn let_pictures_go(d: &mut Desk)
    requires
        old(d).wf(),
    ensures
        final(d).wf(),
        pictures_gone(*old(d), *final(d)),
{
    let _was = placeholder::drop_placeholder(d);
    let ghost t = *d;
    d.hold = None;
    empty(&mut d.cull);
    assert(placeholder::dropped(*old(d), t));
}

/// The desk with the line said.
pub open spec fn with_line(d: Desk, status: String) -> Desk {
    Desk { work: edit::Work { status, ..d.work }, ..d }
}

/// The desk with other rows, and perhaps nothing on show.
pub open spec fn rows_changed(before: Desk, blank: bool, after: Desk) -> bool {
    &&& after.screen.file_name@ == if blank {
        ""@
    } else {
        before.screen.file_name@
    }
    &&& after == (Desk {
        browser: after.browser,
        screen: Screen { file_name: after.screen.file_name, ..before.screen },
        ..before
    })
}

/// What is left to do once the rejects are out.
#[derive(Debug, Clone, Copy, PartialEq, Eq, Structural)]
pub enum After {
    /// Nothing was moved, or the frame on show stays as it is.
    Stays,
    /// The frame on show stays, and is culled about anew.
    Culls(usize),
    /// The row opens in place of the frame on show, which went.
    Opens(usize),
    /// Nothing is left to show.
    Blank,
}

/// A desk with the rejects out of its folder: the list made again, the
/// pictures kept by the old numbers let go, the line saying `status`;
/// with nothing moved only the line. The result is what is left to do,
/// and the files whose thumbnails are still owed.
pub open spec fn desk_without(
    before: Desk,
    gone: Seq<usize>,
    passes: Seq<bool>,
    stands: Seq<Stand>,
    status: String,
    after: Desk,
    left: After,
    again: Seq<usize>,
) -> bool {
    if gone.len() == 0 {
        &&& left is Stays
        &&& again.len() == 0
        &&& after == (Desk { work: edit::Work { status, ..before.work }, ..before })
    } else {
        &&& again == owed(after.browser.pictured@)
        &&& left == left_to_do(before.browser.current, gone, before.cull is Some, after.browser)
        &&& rows_again(before.browser, gone, passes, stands, after.browser)
        &&& exists|t: Desk|
            #[trigger] pictures_gone(with_line(before, status), t) && rows_changed(
                t,
                left is Blank,
                after,
            )
    }
}

/// The rows made again of the files that stay.
pub open spec fn rows_again(
    before: Browser,
    gone: Seq<usize>,
    passes: Seq<bool>,
    stands: Seq<Stand>,
    after: Browser,
) -> bool {
    &&& after.told()
    &&& exists|t: Browser|
        #[trigger] taken_out(before, gone, t) && browser::rebuilt(t, passes, stands, after)
}

/// What is left to do: the frame on show stays, or the nearest row left
/// opens in place of it, or there is none.
pub open spec fn left_to_do(
    current: Option<usize>,
    gone: Seq<usize>,
    culling: bool,
    after: Browser,
) -> After {
    match after.current {
        Some(c) => if culling {
            After::Culls(c)
        } else {
            After::Stays
        },
        None => match taking_its_place(current, gone, after.shown@) {
            Some(row) => After::Opens(row as usize),
            None => After::Blank,
        },
    }
}

/// The rows made again, and the name of a frame on show let go with none
/// left.
fn make_rows_again(
    d: &mut Desk,
    gone: &Vec<usize>,
    passes: &Vec<bool>,
    stands: &Vec<Stand>,
) -> (r: (After, Vec<usize>))
    requires
        old(d).wf(),
        selection::ordered(gone@),
        selection::below(gone@, old(d).browser.names@.len() as int),
        passes@.len() == old(d).browser.names@.len() - gone@.len(),
        stands@.len() == passes@.len(),
    ensures
        final(d).wf(),
        final(d).browser.names@ == selection::without(old(d).browser.names@, gone@),
        r.1@ == owed(final(d).browser.pictured@),
        r.0 == left_to_do(
            old(d).browser.current,
            gone@,
            old(d).cull is Some,
            final(d).browser,
        ),
        rows_again(old(d).browser, gone@, passes@, stands@, final(d).browser),
        rows_changed(*old(d), r.0 is Blank, *final(d)),
{
    let culling: bool = d.cull.is_some();
    let open: Option<usize> = move_rejects(&mut d.browser, gone, passes, stands);
    let again = still_owed(&d.browser.pictured);
    let after: After = match d.browser.current {
        Some(c) => if culling {
            After::Culls(c)
        } else {
            After::Stays
        },
        None => match open {
            Some(row) => After::Opens(row),
            None => After::Blank,
        },
    };
    let name = if matches!(after, After::Blank) {
        "".to_owned()
    } else {
        d.screen.file_name.clone()
    };
    d.screen.file_name = name;
    (after, again)
}

/// The rejects are out of the folder: the list made again, the pictures
/// kept by the old numbers let go, and the line says what was moved. The
/// files whose thumbnails are still owed come back beside what is left
/// to do.
pub fn rejects_moved(
    d: &mut Desk,
    gone: &Vec<usize>,
    passes: &Vec<bool>,
    stands: &Vec<Stand>,
    status: String,
) -> (r: (After, Vec<usize>))
    requires
        old(d).wf(),
        selection::ordered(gone@),
        selection::below(gone@, old(d).browser.names@.len() as int),
        passes@.len() == old(d).browser.names@.len() - gone@.len(),
        stands@.len() == passes@.len(),
    ensures
        final(d).wf(),
        final(d).browser.names@ == selection::without(old(d).browser.names@, gone@),
        desk_without(
            *old(d),
            gone@,
            passes@,
            stands@,
            status,
            *final(d),
            r.0,
            r.1@,
        ),
{
    if gone.len() == 0 {
        d.work.status = status;
        return (After::Stays, Vec::new());
    }
    d.work.status = status;
    let_pictures_go(d);
    let ghost t = *d;
    let r = make_rows_again(d, gone, passes, stands);
    assert(pictures_gone(with_line(*old(d), status), t));
    r
}

// The filter.

/// What follows the filter's moving.
#[derive(Debug, Clone, Copy, PartialEq, Eq, Structural)]
pub enum Filtered {
    /// The nearest row still shown opens.
    Opens(usize),
    /// The frame on screen is culled about anew.
    Culls(usize),
    Redraws,
}

/// The filter moved: the browser's list again, and the selection either
/// kept on its row or handed to the nearest frame still shown, which the
/// caller opens: a switch in culling, a develop out of it. `said` is, a
/// file, whether the words looked for are found on it.
pub fn apply_filter(
    b: &mut Browser,
    f: &Filter,
    said: &Vec<bool>,
    stands: &Vec<Stand>,
    culling: bool,
) -> (r: Filtered)
    requires
        old(b).wf(),
        f.wf(),
        said@.len() == old(b).names@.len(),
        stands@.len() == old(b).names@.len(),
    ensures
        final(b).wf(),
        final(b).told(),
        browser::rebuilt(
            *old(b),
            filter::passes(*f, old(b).metas@, said@),
            stands@,
            *final(b),
        ),
        r == match browser::next_row(final(b).shown@, old(b).current) {
            Some(r) => Filtered::Opens(r as usize),
            None => if culling && old(b).current is Some {
                Filtered::Culls(old(b).current->0)
            } else {
                Filtered::Redraws
            },
        },
{
    let passes = filter::pass(f, &b.metas, said);
    match browser::rebuild_browser(b, &passes, stands) {
        Some(row) => Filtered::Opens(row),
        None => match b.current {
            Some(c) => if culling {
                Filtered::Culls(c)
            } else {
                Filtered::Redraws
            },
            None => Filtered::Redraws,
        },
    }
}

/// Where the filter's key puts the cursor.
#[derive(Debug, Clone, Copy, PartialEq, Eq, Structural)]
pub enum Bar {
    /// The grid's header, already up.
    Grid,
    /// The CULLING section, unfolded first: a folded one clips the field
    /// to nothing.
    Section,
    /// The grid, opened for it.
    OpensGrid,
}

/// The filter's key: the chips are in the grid's header and in the
/// CULLING section, so it opens the grid unless the culling panel is
/// already showing them.
pub fn filter_asked(grid_open: bool, tab: &str) -> (b: Bar)
    ensures
        b == if grid_open {
            Bar::Grid
        } else if tab@ == CULL_TAB@ {
            Bar::Section
        } else {
            Bar::OpensGrid
        },
{
    if grid_open {
        Bar::Grid
    } else if text::same_text(tab, CULL_TAB) {
        Bar::Section
    } else {
        Bar::OpensGrid
    }
}


// One frame of the loupe.

/// The frame drawn: while one stands in, the frame there is a picture of,
/// which lags the selection until its own is decoded.
#[derive(Debug, Clone, Copy, PartialEq, Eq, Structural)]
pub struct Drawn {
    pub file: usize,
    /// The camera's picture stands in for a develop, out of the mode.
    pub holding: bool,
}

pub open spec fn drawn_of(d: Desk) -> Option<Drawn> {
    match d.browser.current {
        None => None,
        Some(selected) => if d.cull is Some {
            Some(Drawn { file: selected, holding: false })
        } else if d.hold is Some {
            Some(
                Drawn {
                    file: match placeholder::stands_in(d) {
                        Some(f) => f,
                        None => selected,
                    },
                    holding: true,
                },
            )
        } else {
            None
        },
    }
}

/// The frame the loupe draws now: the mode's, or the camera's picture
/// standing in for a develop.
pub fn frame_drawn(d: &Desk) -> (r: Option<Drawn>)
    requires
        d.wf(),
    ensures
        r == drawn_of(*d),
{
    let selected: usize = match d.browser.current {
        Some(c) => c,
        None => {
            return None;
        },
    };
    if d.cull.is_some() {
        return Some(Drawn { file: selected, holding: false });
    }
    if d.hold.is_none() {
        return None;
    }
    let file: usize = match placeholder::standing_in(d) {
        Some(f) => f,
        None => selected,
    };
    Some(Drawn { file, holding: true })
}

/// The rows the loupe draws: the compared ones in the mode, the one
/// frame's own out of it.
pub fn rows_drawn(shown: &Vec<usize>, drawn: Drawn, compared: &Vec<usize>) -> (v: Vec<usize>)
    requires
        selection::ordered(shown@),
    ensures
        v@ == if drawn.holding {
            match browser::row(shown@, drawn.file) {
                Some(r) => seq![r as usize],
                None => seq![],
            }
        } else {
            compared@
        },
{
    if !drawn.holding {
        return selection::copy(compared);
    }
    let mut v: Vec<usize> = Vec::new();
    if let Some(r) = browser::row_of(shown, drawn.file) {
        v.push(r);
    }
    assert(v@ =~= match browser::row(shown@, drawn.file) {
        Some(r) => seq![r as usize],
        None => seq![],
    });
    v
}

/// The full-size copy of a frame: let go at a fit with its texture, and
/// asked for at a zoom.
pub open spec fn full_settled(
    before: Cull,
    file: usize,
    holding: bool,
    fitted: bool,
    own_size: bool,
    after: Cull,
    asks: bool,
) -> bool {
    let lets_go = fitted && before.cache.full == Some(file);
    &&& asks == (!holding && !fitted && !own_size && !before.failed@.contains_key(file)
        && before.full_asked != Some(file))
    &&& after.textured@ == if lets_go {
        before.textured@.filter(but(file))
    } else {
        before.textured@
    }
    &&& after == (Cull {
        cache: Cache {
            full: if lets_go {
                None
            } else {
                before.cache.full
            },
            ..before.cache
        },
        full_asked: if asks {
            Some(file)
        } else {
            before.full_asked
        },
        textured: after.textured,
        ..before
    })
}

/// All but one file.
pub open spec fn but(x: usize) -> spec_fn(usize) -> bool {
    |f: usize| f != x
}

fn drop_one(v: &Vec<usize>, x: usize) -> (r: Vec<usize>)
    requires
        selection::ordered(v@),
    ensures
        r@ == v@.filter(but(x)),
        selection::ordered(r@),
{
    let mut r: Vec<usize> = Vec::new();
    let mut i: usize = 0;
    let ghost keep = but(x);
    proof {
        reveal(Seq::filter);
        assert(v@.take(0) =~= seq![]);
    }
    while i < v.len()
        invariant
            i <= v@.len(),
            selection::ordered(v@),
            keep == but(x),
            r@ == v@.take(i as int).filter(keep),
            selection::ordered(r@),
            i < v@.len() ==> forall|k: int| 0 <= k < r@.len() ==> #[trigger] r@[k] < v@[i as int],
        decreases v.len() - i,
    {
        if v[i] != x {
            r.push(v[i]);
        }
        i = i + 1;
        proof {
            reveal(Seq::filter);
            let done = v@.take(i as int);
            assert(done.drop_last() =~= v@.take(i - 1));
            assert(done.last() == v@[i - 1]);
            if i < v@.len() {
                assert(v@[i - 1] < v@[i as int]);
            }
        }
    }
    assert(v@.take(i as int) =~= v@);
    r
}

/// A frame needs its full-size copy only while it is looked at 1:1: at a
/// fit that copy and its texture are let go, and at 1:1 it is asked for
/// before anything else, once. Whether it is to be asked for.
pub fn settle_full(
    c: &mut Cull,
    file: usize,
    holding: bool,
    fitted: bool,
    own_size: bool,
) -> (asks: bool)
    requires
        old(c).wf(),
    ensures
        final(c).wf(),
        full_settled(*old(c), file, holding, fitted, own_size, *final(c), asks),
{
    broadcast use vstd::std_specs::hash::group_hash_axioms;

    let is_full: bool = match c.cache.full {
        Some(f) => f == file,
        None => false,
    };
    if fitted && is_full {
        c.cache.full = None;
        c.textured = drop_one(&c.textured, file);
    }
    let asked: bool = match c.full_asked {
        Some(f) => f == file,
        None => false,
    };
    let asks: bool = !holding && !fitted && !own_size && !c.failed.contains_key(&file) && !asked;
    if asks {
        c.full_asked = Some(file);
    }
    asks
}

/// A box of the compare view: its frame's name, and whether it is the
/// selection's.
#[derive(Debug)]
pub struct Tile {
    pub name: String,
    pub on: bool,
}

/// A row's picture is as ready as it will be: it is there (for the
/// selection at a zoom, at its own size), or its decode failed.
pub open spec fn row_ready(
    failed: bool,
    seen: Option<Seen>,
    current: bool,
    fitted: bool,
) -> bool {
    failed || match seen {
        Some(p) => !current || fitted || p.own_size,
        None => false,
    }
}

/// What a frame of the loupe comes to.
#[derive(Debug)]
pub struct Loupe {
    /// The boxes and names over the compared frames; none for one frame
    /// alone, which needs neither.
    pub tiles: Vec<Tile>,
    /// The selection's picture is on screen.
    pub shown: bool,
    /// Every row's picture is as ready as it will be.
    pub ready: bool,
}

/// One frame of the culling loupe over `rows`, each with its picture in
/// `seen`: the boxes' names, whether the selection's picture is among
/// them, and whether a capture may go.
pub fn cull_frame(
    b: &Browser,
    c: &Cull,
    drawn: Drawn,
    rows: &Vec<usize>,
    seen: &Vec<Option<Seen>>,
    fitted: bool,
) -> (l: Loupe)
    requires
        b.wf(),
        rows_in(rows@, b.shown@.len()),
        seen@.len() == rows@.len(),
    ensures
        if drawn.holding || rows@.len() < 2 {
            l.tiles@.len() == 0
        } else {
            &&& l.tiles@.len() == rows@.len()
            &&& forall|k: int|
                0 <= k < rows@.len() ==> {
                    let f = b.shown@[rows@[k] as int];
                    &&& (#[trigger] l.tiles@[k]).name@ == b.names@[f as int]@
                    &&& l.tiles@[k].on == (f == drawn.file)
                }
        },
        l.shown == exists|k: int|
            0 <= k < rows@.len() && b.shown@[#[trigger] rows@[k] as int] == drawn.file && seen@[k]
                is Some,
        l.ready == forall|k: int|
            0 <= k < rows@.len() ==> {
                let f = b.shown@[#[trigger] rows@[k] as int];
                row_ready(c.failed@.contains_key(f), seen@[k], f == drawn.file, fitted)
            },
{
    broadcast use vstd::std_specs::hash::group_hash_axioms;

    let many: bool = !drawn.holding && rows.len() >= 2;
    let mut tiles: Vec<Tile> = Vec::new();
    let mut shown: bool = false;
    let mut ready: bool = true;
    let mut k: usize = 0;
    while k < rows.len()
        invariant
            k <= rows@.len(),
            b.wf(),
            rows_in(rows@, b.shown@.len()),
            seen@.len() == rows@.len(),
            many == (!drawn.holding && rows@.len() >= 2),
            tiles@.len() == if many {
                k as int
            } else {
                0
            },
            forall|j: int|
                0 <= j < tiles@.len() ==> {
                    let f = b.shown@[rows@[j] as int];
                    &&& (#[trigger] tiles@[j]).name@ == b.names@[f as int]@
                    &&& tiles@[j].on == (f == drawn.file)
                },
            shown == exists|j: int|
                0 <= j < k && b.shown@[#[trigger] rows@[j] as int] == drawn.file && seen@[j]
                    is Some,
            ready == forall|j: int|
                0 <= j < k ==> {
                    let f = b.shown@[#[trigger] rows@[j] as int];
                    row_ready(c.failed@.contains_key(f), seen@[j], f == drawn.file, fitted)
                },
        decreases rows.len() - k,
    {
        let f: usize = b.shown[rows[k]];
        assert(b.shown@[rows@[k as int] as int] < b.names@.len());
        let on: bool = f == drawn.file;
        let failed: bool = c.failed.contains_key(&f);
        let ghost was_shown = shown;
        let ghost was_ready = ready;
        if many {
            tiles.push(Tile { name: b.names[f].clone(), on });
        }
        let this: bool = match &seen[k] {
            Some(p) => {
                if on {
                    shown = true;
                }
                failed || !on || fitted || p.own_size
            },
            None => failed,
        };
        if !this {
            ready = false;
        }
        proof {
            assert(rows@[k as int] == rows@[k as int]);
            if shown && !was_shown {
                assert(b.shown@[rows@[k as int] as int] == drawn.file && seen@[k as int] is Some);
            }
        }
        k = k + 1;
    }
    Loupe { tiles, shown, ready }
}

/// The picture of a frame is put on the GPU: made now, unless it is there
/// and of the copy the cache has (`same`). Whether it is made.
pub fn texture_up(c: &mut Cull, file: usize, same: bool) -> (makes: bool)
    requires
        old(c).wf(),
    ensures
        final(c).wf(),
        makes == !(same && old(c).textured@.contains(file)),
        final(c).textured@ == selection::with(old(c).textured@, file),
        *final(c) == (Cull { textured: final(c).textured, ..*old(c) }),
{
    let there: bool = selection::has(&c.textured, file);
    selection::put(&mut c.textured, file);
    !(same && there)
}

/// Where the loupe is centered when it moves: on a picture whose size is
/// not the one last centered on. A zoomed view of the same frame keeps
/// its place.
pub fn centered_on(image_size: (u32, u32), full: Option<(u32, u32)>) -> (r: Option<(u32, u32)>)
    ensures
        r == match full {
            Some(size) => if size != image_size {
                Some(size)
            } else {
                None
            },
            None => None,
        },
{
    match full {
        Some(size) => if size.0 != image_size.0 || size.1 != image_size.1 {
            Some(size)
        } else {
            None
        },
        None => None,
    }
}

/// What a frame of the loupe shows for the first time.
#[derive(Debug, Clone, Copy, PartialEq, Eq, Structural)]
pub struct News {
    /// The status line changed, and is set.
    pub says: bool,
    /// The turned picture is up: a capture waiting on it may go.
    pub turned: bool,
    /// The frame the arrow landed on is up.
    pub switched: bool,
}

/// A frame of the mode was drawn with `status` its line: the line is set
/// only on a change, and a turn or a switch is over with the frame that
/// shows it (`shown`).
pub fn mode_drawn(c: &mut Cull, status: String, shown: bool) -> (n: News)
    requires
        old(c).wf(),
    ensures
        final(c).wf(),
        n == (News {
            says: old(c).status@ != status@,
            turned: shown && old(c).turned,
            switched: shown && old(c).switched,
        }),
        final(c).status@ == status@,
        *final(c) == (Cull {
            status: final(c).status,
            turned: old(c).turned && !shown,
            switched: old(c).switched && !shown,
            ..*old(c)
        }),
{
    let says: bool = !text::same_text(c.status.as_str(), status.as_str());
    let n = News { says, turned: shown && c.turned, switched: shown && c.switched };
    c.status = status;
    c.turned = c.turned && !shown;
    c.switched = c.switched && !shown;
    n
}

/// What a batch run presses by itself once the first picture is up.
#[derive(Debug, Clone, Copy)]
pub struct AtStart {
    pub turn: Option<i32>,
    pub develop: bool,
    pub ask_rejects: bool,
    pub move_rejects: bool,
}

/// The keys to press from the event loop.
#[derive(Debug, Clone, Copy)]
pub struct Presses {
    /// The turn, and whether the mode is left behind it in the same
    /// callback, so the develop that is caught is of the turned frame.
    pub turn: Option<(i32, bool)>,
    /// The mode left.
    pub leave: bool,
    /// The rejects asked for, and whether the sheet's yes follows.
    pub rejects: Option<bool>,
}

/// The frame that shows the frame the arrow landed on: what is pressed
/// then, once each. The turn stays asked for until it is pressed, so a
/// capture waiting on it does not go off in between.
pub fn switch_shown(a: &mut AtStart) -> (p: Presses)
    ensures
        p == (Presses {
            turn: match old(a).turn {
                Some(q) => Some((q, old(a).develop)),
                None => None,
            },
            leave: old(a).develop && old(a).turn is None,
            rejects: if old(a).ask_rejects {
                Some(old(a).move_rejects)
            } else {
                None
            },
        }),
        *final(a) == (AtStart {
            turn: old(a).turn,
            develop: false,
            ask_rejects: false,
            move_rejects: old(a).move_rejects && !old(a).ask_rejects,
        }),
{
    let turn: Option<(i32, bool)> = match a.turn {
        Some(q) => Some((q, a.develop)),
        None => None,
    };
    let leave: bool = a.develop && a.turn.is_none();
    a.develop = false;
    let rejects: Option<bool> = if a.ask_rejects {
        let answer: bool = a.move_rejects;
        a.move_rejects = false;
        Some(answer)
    } else {
        None
    };
    a.ask_rejects = false;
    Presses { turn, leave, rejects }
}

/// What a capture waits on beside the pictures.
#[derive(Debug, Clone, Copy, PartialEq, Eq, Structural)]
pub struct Waiting {
    /// The mode is about to be left for a develop.
    pub leaving: bool,
    /// The frame's turn is still to be shown.
    pub turning: bool,
    /// A learned mask is still to come.
    pub asking: bool,
    /// The grid's pictures are still to come.
    pub grid: bool,
    /// The capture is of the camera's picture standing in.
    pub placeholder: bool,
}

/// The captures that go with this frame.
#[derive(Debug, Clone, Copy, PartialEq, Eq, Structural)]
pub struct Captures {
    pub snapshot: bool,
    /// The run ends with the snapshot; it goes on after one of the
    /// picture standing in, whose develop is on its way.
    pub ends: bool,
    pub screenshot: bool,
}

/// Whether a capture goes: it waits for every tile's picture, and for the
/// develop when the mode is being left. One of the camera's picture waits
/// for it to stand in over a develop already on screen (`developed`).
pub fn captures(l: &Loupe, w: Waiting, holding: bool, developed: bool) -> (c: Captures)
    ensures
        ({
            let ready = l.ready && !w.leaving && !w.turning && !w.asking && !w.grid;
            let standing = holding && w.placeholder && l.shown && developed;
            c == (Captures {
                snapshot: ready && (standing || !holding),
                ends: !standing,
                screenshot: ready && !holding,
            })
        }),
{
    let ready: bool = l.ready && !w.leaving && !w.turning && !w.asking && !w.grid;
    let standing: bool = holding && w.placeholder && l.shown && developed;
    Captures {
        snapshot: ready && (standing || !holding),
        ends: !standing,
        screenshot: ready && !holding,
    }
}

/// A control reached in culling, as the edit to leave with: the change
/// alone (`laid`) put over the culled frame's own edit. None with no
/// frame on screen, when nothing on the panel moved, or when the change
/// could not be laid over the frame's.
pub fn control_over_frame<E>(current: Option<usize>, moved: bool, laid: Option<E>) -> (r: Option<E>)
    ensures
        r == if current is Some && moved {
            laid
        } else {
            None
        },
{
    if current.is_some() && moved {
        laid
    } else {
        None
    }
}

/// The next step of a culling run being timed, of `left` steps: none
/// after the last, or at the end of the rows.
pub fn time_cull(left: u32, row: Option<usize>, count: usize) -> (r: Option<u32>)
    ensures
        r == if left == 0 || (row matches Some(r) && r + 1 >= count) {
            None
        } else {
            Some((left - 1) as u32)
        },
{
    browser::time_select(left, row, count)
}

// What holds of culling.

/// The pictures of the mode are as large as the view's longer side, and
/// never smaller than the least there is.
pub proof fn a_preview_is_as_large_as_the_view(width: i32, height: i32)
    ensures
        size_for(width, height) >= 1024,
        size_for(width, height) >= width && size_for(width, height) >= height,
        size_for(width, height) == 1024 || size_for(width, height) == width || size_for(
            width,
            height,
        ) == height,
{
}

/// Two frames or four are compared, and any other number is one.
pub proof fn two_or_four_are_compared(n: int)
    ensures
        n == 2 ==> side_by_side(n) == 2,
        n == 4 ==> side_by_side(n) == 4,
        n != 2 && n != 4 ==> side_by_side(n) == 1,
{
}

/// A frame selected in the mode is the current one, its row the one
/// selected and its name the one on the window; the way the arrow went is
/// kept, and a frame that had no picture is tried again. A hidden one is
/// not selected.
pub proof fn a_frame_selected_is_the_one_on_screen(
    before: Desk,
    file: usize,
    anchor: usize,
    after: Desk,
)
    requires
        before.wf(),
        selected(before, file, anchor, after),
    ensures
        !before.browser.shown@.contains(file) ==> after == before,
        before.browser.shown@.contains(file) ==> {
            &&& after.browser.current == Some(file)
            &&& 0 <= after.browser.selected < before.browser.shown@.len()
            &&& before.browser.shown@[after.browser.selected as int] == file
            &&& after.screen.file_name@ == before.browser.names@[file as int]@
            &&& after.screen.shot.camera@.len() == 0 && after.screen.shot.exposure@.len() == 0
            &&& after.browser.picked == before.browser.picked
            &&& after.work == before.work
            &&& before.cull matches Some(c) ==> (after.cull matches Some(e) && e.anchor == anchor
                && e.switched && !e.failed@.contains_key(file) && e.full_asked is None
                && e.cache.screen == c.cache.screen && (before.browser.current matches Some(w)
                ==> (e.forward <==> file >= w)))
        },
{
    reveal_strlit("");
    selection::lemma_place(before.browser.shown@, file);
    selection::lemma_fits(before.browser.shown@, before.browser.names@.len() as int);
}

/// The rows looked ahead to are those compared, in their order, and then
/// those about them, none twice.
pub proof fn the_rows_ahead_are_the_rows_and_those_about(
    rows: Seq<usize>,
    about: Seq<usize>,
    r: usize,
)
    ensures
        in_order(rows, about).contains(r) <==> rows.contains(r) || about.contains(r),
        in_order(rows, about).len() >= rows.len(),
        in_order(rows, about).take(rows.len() as int) == rows,
    decreases about.len(),
{
    if about.len() == 0 {
        assert(rows.take(rows.len() as int) =~= rows);
    } else {
        let less = about.drop_last();
        the_rows_ahead_are_the_rows_and_those_about(rows, less, r);
        let was = in_order(rows, less);
        let x = about.last();
        assert(about.contains(r) <==> less.contains(r) || r == x) by {
            if less.contains(r) {
                let k = choose|k: int| 0 <= k < less.len() && less[k] == r;
                assert(about[k] == r);
            }
            assert(about[about.len() - 1] == x);
            if about.contains(r) && r != x {
                let k = choose|k: int| 0 <= k < about.len() && about[k] == r;
                assert(less[k] == r);
            }
        }
        if !was.contains(x) {
            let now = was.push(x);
            assert(now[was.len() as int] == x);
            if was.contains(r) {
                let k = choose|k: int| 0 <= k < was.len() && was[k] == r;
                assert(now[k] == r);
            }
            if now.contains(r) && r != x {
                let k = choose|k: int| 0 <= k < now.len() && now[k] == r;
                assert(was[k] == r);
            }
            assert(now.take(rows.len() as int) =~= was.take(rows.len() as int));
        }
    }
}

/// The files of some rows are those rows', each once and in order.
pub proof fn the_files_are_the_rows(shown: Seq<usize>, rows: Seq<usize>, f: usize)
    ensures
        selection::ordered(files_of(shown, rows)),
        files_of(shown, rows).contains(f) <==> exists|i: int|
            0 <= i < rows.len() && shown[#[trigger] rows[i] as int] == f,
    decreases rows.len(),
{
    if rows.len() > 0 {
        let less = rows.drop_last();
        the_files_are_the_rows(shown, less, f);
        let x = shown[rows.last() as int];
        selection::a_set_takes_a_file_in_order(files_of(shown, less), x, usize::MAX + 1);
        if exists|i: int| 0 <= i < less.len() && shown[#[trigger] less[i] as int] == f {
            let i = choose|i: int| 0 <= i < less.len() && shown[#[trigger] less[i] as int] == f;
            assert(shown[rows[i] as int] == f);
        }
        if f == x {
            assert(shown[rows[rows.len() - 1] as int] == f);
        }
        if exists|i: int| 0 <= i < rows.len() && shown[#[trigger] rows[i] as int] == f {
            let i = choose|i: int| 0 <= i < rows.len() && shown[#[trigger] rows[i] as int] == f;
            if i < less.len() {
                assert(shown[less[i] as int] == f);
            }
        }
    }
}

/// Every row's picture that is not in hand, and is not known to be
/// missing, is asked for at the mode's size; zoomed in, the frame's own is
/// asked for first, at its own size.
pub proof fn what_is_not_in_hand_is_wanted(
    shown: Seq<usize>,
    rows: Seq<usize>,
    c: Cull,
    file: usize,
    fitted: bool,
    own_size: bool,
    i: int,
)
    requires
        0 <= i < rows.len(),
    ensures
        ({
            let f = shown[rows[i] as int];
            !c.cache.screen@.contains(f) && !c.failed@.contains_key(f) ==> missing(
                shown,
                rows,
                c,
            ).contains(Want { file: f, size: c.size })
        }),
        ({
            let asks = !fitted && !own_size && !c.failed@.contains_key(file);
            let all = wanted(shown, rows, c, file, fitted, own_size);
            &&& asks ==> all.len() == missing(shown, rows, c).len() + 1 && all[0].file == file
                && all[0].size == 0 && all.skip(1) == missing(shown, rows, c)
            &&& !asks ==> all == missing(shown, rows, c)
        }),
    decreases rows.len(),
{
    let all = wanted(shown, rows, c, file, fitted, own_size);
    if !fitted && !own_size && !c.failed@.contains_key(file) {
        assert(all.skip(1) =~= missing(shown, rows, c));
    } else {
        assert(all =~= missing(shown, rows, c));
    }
    let less = rows.drop_last();
    let f = shown[rows[i] as int];
    if !c.cache.screen@.contains(f) && !c.failed@.contains_key(f) {
        let was = missing(shown, less, c);
        let now = missing(shown, rows, c);
        let w = Want { file: f, size: c.size };
        if i < less.len() {
            what_is_not_in_hand_is_wanted(shown, less, c, file, fitted, own_size, i);
            let k = choose|k: int| 0 <= k < was.len() && was[k] == w;
            assert(now[k] == w);
        } else {
            assert(now[was.len() as int] == w);
        }
    }
}

/// The pictures kept in the mode are those of the window, and at its own
/// size the selected frame's alone.
pub proof fn the_mode_keeps_the_windows_pictures(
    before: Cull,
    window: Seq<usize>,
    file: usize,
    after: Cull,
    f: usize,
)
    requires
        before.wf(),
        kept_in(before, window, file, after),
    ensures
        after.cache.screen@.contains(f) <==> before.cache.screen@.contains(f) && window.contains(f),
        after.textured@.contains(f) <==> before.textured@.contains(f) && window.contains(f),
        before.cache.full == Some(file) ==> after.cache.full == Some(file),
        before.cache.full != Some(file) ==> after.cache.full is None,
        after.failed == before.failed && after.compare == before.compare && after.anchor
            == before.anchor,
{
    selection::a_hidden_frame_leaves_the_set(before.cache.screen@, window, usize::MAX + 1);
    selection::a_hidden_frame_leaves_the_set(before.textured@, window, usize::MAX + 1);
}

/// The mode entered has nothing in hand, no develop on its way and no
/// pictures yet; it keeps the tab to go back to, and the folder is as it
/// was.
pub proof fn the_mode_begins_with_nothing_in_hand(
    before: Desk,
    compare: u32,
    size: u32,
    tab: Seq<char>,
    after: Desk,
)
    requires
        before.work.generation < u64::MAX,
        entered(before, compare, size, tab, after),
    ensures
        after.cull matches Some(c) && {
            &&& c.tab_kept@ == tab
            &&& c.cache.screen@.len() == 0 && c.cache.full is None && c.textured@.len() == 0
            &&& c.size == size
            &&& compare == 2 ==> c.compare == 2
            &&& compare == 4 ==> c.compare == 4
            &&& compare != 2 && compare != 4 ==> c.compare == 1
        },
        after.hold is None,
        after.placeholder is None,
        after.hands == Hands::bare(),
        !after.hands.placing && !after.hands.retouching && !after.hands.picking
            && !after.hands.cropping && !after.hands.held,
        after.work.generation == before.work.generation + 1,
        !after.work.busy,
        after.screen.culling,
        !after.screen.navigator && !after.screen.scopes,
        before.placeholder is Some ==> !after.screen.placeholder,
        after.browser == before.browser,
        after.image_size == (0u32, 0u32),
{
}

/// The mode left on a frame develops it, with the picture the mode had of
/// it standing in till then; a mode left before its first has none.
pub proof fn the_mode_is_left_on_its_frame(before: Desk, file: usize, line: Seq<char>, after: Desk)
    requires
        before.cull is Some,
        before.work.generation < u64::MAX,
        left_on(before, file, line, after),
    ensures
        after.cull is None,
        !after.screen.culling,
        after.work.generation == before.work.generation + 1,
        after.work.busy,
        after.fitted,
        after.browser == before.browser,
        after.hold matches Some(h) && h.cache == before.cull->0.cache && h.compare == 1,
        ({
            let up = before.cull->0.cache.screen@.contains(file) || before.cull->0.cache.full
                == Some(file);
            &&& up ==> (after.placeholder matches Some(w) && w.file == file && w.showing == Some(
                file,
            ) && w.generation == after.work.generation) && after.screen.placeholder
                && after.screen.placeholder_status@ == line && placeholder::stands_in(after)
                == Some(file)
            &&& !up ==> after.placeholder == before.placeholder && after.screen.placeholder
                == before.screen.placeholder
        }),
{
}

/// The mode left with nothing open leaves nothing on screen.
pub proof fn the_mode_left_with_nothing_open_is_blank(before: Desk, after: Desk)
    requires
        left_blank(before, after),
    ensures
        after.cull is None && after.hold is None && after.placeholder is None,
        !after.screen.culling,
        after.work.status@.len() == 0,
        after.work.generation == before.work.generation,
        after.browser == before.browser,
{
    reveal_strlit("");
}

/// The frames moved out are the rejects, each once and in order, and no
/// other.
pub proof fn the_frames_moved_are_the_rejects(metas: Seq<Meta>, f: usize)
    requires
        metas.len() <= usize::MAX,
    ensures
        rejected_of(metas).contains(f) <==> f < metas.len() && metas[f as int].flag is Reject,
        selection::ordered(rejected_of(metas)),
        selection::below(rejected_of(metas), metas.len() as int),
    decreases metas.len(),
{
    if metas.len() > 0 {
        let less = metas.drop_last();
        the_frames_moved_are_the_rejects(less, f);
        let was = rejected_of(less);
        let now = rejected_of(metas);
        let x = (metas.len() - 1) as usize;
        if metas.last().flag == Flag::Reject {
            assert(now[was.len() as int] == x);
            if was.contains(f) {
                let k = choose|k: int| 0 <= k < was.len() && was[k] == f;
                assert(now[k] == f);
            }
            if now.contains(f) && f != x {
                let k = choose|k: int| 0 <= k < now.len() && now[k] == f;
                assert(was[k] == f);
            }
            assert forall|i: int, j: int| 0 <= i < j < now.len() implies #[trigger] now[i]
                < #[trigger] now[j] by {
                assert(now[i] == was[i]);
                if j < was.len() {
                    assert(now[j] == was[j]);
                }
            }
        }
    }
}

/// With the rejects out of it a folder's lists are the old ones less those
/// files, and the frame on screen is the one it was, or none where it
/// went.
pub proof fn a_folder_without_its_rejects(
    before: Browser,
    gone: Seq<usize>,
    after: Browser,
    x: usize,
)
    requires
        before.wf(),
        selection::ordered(gone),
        selection::below(gone, before.names@.len() as int),
        x < before.names@.len(),
        taken_out(before, gone, after),
    ensures
        after.names@.len() == before.names@.len() - gone.len(),
        before.current is None ==> after.current is None,
        before.current matches Some(c) ==> (gone.contains(c) <==> after.current is None),
        !gone.contains(x) ==> {
            let n = x - selection::place(gone, x);
            &&& 0 <= n < after.names@.len()
            &&& after.names@[n] == before.names@[x as int]
            &&& after.paths@[n] == before.paths@[x as int]
            &&& after.metas@[n] == before.metas@[x as int]
            &&& after.pictured@[n] == before.pictured@[x as int]
            &&& before.current == Some(x) ==> after.current == Some(n as usize)
        },
{
    selection::lemma_without_len(before.names@, gone);
    if !gone.contains(x) {
        selection::what_stays_keeps_its_own(before.names@, gone, x);
        selection::what_stays_keeps_its_own(before.paths@, gone, x);
        selection::what_stays_keeps_its_own(before.metas@, gone, x);
        selection::what_stays_keeps_its_own(before.pictured@, gone, x);
    }
}

/// A frame that went gives way to the nearest left; one that stays is not
/// given way for, and with none left there is nothing to open.
pub proof fn a_frame_that_went_gives_way_to_the_nearest(
    current: Option<usize>,
    gone: Seq<usize>,
    shown: Seq<usize>,
)
    requires
        selection::ordered(gone),
        selection::ordered(shown),
    ensures
        current is None ==> taking_its_place(current, gone, shown) is None,
        current matches Some(c) ==> (!gone.contains(c) ==> taking_its_place(current, gone, shown)
            is None),
        current matches Some(c) ==> (gone.contains(c) && shown.len() > 0 ==> (taking_its_place(
            current,
            gone,
            shown,
        ) matches Some(r) && 0 <= r < shown.len() && (r + 1 < shown.len() ==> shown[r] >= c
            - selection::place(gone, c)) && (r > 0 && shown[r] >= c - selection::place(gone, c)
            ==> shown[r - 1] < c - selection::place(gone, c)))),
        shown.len() == 0 ==> taking_its_place(current, gone, shown) is None,
{
    match current {
        Some(c) => {
            selection::lemma_place(gone, c);
            selection::lemma_place_fits(gone, c);
            selection::lemma_place(shown, (c - selection::place(gone, c)) as usize);
        },
        None => {},
    }
}

/// The pictures still owed are those that were not made, and all of them.
pub proof fn the_pictures_owed_are_those_not_made(pictured: Seq<bool>, f: usize)
    requires
        pictured.len() <= usize::MAX,
    ensures
        owed(pictured).contains(f) <==> f < pictured.len() && !pictured[f as int],
    decreases pictured.len(),
{
    if pictured.len() > 0 {
        let less = pictured.drop_last();
        the_pictures_owed_are_those_not_made(less, f);
        let was = owed(less);
        let x = (pictured.len() - 1) as usize;
        if !pictured.last() {
            let now = was.push(x);
            assert(now[was.len() as int] == x);
            if was.contains(f) {
                let k = choose|k: int| 0 <= k < was.len() && was[k] == f;
                assert(now[k] == f);
            }
            if now.contains(f) && f != x {
                let k = choose|k: int| 0 <= k < now.len() && now[k] == f;
                assert(was[k] == f);
            }
        }
    }
}

/// The pictures kept by the files' numbers are all let go when those move:
/// none stands in, none is held and the mode has none.
pub proof fn the_pictures_go_with_the_numbers(before: Desk, after: Desk)
    requires
        pictures_gone(before, after),
    ensures
        after.hold is None,
        after.placeholder is None,
        placeholder::stands_in(after) is None,
        after.cull is Some <==> before.cull is Some,
        after.cull matches Some(c) ==> c.cache.screen@.len() == 0 && c.cache.full is None
            && c.textured@.len() == 0,
        after.browser == before.browser && after.work == before.work,
{
}

/// What is left to do once the rejects are out: the frame on screen goes on
/// as it is where it stayed, and is culled about anew in the mode; where it
/// went the nearest row opens, or nothing is left.
pub proof fn what_is_left_once_the_rejects_are_out(
    current: Option<usize>,
    gone: Seq<usize>,
    culling: bool,
    after: Browser,
)
    ensures
        ({
            let left = left_to_do(current, gone, culling, after);
            &&& after.current is Some && !culling ==> left is Stays
            &&& after.current matches Some(c) ==> (culling ==> left == After::Culls(c))
            &&& after.current is None && after.shown@.len() == 0 ==> left is Blank
            &&& after.current is None && (current matches Some(c) && gone.contains(c))
                && after.shown@.len() > 0 ==> left is Opens
        }),
{
}

/// The frame drawn is the one selected, in the mode; out of it, the one
/// whose picture stands in, where one does; and none with nothing open.
pub proof fn the_frame_drawn_is_the_one_there_is_a_picture_of(d: Desk)
    ensures
        d.browser.current is None ==> drawn_of(d) is None,
        d.browser.current matches Some(c) ==> (d.cull is Some ==> (drawn_of(d) matches Some(r)
            && r.file == c && !r.holding)),
        d.browser.current matches Some(c) ==> (d.cull is None && d.hold is Some ==> (drawn_of(
            d,
        ) matches Some(r) && r.holding && (placeholder::stands_in(d) matches Some(f) ==> r.file
            == f) && (placeholder::stands_in(d) is None ==> r.file == c))),
        d.cull is None && d.hold is None ==> drawn_of(d) is None,
{
}

/// A picture at its own size is asked for once, in the mode and zoomed in,
/// where there is none and it is not known to be missing; fitted again, it
/// is let go.
pub proof fn a_full_picture_is_asked_for_once(
    before: Cull,
    file: usize,
    holding: bool,
    fitted: bool,
    own_size: bool,
    after: Cull,
    asks: bool,
)
    requires
        full_settled(before, file, holding, fitted, own_size, after, asks),
    ensures
        asks <==> !holding && !fitted && !own_size && !before.failed@.contains_key(file)
            && before.full_asked != Some(file),
        asks ==> after.full_asked == Some(file),
        !asks ==> after.full_asked == before.full_asked,
        fitted && before.cache.full == Some(file) ==> after.cache.full is None,
        !fitted ==> after.cache.full == before.cache.full && after.textured@ == before.textured@,
        after.cache.screen == before.cache.screen && after.failed == before.failed,
{
}

/// A row is ready with its picture up, and zoomed in on the frame selected
/// only with one at its own size; or where it is known to have none.
pub proof fn a_row_is_ready_with_its_picture_up(
    failed: bool,
    seen: Option<Seen>,
    current: bool,
    fitted: bool,
)
    ensures
        failed ==> row_ready(failed, seen, current, fitted),
        !failed && seen is None ==> !row_ready(failed, seen, current, fitted),
        seen matches Some(p) ==> (!failed ==> (row_ready(failed, seen, current, fitted)
            <==> !current || fitted || p.own_size)),
{
}

/// A count of frames is said as it is, in the singular for one alone.
pub proof fn a_count_is_said_as_it_is(n: nat, dir: Seq<char>, sidecars: nat, skipped: nat)
    ensures
        plural(n).len() == 0 <==> n == 1,
        rejects_text(n, dir).take(text::decimal(n).len() as int) == text::decimal(n),
        moved_text(n, sidecars, dir, skipped).skip(6).take(text::decimal(n).len() as int)
            == text::decimal(n),
{
    reveal_strlit("");
    reveal_strlit("s");
    reveal_strlit("moved ");
    assert(rejects_text(n, dir).take(text::decimal(n).len() as int) =~= text::decimal(n));
    assert(moved_text(n, sidecars, dir, skipped).skip(6).take(text::decimal(n).len() as int)
        =~= text::decimal(n));
}

/// Back on the panel after culling, the tab is the one it was left on and
/// the edit is the frame's own, with no adjustment in hand: what the panel
/// shows is the edit's look.
pub proof fn the_panel_comes_back_as_it_was_left<N: Copy, L, G>(
    c: Cull,
    edit: Edit<N, L, G>,
    before: Window<N, L, G>,
    tab: Seq<char>,
    after: Window<N, L, G>,
    kept: String,
)
    requires
        back_on(c, edit, before, tab, after),
        tab_back(c, kept),
    ensures
        after.panel_tab@ == tab,
        kept@ == c.tab_kept@,
        after.look == edit.look,
        after.picture == edit.picture,
        after.target == 0,
{
    let (k, shown) = choose|k: String, shown: Window<N, L, G>|
        {
            &&& #[trigger] tab_back(c, k)
            &&& #[trigger] edit::shows_edit(edit, None, Window { panel_tab: k, ..before }, shown)
            &&& after == (Window { panel_tab: after.panel_tab, ..shown })
        };
    assert(edit::shows_edit(edit, None, Window { panel_tab: k, ..before }, shown));
}

/// The mode is said with how many frames are side by side, where it is
/// more than one.
pub proof fn the_mode_says_how_many_are_up(compare: usize)
    ensures
        compare <= 1 ==> mode_text(compare) == "culling"@,
        compare > 1 ==> mode_text(compare) == "culling, "@ + text::decimal(compare as nat)
            + " up"@,
{
}

/// The name under the picture goes with the picture: there is none with
/// nothing left to show, and it stays otherwise. Nothing else of the
/// window does.
pub proof fn a_blank_screen_has_no_name(before: Desk, blank: bool, after: Desk)
    requires
        rows_changed(before, blank, after),
    ensures
        blank ==> after.screen.file_name@ == ""@,
        !blank ==> after.screen.file_name@ == before.screen.file_name@,
        after.work == before.work,
        after.cull == before.cull,
        after.hold == before.hold,
        after.placeholder == before.placeholder,
        after.hands == before.hands,
        after.screen.culling == before.screen.culling,
        after.screen.shot == before.screen.shot,
        after.source_size == before.source_size,
{
}

/// With no file gone there is nothing to do but to say so. With some gone
/// every list is without them, what follows is settled by the frame that
/// was on screen, and the pictures still owed are asked for.
pub proof fn the_desk_is_without_what_left(
    before: Desk,
    gone: Seq<usize>,
    passes: Seq<bool>,
    stands: Seq<Stand>,
    status: String,
    after: Desk,
    left: After,
    again: Seq<usize>,
)
    requires
        desk_without(before, gone, passes, stands, status, after, left, again),
    ensures
        gone.len() == 0 ==> left is Stays && again.len() == 0 && after.browser == before.browser
            && after.cull == before.cull && after.screen == before.screen && after.work.status
            == status,
        gone.len() > 0 ==> {
            &&& after.browser.names@ == selection::without(before.browser.names@, gone)
            &&& after.browser.paths@ == selection::without(before.browser.paths@, gone)
            &&& after.browser.metas@ == selection::without(before.browser.metas@, gone)
            &&& again == owed(after.browser.pictured@)
            &&& left == left_to_do(before.browser.current, gone, before.cull is Some, after.browser)
            &&& left is Blank ==> after.screen.file_name@ == ""@
            &&& after.work.status == status
            &&& after.browser.told()
        },
{
    if gone.len() > 0 {
        let t = choose|t: Browser|
            #[trigger] taken_out(before.browser, gone, t) && browser::rebuilt(
                t,
                passes,
                stands,
                after.browser,
            );
        assert(taken_out(before.browser, gone, t));
        let d = choose|d: Desk|
            #[trigger] pictures_gone(with_line(before, status), d) && rows_changed(
                d,
                left is Blank,
                after,
            );
        assert(pictures_gone(with_line(before, status), d));
    }
}

/// What the sheet says of the rejects, in the singular for one.
pub proof fn the_rejects_are_said_in_number(n: nat, dir: Seq<char>)
    ensures
        n == 1 ==> rejects_text(n, dir) == text::decimal(1) + " frame"@ + ""@
            + " flagged reject, with "@ + "its"@ + " sidecar"@ + ""@ + ", will be moved to "@ + dir
            + "."@,
        n != 1 ==> rejects_text(n, dir) == text::decimal(n) + " frame"@ + "s"@
            + " flagged reject, with "@ + "their"@ + " sidecar"@ + "s"@ + ", will be moved to "@
            + dir + "."@,
{
}

/// A texture let go is the one named, and every other stays.
pub proof fn all_but_one_stay(v: Seq<usize>, x: usize, f: usize)
    ensures
        v.filter(but(x)).contains(f) <==> v.contains(f) && f != x,
{
    broadcast use vstd::seq_lib::group_filter_ensures;

    if v.contains(f) && f != x {
        let i = choose|i: int| 0 <= i < v.len() && v[i] == f;
        assert(but(x)(v[i]));
        assert(v.filter(but(x)).contains(v[i]));
    }
    if v.filter(but(x)).contains(f) {
        v.lemma_filter_contains_rev(but(x), f);
        assert(but(x)(f));
    }
}

/// A mode left with nothing to develop takes its pictures with it: none
/// is held or waited for, no camera picture stands in, and the line is
/// empty. The folder and the rest of the window stay.
pub proof fn a_mode_left_blank_holds_nothing(before: Desk, after: Desk)
    requires
        left_blank(before, after),
    ensures
        after.cull is None && after.hold is None && after.placeholder is None,
        !after.screen.culling,
        before.placeholder is Some ==> !after.screen.placeholder
            && after.screen.placeholder_status@ == ""@,
        before.placeholder is None ==> after.screen.placeholder == before.screen.placeholder,
        after.work.status@ == ""@,
        after.work.generation == before.work.generation,
        after.work.busy == before.work.busy,
        after.screen.file_name == before.screen.file_name,
        after.screen.shot == before.screen.shot,
        after.screen.compare == before.screen.compare,
        after.browser == before.browser,
        after.hands == before.hands,
        after.fitted == before.fitted,
        after.image_size == before.image_size,
        after.source_size == before.source_size,
        after.developed == before.developed,
        after.cull_at_start == before.cull_at_start,
{
}

/// What a move of the rejects is said to have done: the frames and the
/// sidecars and where they went, and those left, where any were.
pub proof fn a_move_is_said_with_what_was_left(
    files: nat,
    sidecars: nat,
    dir: Seq<char>,
    skipped: nat,
)
    ensures
        ({
            let said = "moved "@ + text::decimal(files) + " frame"@ + (if files == 1 {
                ""@
            } else {
                "s"@
            }) + " and "@ + text::decimal(sidecars) + " sidecar"@ + (if sidecars == 1 {
                ""@
            } else {
                "s"@
            }) + " to "@ + dir;
            &&& skipped == 0 ==> moved_text(files, sidecars, dir, skipped) == said
            &&& skipped == 1 ==> moved_text(files, sidecars, dir, skipped) == said + ("; "@
                + text::decimal(1) + " left where "@ + "it was"@
                + " (a file of that name is there already)"@)
            &&& skipped > 1 ==> moved_text(files, sidecars, dir, skipped) == said + ("; "@
                + text::decimal(skipped) + " left where "@ + "they were"@
                + " (a file of that name is there already)"@)
        }),
{
    reveal_strlit("");
    let said = "moved "@ + text::decimal(files) + " frame"@ + plural(files) + " and "@
        + text::decimal(sidecars) + " sidecar"@ + plural(sidecars) + " to "@ + dir;
    assert(said + ""@ =~= said);
}

} // verus!
