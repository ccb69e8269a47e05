//! The browser: the strip's and the grid's rows, the frame on screen
//! and the frames chosen beside it.
//!
//! A row and a file are two numbers: the rows are the files that the
//! filter shows, in order.

use crate::panel::meta::{Change, Flag, Meta};
use crate::panel::meta;
use crate::panel::model;
use crate::panel::selection;
use crate::panel::startup;
use crate::paths;
use crate::text;
use vstd::prelude::*;

verus! {

/// How a picture stands: its quarter turns clockwise, and whether it is
/// mirrored.
#[derive(Debug, Clone, Copy, PartialEq, Eq, Structural)]
pub struct Stand {
    pub turns: u8,
    pub flip: bool,
}

/// A row of the strip and the grid.
#[derive(Debug)]
pub struct Thumb {
    pub name: String,
    /// The picture on it, and how that stands; none until it is made.
    pub picture: Option<Stand>,
    pub rating: i32,
    pub flag: i32,
    pub label: i32,
    pub chosen: bool,
}

/// The open folder as the window shows it.
#[derive(Debug)]
pub struct Browser {
    /// The files' paths, with what stands between the parts of one; their
    /// names, and what culling says of each.
    pub paths: Vec<String>,
    pub separator: char,
    pub names: Vec<String>,
    pub metas: Vec<Meta>,
    /// Whether a file's picture is made, and how it was last put up.
    pub pictured: Vec<bool>,
    pub stood: Vec<Option<Stand>>,
    /// The files the filter shows: the rows.
    pub shown: Vec<usize>,
    /// The frame on screen.
    pub current: Option<usize>,
    /// The set beside it.
    pub picked: Vec<usize>,
    /// The frame the menu was asked for on.
    pub menu_file: Option<usize>,
    /// The rows as the window has them, the row selected (below zero for
    /// none), and the sizes it says.
    pub thumbs: Vec<Thumb>,
    pub selected: i32,
    pub set_count: i32,
    pub reject_count: i32,
}

impl Browser {
    /// One of everything a file, the lists in order and in the folder,
    /// and a row for every file shown. A window counts in `i32`.
    pub open spec fn wf(self) -> bool {
        &&& self.names@.len() < i32::MAX
        &&& self.paths@.len() == self.names@.len()
        &&& self.metas@.len() == self.names@.len()
        &&& self.pictured@.len() == self.names@.len()
        &&& self.stood@.len() == self.names@.len()
        &&& selection::ordered(self.shown@)
        &&& selection::below(self.shown@, self.names@.len() as int)
        &&& self.current matches Some(c) ==> c < self.names@.len()
        &&& selection::ordered(self.picked@)
        &&& selection::below(self.picked@, self.names@.len() as int)
        &&& self.thumbs@.len() == self.shown@.len()
    }

    /// As above, but for the rows and what of the set is in the folder:
    /// what making the rows again asks.
    pub open spec fn ready(self) -> bool {
        &&& self.names@.len() < i32::MAX
        &&& self.paths@.len() == self.names@.len()
        &&& self.metas@.len() == self.names@.len()
        &&& self.pictured@.len() == self.names@.len()
        &&& self.stood@.len() == self.names@.len()
        &&& self.current matches Some(c) ==> c < self.names@.len()
        &&& selection::ordered(self.picked@)
    }

    /// Every row has the name and the badges of the file it is of.
    pub open spec fn told(self) -> bool {
        forall|r: int| 0 <= r < self.thumbs@.len() ==> self.row_told(r)
    }

    pub open spec fn row_told(self, r: int) -> bool {
        let f = self.shown@[r] as int;
        &&& self.thumbs@[r].name@ == self.names@[f]@
        &&& self.thumbs@[r] == badged(self.thumbs@[r], self.metas@[f])
    }
}

/// A row with the badges a meta asks for.
pub open spec fn badged(t: Thumb, meta: Meta) -> Thumb {
    Thumb {
        rating: meta.drawn() as i32,
        flag: meta.flag.number() as i32,
        label: meta.label.number() as i32,
        ..t
    }
}

/// A row for a file: its name, the badges its meta asks for, and no
/// picture until the worker has made one.
pub fn thumb_for(name: &str, meta: &Meta) -> (t: Thumb)
    ensures
        t.name@ == name@,
        t == badged(t, *meta),
        t.picture is None,
        !t.chosen,
{
    Thumb {
        name: name.to_owned(),
        picture: None,
        rating: meta.stars(),
        flag: meta.flag.code(),
        label: meta.label.code(),
        chosen: false,
    }
}

/// The selection as it is acted on: the frame on screen and the rest of
/// the set, in order. Nothing with nothing open.
pub fn chosen_frames(picked: &Vec<usize>, current: Option<usize>) -> (v: Vec<usize>)
    requires
        selection::ordered(picked@),
    ensures
        v@ == selection::chosen(picked@, current),
        selection::ordered(v@),
        v@.len() <= picked@.len() + 1,
{
    match current {
        Some(c) => {
            let mut v = selection::copy(picked);
            selection::put(&mut v, c);
            v
        },
        None => Vec::new(),
    }
}

/// A window's count of a selection, which is never of nothing.
pub open spec fn counted(n: nat) -> int {
    if n == 0 {
        1
    } else {
        n as int
    }
}

pub proof fn lemma_chosen(picked: Seq<usize>, current: Option<usize>, n: int)
    requires
        selection::ordered(picked),
        selection::below(picked, n),
        current matches Some(c) ==> c < n,
    ensures
        selection::ordered(selection::chosen(picked, current)),
        selection::below(selection::chosen(picked, current), n),
        selection::chosen(picked, current).len() <= n || n <= 0,
{
    match current {
        Some(c) => {
            selection::a_set_takes_a_file_in_order(picked, c, n);
            selection::lemma_fits(selection::chosen(picked, current), n);
        },
        None => {},
    }
}

/// The rows with the set marked on them.
pub open spec fn marked(thumbs: Seq<Thumb>, shown: Seq<usize>, picked: Seq<usize>) -> Seq<Thumb> {
    Seq::new(
        thumbs.len(),
        |r: int| Thumb { chosen: picked.contains(shown[r]), ..thumbs[r] },
    )
}

/// The set on the rows, and its size on the window.
pub open spec fn set_shown(before: Browser, after: Browser) -> bool {
    let picked = selection::chosen(before.picked@, before.current);
    &&& after.picked@ == picked
    &&& after.thumbs@ == marked(before.thumbs@, before.shown@, picked)
    &&& after == (Browser {
        picked: after.picked,
        thumbs: after.thumbs,
        set_count: counted(picked.len()) as i32,
        ..before
    })
}

/// Put the set on the strip's and the grid's rows, and its size on the
/// window.
pub fn show_set(b: &mut Browser)
    requires
        old(b).wf(),
    ensures
        set_shown(*old(b), *final(b)),
        final(b).wf(),
        old(b).told() ==> final(b).told(),
{
    proof {
        lemma_chosen(b.picked@, b.current, b.names@.len() as int);
    }
    let picked = chosen_frames(&b.picked, b.current);
    let mut row: usize = 0;
    while row < b.shown.len()
        invariant
            row <= b.shown@.len(),
            selection::ordered(picked@),
            picked@ == selection::chosen(old(b).picked@, old(b).current),
            old(b).wf(),
            b.thumbs@.len() == old(b).thumbs@.len(),
            *b == (Browser { thumbs: b.thumbs, ..*old(b) }),
            forall|r: int|
                0 <= r < row ==> #[trigger] b.thumbs@[r] == marked(
                    old(b).thumbs@,
                    old(b).shown@,
                    picked@,
                )[r],
            forall|r: int| row <= r < b.thumbs@.len() ==> #[trigger] b.thumbs@[r] == old(b).thumbs@[r],
        decreases b.shown.len() - row,
    {
        let chosen: bool = selection::has(&picked, b.shown[row]);
        if b.thumbs[row].chosen != chosen {
            b.thumbs[row].chosen = chosen;
        }
        row = row + 1;
    }
    assert(b.thumbs@ =~= marked(old(b).thumbs@, old(b).shown@, picked@));
    b.set_count = if picked.len() == 0 {
        1
    } else {
        picked.len() as i32
    };
    b.picked = picked;
    proof {
        if old(b).told() {
            assert forall|r: int| 0 <= r < b.thumbs@.len() implies b.row_told(r) by {
                assert(old(b).row_told(r));
            }
        }
    }
}

/// The row of a file, when the filter shows it.
pub open spec fn row(shown: Seq<usize>, file: usize) -> Option<int> {
    if shown.contains(file) {
        Some(selection::place(shown, file))
    } else {
        None
    }
}

pub fn row_of(shown: &Vec<usize>, file: usize) -> (r: Option<usize>)
    requires
        selection::ordered(shown@),
    ensures
        r is Some <==> shown@.contains(file),
        r matches Some(i) ==> row(shown@, file) == Some(i as int) && i < shown@.len()
            && shown@[i as int] == file,
{
    proof {
        selection::lemma_place(shown@, file);
    }
    let p: usize = selection::find(shown, file);
    if p < shown.len() && shown[p] == file {
        Some(p)
    } else {
        None
    }
}

/// A row and its file name one another.
pub proof fn a_row_is_its_file(shown: Seq<usize>, r: int)
    requires
        selection::ordered(shown),
        0 <= r < shown.len(),
    ensures
        row(shown, shown[r]) == Some(r),
{
    selection::lemma_place(shown, shown[r]);
    let p = selection::place(shown, shown[r]);
    assert(shown.contains(shown[r]));
    if p < r {
        assert(shown[p] < shown[r]);
    } else if r < p {
        assert(shown[r] < shown[p]);
    }
}

/// Put a file's meta on its row in the strip and the grid, leaving
/// whatever picture the row already holds. The read and the write are
/// the row's, not the file's.
pub fn show_badges(b: &mut Browser, i: usize)
    requires
        old(b).wf(),
    ensures
        final(b).wf(),
        *final(b) == (Browser { thumbs: final(b).thumbs, ..*old(b) }),
        final(b).thumbs@ == match row(old(b).shown@, i) {
            Some(r) => old(b).thumbs@.update(r, badged(old(b).thumbs@[r], old(b).metas@[i as int])),
            None => old(b).thumbs@,
        },
{
    if i >= b.metas.len() {
        proof {
            if b.shown@.contains(i) {
                let k = choose|k: int| 0 <= k < b.shown@.len() && b.shown@[k] == i;
                assert(b.shown@[k] < b.names@.len());
            }
        }
        return;
    }
    if let Some(r) = row_of(&b.shown, i) {
        b.thumbs[r].rating = b.metas[i].stars();
        b.thumbs[r].flag = b.metas[i].flag.code();
        b.thumbs[r].label = b.metas[i].label.code();
    }
}

/// How many frames are flagged reject.
pub open spec fn rejects(metas: Seq<Meta>) -> nat
    decreases metas.len(),
{
    if metas.len() == 0 {
        0
    } else {
        rejects(metas.drop_last()) + if metas.last().flag == Flag::Reject {
            1nat
        } else {
            0
        }
    }
}

/// No more frames are rejects than there are.
pub proof fn lemma_rejects(metas: Seq<Meta>)
    ensures
        rejects(metas) <= metas.len(),
    decreases metas.len(),
{
    if metas.len() > 0 {
        lemma_rejects(metas.drop_last());
    }
}

/// How many frames of the folder are flagged reject.
pub fn reject_count(metas: &Vec<Meta>) -> (n: usize)
    ensures
        n == rejects(metas@),
        n <= metas@.len(),
{
    let mut n: usize = 0;
    let mut i: usize = 0;
    assert(metas@.take(0) =~= seq![]);
    while i < metas.len()
        invariant
            i <= metas@.len(),
            n <= i,
            n == rejects(metas@.take(i as int)),
        decreases metas.len() - i,
    {
        if metas[i].flag == Flag::Reject {
            n = n + 1;
        }
        i = i + 1;
        assert(metas@.take(i as int).drop_last() =~= metas@.take(i - 1));
    }
    assert(metas@.take(i as int) =~= metas@);
    n
}

// A culling key.

/// The frames a settled change is news to, in order.
pub open spec fn moved(metas: Seq<Meta>, frames: Seq<usize>, change: Change) -> Seq<usize>
    decreases frames.len(),
{
    if frames.len() == 0 {
        seq![]
    } else {
        let before = moved(metas, frames.drop_last(), change);
        let f = frames.last() as int;
        if metas[f].with(change) != metas[f] {
            before.push(frames.last())
        } else {
            before
        }
    }
}

/// The metas with a settled change in those of `frames`.
pub open spec fn changed(metas: Seq<Meta>, frames: Seq<usize>, change: Change) -> Seq<Meta> {
    Seq::new(
        metas.len(),
        |f: int|
            if frames.contains(f as usize) {
                metas[f].with(change)
            } else {
                metas[f]
            },
    )
}

/// The rows with the badges of those of `frames` put on again.
pub open spec fn rebadged(
    thumbs: Seq<Thumb>,
    shown: Seq<usize>,
    metas: Seq<Meta>,
    frames: Seq<usize>,
) -> Seq<Thumb> {
    Seq::new(
        thumbs.len(),
        |r: int|
            if frames.contains(shown[r]) {
                badged(thumbs[r], metas[shown[r] as int])
            } else {
                thumbs[r]
            },
    )
}

/// What a culling key does to the folder.
pub open spec fn meta_set(
    before: Browser,
    frames: Seq<usize>,
    change: Change,
    after: Browser,
) -> bool {
    let c = meta::settled(before.metas@, frames, change);
    &&& after.metas@ == changed(before.metas@, frames, c)
    &&& after.thumbs@ == rebadged(
        before.thumbs@,
        before.shown@,
        after.metas@,
        moved(before.metas@, frames, c),
    )
    &&& after == (Browser {
        metas: after.metas,
        thumbs: after.thumbs,
        reject_count: rejects(after.metas@) as i32,
        ..before
    })
}

proof fn lemma_moved(metas: Seq<Meta>, frames: Seq<usize>, change: Change, f: usize)
    ensures
        moved(metas, frames, change).contains(f) <==> frames.contains(f)
            && metas[f as int].with(change) != metas[f as int],
    decreases frames.len(),
{
    if frames.len() > 0 {
        let less = frames.drop_last();
        lemma_moved(metas, less, change, f);
        let before = moved(metas, less, change);
        let all = moved(metas, frames, change);
        if all.contains(f) {
            let k = choose|k: int| 0 <= k < all.len() && all[k] == f;
            if k < before.len() {
                assert(before[k] == f);
                let m = choose|m: int| 0 <= m < less.len() && less[m] == f;
                assert(frames[m] == f);
            } else {
                assert(frames[frames.len() - 1] == f);
            }
        }
        if frames.contains(f) && metas[f as int].with(change) != metas[f as int] {
            let k = choose|k: int| 0 <= k < frames.len() && frames[k] == f;
            if k < less.len() {
                assert(less[k] == f);
                let m = choose|m: int| 0 <= m < before.len() && before[m] == f;
                assert(all[m] == f);
            } else {
                assert(all[all.len() - 1] == f);
            }
        }
    }
}

/// Put a culling key's change into every frame of `frames`, and the
/// badges on its thumbnail. The frames that it was news to come back,
/// whose sidecars are to be written.
///
/// A label key is settled against the frames first.
pub fn set_meta(b: &mut Browser, frames: &Vec<usize>, change: Change) -> (news: Vec<usize>)
    requires
        old(b).wf(),
        selection::ordered(frames@),
        selection::below(frames@, old(b).names@.len() as int),
    ensures
        meta_set(*old(b), frames@, change, *final(b)),
        news@ == moved(
            old(b).metas@,
            frames@,
            meta::settled(old(b).metas@, frames@, change),
        ),
        final(b).wf(),
        old(b).told() ==> final(b).told(),
{
    let c: Change = meta::settle(&b.metas, frames, change);
    let mut news: Vec<usize> = Vec::new();
    let mut k: usize = 0;
    assert(frames@.take(0) =~= seq![]);
    while k < frames.len()
        invariant
            k <= frames@.len(),
            selection::ordered(frames@),
            selection::below(frames@, old(b).names@.len() as int),
            old(b).wf(),
            c == meta::settled(old(b).metas@, frames@, change),
            b.metas@.len() == old(b).metas@.len(),
            *b == (Browser { metas: b.metas, ..*old(b) }),
            b.metas@ == changed(old(b).metas@, frames@.take(k as int), c),
            news@ == moved(old(b).metas@, frames@.take(k as int), c),
        decreases frames.len() - k,
    {
        let f: usize = frames[k];
        let ghost done = frames@.take(k as int);
        let ghost more = frames@.take(k + 1);
        proof {
            assert(more.drop_last() =~= done);
            assert(more.last() == f);
            if done.contains(f) {
                let j = choose|j: int| 0 <= j < done.len() && done[j] == f;
                assert(frames@[j] < frames@[k as int]);
            }
            assert(b.metas@[f as int] == old(b).metas@[f as int]);
        }
        let mut m: Meta = b.metas[f];
        m.set(c);
        if m != b.metas[f] {
            b.metas.set(f, m);
            news.push(f);
        }
        k = k + 1;
        proof {
            assert forall|g: int| 0 <= g < b.metas@.len() implies #[trigger] b.metas@[g]
                == changed(old(b).metas@, more, c)[g] by {
                if g == f {
                    assert(more[k - 1] == f);
                } else if done.contains(g as usize) {
                    let j = choose|j: int| 0 <= j < done.len() && done[j] == g as usize;
                    assert(more[j] == g as usize);
                } else if more.contains(g as usize) {
                    let j = choose|j: int| 0 <= j < more.len() && more[j] == g as usize;
                    assert(done[j] == g as usize);
                }
            }
            assert(b.metas@ =~= changed(old(b).metas@, more, c));
        }
    }
    assert(frames@.take(k as int) =~= frames@);
    let mut j: usize = 0;
    assert(rebadged(b.thumbs@, b.shown@, b.metas@, news@.take(0)) =~= b.thumbs@);
    let ghost thumbs = b.thumbs@;
    while j < news.len()
        invariant
            j <= news@.len(),
            old(b).wf(),
            b.wf(),
            thumbs == old(b).thumbs@,
            *b == (Browser { metas: b.metas, thumbs: b.thumbs, ..*old(b) }),
            b.metas@ == changed(old(b).metas@, frames@, c),
            b.thumbs@ == rebadged(thumbs, old(b).shown@, b.metas@, news@.take(j as int)),
        decreases news.len() - j,
    {
        let ghost before = b.thumbs@;
        let ghost done = news@.take(j as int);
        let ghost more = news@.take(j + 1);
        let f: usize = news[j];
        show_badges(b, f);
        j = j + 1;
        proof {
            assert forall|r: int| 0 <= r < thumbs.len() implies #[trigger] b.thumbs@[r] == rebadged(
                thumbs,
                old(b).shown@,
                b.metas@,
                more,
            )[r] by {
                a_row_is_its_file(b.shown@, r);
                let g = b.shown@[r];
                if done.contains(g) {
                    let i = choose|i: int| 0 <= i < done.len() && done[i] == g;
                    assert(more[i] == g);
                }
                if g == f {
                    assert(more[j - 1] == f);
                }
                if more.contains(g) && g != f {
                    let i = choose|i: int| 0 <= i < more.len() && more[i] == g;
                    assert(done[i] == g);
                }
                if b.shown@.contains(f) {
                    selection::lemma_place(b.shown@, f);
                }
            }
            assert(b.thumbs@ =~= rebadged(thumbs, old(b).shown@, b.metas@, more));
        }
    }
    assert(news@.take(j as int) =~= news@);
    let n: usize = reject_count(&b.metas);
    b.reject_count = n as i32;
    proof {
        if old(b).told() {
            assert forall|r: int| 0 <= r < b.thumbs@.len() implies b.row_told(r) by {
                assert(old(b).row_told(r));
                lemma_moved(old(b).metas@, frames@, c, b.shown@[r]);
            }
        }
    }
    news
}


// The rows.

/// The files a filter passes, in order.
pub open spec fn passing(passes: Seq<bool>) -> Seq<usize>
    decreases passes.len(),
{
    if passes.len() == 0 {
        seq![]
    } else {
        let before = passing(passes.drop_last());
        if passes.last() {
            before.push((passes.len() - 1) as usize)
        } else {
            before
        }
    }
}

/// The rows are the files the filter passes, in the folder's order, and
/// no others.
pub proof fn the_rows_are_what_passes(passes: Seq<bool>)
    requires
        passes.len() <= usize::MAX,
    ensures
        selection::ordered(passing(passes)),
        selection::below(passing(passes), passes.len() as int),
        forall|f: usize| #[trigger] passing(passes).contains(f) <==> f < passes.len() && passes[f as int],
    decreases passes.len(),
{
    if passes.len() > 0 {
        let less = passes.drop_last();
        the_rows_are_what_passes(less);
        let before = passing(less);
        let all = passing(passes);
        let last = (passes.len() - 1) as usize;
        assert forall|i: int, j: int| 0 <= i < j < all.len() implies #[trigger] all[i]
            < #[trigger] all[j] by {
            if j < before.len() {
                assert(before[i] < before[j]);
            } else {
                assert(before[i] < less.len());
            }
        }
        assert forall|i: int| 0 <= i < all.len() implies #[trigger] all[i] < passes.len() by {
            if i < before.len() {
                assert(before[i] < less.len());
            }
        }
        assert forall|f: usize| #[trigger] all.contains(f) <==> f < passes.len()
            && passes[f as int] by {
            if all.contains(f) {
                let k = choose|k: int| 0 <= k < all.len() && all[k] == f;
                if k < before.len() {
                    assert(before.contains(f));
                }
            }
            if f < passes.len() && passes[f as int] {
                if f < last {
                    assert(less[f as int]);
                    assert(before.contains(f));
                    let k = choose|k: int| 0 <= k < before.len() && before[k] == f;
                    assert(all[k] == f);
                } else {
                    assert(all[all.len() - 1] == f);
                }
            }
        }
    }
}

fn pass(passes: &Vec<bool>) -> (v: Vec<usize>)
    ensures
        v@ == passing(passes@),
{
    let mut v: Vec<usize> = Vec::new();
    let mut i: usize = 0;
    assert(passes@.take(0) =~= seq![]);
    while i < passes.len()
        invariant
            i <= passes@.len(),
            v@ == passing(passes@.take(i as int)),
        decreases passes.len() - i,
    {
        if passes[i] {
            v.push(i);
        }
        i = i + 1;
        assert(passes@.take(i as int).drop_last() =~= passes@.take(i - 1));
    }
    assert(passes@.take(i as int) =~= passes@);
    v
}

/// A row made afresh: its name and badges, the picture already made,
/// and its mark.
pub open spec fn row_made(
    b: Browser,
    stands: Seq<Stand>,
    file: usize,
    picked: Seq<usize>,
    t: Thumb,
) -> bool {
    let f = file as int;
    &&& t.name@ == b.names@[f]@
    &&& t == badged(
        Thumb {
            name: t.name,
            picture: if b.pictured@[f] {
                Some(stands[f])
            } else {
                None
            },
            chosen: picked.contains(file),
            ..t
        },
        b.metas@[f],
    )
}

/// How the pictures on the rows were put up.
pub open spec fn stood_after(
    b: Browser,
    passes: Seq<bool>,
    stands: Seq<Stand>,
) -> Seq<Option<Stand>> {
    Seq::new(
        b.stood@.len(),
        |f: int|
            if passes[f] && b.pictured@[f] {
                Some(stands[f])
            } else {
                b.stood@[f]
            },
    )
}

/// The row the window has selected: the current frame's, below zero for
/// none.
pub open spec fn selected_row(shown: Seq<usize>, current: Option<usize>) -> int {
    match current {
        Some(c) => match row(shown, c) {
            Some(r) => r,
            None => -1,
        },
        None => -1,
    }
}

/// The browser with its list made again.
pub open spec fn rebuilt(
    before: Browser,
    passes: Seq<bool>,
    stands: Seq<Stand>,
    after: Browser,
) -> bool {
    let shown = passing(passes);
    let picked = selection::chosen(selection::pruned(before.picked@, shown), before.current);
    &&& after.shown@ == shown
    &&& after.picked@ == picked
    &&& after.stood@ == stood_after(before, passes, stands)
    &&& after.thumbs@.len() == shown.len()
    &&& forall|r: int|
        0 <= r < shown.len() ==> row_made(
            before,
            stands,
            shown[r],
            picked,
            #[trigger] after.thumbs@[r],
        )
    &&& after == (Browser {
        shown: after.shown,
        picked: after.picked,
        stood: after.stood,
        thumbs: after.thumbs,
        selected: selected_row(shown, before.current) as i32,
        set_count: counted(picked.len()) as i32,
        reject_count: rejects(before.metas@) as i32,
        ..before
    })
}

/// The row to open in place of a current frame that no row shows.
pub open spec fn next_row(shown: Seq<usize>, current: Option<usize>) -> Option<int> {
    match current {
        Some(c) => if shown.contains(c) {
            None
        } else {
            selection::nearest(shown, c)
        },
        None => None,
    }
}

/// Rows afresh for `shown`, none of them marked; the pictures already
/// made are put up again.
fn make_rows(b: &mut Browser, stands: &Vec<Stand>, shown: &Vec<usize>)
    requires
        old(b).names@.len() < i32::MAX,
        old(b).metas@.len() == old(b).names@.len(),
        old(b).pictured@.len() == old(b).names@.len(),
        old(b).stood@.len() == old(b).names@.len(),
        stands@.len() == old(b).names@.len(),
        selection::ordered(shown@),
        selection::below(shown@, old(b).names@.len() as int),
    ensures
        *final(b) == (Browser { thumbs: final(b).thumbs, stood: final(b).stood, ..*old(b) }),
        final(b).thumbs@.len() == shown@.len(),
        forall|r: int|
            0 <= r < shown@.len() ==> row_made(
                *old(b),
                stands@,
                shown@[r],
                seq![],
                #[trigger] final(b).thumbs@[r],
            ),
        final(b).stood@.len() == old(b).stood@.len(),
        forall|f: int|
            0 <= f < final(b).stood@.len() ==> #[trigger] final(b).stood@[f] == if shown@.contains(
                f as usize,
            ) && old(b).pictured@[f] {
                Some(stands@[f])
            } else {
                old(b).stood@[f]
            },
{
    let mut thumbs: Vec<Thumb> = Vec::new();
    let mut r: usize = 0;
    while r < shown.len()
        invariant
            r <= shown@.len(),
            old(b).names@.len() < i32::MAX,
            old(b).metas@.len() == old(b).names@.len(),
            old(b).pictured@.len() == old(b).names@.len(),
            old(b).stood@.len() == old(b).names@.len(),
            stands@.len() == old(b).names@.len(),
            selection::ordered(shown@),
            selection::below(shown@, old(b).names@.len() as int),
            *b == (Browser { stood: b.stood, ..*old(b) }),
            thumbs@.len() == r,
            forall|k: int|
                0 <= k < r ==> row_made(
                    *old(b),
                    stands@,
                    shown@[k],
                    seq![],
                    #[trigger] thumbs@[k],
                ),
            b.stood@.len() == old(b).stood@.len(),
            forall|f: int|
                0 <= f < b.stood@.len() ==> #[trigger] b.stood@[f] == if shown@.take(
                    r as int,
                ).contains(f as usize) && old(b).pictured@[f] {
                    Some(stands@[f])
                } else {
                    old(b).stood@[f]
                },
        decreases shown.len() - r,
    {
        let f: usize = shown[r];
        let mut t = thumb_for(b.names[f].as_str(), &b.metas[f]);
        let ghost done = shown@.take(r as int);
        let ghost more = shown@.take(r + 1);
        if b.pictured[f] {
            t.picture = Some(stands[f]);
            b.stood.set(f, Some(stands[f]));
        }
        proof {
            assert(!Seq::<usize>::empty().contains(f));
            assert(row_made(*old(b), stands@, f, seq![], t));
            assert forall|g: int| 0 <= g < b.stood@.len() implies #[trigger] b.stood@[g]
                == if more.contains(g as usize) && old(b).pictured@[g] {
                Some(stands@[g])
            } else {
                old(b).stood@[g]
            } by {
                if done.contains(g as usize) {
                    let i = choose|i: int| 0 <= i < done.len() && done[i] == g as usize;
                    assert(more[i] == g as usize);
                }
                if g == f {
                    assert(more[r as int] == f);
                }
                if more.contains(g as usize) && g != f {
                    let i = choose|i: int| 0 <= i < more.len() && more[i] == g as usize;
                    assert(done[i] == g as usize);
                }
            }
        }
        thumbs.push(t);
        r = r + 1;
    }
    assert(shown@.take(r as int) =~= shown@);
    b.thumbs = thumbs;
}

/// The browser's list again: the filter over the frames (`passes`), the
/// strip's and the grid's rows made afresh with the pictures already
/// made (each as `stands` has it), and the selection kept on its row,
/// or handed to the nearest row when its frame is hidden, which the
/// caller then opens. A frame the filter now hides leaves the set: a key
/// must not reach a frame nobody can see is chosen.
pub fn rebuild_browser(
    b: &mut Browser,
    passes: &Vec<bool>,
    stands: &Vec<Stand>,
) -> (next: Option<usize>)
    requires
        old(b).ready(),
        passes@.len() == old(b).names@.len(),
        stands@.len() == old(b).names@.len(),
    ensures
        rebuilt(*old(b), passes@, stands@, *final(b)),
        final(b).wf(),
        final(b).told(),
        next is Some <==> next_row(final(b).shown@, old(b).current) is Some,
        next matches Some(r) ==> next_row(final(b).shown@, old(b).current) == Some(r as int) && r
            < final(b).shown@.len(),
{
    let ghost n = b.names@.len() as int;
    proof {
        the_rows_are_what_passes(passes@);
        let shown = passing(passes@);
        selection::a_hidden_frame_leaves_the_set(b.picked@, shown, usize::MAX + 1);
        let left = selection::pruned(b.picked@, shown);
        assert forall|i: int| 0 <= i < left.len() implies #[trigger] left[i] < n by {
            assert(left.contains(left[i]));
            assert(shown.contains(left[i]));
        }
    }
    let shown = pass(passes);
    make_rows(b, stands, &shown);
    let ghost made = *b;
    b.picked = selection::prune(&b.picked, &shown);
    b.shown = shown;
    let count: usize = reject_count(&b.metas);
    b.reject_count = count as i32;
    let ghost pruned = *b;
    proof {
        selection::lemma_fits(b.shown@, n);
    }
    show_set(b);
    let next: Option<usize> = match b.current {
        None => {
            b.selected = -1;
            None
        },
        Some(c) => match row_of(&b.shown, c) {
            Some(r) => {
                b.selected = r as i32;
                None
            },
            None => {
                b.selected = -1;
                selection::nearest_row(&b.shown, c)
            },
        },
    };
    proof {
        let shown = passing(passes@);
        assert forall|r: int| 0 <= r < shown.len() implies row_made(
            *old(b),
            stands@,
            shown[r],
            b.picked@,
            #[trigger] b.thumbs@[r],
        ) by {
            assert(row_made(*old(b), stands@, shown[r], seq![], made.thumbs@[r]));
        }
        assert(b.stood@ =~= stood_after(*old(b), passes@, stands@));
        assert forall|r: int| 0 <= r < b.thumbs@.len() implies b.row_told(r) by {
            assert(row_made(*old(b), stands@, shown[r], b.picked@, b.thumbs@[r]));
        }
    }
    next
}

/// What is left to do after a culling key.
#[derive(Debug, Clone, Copy, PartialEq, Eq, Structural)]
pub enum Followed {
    /// Nothing: it was news to no frame.
    Nothing,
    /// The chips' counts: every frame shows as it did.
    Counts,
    /// The rows are made again. The row to open is here when the current
    /// frame's is gone, and `again` is the frame to cull about anew when
    /// it is not.
    Rows { open: Option<usize>, again: Option<usize> },
}

/// A frame of `frames` shows that did not, or does not that did.
pub open spec fn hides(shown: Seq<usize>, frames: Seq<usize>, passes: Seq<bool>) -> bool {
    exists|k: int|
        0 <= k < frames.len() && shown.contains(#[trigger] frames[k]) != passes[frames[k] as int]
}

/// Under a filter the list can change with a key: a frame just rejected
/// leaves a browser showing the picks, and so does one just given a star
/// under a filter that wants four. Whether a frame still shows is asked
/// of the filter (`passes`), since every field the keys write is one it
/// can be reading.
pub fn meta_followed(
    b: &mut Browser,
    frames: &Vec<usize>,
    news: bool,
    passes: &Vec<bool>,
    stands: &Vec<Stand>,
    culling: bool,
) -> (f: Followed)
    requires
        old(b).wf(),
        passes@.len() == old(b).names@.len(),
        stands@.len() == old(b).names@.len(),
        selection::below(frames@, old(b).names@.len() as int),
    ensures
        !news ==> f is Nothing && *final(b) == *old(b),
        news && !hides(old(b).shown@, frames@, passes@) ==> f is Counts && *final(b) == *old(b),
        news && hides(old(b).shown@, frames@, passes@) ==> {
            &&& rebuilt(*old(b), passes@, stands@, *final(b))
            &&& f is Rows
            &&& f->open is Some <==> next_row(final(b).shown@, old(b).current) is Some
            &&& f->open matches Some(r) ==> next_row(final(b).shown@, old(b).current) == Some(
                r as int,
            )
            &&& f->again == if f->open is None && culling {
                old(b).current
            } else {
                None
            }
        },
        final(b).wf(),
        old(b).told() ==> final(b).told(),
{
    if !news {
        return Followed::Nothing;
    }
    let mut k: usize = 0;
    while k < frames.len()
        invariant
            k <= frames@.len(),
            news,
            *b == *old(b),
            b.wf(),
            passes@.len() == b.names@.len(),
            stands@.len() == b.names@.len(),
            selection::below(frames@, b.names@.len() as int),
            forall|j: int|
                0 <= j < k ==> b.shown@.contains(#[trigger] frames@[j])
                    == passes@[frames@[j] as int],
        decreases frames.len() - k,
    {
        let f: usize = frames[k];
        if selection::has(&b.shown, f) != passes[f] {
            let open: Option<usize> = rebuild_browser(b, passes, stands);
            let again: Option<usize> = if open.is_none() && culling {
                b.current
            } else {
                None
            };
            return Followed::Rows { open, again };
        }
        k = k + 1;
    }
    Followed::Counts
}

/// Whether the browser has nothing left to show and the filter is why,
/// the one thing worth a word in the status line.
pub fn say_if_empty(b: &Browser) -> (r: bool)
    ensures
        r == (b.shown@.len() == 0 && b.names@.len() > 0),
{
    b.shown.len() == 0 && b.names.len() > 0
}

/// Put a file's picture on its row, as it stands. A frame the filter
/// hides has no row; its picture waits for the list to show it again.
pub fn show_thumb(b: &mut Browser, i: usize, stand: Stand)
    requires
        old(b).wf(),
        i < old(b).names@.len(),
    ensures
        final(b).wf(),
        old(b).told() ==> final(b).told(),
        *final(b) == (Browser { thumbs: final(b).thumbs, stood: final(b).stood, ..*old(b) }),
        final(b).stood@ == if old(b).pictured@[i as int] {
            old(b).stood@.update(i as int, Some(stand))
        } else {
            old(b).stood@
        },
        final(b).thumbs@ == match row(old(b).shown@, i) {
            Some(r) if old(b).pictured@[i as int] => old(b).thumbs@.update(
                r,
                Thumb { picture: Some(stand), ..old(b).thumbs@[r] },
            ),
            _ => old(b).thumbs@,
        },
{
    if !b.pictured[i] {
        return;
    }
    b.stood.set(i, Some(stand));
    if let Some(r) = row_of(&b.shown, i) {
        b.thumbs[r].picture = Some(stand);
    }
    proof {
        if old(b).told() {
            assert forall|r: int| 0 <= r < b.thumbs@.len() implies b.row_told(r) by {
                assert(old(b).row_told(r));
            }
        }
    }
}


// A frame's own turn, and its shape.

/// A turn in words, for the log: which way and how far.
pub fn turn_words(quarters: i32) -> (s: &'static str)
    ensures
        s@ == if startup::quarters(quarters) == 1 {
            "a quarter turn to the right of its tag"@
        } else if startup::quarters(quarters) == 2 {
            "a half turn from its tag"@
        } else if startup::quarters(quarters) == 3 {
            "a quarter turn to the left of its tag"@
        } else {
            "as its tag says"@
        },
{
    match startup::quarters_of(quarters) {
        1 => "a quarter turn to the right of its tag",
        2 => "a half turn from its tag",
        3 => "a quarter turn to the left of its tag",
        _ => "as its tag says",
    }
}

/// A frame to turn: the open one's edit is the panel's to turn, any
/// other's its sidecar's.
#[derive(Debug, Clone, Copy, PartialEq, Eq, Structural)]
pub struct Turned {
    pub file: usize,
    pub panel: bool,
}

/// The frames a turn is for that are in the folder, in order; `panel` is
/// the frame whose edit the panel owns.
pub open spec fn turned(frames: Seq<usize>, count: int, panel: Option<usize>) -> Seq<Turned>
    decreases frames.len(),
{
    if frames.len() == 0 {
        seq![]
    } else {
        let before = turned(frames.drop_last(), count, panel);
        let f = frames.last();
        if f < count {
            before.push(Turned { file: f, panel: panel == Some(f) })
        } else {
            before
        }
    }
}

/// The frame whose edit the panel owns: the open one, and not while
/// culling, where the panel still holds the last-opened frame's edit and
/// the sidecars are the truth.
pub open spec fn panel_frame(current: Option<usize>, culling: bool) -> Option<usize> {
    if culling {
        None
    } else {
        current
    }
}

/// The frames to turn by `quarters`, and how each is; none for a turn
/// that comes to nothing.
pub fn turn_plan(
    frames: &Vec<usize>,
    count: usize,
    current: Option<usize>,
    culling: bool,
    quarters: i32,
) -> (plan: Vec<Turned>)
    ensures
        plan@ == if startup::quarters(quarters) == 0 {
            seq![]
        } else {
            turned(frames@, count as int, panel_frame(current, culling))
        },
{
    let mut plan: Vec<Turned> = Vec::new();
    if startup::quarters_of(quarters) == 0 {
        assert(plan@ =~= seq![]);
        return plan;
    }
    let panel: Option<usize> = if culling {
        None
    } else {
        current
    };
    let mut k: usize = 0;
    assert(frames@.take(0) =~= seq![]);
    while k < frames.len()
        invariant
            k <= frames@.len(),
            panel == panel_frame(current, culling),
            plan@ == turned(frames@.take(k as int), count as int, panel),
        decreases frames.len() - k,
    {
        let f: usize = frames[k];
        if f < count {
            let owned: bool = match panel {
                Some(p) => p == f,
                None => false,
            };
            plan.push(Turned { file: f, panel: owned });
        }
        k = k + 1;
        assert(frames@.take(k as int).drop_last() =~= frames@.take(k - 1));
    }
    assert(frames@.take(k as int) =~= frames@);
    plan
}

/// A developed size stands on end after an odd number of quarters: a
/// second turn pressed before the develop lands must not measure the
/// frame by the shape it used to be.
pub fn turned_size(size: (u32, u32), quarters: i32) -> (r: (u32, u32))
    ensures
        r == if quarters as int % 2 == 1 {
            (size.1, size.0)
        } else {
            size
        },
{
    if startup::quarters_of(quarters) % 2 == 1 {
        (size.1, size.0)
    } else {
        size
    }
}

/// How a file was found to stand, of those read so far.
pub open spec fn stance_of<S>(kept: Seq<(String, S)>, path: Seq<char>, sep: char) -> Option<S>
    decreases kept.len(),
{
    if kept.len() == 0 {
        None
    } else if paths::same_path(kept.last().0@, path, sep) {
        Some(kept.last().1)
    } else {
        stance_of(kept.drop_last(), path, sep)
    }
}

/// What is to be done for how a frame stands in its own file.
#[derive(Debug, Clone, Copy)]
pub enum Standing<S> {
    /// There is no such frame.
    Gone,
    Known(S),
    /// The file is to be read, and [`stance_read`] told what it said.
    Read,
}

/// How a frame stands in its own file, as far as it has been read: one
/// metadata read a frame a session.
pub fn stance<S: Copy>(
    files: &Vec<String>,
    kept: &Vec<(String, S)>,
    file: usize,
    sep: char,
) -> (r: Standing<S>)
    ensures
        r == if file >= files@.len() {
            Standing::Gone
        } else {
            match stance_of(kept@, files@[file as int]@, sep) {
                Some(s) => Standing::Known(s),
                None => Standing::Read,
            }
        },
{
    if file >= files.len() {
        return Standing::Gone;
    }
    let mut i: usize = kept.len();
    assert(kept@.take(i as int) =~= kept@);
    while i > 0
        invariant
            file < files@.len(),
            i <= kept@.len(),
            stance_of(kept@, files@[file as int]@, sep) == stance_of(
                kept@.take(i as int),
                files@[file as int]@,
                sep,
            ),
        decreases i,
    {
        assert(kept@.take(i as int).drop_last() =~= kept@.take(i - 1));
        if paths::is_same_path(kept[i - 1].0.as_str(), files[file].as_str(), sep) {
            return Standing::Known(kept[i - 1].1);
        }
        i = i - 1;
    }
    Standing::Read
}

/// A file was read for how its frame stands: an answer is kept, and a
/// file that would not say is asked again.
pub fn stance_read<S: Copy>(kept: &mut Vec<(String, S)>, path: String, read: Option<S>) -> (r: Option<S>)
    ensures
        r == read,
        final(kept)@ == match read {
            Some(s) => old(kept)@.push((path, s)),
            None => old(kept)@,
        },
{
    if let Some(s) = read {
        kept.push((path, s));
    }
    read
}

/// A file that has answered is not read again, whatever is read after
/// it, and says what it said.
pub proof fn a_stance_is_read_once<S>(
    kept: Seq<(String, S)>,
    path: String,
    s: S,
    other: String,
    o: S,
    sep: char,
)
    ensures
        stance_of(kept.push((path, s)), path@, sep) == Some(s),
        !paths::same_path(other@, path@, sep) ==> stance_of(
            kept.push((path, s)).push((other, o)),
            path@,
            sep,
        ) == Some(s),
        !paths::same_path(path@, other@, sep) ==> stance_of(kept.push((path, s)), other@, sep)
            == stance_of(kept, other@, sep),
{
    let first = kept.push((path, s));
    assert(first.drop_last() =~= kept);
    assert(first.push((other, o)).drop_last() =~= first);
}

/// A size that is one.
pub open spec fn real_size(size: Option<(u32, u32)>) -> Option<(u32, u32)> {
    match size {
        Some(s) => if s.0 > 0 && s.1 > 0 {
            Some(s)
        } else {
            None
        },
        None => None,
    }
}

fn sized(size: Option<(u32, u32)>) -> (r: Option<(u32, u32)>)
    ensures
        r == real_size(size),
{
    match size {
        Some(s) => if s.0 > 0 && s.1 > 0 {
            Some(s)
        } else {
            None
        },
        None => None,
    }
}

/// A size as a frame turned `turn` quarters shows it.
pub open spec fn on_end(size: Option<(u32, u32)>, turn: u8) -> Option<(u32, u32)> {
    match size {
        Some(s) => if turn % 2 == 1 {
            Some((s.1, s.0))
        } else {
            Some(s)
        },
        None => None,
    }
}

fn ended(size: Option<(u32, u32)>, turn: u8) -> (r: Option<(u32, u32)>)
    ensures
        r == on_end(size, turn),
{
    match size {
        Some(s) => if turn % 2 == 1 {
            Some((s.1, s.0))
        } else {
            Some(s)
        },
        None => None,
    }
}

/// What there is to measure a frame by.
#[derive(Debug, Clone, Copy)]
pub struct Measures {
    /// The develop on screen, when it is this frame's.
    pub own: Option<(u32, u32)>,
    /// The size the file says a develop of it comes out at, turned by its
    /// tag and its own quarters.
    pub file: Option<(u32, u32)>,
    /// The camera's pictures of it the window has, turned by the tag
    /// alone: the loupe's, and the strip's.
    pub preview: Option<(u32, u32)>,
    pub thumb: Option<(u32, u32)>,
    /// The frame's own quarter turns.
    pub turn: u8,
}

/// The size of a frame's developed picture, as far as its shape goes:
/// the first of the measures that has one.
pub open spec fn shape_of(m: Measures) -> Option<(u32, u32)> {
    if real_size(m.own) is Some {
        m.own
    } else if real_size(m.file) is Some {
        m.file
    } else if real_size(m.preview) is Some {
        on_end(m.preview, m.turn)
    } else if real_size(m.thumb) is Some {
        on_end(m.thumb, m.turn)
    } else {
        None
    }
}

/// The shape of a frame's developed picture, width and height, for the
/// map that carries masks and repair patches round a turn. The file's
/// own answer comes first; the camera's picture is only for want of it,
/// because a body can write its embedded picture at 16:9 or square with
/// the raw left full frame. None when nothing can say.
pub fn frame_aspect(m: &Measures) -> (r: Option<(u32, u32)>)
    ensures
        r == shape_of(*m),
        r matches Some(s) ==> s.0 > 0 && s.1 > 0,
{
    let own = sized(m.own);
    if own.is_some() {
        return own;
    }
    let file = sized(m.file);
    if file.is_some() {
        return file;
    }
    let preview = sized(m.preview);
    if preview.is_some() {
        return ended(preview, m.turn);
    }
    ended(sized(m.thumb), m.turn)
}

/// The develop on screen as a measure of a frame: only its own, and not
/// while culling.
pub fn own_size(
    current: Option<usize>,
    culling: bool,
    source_size: (u32, u32),
    file: usize,
) -> (r: Option<(u32, u32)>)
    ensures
        r == if panel_frame(current, culling) == Some(file) {
            Some(source_size)
        } else {
            None
        },
{
    match current {
        Some(c) => if c == file && !culling {
            Some(source_size)
        } else {
            None
        },
        None => None,
    }
}

/// What becomes of a sidecar whose crop waits to know which way up the
/// frame is.
#[derive(Debug, Clone, Copy, PartialEq, Eq, Structural)]
pub enum Migration {
    /// It waits on nothing.
    Settled,
    /// It is settled now, for an upright frame or one that is not.
    Now { upright: bool },
    /// Nothing can say yet; it is tried again next time, since a guess
    /// would crop the picture anew.
    Waits,
}

/// Finish a sidecar's migration, now that the frame's shape can be had.
pub fn migrate_frame(needs: bool, shape: Option<(u32, u32)>) -> (m: Migration)
    ensures
        m == if !needs {
            Migration::Settled
        } else {
            match shape {
                Some(s) => Migration::Now { upright: s.0 < s.1 },
                None => Migration::Waits,
            }
        },
{
    if !needs {
        return Migration::Settled;
    }
    match shape {
        Some(s) => Migration::Now { upright: s.0 < s.1 },
        None => Migration::Waits,
    }
}

/// How a file's picture is turned in the browser and the loupe: the open
/// file's as the panel has it, another's as its sidecar does.
pub fn thumb_turns(
    current: Option<usize>,
    culling: bool,
    file: usize,
    panel: Stand,
    sidecar: Stand,
) -> (s: Stand)
    ensures
        s == if panel_frame(current, culling) == Some(file) {
            panel
        } else {
            sidecar
        },
{
    match current {
        Some(c) => if c == file && !culling {
            panel
        } else {
            sidecar
        },
        None => sidecar,
    }
}

// The grid and the strip.

/// A picture that is there, and large enough for its cell.
pub open spec fn filled(made: Seq<u32>, small: Seq<bool>, file: usize) -> bool {
    made[file as int] > 0 && !small[file as int]
}

/// Whether every frame the grid shows has its picture, at the size the
/// cells ask for (`small` says which have too small a one). True
/// whenever the grid is closed.
pub fn grid_filled_rows(
    grid_open: bool,
    shown: &Vec<usize>,
    made: &Vec<u32>,
    small: &Vec<bool>,
    grid_shown: Option<(i32, i32)>,
) -> (r: bool)
    requires
        selection::below(shown@, made@.len() as int),
        small@.len() == made@.len(),
    ensures
        r == (!grid_open || match grid_shown {
            Some(rows) => forall|i: int|
                model::row_of(rows.0) <= i <= model::row_of(rows.1) && i < shown@.len() ==> filled(
                    made@,
                    small@,
                    #[trigger] shown@[i],
                ),
            None => false,
        }),
{
    if !grid_open {
        return true;
    }
    let rows = match grid_shown {
        Some(rows) => rows,
        None => {
            return false;
        },
    };
    let first: usize = model::row(rows.0);
    let last: usize = model::row(rows.1);
    let mut i: usize = first;
    while i <= last && i < shown.len()
        invariant
            first <= i,
            i <= last + 1 || i == first,
            last == model::row_of(rows.1),
            first == model::row_of(rows.0),
            grid_shown == Some(rows),
            grid_open,
            selection::below(shown@, made@.len() as int),
            small@.len() == made@.len(),
            forall|k: int|
                first <= k < i && k < shown@.len() ==> filled(made@, small@, #[trigger] shown@[k]),
        decreases shown.len() - i,
    {
        let f: usize = shown[i];
        if !(made[f] > 0 && !small[f]) {
            return false;
        }
        i = i + 1;
    }
    true
}

/// The files between the rows the strip shows, whose pictures jump the
/// worker's queue; under a filter more than are shown, which is fine for
/// an order.
pub fn strip_range(shown: &Vec<usize>, first: i32, last: i32) -> (r: Option<(usize, usize)>)
    ensures
        r == if 0 <= first <= last < shown@.len() {
            Some((shown@[first as int], shown@[last as int]))
        } else {
            None
        },
{
    if first < 0 || last < first {
        return None;
    }
    if first as usize >= shown.len() || last as usize >= shown.len() {
        return None;
    }
    Some((shown[first as usize], shown[last as usize]))
}

/// A picture on screen that is a good deal too small for its cell, and
/// not asked for at this size yet.
pub open spec fn asks_again(
    made: Seq<u32>,
    asked: Seq<u32>,
    small: Seq<bool>,
    want: u32,
    file: usize,
) -> bool {
    made[file as int] > 0 && small[file as int] && asked[file as int] < want
}

/// The files of `rows` to make again, in order.
pub open spec fn again(
    rows: Seq<usize>,
    made: Seq<u32>,
    asked: Seq<u32>,
    small: Seq<bool>,
    want: u32,
) -> Seq<usize> {
    rows.filter(|f: usize| asks_again(made, asked, small, want, f))
}

/// What the grid's scrolling asks of the worker.
#[derive(Debug)]
pub struct GridAsk {
    /// The pictures are made at another size from now on.
    pub resize: bool,
    /// The files made again at that size.
    pub again: Vec<usize>,
    /// The first and last file on screen.
    pub first: usize,
    pub last: usize,
}

/// The frames the grid shows, from where it is scrolled: what is on
/// screen jumps the queue, and a cell larger than the pictures were made
/// for asks for those on screen again at the larger size. What is made
/// from now on is this cell's size, up or down; making one again is only
/// ever a step up, and only once each.
pub fn grid_range(
    shown: &Vec<usize>,
    made: &Vec<u32>,
    asked: &mut Vec<u32>,
    small: &Vec<bool>,
    thumb_want: &mut u32,
    want: u32,
    first: i32,
    last: i32,
) -> (r: GridAsk)
    requires
        selection::ordered(shown@),
        selection::below(shown@, made@.len() as int),
        old(asked)@.len() == made@.len(),
        small@.len() == made@.len(),
        model::row_of(first) < shown@.len(),
    ensures
        ({
            let low = model::row_of(first);
            let high = if model::row_of(last) < shown@.len() {
                model::row_of(last)
            } else {
                shown@.len() - 1
            };
            let rows = if low <= high {
                shown@.subrange(low, high + 1)
            } else {
                seq![]
            };
            &&& r.resize == (want != *old(thumb_want))
            &&& *final(thumb_want) == want
            &&& r.again@ == again(rows, made@, old(asked)@, small@, want)
            &&& final(asked)@ == Seq::new(
                old(asked)@.len(),
                |f: int|
                    if r.again@.contains(f as usize) {
                        want
                    } else {
                        old(asked)@[f]
                    },
            )
            &&& r.first == shown@[low]
            &&& r.last == shown@[high]
        }),
{
    let count: usize = made.len();
    let rows_shown: usize = shown.len();
    let low: usize = model::row(first);
    let high: usize = if model::row(last) < shown.len() {
        model::row(last)
    } else {
        shown.len() - 1
    };
    let resize: bool = want != *thumb_want;
    *thumb_want = want;
    let ghost rows = if low <= high {
        shown@.subrange(low as int, high + 1)
    } else {
        seq![]
    };
    let mut list: Vec<usize> = Vec::new();
    let mut i: usize = low;
    proof {
        reveal(Seq::filter);
        assert(rows.take(0) =~= seq![]);
        assert(asked@ =~= asked_after(old(asked)@, list@, want));
    }
    while i <= high
        invariant
            low <= i,
            i <= high + 1 || i == low,
            high < shown@.len(),
            shown@.len() == rows_shown,
            made@.len() == count,
            selection::ordered(shown@),
            selection::below(shown@, made@.len() as int),
            small@.len() == made@.len(),
            old(asked)@.len() == made@.len(),
            asked@.len() == made@.len(),
            rows == if low <= high {
                shown@.subrange(low as int, high + 1)
            } else {
                seq![]
            },
            i - low <= rows.len(),
            list@ == again(rows.take(i - low), made@, old(asked)@, small@, want),
            asked@ == asked_after(old(asked)@, list@, want),
            forall|k: int| 0 <= k < list@.len() ==> i < shown@.len() ==> #[trigger] list@[k] < shown@[i as int],
        decreases high + 1 - i,
    {
        let f: usize = shown[i];
        let ghost before = list@;
        assert(!list@.contains(f));
        if made[f] > 0 && small[f] && asked[f] < want {
            asked.set(f, want);
            list.push(f);
        }
        i = i + 1;
        proof {
            reveal(Seq::filter);
            let done = rows.take(i - low);
            assert(done.drop_last() =~= rows.take(i - 1 - low));
            assert(done.last() == f);
            if list@ != before {
                assert forall|g: int| 0 <= g < asked@.len() implies #[trigger] asked@[g]
                    == asked_after(old(asked)@, list@, want)[g] by {
                    if g == f {
                        assert(list@[list@.len() - 1] == f);
                    } else {
                        if before.contains(g as usize) {
                            let k = choose|k: int| 0 <= k < before.len() && before[k] == g as usize;
                            assert(list@[k] == g as usize);
                        }
                        if list@.contains(g as usize) {
                            let k = choose|k: int| 0 <= k < list@.len() && list@[k] == g as usize;
                            assert(before[k] == g as usize);
                        }
                    }
                }
                assert(asked@ =~= asked_after(old(asked)@, list@, want));
            }
            if i < shown@.len() {
                assert(shown@[i - 1] < shown@[i as int]);
            }
        }
    }
    assert(rows.take(i - low) =~= rows);
    assert(asked@ =~= asked_after(old(asked)@, list@, want));
    GridAsk { resize, again: list, first: shown[low], last: shown[high] }
}

/// The sizes asked for, with those of `list` at `want`.
pub open spec fn asked_after(asked: Seq<u32>, list: Seq<usize>, want: u32) -> Seq<u32> {
    Seq::new(
        asked.len(),
        |f: int|
            if list.contains(f as usize) {
                want
            } else {
                asked[f]
            },
    )
}

/// A picture made again at a size is not asked for at it a second time.
pub proof fn a_picture_is_made_again_once(
    rows: Seq<usize>,
    made: Seq<u32>,
    asked: Seq<u32>,
    small: Seq<bool>,
    want: u32,
)
    requires
        selection::below(rows, asked.len() as int),
    ensures
        again(
            rows,
            made,
            asked_after(asked, again(rows, made, asked, small, want), want),
            small,
            want,
        ).len() == 0,
{
    let first = again(rows, made, asked, small, want);
    let after = asked_after(asked, first, want);
    let second = again(rows, made, after, small, want);
    let pick = |f: usize| asks_again(made, asked, small, want, f);
    let still = |f: usize| asks_again(made, after, small, want, f);
    if second.len() > 0 {
        let f = second[0];
        rows.lemma_filter_pred(still, 0);
        rows.lemma_filter_contains_rev(still, f);
        let k = choose|k: int| 0 <= k < rows.len() && rows[k] == f;
        assert(rows[k] < asked.len());
        if first.contains(f) {
            assert(after[f as int] == want);
        } else {
            assert(after[f as int] == asked[f as int]);
            assert(pick(rows[k]));
            rows.lemma_filter_contains(pick, k);
        }
    }
}


// Keys and clicks.

/// The frames a culling key is for: the whole selection, when the key is
/// one (`change`) and something is open. A key that is not the browser's
/// is left to others.
pub fn meta_key(b: &Browser, change: Option<Change>) -> (frames: Option<Vec<usize>>)
    requires
        b.wf(),
    ensures
        frames is Some <==> change is Some && b.current is Some,
        frames matches Some(v) ==> v@ == selection::chosen(b.picked@, b.current)
            && selection::ordered(v@) && selection::below(v@, b.names@.len() as int) && v@.len() > 0,
{
    if change.is_none() {
        return None;
    }
    proof {
        lemma_chosen(b.picked@, b.current, b.names@.len() as int);
        match b.current {
            Some(c) => {
                selection::a_set_takes_a_file_in_order(b.picked@, c, b.names@.len() as int);
                assert(selection::chosen(b.picked@, b.current).contains(c));
            },
            None => {},
        }
    }
    let v = chosen_frames(&b.picked, b.current);
    if v.len() == 0 {
        return None;
    }
    Some(v)
}

/// The file on a row of the window.
pub open spec fn file_at(shown: Seq<usize>, r: i32) -> Option<usize> {
    if 0 <= r < shown.len() {
        Some(shown[r as int])
    } else {
        None
    }
}

pub fn file_on_row(shown: &Vec<usize>, r: i32) -> (f: Option<usize>)
    ensures
        f == file_at(shown@, r),
{
    if r >= 0 && (r as usize) < shown.len() {
        Some(shown[r as usize])
    } else {
        None
    }
}

/// The frame on screen, alone.
pub open spec fn alone(current: Option<usize>) -> Seq<usize> {
    match current {
        Some(c) => seq![c],
        None => seq![],
    }
}

/// The browser with its set back to the frame on screen.
pub open spec fn collapsed(before: Browser, after: Browser) -> bool {
    let picked = alone(before.current);
    &&& after.picked@ == picked
    &&& after.thumbs@ == marked(before.thumbs@, before.shown@, picked)
    &&& after == (Browser {
        picked: after.picked,
        thumbs: after.thumbs,
        set_count: 1,
        ..before
    })
}

/// The set back to the frame on screen: Escape over a set, or an arrow at
/// the end of the strip.
pub fn set_collapsed(b: &mut Browser)
    requires
        old(b).wf(),
    ensures
        collapsed(*old(b), *final(b)),
        final(b).wf(),
        old(b).told() ==> final(b).told(),
{
    let mut picked: Vec<usize> = Vec::new();
    if let Some(c) = b.current {
        picked.push(c);
    }
    b.picked = picked;
    proof {
        if old(b).told() {
            assert forall|r: int| 0 <= r < b.thumbs@.len() implies b.row_told(r) by {
                assert(old(b).row_told(r));
            }
        }
        match b.current {
            Some(c) => {
                assert(b.picked@ =~= seq![c]);
                assert(b.picked@[0] == c);
                assert(b.picked@.contains(c));
            },
            None => {},
        }
    }
    show_set(b);
}

/// Where an arrow lands.
#[derive(Debug, Clone, Copy, PartialEq, Eq, Structural)]
pub struct Landing {
    pub row: usize,
    /// It is not the row already current.
    pub moves: bool,
}

/// The row an arrow steps from: the one selected, or the nearest to a
/// current frame the filter hid.
pub open spec fn steps_from(b: Browser) -> Option<int> {
    if b.selected >= 0 {
        Some(b.selected as int)
    } else {
        match b.current {
            Some(c) => selection::nearest(b.shown@, c),
            None => None,
        }
    }
}

/// A number held between the first row and the last.
pub open spec fn held(n: int, count: int) -> int {
    if n < 0 {
        0
    } else if n > count - 1 {
        count - 1
    } else {
        n
    }
}

/// An arrow along the strip: along the rows, which the filter may have
/// shortened, stopping at either end. Nothing without a row to step from
/// or a row to land on.
pub fn step(b: &Browser, by: i32) -> (r: Option<Landing>)
    requires
        b.wf(),
    ensures
        r is Some <==> steps_from(*b) is Some && b.shown@.len() > 0,
        r matches Some(l) ==> {
            let from = steps_from(*b)->0;
            &&& l.row == held(from + by, b.shown@.len() as int)
            &&& l.row < b.shown@.len()
            &&& l.moves == (l.row != from || b.selected < 0)
        },
{
    let count: usize = b.shown.len();
    proof {
        selection::lemma_fits(b.shown@, b.names@.len() as int);
    }
    let from: i64 = if b.selected >= 0 {
        b.selected as i64
    } else {
        match b.current {
            Some(c) => match selection::nearest_row(&b.shown, c) {
                Some(r) => r as i64,
                None => {
                    return None;
                },
            },
            None => {
                return None;
            },
        }
    };
    if count == 0 {
        return None;
    }
    let last: i64 = count as i64 - 1;
    let there: i64 = from + by as i64;
    let next: i64 = if there < 0 {
        0
    } else if there > last {
        last
    } else {
        there
    };
    Some(Landing { row: next as usize, moves: next != from || b.selected < 0 })
}

/// What an arrow's landing does.
#[derive(Debug, Clone, Copy, PartialEq, Eq, Structural)]
pub enum Arrow {
    /// The frame opens, and the set is that frame alone.
    Opens,
    /// It opens, and the set keeps what it had and takes it as well.
    Extends,
    /// Nothing moved, and the set collapses to the frame on screen.
    Collapses,
    Rests,
}

/// A plain arrow opens the row it lands on as a click would and the set
/// collapses to it, even at the end of the strip where nothing moved;
/// with Shift the set keeps what it had and takes the frame landed on as
/// well.
pub fn step_to(moves: bool, extend: bool) -> (a: Arrow)
    ensures
        a == if moves && extend {
            Arrow::Extends
        } else if moves {
            Arrow::Opens
        } else if extend {
            Arrow::Rests
        } else {
            Arrow::Collapses
        },
{
    if moves {
        if extend {
            Arrow::Extends
        } else {
            Arrow::Opens
        }
    } else if extend {
        Arrow::Rests
    } else {
        Arrow::Collapses
    }
}

/// An arrow in the grid, which lands on row `next` (below zero for
/// none).
pub fn grid_step(selected: i32, next: i32) -> (r: Option<bool>)
    ensures
        r == if next < 0 {
            None
        } else {
            Some(next != selected)
        },
{
    if next < 0 {
        None
    } else {
        Some(next != selected)
    }
}

/// What a click comes to.
#[derive(Debug)]
pub enum Click {
    /// A plain one: this frame alone.
    Open(usize),
    /// With Ctrl or Shift: this set about the frame on screen.
    Chosen(Vec<usize>),
}

/// A click on a frame in the strip or the grid: whether the frame is to
/// be opened. A plain click on the frame already on screen puts the set
/// back to it, and nothing is opened again; a Ctrl or a Shift one
/// changes the set and leaves the frame on screen.
pub fn frame_clicked(b: &mut Browser, click: Click) -> (open: bool)
    requires
        old(b).wf(),
        click matches Click::Chosen(set) ==> selection::ordered(set@) && selection::below(
            set@,
            old(b).names@.len() as int,
        ),
    ensures
        open == (click matches Click::Open(f) && old(b).current != Some(f)),
        match click {
            Click::Open(f) => if old(b).current == Some(f) {
                collapsed(*old(b), *final(b))
            } else {
                *final(b) == *old(b)
            },
            Click::Chosen(set) => set_shown(Browser { picked: set, ..*old(b) }, *final(b)),
        },
        final(b).wf(),
        old(b).told() ==> final(b).told(),
{
    match click {
        Click::Open(f) => {
            let here: bool = match b.current {
                Some(c) => c == f,
                None => false,
            };
            if !here {
                return true;
            }
            set_collapsed(b);
        },
        Click::Chosen(set) => {
            b.picked = set;
            proof {
                if old(b).told() {
                    assert forall|r: int| 0 <= r < b.thumbs@.len() implies b.row_told(r) by {
                        assert(old(b).row_told(r));
                    }
                }
            }
            show_set(b);
        },
    }
    false
}

// Opening a folder.

/// How a file's sidecar was read.
#[derive(Debug, Clone, Copy, PartialEq, Eq, Structural)]
pub enum SidecarRead {
    /// It holds an edit, which may never have been developed.
    Held { never_developed: bool },
    Missing,
    Broken,
}

/// What a file's edit starts as.
#[derive(Debug, Clone, Copy, PartialEq, Eq, Structural)]
pub enum Start {
    /// Its sidecar's.
    Sidecar,
    /// The default for a raw.
    Fresh,
    /// The default for a picture that is not a raw.
    Picture,
}

/// A file's edit at the opening of a folder, and whether its learned
/// denoiser's blend is still to be set from its ISO.
#[derive(Debug, Clone, Copy, PartialEq, Eq, Structural)]
pub struct Loaded {
    pub start: Start,
    pub seed: bool,
}

/// A file's edit: its sidecar's when there is one that reads; the fresh
/// one when sidecars are off or none is there. What decides whether the
/// blend is seeded is the sidecar's contents, not whether there is one:
/// a frame given a star in the browser has a sidecar with a default edit
/// in it, and it should still open at the blend its ISO asks for.
pub open spec fn loaded(write: bool, picture: bool, read: SidecarRead) -> Loaded {
    if !write {
        Loaded { start: Start::Fresh, seed: false }
    } else {
        match read {
            SidecarRead::Held { never_developed } => Loaded {
                start: Start::Sidecar,
                seed: !picture && never_developed,
            },
            _ => if picture {
                Loaded { start: Start::Picture, seed: false }
            } else {
                Loaded { start: Start::Fresh, seed: true }
            },
        }
    }
}

/// Each file's edit, given whether it is a picture that is not a raw and
/// how its sidecar was read.
pub fn load_sidecars(files: &Vec<(bool, SidecarRead)>, write: bool) -> (v: Vec<Loaded>)
    ensures
        v@ == files@.map_values(|f: (bool, SidecarRead)| loaded(write, f.0, f.1)),
{
    let mut v: Vec<Loaded> = Vec::new();
    let mut i: usize = 0;
    while i < files.len()
        invariant
            i <= files@.len(),
            v@.len() == i,
            forall|k: int|
                0 <= k < i ==> #[trigger] v@[k] == loaded(write, files@[k].0, files@[k].1),
        decreases files.len() - i,
    {
        let picture: bool = files[i].0;
        let read: SidecarRead = files[i].1;
        let l = if !write {
            Loaded { start: Start::Fresh, seed: false }
        } else {
            match read {
                SidecarRead::Held { never_developed } => Loaded {
                    start: Start::Sidecar,
                    seed: !picture && never_developed,
                },
                _ => if picture {
                    Loaded { start: Start::Picture, seed: false }
                } else {
                    Loaded { start: Start::Fresh, seed: true }
                },
            }
        };
        v.push(l);
        i = i + 1;
    }
    assert(v@ =~= files@.map_values(|f: (bool, SidecarRead)| loaded(write, f.0, f.1)));
    v
}

/// A folder to open: what is said when it cannot be, or the file to
/// start on (`select`: the last file open if it lies there, else the
/// first). `listed` is how many pictures it has; an empty folder is left
/// alone rather than emptying the strip under the user's feet.
pub fn open_folder(dir: &str, listed: Option<usize>, select: usize) -> (r: Result<usize, String>)
    ensures
        r is Ok <==> (listed matches Some(n) && n > 0),
        r matches Ok(s) ==> s == select,
        r matches Err(e) ==> e@ == match listed {
            None => dir@ + ": not a folder"@,
            Some(n) => "no pictures in "@ + dir@,
        },
{
    match listed {
        None => {
            let mut s = dir.to_owned();
            s.append(": not a folder");
            Err(s)
        },
        Some(n) => {
            if n == 0 {
                let mut s = "no pictures in ".to_owned();
                s.append(dir);
                Err(s)
            } else {
                Ok(select)
            }
        },
    }
}

/// What the desktop asked to open: the first of the files, or what is
/// said when there are none, the first refusal's words when there is
/// one.
pub fn open_paths(files: usize, refused: Option<&str>) -> (r: Result<usize, String>)
    ensures
        r is Ok <==> files > 0,
        r matches Ok(s) ==> s == 0,
        r matches Err(e) ==> e@ == match refused {
            Some(why) => why@,
            None => "nothing to open"@,
        },
{
    if files > 0 {
        return Ok(0);
    }
    match refused {
        Some(why) => Err(why.to_owned()),
        None => Err("nothing to open".to_owned()),
    }
}

/// What the folder chooser came back with.
#[derive(Debug, Clone, Copy, PartialEq, Eq, Structural)]
pub enum Chosen {
    Folder,
    Canceled,
    Failed,
}

/// The words for a folder chooser that came back with no folder.
pub fn chosen_said(c: Chosen) -> (s: Option<&'static str>)
    ensures
        match c {
            Chosen::Folder => s is None,
            Chosen::Canceled => s matches Some(t) && t@ == "open folder canceled"@,
            Chosen::Failed => s matches Some(t) && t@ == "the desktop offered no file chooser"@,
        },
{
    match c {
        Chosen::Folder => None,
        Chosen::Canceled => Some("open folder canceled"),
        Chosen::Failed => Some("the desktop offered no file chooser"),
    }
}

/// A folder's files put in the browser: nothing open, nothing chosen, and
/// none of the pictures made. The list is made of those that pass.
pub fn new_folder(
    b: &mut Browser,
    files: Vec<String>,
    metas: Vec<Meta>,
    passes: &Vec<bool>,
    select: usize,
) -> (open: Option<usize>)
    requires
        files@.len() < i32::MAX,
        metas@.len() == files@.len(),
        passes@.len() == files@.len(),
    ensures
        final(b).wf(),
        final(b).told(),
        final(b).paths == files,
        final(b).separator == old(b).separator,
        text::texts(final(b).names@) == paths::names_of(files@, old(b).separator),
        final(b).metas == metas,
        final(b).current is None,
        final(b).picked@ == Seq::<usize>::empty(),
        final(b).selected == -1,
        final(b).set_count == 1,
        final(b).reject_count == rejects(metas@),
        final(b).menu_file == old(b).menu_file,
        final(b).shown@ == passing(passes@),
        forall|r: int|
            0 <= r < final(b).thumbs@.len() ==> (#[trigger] final(b).thumbs@[r]).picture is None
                && !final(b).thumbs@[r].chosen,
        final(b).pictured@ == Seq::new(files@.len(), |i: int| false),
        final(b).stood@ == Seq::new(files@.len(), |i: int| None::<Stand>),
        open is Some <==> opening_row(final(b).shown@, select) is Some,
        open matches Some(r) ==> opening_row(final(b).shown@, select) == Some(r as int) && r
            < final(b).shown@.len(),
{
    let n: usize = files.len();
    let mut pictured: Vec<bool> = Vec::new();
    let mut stood: Vec<Option<Stand>> = Vec::new();
    let mut stands: Vec<Stand> = Vec::new();
    let mut i: usize = 0;
    while i < n
        invariant
            i <= n,
            pictured@ =~= Seq::new(i as nat, |k: int| false),
            stood@ =~= Seq::new(i as nat, |k: int| None::<Stand>),
            stands@.len() == i,
        decreases n - i,
    {
        pictured.push(false);
        stood.push(None);
        stands.push(Stand { turns: 0, flip: false });
        i = i + 1;
    }
    b.names = paths::file_names(&files, b.separator);
    b.paths = files;
    b.metas = metas;
    b.pictured = pictured;
    b.stood = stood;
    b.shown = Vec::new();
    b.current = None;
    b.picked = Vec::new();
    b.thumbs = Vec::new();
    let ghost emptied = *b;
    let _next: Option<usize> = rebuild_browser(b, passes, &stands);
    proof {
        the_rows_are_what_passes(passes@);
        lemma_rejects(b.metas@);
        assert(b.stood@ =~= Seq::new(n as nat, |i: int| None::<Stand>));
        assert forall|r: int| 0 <= r < b.thumbs@.len() implies (#[trigger] b.thumbs@[r]).picture
            is None && !b.thumbs@[r].chosen by {
            assert(row_made(emptied, stands@, b.shown@[r], b.picked@, b.thumbs@[r]));
            assert(b.shown@[r] < n);
        }
        selection::lemma_place(b.shown@, select);
    }
    match row_of(&b.shown, select) {
        Some(r) => Some(r),
        None => selection::nearest_row(&b.shown, select),
    }
}

/// The row to open a folder on: the file's, or hidden by the filter, the
/// nearest one shown.
pub open spec fn opening_row(shown: Seq<usize>, select: usize) -> Option<int> {
    match row(shown, select) {
        Some(r) => Some(r),
        None => selection::nearest(shown, select),
    }
}

/// The next step of a run being timed, of `left` steps: none after the
/// last, or at the end of the rows.
pub fn time_select(left: u32, row: Option<usize>, count: usize) -> (r: Option<u32>)
    ensures
        r == if left == 0 || (row matches Some(r) && r + 1 >= count) {
            None
        } else {
            Some((left - 1) as u32)
        },
{
    let at_end: bool = match row {
        Some(r) => count == 0 || r >= count - 1,
        None => false,
    };
    if left == 0 || at_end {
        None
    } else {
        Some(left - 1)
    }
}

// What holds of the marks.

/// The frames that are rejects.
pub open spec fn rejected(metas: Seq<Meta>) -> Set<int> {
    Set::new(|f: int| 0 <= f < metas.len() && metas[f].flag is Reject)
}

/// The rejects counted are the frames flagged so, each once.
pub proof fn the_count_is_of_the_rejects(metas: Seq<Meta>)
    ensures
        rejected(metas).finite(),
        rejects(metas) == rejected(metas).len(),
    decreases metas.len(),
{
    if metas.len() == 0 {
        assert(rejected(metas) =~= Set::<int>::empty());
    } else {
        let before = metas.drop_last();
        let n = metas.len() - 1;
        the_count_is_of_the_rejects(before);
        if metas.last().flag is Reject {
            assert(rejected(metas) =~= rejected(before).insert(n));
        } else {
            assert(rejected(metas) =~= rejected(before));
        }
    }
}

spec fn numbers(frames: Seq<usize>) -> Set<int> {
    Set::new(|f: int| 0 <= f <= usize::MAX && frames.contains(f as usize))
}

proof fn lemma_numbers(frames: Seq<usize>)
    requires
        selection::ordered(frames),
    ensures
        numbers(frames).finite(),
        numbers(frames).len() == frames.len(),
    decreases frames.len(),
{
    if frames.len() == 0 {
        assert(numbers(frames) =~= Set::<int>::empty());
    } else {
        let before = frames.drop_last();
        lemma_numbers(before);
        let x = frames.last();
        assert forall|f: int| #[trigger] numbers(frames).contains(f) implies numbers(
            before,
        ).insert(x as int).contains(f) by {
            let k = choose|k: int| 0 <= k < frames.len() && frames[k] == f as usize;
            if k < before.len() {
                assert(before[k] == f as usize);
            }
        }
        assert forall|f: int| #[trigger] numbers(before).insert(x as int).contains(
            f,
        ) implies numbers(frames).contains(f) by {
            if numbers(before).contains(f) {
                let k = choose|k: int| 0 <= k < before.len() && before[k] == f as usize;
                assert(frames[k] == f as usize);
            } else {
                assert(frames[frames.len() - 1] == f as usize);
            }
        }
        assert(numbers(frames) =~= numbers(before).insert(x as int));
        if numbers(before).contains(x as int) {
            let k = choose|k: int| 0 <= k < before.len() && before[k] == x;
            assert(frames[k] < frames[frames.len() - 1]);
        }
    }
}

/// A mark is put on every frame it is asked for and on no other: a flag is
/// that flag, so many stars are so many, a label is that label, or none
/// where all of them had it; the other marks of a frame stay, and what is
/// open, shown and chosen does not move.
pub proof fn a_mark_is_put_on_its_frames_alone(
    before: Browser,
    frames: Seq<usize>,
    change: Change,
    after: Browser,
)
    requires
        before.wf(),
        selection::below(frames, before.names@.len() as int),
        meta_set(before, frames, change, after),
    ensures
        after.metas@.len() == before.metas@.len(),
        forall|f: usize|
            f < before.metas@.len() && !frames.contains(f) ==> #[trigger] after.metas@[f as int]
                == before.metas@[f as int],
        change matches Change::Flag(x) ==> forall|k: int|
            0 <= k < frames.len() ==> {
                let (a, b) = (
                    before.metas@[#[trigger] frames[k] as int],
                    after.metas@[frames[k] as int],
                );
                b.flag == x && b.rating == a.rating && b.label == a.label
            },
        change matches Change::Rating(n) ==> forall|k: int|
            0 <= k < frames.len() ==> {
                let (a, b) = (
                    before.metas@[#[trigger] frames[k] as int],
                    after.metas@[frames[k] as int],
                );
                b.rating == n && b.flag == a.flag && b.label == a.label
            },
        change matches Change::Label(l) ==> forall|k: int|
            0 <= k < frames.len() ==> {
                let (a, b) = (
                    before.metas@[#[trigger] frames[k] as int],
                    after.metas@[frames[k] as int],
                );
                &&& b.rating == a.rating && b.flag == a.flag
                &&& b.label == if forall|j: int|
                    0 <= j < frames.len() ==> before.metas@[(#[trigger] frames[j]) as int].label
                        == l {
                    meta::Label::Plain
                } else {
                    l
                }
            },
        after.current == before.current,
        after.picked == before.picked,
        after.shown == before.shown,
        after.names == before.names,
        after.selected == before.selected,
        after.reject_count == rejected(after.metas@).len(),
{
    the_count_is_of_the_rejects(after.metas@);
    lemma_rejects(after.metas@);
    assert forall|k: int| 0 <= k < frames.len() implies frames.contains(#[trigger] frames[k])
        && after.metas@[frames[k] as int] == before.metas@[frames[k] as int].with(
        meta::settled(before.metas@, frames, change),
    ) by {}
}

/// Rejecting a set leaves as many rejects as the set has frames, and those
/// outside it besides.
pub proof fn a_set_rejected_is_counted(before: Browser, frames: Seq<usize>, after: Browser)
    requires
        before.wf(),
        selection::ordered(frames),
        selection::below(frames, before.names@.len() as int),
        meta_set(before, frames, Change::Flag(Flag::Reject), after),
    ensures
        after.reject_count == frames.len() + rejected(before.metas@).filter(
            |f: int| !frames.contains(f as usize),
        ).len(),
{
    let outside = rejected(before.metas@).filter(|f: int| !frames.contains(f as usize));
    a_mark_is_put_on_its_frames_alone(before, frames, Change::Flag(Flag::Reject), after);
    the_count_is_of_the_rejects(before.metas@);
    the_count_is_of_the_rejects(after.metas@);
    lemma_numbers(frames);
    assert(outside.subset_of(rejected(before.metas@)));
    vstd::set_lib::lemma_len_subset(outside, rejected(before.metas@));
    let all = rejected(after.metas@);
    assert forall|f: int| #[trigger] all.contains(f) implies numbers(frames).union(
        outside,
    ).contains(f) by {
        if !frames.contains(f as usize) {
            assert(after.metas@[(f as usize) as int] == before.metas@[f]);
        }
    }
    assert forall|f: int| #[trigger] numbers(frames).union(outside).contains(
        f,
    ) implies all.contains(f) by {
        if numbers(frames).contains(f) {
            let k = choose|k: int| 0 <= k < frames.len() && frames[k] == f as usize;
            assert(after.metas@[frames[k] as int].flag is Reject);
        } else {
            assert(after.metas@[(f as usize) as int] == before.metas@[f]);
        }
    }
    assert(all =~= numbers(frames).union(outside));
    assert(numbers(frames).disjoint(outside));
    vstd::set_lib::lemma_set_disjoint_lens(numbers(frames), outside);
}

/// The rows go on saying what their files are marked with: a row's stars,
/// flag and label are its file's, and its name, its picture and whether it
/// is chosen are as they were.
pub proof fn the_badges_follow_the_marks(
    before: Browser,
    frames: Seq<usize>,
    change: Change,
    after: Browser,
    r: int,
)
    requires
        before.wf(),
        before.told(),
        selection::below(frames, before.names@.len() as int),
        meta_set(before, frames, change, after),
        after.told(),
        0 <= r < before.thumbs@.len(),
    ensures
        after.thumbs@.len() == before.thumbs@.len(),
        after.thumbs@[r].name == before.thumbs@[r].name,
        after.thumbs@[r].picture == before.thumbs@[r].picture,
        after.thumbs@[r].chosen == before.thumbs@[r].chosen,
        ({
            let m = after.metas@[before.shown@[r] as int];
            &&& m.rating <= 5 ==> after.thumbs@[r].rating == m.rating
            &&& after.thumbs@[r].flag == 2 <==> m.flag is Reject
            &&& after.thumbs@[r].flag == 1 <==> m.flag is Pick
            &&& after.thumbs@[r].flag == 0 <==> m.flag is Unflagged
            &&& after.thumbs@[r].label == m.label.number()
        }),
{
    assert(after.row_told(r));
}

/// What comes back as news are the frames of the set that a change has
/// made another, and those alone.
pub proof fn the_news_is_what_changed(metas: Seq<Meta>, frames: Seq<usize>, change: Change, f: usize)
    requires
        selection::below(frames, metas.len() as int),
    ensures
        moved(metas, frames, change).contains(f) <==> frames.contains(f) && changed(
            metas,
            frames,
            change,
        )[f as int] != metas[f as int],
    decreases frames.len(),
{
    if frames.len() > 0 {
        let before = frames.drop_last();
        let x = frames.last();
        assert forall|i: int| 0 <= i < before.len() implies #[trigger] before[i]
            < metas.len() by {
            assert(frames[i] < metas.len());
        }
        assert(frames[frames.len() - 1] < metas.len());
        the_news_is_what_changed(metas, before, change, f);
        let was = moved(metas, before, change);
        let now = moved(metas, frames, change);
        assert(frames.contains(f) <==> before.contains(f) || f == x) by {
            if before.contains(f) {
                let k = choose|k: int| 0 <= k < before.len() && before[k] == f;
                assert(frames[k] == f);
            }
            if frames.contains(f) && f != x {
                let k = choose|k: int| 0 <= k < frames.len() && frames[k] == f;
                assert(before[k] == f);
            }
            if f == x {
                assert(frames[frames.len() - 1] == f);
            }
        }
        if frames.contains(f) {
            let k = choose|k: int| 0 <= k < frames.len() && frames[k] == f;
            assert(frames[k] < metas.len());
            assert(changed(metas, frames, change)[f as int] == metas[f as int].with(change));
        }
        if before.contains(f) {
            assert(changed(metas, before, change)[f as int] == metas[f as int].with(change));
        }
        if now.len() > was.len() {
            assert(now =~= was.push(x));
            assert(was.push(x).contains(f) <==> was.contains(f) || f == x) by {
                if was.contains(f) {
                    let k = choose|k: int| 0 <= k < was.len() && was[k] == f;
                    assert(was.push(x)[k] == f);
                }
                assert(was.push(x)[was.len() as int] == x);
                if was.push(x).contains(f) && f != x {
                    let k = choose|k: int| 0 <= k < was.push(x).len() && was.push(x)[k] == f;
                    assert(was[k] == f);
                }
            }
        }
    }
}

// What holds of a folder.

/// A file opens with the edit that was saved for it: with sidecars on, its
/// sidecar's exactly where one was read that holds an edit; with none it
/// is the picture's default or the raw's, by what the file is; and with
/// sidecars off never a sidecar's. The blend is still to be set for a raw
/// alone, one that was never developed.
pub proof fn a_file_opens_with_its_saved_edit(write: bool, picture: bool, read: SidecarRead)
    ensures
        ({
            let l = loaded(write, picture, read);
            &&& l.start is Sidecar <==> write && read is Held
            &&& l.start is Picture <==> write && !(read is Held) && picture
            &&& l.start is Fresh <==> !write || (!(read is Held) && !picture)
            &&& l.seed ==> write && !picture
            &&& write && !picture ==> (l.seed <==> !(read == SidecarRead::Held {
                never_developed: false,
            }))
        }),
{
}

/// The list is one row for each file that passes, in the folder's order,
/// and each row is its file's: its name, its marks, its picture where one
/// is made, and whether it is in the set. A frame hidden leaves the set;
/// the frame on screen stays on it, and its row is the one selected.
pub proof fn the_list_is_of_the_files_that_pass(
    before: Browser,
    passes: Seq<bool>,
    stands: Seq<Stand>,
    after: Browser,
)
    requires
        before.ready(),
        selection::below(before.picked@, before.names@.len() as int),
        passes.len() == before.names@.len(),
        stands.len() == before.names@.len(),
        rebuilt(before, passes, stands, after),
    ensures
        after.thumbs@.len() == after.shown@.len(),
        selection::ordered(after.shown@),
        forall|f: usize| #[trigger]
            after.shown@.contains(f) <==> f < passes.len() && passes[f as int],
        forall|r: int|
            0 <= r < after.thumbs@.len() ==> {
                let (t, f) = (#[trigger] after.thumbs@[r], after.shown@[r] as int);
                &&& t.name@ == before.names@[f]@
                &&& t.flag == before.metas@[f].flag.number()
                &&& t.label == before.metas@[f].label.number()
                &&& before.metas@[f].rating <= 5 ==> t.rating == before.metas@[f].rating
                &&& t.picture == if before.pictured@[f] {
                    Some(stands[f])
                } else {
                    None
                }
                &&& t.chosen <==> after.picked@.contains(f as usize)
            },
        before.current is Some ==> (forall|f: usize| #[trigger]
            after.picked@.contains(f) <==> (before.picked@.contains(f) && f < passes.len()
                && passes[f as int]) || before.current == Some(f)),
        before.current is None ==> after.picked@.len() == 0,
        after.current == before.current,
        after.names == before.names && after.metas == before.metas && after.paths == before.paths,
        before.current matches Some(c) ==> (passes[c as int] ==> 0 <= after.selected
            < after.shown@.len() && after.shown@[after.selected as int] == c),
        before.current matches Some(c) ==> (!passes[c as int] ==> after.selected == -1),
        before.current is None ==> after.selected == -1,
{
    let n = before.names@.len() as int;
    the_rows_are_what_passes(passes);
    let shown = passing(passes);
    selection::a_hidden_frame_leaves_the_set(before.picked@, shown, n);
    let kept = selection::pruned(before.picked@, shown);
    assert forall|r: int| 0 <= r < shown.len() implies (#[trigger] shown[r]) < passes.len() by {}
    match before.current {
        Some(c) => {
            selection::a_set_takes_a_file_in_order(kept, c, n);
            selection::lemma_place(shown, c);
            selection::lemma_fits(shown, n);
        },
        None => {},
    }
    assert forall|r: int| 0 <= r < after.thumbs@.len() implies ({
        let (t, f) = (#[trigger] after.thumbs@[r], after.shown@[r] as int);
        &&& t.name@ == before.names@[f]@
        &&& t.flag == before.metas@[f].flag.number()
        &&& t.label == before.metas@[f].label.number()
        &&& before.metas@[f].rating <= 5 ==> t.rating == before.metas@[f].rating
        &&& t.picture == if before.pictured@[f] {
            Some(stands[f])
        } else {
            None
        }
        &&& t.chosen <==> after.picked@.contains(f as usize)
    }) by {
        assert(row_made(before, stands, shown[r], after.picked@, after.thumbs@[r]));
    }
}

/// The set on the rows is the one acted on: the frame on screen and those
/// chosen beside it, each of its rows marked and no other, and it is as
/// large as the window says. With nothing open there is none.
pub proof fn the_set_shown_is_the_set_acted_on(before: Browser, after: Browser)
    requires
        before.wf(),
        set_shown(before, after),
    ensures
        before.current is Some ==> (forall|f: usize| #[trigger]
            after.picked@.contains(f) <==> before.picked@.contains(f) || before.current == Some(
                f,
            )),
        before.current is None ==> after.picked@.len() == 0,
        forall|r: int|
            0 <= r < before.thumbs@.len() ==> ((#[trigger] after.thumbs@[r]).chosen
                <==> after.picked@.contains(before.shown@[r])),
        forall|r: int|
            0 <= r < before.thumbs@.len() ==> (#[trigger] after.thumbs@[r]).name
                == before.thumbs@[r].name && after.thumbs@[r].picture == before.thumbs@[r].picture
                && after.thumbs@[r].rating == before.thumbs@[r].rating,
        after.picked@.len() > 0 ==> after.set_count == after.picked@.len(),
        after.picked@.len() == 0 ==> after.set_count == 1,
        after.current == before.current && after.shown == before.shown && after.metas
            == before.metas,
{
    lemma_chosen(before.picked@, before.current, before.names@.len() as int);
    match before.current {
        Some(c) => {
            selection::a_set_takes_a_file_in_order(before.picked@, c, before.names@.len() as int);
        },
        None => {},
    }
}

/// A set collapsed is the frame on screen alone.
pub proof fn a_set_collapsed_is_the_frame_on_screen(before: Browser, after: Browser)
    requires
        before.wf(),
        collapsed(before, after),
    ensures
        forall|f: usize| #[trigger] after.picked@.contains(f) <==> before.current == Some(f),
        forall|r: int|
            0 <= r < before.thumbs@.len() ==> ((#[trigger] after.thumbs@[r]).chosen
                <==> before.current == Some(before.shown@[r])),
        after.set_count == 1,
        after.current == before.current && after.shown == before.shown && after.metas
            == before.metas,
{
    assert forall|f: usize| #[trigger] after.picked@.contains(f) <==> before.current == Some(
        f,
    ) by {
        match before.current {
            Some(c) => {
                assert(after.picked@[0] == c);
                assert(after.picked@.len() == 1);
            },
            None => {},
        }
    }
}

/// With the frame on screen shown nothing else opens; hidden, it gives way
/// to the nearest row left.
pub proof fn a_hidden_frame_gives_way(shown: Seq<usize>, current: Option<usize>)
    requires
        selection::ordered(shown),
    ensures
        current is None ==> next_row(shown, current) is None,
        current matches Some(c) ==> (shown.contains(c) ==> next_row(shown, current) is None),
        current matches Some(c) ==> (!shown.contains(c) && shown.len() > 0 ==> (next_row(
            shown,
            current,
        ) matches Some(r) && 0 <= r < shown.len())),
        shown.len() == 0 ==> next_row(shown, current) is None,
{
    match current {
        Some(c) => {
            selection::lemma_place(shown, c);
        },
        None => {},
    }
}

/// A folder opens on the file that was asked for, where it is shown, and
/// on the nearest one that is where it is not; on none only with none
/// shown.
pub proof fn a_folder_opens_on_what_was_asked(shown: Seq<usize>, select: usize)
    requires
        selection::ordered(shown),
    ensures
        shown.contains(select) ==> (opening_row(shown, select) matches Some(r) && 0 <= r
            < shown.len() && shown[r] == select),
        shown.len() > 0 ==> (opening_row(shown, select) matches Some(r) && 0 <= r < shown.len()),
        shown.len() == 0 ==> opening_row(shown, select) is None,
{
    selection::lemma_place(shown, select);
    if shown.contains(select) {
        let k = choose|k: int| 0 <= k < shown.len() && shown[k] == select;
        assert(0 <= k < shown.len());
    }
}

/// A row is a file's exactly where the list has it.
pub proof fn a_row_past_the_list_has_no_file(shown: Seq<usize>, r: i32)
    ensures
        0 <= r < shown.len() ==> file_at(shown, r) == Some(shown[r as int]),
        r < 0 || r >= shown.len() ==> file_at(shown, r) is None,
{
}

/// A step stays on the rows: it lands as far along as was asked, where the
/// list goes so far, and on its end where it does not.
pub proof fn a_step_stays_on_the_rows(from: int, by: int, count: int)
    requires
        0 <= from < count,
    ensures
        0 <= held(from + by, count) < count,
        0 <= from + by < count ==> held(from + by, count) == from + by,
        from + by < 0 ==> held(from + by, count) == 0,
        from + by >= count ==> held(from + by, count) == count - 1,
{
}

/// A step starts on the row selected; with the frame on screen hidden, on
/// the row nearest to it.
pub proof fn a_step_starts_where_the_selection_is(b: Browser)
    requires
        b.wf(),
    ensures
        b.selected >= 0 ==> steps_from(b) == Some(b.selected as int),
        b.selected < 0 && b.current is None ==> steps_from(b) is None,
        b.selected < 0 && b.current is Some && b.shown@.len() > 0 ==> (steps_from(b) matches Some(
            r,
        ) && 0 <= r < b.shown@.len()),
{
    match b.current {
        Some(c) => {
            selection::lemma_place(b.shown@, c);
        },
        None => {},
    }
}

/// A filter's rows are made again exactly where a frame that changed is
/// shown and no longer passes, or passes and is not shown.
pub proof fn the_rows_are_made_again_for_what_comes_and_goes(
    shown: Seq<usize>,
    frames: Seq<usize>,
    passes: Seq<bool>,
)
    ensures
        !hides(shown, frames, passes) <==> forall|k: int|
            0 <= k < frames.len() ==> (shown.contains(#[trigger] frames[k])
                <==> passes[frames[k] as int]),
{
}

/// A turn is planned for every frame of the set that is in the folder, in
/// order and once each; the panel's own is the one it shows, and in
/// culling it shows none.
pub proof fn a_turn_is_planned_for_each_frame(
    frames: Seq<usize>,
    count: int,
    current: Option<usize>,
    culling: bool,
)
    requires
        selection::below(frames, count),
    ensures
        ({
            let plan = turned(frames, count, panel_frame(current, culling));
            &&& plan.len() == frames.len()
            &&& forall|k: int|
                0 <= k < frames.len() ==> (#[trigger] plan[k]).file == frames[k] && (
                plan[k].panel <==> !culling && current == Some(frames[k]))
        }),
    decreases frames.len(),
{
    if frames.len() > 0 {
        let before = frames.drop_last();
        assert forall|i: int| 0 <= i < before.len() implies #[trigger] before[i] < count by {
            assert(frames[i] < count);
        }
        a_turn_is_planned_for_each_frame(before, count, current, culling);
        assert(frames[frames.len() - 1] < count);
    }
}

/// The shape a frame is taken to have is the surest there is: its own
/// develop's, its file's, its camera picture's and its thumbnail's, in
/// that order, and the last two stood as the frame is turned.
pub proof fn a_frame_has_the_surest_shape(m: Measures)
    ensures
        m.own matches Some(s) ==> (s.0 > 0 && s.1 > 0 ==> shape_of(m) == m.own),
        m.own is None && (m.file matches Some(s) && s.0 > 0 && s.1 > 0) ==> shape_of(m) == m.file,
        m.own is None && m.file is None ==> (m.preview matches Some(s) ==> (s.0 > 0 && s.1 > 0
            ==> shape_of(m) == Some(
            if m.turn % 2 == 1 {
                (s.1, s.0)
            } else {
                s
            },
        ))),
        m.own is None && m.file is None && m.preview is None ==> (m.thumb matches Some(s) ==> (s.0
            > 0 && s.1 > 0 ==> shape_of(m) == Some(
            if m.turn % 2 == 1 {
                (s.1, s.0)
            } else {
                s
            },
        ))),
        m.own is None && m.file is None && m.preview is None && m.thumb is None ==> shape_of(m)
            is None,
{
}

/// A picture is made again where one was made, too small, and no larger
/// was asked for, and nowhere else.
pub proof fn a_picture_too_small_is_made_again(
    rows: Seq<usize>,
    made: Seq<u32>,
    asked: Seq<u32>,
    small: Seq<bool>,
    want: u32,
    f: usize,
)
    ensures
        again(rows, made, asked, small, want).contains(f) <==> rows.contains(f) && made[f as int]
            > 0 && small[f as int] && asked[f as int] < want,
{
    let pick = |f: usize| asks_again(made, asked, small, want, f);
    broadcast use vstd::seq_lib::group_filter_ensures;
    if rows.contains(f) && pick(f) {
        let k = choose|k: int| 0 <= k < rows.len() && rows[k] == f;
        rows.lemma_filter_contains(pick, k);
    }
    if rows.filter(pick).contains(f) {
        rows.lemma_filter_contains_rev(pick, f);
        let k = choose|k: int| 0 <= k < rows.filter(pick).len() && rows.filter(pick)[k] == f;
        rows.lemma_filter_pred(pick, k);
    }
}

/// A cell is filled by a picture that was made and is not too small.
pub proof fn a_cell_is_filled_by_its_picture(made: Seq<u32>, small: Seq<bool>, file: usize)
    ensures
        made[file as int] == 0 ==> !filled(made, small, file),
        small[file as int] ==> !filled(made, small, file),
        made[file as int] != 0 && !small[file as int] ==> filled(made, small, file),
{
}

/// A row made again stands as its frame now stands, where its picture is
/// there to be stood; a frame that is not listed, or has no picture, is
/// left as it was.
pub proof fn a_row_made_again_stands_as_it_is(
    b: Browser,
    passes: Seq<bool>,
    stands: Seq<Stand>,
    f: int,
)
    requires
        0 <= f < b.stood@.len(),
    ensures
        stood_after(b, passes, stands).len() == b.stood@.len(),
        passes[f] && b.pictured@[f] ==> stood_after(b, passes, stands)[f] == Some(stands[f]),
        !passes[f] || !b.pictured@[f] ==> stood_after(b, passes, stands)[f] == b.stood@[f],
{
}

} // verus!
