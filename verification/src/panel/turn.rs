//! A frame's own turn: the camera's orientation tag put right, which is
//! a fact about the picture and not a step in developing it.

use crate::panel::browser::{Browser, Stand, Thumb, Turned};
use crate::panel::browser;
use crate::panel::edit::Develop;
use crate::panel::edit;
use crate::panel::placeholder::{Cull, Desk};
use crate::panel::selection;
use crate::panel::startup;
use vstd::prelude::*;

verus! {

/// A frame's quarter turns, with `quarters` more clockwise.
pub open spec fn turned_on(turn: u8, quarters: i32) -> u8 {
    ((turn + quarters) % 4) as u8
}

pub fn turn_on(turn: u8, quarters: i32) -> (r: u8)
    requires
        turn < 4,
    ensures
        r == turned_on(turn, quarters),
        r < 4,
{
    (turn + startup::quarters_of(quarters)) % 4
}

/// The frames' own turns, with those of `frames` turned.
pub open spec fn turns_after(turns: Seq<u8>, frames: Seq<usize>, quarters: i32) -> Seq<u8> {
    Seq::new(
        turns.len(),
        |i: int|
            if frames.contains(i as usize) {
                turned_on(turns[i], quarters)
            } else {
                turns[i]
            },
    )
}

/// A row's picture as its file now stands, when it is one of `frames` and
/// its picture is made.
pub open spec fn row_after(
    b: Browser,
    t: Thumb,
    f: usize,
    frames: Seq<usize>,
    stands: Seq<Stand>,
) -> Thumb {
    if frames.contains(f) && b.pictured@[f as int] {
        Thumb { picture: Some(stands[f as int]), ..t }
    } else {
        t
    }
}

/// The pictures of `frames` put up again, each as it now stands.
pub open spec fn put_up(
    before: Browser,
    frames: Seq<usize>,
    stands: Seq<Stand>,
    after: Browser,
) -> bool {
    &&& after == (Browser { thumbs: after.thumbs, stood: after.stood, ..before })
    &&& after.stood@ == Seq::new(
        before.stood@.len(),
        |i: int|
            if frames.contains(i as usize) && before.pictured@[i] {
                Some(stands[i])
            } else {
                before.stood@[i]
            },
    )
    &&& after.thumbs@ == Seq::new(
        before.thumbs@.len(),
        |r: int| row_after(before, before.thumbs@[r], before.shown@[r], frames, stands),
    )
}

/// The frame whose edit the panel owns is one of those turned: its
/// develop is to stand on end too.
pub open spec fn develops(d: Desk, frames: Seq<usize>) -> bool {
    match browser::panel_frame(d.browser.current, d.cull is Some) {
        Some(c) => frames.contains(c),
        None => false,
    }
}

/// A desk with `frames` turned.
pub open spec fn desk_turned(
    before: Desk,
    frames: Seq<usize>,
    quarters: i32,
    stands: Seq<Stand>,
    after: Desk,
) -> bool {
    &&& put_up(before.browser, frames, stands, after.browser)
    &&& after == (Desk {
        browser: after.browser,
        cull: after.cull,
        work: after.work,
        image_size: (0, 0),
        source_size: after.source_size,
        ..before
    })
    &&& match before.cull {
        Some(c) => after.cull == Some(Cull { turned: true, ..c }),
        None => after.cull is None,
    }
    &&& if develops(before, frames) {
        &&& after.source_size == if quarters as int % 2 == 1 {
            (before.source_size.1, before.source_size.0)
        } else {
            before.source_size
        }
        &&& after.work.status@ == "developing..."@
        &&& after.work == (edit::Work {
            generation: (before.work.generation + 1) as u64,
            busy: true,
            status: after.work.status,
            ..before.work
        })
    } else {
        after.source_size == before.source_size && after.work == before.work
    }
}

/// What a turn leaves to do.
#[derive(Debug)]
pub struct Turning {
    /// The frames turned, each of them to be written: the panel's edit,
    /// with what it held recorded first, or the sidecar's. The rasters of
    /// the masks are let go of, since they know nothing of a turn.
    pub frames: Vec<Turned>,
    /// The open frame's develop, when it was one of them.
    pub develop: Option<Develop>,
}

/// The frame whose edit the panel owns is one of `frames`.
fn owned(d: &Desk, frames: &Vec<usize>) -> (r: Option<usize>)
    requires
        selection::ordered(frames@),
    ensures
        r is Some == develops(*d, frames@),
        r matches Some(c) ==> d.browser.current == Some(c) && d.cull is None && frames@.contains(c),
{
    if d.cull.is_some() {
        return None;
    }
    match d.browser.current {
        Some(c) => if selection::has(frames, c) {
            Some(c)
        } else {
            None
        },
        None => None,
    }
}

/// The pictures of `frames` up as they now stand.
fn put_up_again(b: &mut Browser, frames: &Vec<usize>, stands: &Vec<Stand>)
    requires
        old(b).wf(),
        stands@.len() == old(b).names@.len(),
    ensures
        final(b).wf(),
        old(b).told() ==> final(b).told(),
        put_up(*old(b), frames@, stands@, *final(b)),
{
    let ghost first = *b;
    let mut k: usize = 0;
    while k < frames.len()
        invariant
            k <= frames@.len(),
            first.wf(),
            b.wf(),
            stands@.len() == first.names@.len(),
            first.told() ==> b.told(),
            *b == (Browser { thumbs: b.thumbs, stood: b.stood, ..first }),
            forall|i: int|
                0 <= i < first.stood@.len() ==> #[trigger] b.stood@[i] == if frames@.take(
                    k as int,
                ).contains(i as usize) && first.pictured@[i] {
                    Some(stands@[i])
                } else {
                    first.stood@[i]
                },
            forall|r: int|
                0 <= r < first.thumbs@.len() ==> #[trigger] b.thumbs@[r] == row_after(
                    first,
                    first.thumbs@[r],
                    first.shown@[r],
                    frames@.take(k as int),
                    stands@,
                ),
        decreases frames.len() - k,
    {
        let f: usize = frames[k];
        let ghost before = *b;
        let ghost (had, has) = (frames@.take(k as int), frames@.take(k + 1));
        proof {
            assert(has =~= had.push(f));
            assert(has[k as int] == f);
            assert forall|x: usize| #[trigger] has.contains(x) == (had.contains(x) || x == f) by {
                if had.contains(x) {
                    let j = had.index_of(x);
                    assert(has[j] == x);
                }
            }
        }
        if f < b.names.len() {
            browser::show_thumb(b, f, stands[f]);
            proof {
                assert forall|r: int| 0 <= r < first.thumbs@.len() implies #[trigger] b.thumbs@[r]
                    == row_after(first, first.thumbs@[r], first.shown@[r], has, stands@) by {
                    browser::a_row_is_its_file(first.shown@, r);
                    if first.shown@.contains(f) {
                        selection::lemma_place(first.shown@, f);
                    }
                    assert(before.thumbs@[r] == row_after(
                        first,
                        first.thumbs@[r],
                        first.shown@[r],
                        had,
                        stands@,
                    ));
                }
            }
        } else {
            assert forall|r: int| 0 <= r < first.thumbs@.len() implies #[trigger] b.thumbs@[r]
                == row_after(first, first.thumbs@[r], first.shown@[r], has, stands@) by {
                assert(first.shown@[r] < first.names@.len());
            }
        }
        k = k + 1;
    }
    proof {
        assert(frames@.take(k as int) =~= frames@);
        assert(b.stood@ =~= Seq::new(
            first.stood@.len(),
            |i: int|
                if frames@.contains(i as usize) && first.pictured@[i] {
                    Some(stands@[i])
                } else {
                    first.stood@[i]
                },
        ));
        assert(b.thumbs@ =~= Seq::new(
            first.thumbs@.len(),
            |r: int| row_after(first, first.thumbs@[r], first.shown@[r], frames@, stands@),
        ));
    }
}

/// The own turns of `frames`, on by `quarters`.
fn turn_all(turns: &mut Vec<u8>, frames: &Vec<usize>, quarters: i32)
    requires
        selection::ordered(frames@),
        forall|i: int| 0 <= i < old(turns)@.len() ==> #[trigger] old(turns)@[i] < 4,
    ensures
        final(turns)@ == turns_after(old(turns)@, frames@, quarters),
        forall|i: int| 0 <= i < final(turns)@.len() ==> #[trigger] final(turns)@[i] < 4,
{
    let ghost first = turns@;
    let mut i: usize = 0;
    while i < turns.len()
        invariant
            i <= turns@.len(),
            turns@.len() == first.len(),
            selection::ordered(frames@),
            forall|k: int| 0 <= k < first.len() ==> #[trigger] first[k] < 4,
            forall|k: int|
                0 <= k < i ==> #[trigger] turns@[k] == turns_after(first, frames@, quarters)[k]
                    && turns@[k] < 4,
            forall|k: int| i <= k < first.len() ==> #[trigger] turns@[k] == first[k],
        decreases turns.len() - i,
    {
        if selection::has(frames, i) {
            let t: u8 = turn_on(turns[i], quarters);
            turns.set(i, t);
        }
        i = i + 1;
    }
    assert(turns@ =~= turns_after(first, frames@, quarters));
}

/// Turn every frame in `frames` by `quarters` quarter turns clockwise;
/// nothing for a turn that comes to none. `turns` has the frames' own
/// turns and `stands` how their pictures stand once turned, one a file.
///
/// The developed size of the open frame stands on end now, and the develop
/// that will say so is a second away: a second turn pressed before it
/// lands would otherwise measure the frame by the shape it used to be.
/// Whatever was fitted is fitted afresh.
pub fn turn_frames(
    d: &mut Desk,
    turns: &mut Vec<u8>,
    frames: &Vec<usize>,
    quarters: i32,
    stands: &Vec<Stand>,
) -> (t: Option<Turning>)
    requires
        old(d).wf(),
        old(d).work.generation < u64::MAX,
        selection::ordered(frames@),
        stands@.len() == old(d).browser.names@.len(),
        old(turns)@.len() == old(d).browser.names@.len(),
        forall|i: int| 0 <= i < old(turns)@.len() ==> #[trigger] old(turns)@[i] < 4,
    ensures
        final(d).wf(),
        old(d).browser.told() ==> final(d).browser.told(),
        t is None == (startup::quarters(quarters) == 0),
        match t {
            Some(t) => {
                &&& desk_turned(*old(d), frames@, quarters, stands@, *final(d))
                &&& final(turns)@ == turns_after(old(turns)@, frames@, quarters)
                &&& t.frames@ == browser::turned(
                    frames@,
                    old(d).browser.names@.len() as int,
                    browser::panel_frame(old(d).browser.current, old(d).cull is Some),
                )
                &&& t.develop == if develops(*old(d), frames@) {
                    Some(
                        Develop {
                            generation: final(d).work.generation,
                            turn: final(turns)@[old(d).browser.current->0 as int],
                        },
                    )
                } else {
                    None
                }
            },
            None => *final(d) == *old(d) && *final(turns) == *old(turns),
        },
{
    if startup::quarters_of(quarters) == 0 {
        return None;
    }
    let culling: bool = d.cull.is_some();
    let frames_turned = browser::turn_plan(
        frames,
        d.browser.names.len(),
        d.browser.current,
        culling,
        quarters,
    );
    let panel = owned(d, frames);
    if let Some(c) = d.cull.as_mut() {
        c.turned = true;
    }
    turn_all(turns, frames, quarters);
    put_up_again(&mut d.browser, frames, stands);
    d.image_size = (0, 0);
    let develop: Option<Develop> = match panel {
        Some(c) => {
            d.source_size = browser::turned_size(d.source_size, quarters);
            Some(edit::develop_now(&mut d.work, turns[c]))
        },
        None => None,
    };
    Some(Turning { frames: frames_turned, develop })
}

/// A turn there and back is none: every frame's own turn is what it was,
/// and so is the size of the one on screen.
pub proof fn a_turn_back_undoes_a_turn(
    turns: Seq<u8>,
    frames: Seq<usize>,
    quarters: i32,
    back: i32,
    first: Desk,
    stands: Seq<Stand>,
    on: Desk,
    stands2: Seq<Stand>,
    last: Desk,
)
    requires
        forall|i: int| 0 <= i < turns.len() ==> #[trigger] turns[i] < 4,
        (quarters + back) % 4 == 0,
        desk_turned(first, frames, quarters, stands, on),
        desk_turned(on, frames, back, stands2, last),
    ensures
        turns_after(turns_after(turns, frames, quarters), frames, back) == turns,
        last.source_size == first.source_size,
{
    assert forall|i: int| 0 <= i < turns.len() implies #[trigger] turns_after(
        turns_after(turns, frames, quarters),
        frames,
        back,
    )[i] == turns[i] by {
        assert(turns[i] < 4);
    }
    assert(turns_after(turns_after(turns, frames, quarters), frames, back) =~= turns);
}

/// A turn touches no frame but those turned, and no setting: what
/// culling says of the frames, the set, the rows and the open frame are
/// as they were.
pub proof fn a_turn_keeps_to_its_frames(
    turns: Seq<u8>,
    frames: Seq<usize>,
    quarters: i32,
    stands: Seq<Stand>,
    before: Desk,
    after: Desk,
    f: usize,
)
    requires
        before.wf(),
        turns.len() == before.browser.names@.len(),
        f < turns.len(),
        !frames.contains(f),
        desk_turned(before, frames, quarters, stands, after),
    ensures
        turns_after(turns, frames, quarters)[f as int] == turns[f as int],
        after.browser.stood@[f as int] == before.browser.stood@[f as int],
        after.browser.metas == before.browser.metas,
        after.browser.picked == before.browser.picked,
        after.browser.shown == before.browser.shown,
        after.browser.current == before.browser.current,
{
}

/// A frame turned stands so many quarters further round, and less than a
/// whole turn; a frame that is not of the set stands as it did.
pub proof fn a_turn_is_so_many_quarters_on(turns: Seq<u8>, frames: Seq<usize>, quarters: i32, f: usize)
    requires
        f < turns.len(),
    ensures
        turns_after(turns, frames, quarters).len() == turns.len(),
        ({
            let now = turns_after(turns, frames, quarters)[f as int];
            &&& frames.contains(f) ==> now < 4 && (now - turns[f as int] - quarters) % 4 == 0
            &&& !frames.contains(f) ==> now == turns[f as int]
        }),
{
}

/// The pictures of the frames turned stand as those now do, in the folder
/// and on their rows, where they are made; no other row changes.
pub proof fn the_pictures_stand_as_their_frames(
    before: Browser,
    frames: Seq<usize>,
    stands: Seq<Stand>,
    after: Browser,
    r: int,
)
    requires
        before.wf(),
        put_up(before, frames, stands, after),
        0 <= r < before.thumbs@.len(),
    ensures
        after.thumbs@.len() == before.thumbs@.len(),
        ({
            let f = before.shown@[r];
            &&& after.thumbs@[r].name == before.thumbs@[r].name
            &&& after.thumbs@[r].chosen == before.thumbs@[r].chosen
            &&& frames.contains(f) && before.pictured@[f as int] ==> after.thumbs@[r].picture
                == Some(stands[f as int]) && after.stood@[f as int] == Some(stands[f as int])
            &&& !frames.contains(f) || !before.pictured@[f as int] ==> after.thumbs@[r]
                == before.thumbs@[r] && after.stood@[f as int] == before.stood@[f as int]
        }),
        after.current == before.current && after.picked == before.picked && after.metas
            == before.metas && after.shown == before.shown,
{
    assert(before.shown@[r] < before.names@.len());
}

/// A turn of the frame on the panel develops it anew, stood on end by an
/// odd number of quarters; a turn of others, or in culling, develops none.
pub proof fn a_turn_develops_the_frame_on_the_panel(
    before: Desk,
    frames: Seq<usize>,
    quarters: i32,
    stands: Seq<Stand>,
    after: Desk,
)
    requires
        before.work.generation < u64::MAX,
        desk_turned(before, frames, quarters, stands, after),
    ensures
        ({
            let shown = before.cull is None && (before.browser.current matches Some(c)
                && frames.contains(c));
            &&& shown ==> after.work.generation == before.work.generation + 1 && after.work.busy
            &&& !shown ==> after.work == before.work && after.source_size == before.source_size
            &&& shown && quarters as int % 2 == 1 ==> after.source_size == (
                before.source_size.1,
                before.source_size.0,
            )
            &&& shown && quarters as int % 2 == 0 ==> after.source_size == before.source_size
        }),
        after.image_size == (0u32, 0u32),
{
}

} // verus!
