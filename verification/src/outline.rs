//! A repair patch's shape for the overlay: the edge of a spot's disc
//! or of a stroke's swept path, as closed rings the viewport draws.
//!
//! The shape is sampled over a grid: each node of it is inside the
//! shape or outside. The contour crosses a grid edge where the edge's
//! two nodes differ, and every cell joins the crossings on its sides in
//! pairs. What is here is which crossings there are and how they run
//! into rings; where along its edge a crossing sits is the sampler's.

use vstd::prelude::*;

verus! {

/// The mark of a link that is not there.
pub const NOWHERE: usize = usize::MAX;

// Rings in a graph in which nothing is joined to more than two others.

/// Whether `a` is joined to `b`.
pub open spec fn linked(links: Seq<(usize, usize)>, a: int, b: int) -> bool {
    links[a].0 == b || links[a].1 == b
}

/// Each link is to another crossing, is there from both ends, and there
/// are at most two of them, the first slot taken first.
pub open spec fn sound(links: Seq<(usize, usize)>) -> bool {
    &&& links.len() < NOWHERE
    &&& forall|a: int|
        0 <= a < links.len() ==> {
            &&& (#[trigger] links[a]).0 == NOWHERE || links[a].0 < links.len()
            &&& links[a].1 == NOWHERE || links[a].1 < links.len()
            &&& links[a].0 != a && links[a].1 != a
            &&& links[a].0 == NOWHERE ==> links[a].1 == NOWHERE
            &&& links[a].0 != NOWHERE ==> links[a].0 != links[a].1
        }
    &&& forall|a: int, b: int|
        0 <= a < links.len() && 0 <= b < links.len() && #[trigger] linked(links, a, b) ==> linked(
            links,
            b,
            a,
        )
}

/// Nothing is joined at one end only: each is on a ring or on nothing.
pub open spec fn all_closed(links: Seq<(usize, usize)>) -> bool {
    forall|a: int|
        0 <= a < links.len() && (#[trigger] links[a]).0 != NOWHERE ==> links[a].1 != NOWHERE
}

/// What is joined to something marked is marked.
pub open spec fn whole(links: Seq<(usize, usize)>, seen: Seq<bool>) -> bool {
    forall|a: int, b: int|
        0 <= a < links.len() && 0 <= b < links.len() && #[trigger] linked(links, a, b) && seen[a]
            ==> seen[b]
}

/// Each of `ring` is joined to the next.
pub open spec fn runs(links: Seq<(usize, usize)>, ring: Seq<usize>) -> bool {
    forall|i: int, j: int|
        0 <= i && j == i + 1 && j < ring.len() ==> linked(
            links,
            #[trigger] ring[i] as int,
            #[trigger] ring[j] as int,
        )
}

pub open spec fn unseen(seen: Seq<bool>) -> nat
    decreases seen.len(),
{
    if seen.len() == 0 {
        0
    } else {
        unseen(seen.drop_last()) + if seen.last() { 0nat } else { 1 }
    }
}

proof fn lemma_unseen_marked(seen: Seq<bool>, i: int)
    requires
        0 <= i < seen.len(),
        !seen[i],
    ensures
        unseen(seen) == unseen(seen.update(i, true)) + 1,
    decreases seen.len(),
{
    let after = seen.update(i, true);
    if i == seen.len() - 1 {
        assert(after.drop_last() =~= seen.drop_last());
    } else {
        lemma_unseen_marked(seen.drop_last(), i);
        assert(after.drop_last() =~= seen.drop_last().update(i, true));
    }
}

/// The way on from the end of a simple run leads back to its start or
/// to something not on it.
proof fn lemma_no_shortcut(links: Seq<(usize, usize)>, ring: Seq<usize>, next: int)
    requires
        sound(links),
        all_closed(links),
        ring.len() >= 2,
        ring.no_duplicates(),
        forall|i: int| 0 <= i < ring.len() ==> (#[trigger] ring[i]) < links.len(),
        runs(links, ring),
        0 <= next < links.len(),
        linked(links, ring.last() as int, next),
        next != ring[ring.len() - 2],
    ensures
        next == ring[0] || !ring.contains(next as usize),
{
    if ring.contains(next as usize) && next != ring[0] {
        let m = choose|m: int| 0 <= m < ring.len() && ring[m] == next as usize;
        let k = ring.len() - 1;
        assert(0 < m < k) by {
            assert(links[ring[k] as int].0 != ring[k] && links[ring[k] as int].1 != ring[k]);
        }
        assert(linked(links, next, ring[k] as int));
        assert(linked(links, ring[m - 1] as int, ring[m] as int));
        assert(linked(links, ring[m] as int, ring[m - 1] as int));
        assert(linked(links, ring[m] as int, ring[m + 1] as int));
        assert(ring[m - 1] != ring[m + 1]);
        assert(ring[k] == ring[m - 1] || ring[k] == ring[m + 1]);
        assert(m + 1 == k);
        assert(false);
    }
}

/// A run whose end is joined to its start holds all its links.
proof fn lemma_ring_is_whole(links: Seq<(usize, usize)>, ring: Seq<usize>, a: int, b: int)
    requires
        sound(links),
        all_closed(links),
        ring.len() >= 3,
        ring.no_duplicates(),
        forall|i: int| 0 <= i < ring.len() ==> (#[trigger] ring[i]) < links.len(),
        runs(links, ring),
        linked(links, ring.last() as int, ring[0] as int),
        0 <= a < ring.len(),
        0 <= b < links.len(),
        linked(links, ring[a] as int, b),
    ensures
        ring.contains(b as usize),
{
    let n = ring.len() as int;
    let before = if a == 0 { n - 1 } else { a - 1 };
    let after = if a == n - 1 { 0 } else { a + 1 };
    assert(linked(links, ring[0] as int, ring[n - 1] as int));
    if a > 0 {
        assert(linked(links, ring[a - 1] as int, ring[a] as int));
        assert(linked(links, ring[a] as int, ring[a - 1] as int));
    }
    if a < n - 1 {
        assert(linked(links, ring[a] as int, ring[a + 1] as int));
    }
    assert(linked(links, ring[a] as int, ring[before] as int));
    assert(linked(links, ring[a] as int, ring[after] as int));
    assert(ring[before] != ring[after]);
    assert(b == ring[before] || b == ring[after]);
    assert(ring.contains(ring[before]) && ring.contains(ring[after]));
}

/// One ring walked from `start`, what is on it marked in `seen`.
fn walk(links: &Vec<(usize, usize)>, seen: &mut Vec<bool>, start: usize) -> (ring: Vec<usize>)
    requires
        sound(links@),
        old(seen)@.len() == links@.len(),
        start < links@.len(),
        !old(seen)@[start as int],
        all_closed(links@) ==> whole(links@, old(seen)@),
    ensures
        final(seen)@.len() == links@.len(),
        forall|v: int|
            0 <= v < links@.len() ==> (#[trigger] final(seen)@[v] <==> old(seen)@[v]
                || ring@.contains(v as usize)),
        ring@.len() >= 1,
        ring@[0] == start,
        ring@.no_duplicates(),
        forall|i: int|
            0 <= i < ring@.len() ==> (#[trigger] ring@[i]) < links@.len()
                && !old(seen)@[ring@[i] as int],
        runs(links@, ring@),
        links@[start as int].0 == NOWHERE ==> ring@.len() == 1,
        ring@.len() >= 2 ==> ring@[1] == links@[start as int].0,
        all_closed(links@) && links@[start as int].0 != NOWHERE ==> ring@.len() >= 3 && linked(
            links@,
            ring@.last() as int,
            start as int,
        ),
        all_closed(links@) ==> whole(links@, final(seen)@),
{
    let mut ring: Vec<usize> = Vec::new();
    let mut prev: usize = NOWHERE;
    let mut cur: usize = start;
    let ghost seen0 = seen@;
    loop
        invariant
            sound(links@),
            seen0 == old(seen)@,
            seen0.len() == links@.len(),
            seen@.len() == links@.len(),
            start < links@.len(),
            cur < links@.len(),
            !seen@[cur as int],
            !seen0[start as int],
            all_closed(links@) ==> whole(links@, seen0),
            forall|v: int|
                0 <= v < links@.len() ==> (#[trigger] seen@[v] <==> seen0[v] || ring@.contains(
                    v as usize,
                )),
            ring@.len() == 0 ==> cur == start && prev == NOWHERE,
            ring@.len() > 0 ==> ring@[0] == start && prev == ring@.last() && linked(
                links@,
                prev as int,
                cur as int,
            ),
            ring@.len() == 1 ==> cur == links@[start as int].0,
            ring@.len() >= 2 ==> ring@[1] == links@[start as int].0,
            ring@.no_duplicates(),
            forall|i: int|
                0 <= i < ring@.len() ==> (#[trigger] ring@[i]) < links@.len() && !seen0[ring@[i] as int],
            runs(links@, ring@),
        decreases unseen(seen@),
    {
        let ghost seen1 = seen@;
        let ghost ring1 = ring@;
        assert(!ring1.contains(cur));
        assert(!seen0[cur as int]);
        seen.set(cur, true);
        ring.push(cur);
        proof {
            lemma_unseen_marked(seen1, cur as int);
            assert(ring@.drop_last() =~= ring1);
            assert forall|v: int| 0 <= v < links@.len() implies (#[trigger] seen@[v] <==> seen0[v]
                || ring@.contains(v as usize)) by {
                if v == cur {
                    assert(ring@[ring@.len() - 1] == cur);
                } else {
                    assert(seen@[v] == seen1[v]);
                    if ring1.contains(v as usize) {
                        let k = choose|k: int| 0 <= k < ring1.len() && ring1[k] == v as usize;
                        assert(ring@[k] == v as usize);
                    }
                    if ring@.contains(v as usize) {
                        let k = choose|k: int| 0 <= k < ring@.len() && ring@[k] == v as usize;
                        assert(ring1[k] == v as usize);
                    }
                }
            }
            assert forall|i: int, j: int| 0 <= i && j == i + 1 && j < ring@.len() implies linked(
                links@,
                #[trigger] ring@[i] as int,
                #[trigger] ring@[j] as int,
            ) by {
                if j < ring1.len() {
                    assert(linked(links@, ring1[i] as int, ring1[j] as int));
                } else {
                    assert(ring@[i] == prev);
                }
            }
        }
        let link = links[cur];
        let next: usize = if link.0 != prev && link.0 != NOWHERE { link.0 } else { link.1 };
        proof {
            assert(links@[cur as int] == link);
            if ring1.len() > 0 {
                assert(linked(links@, cur as int, prev as int));
            }
        }
        if next == NOWHERE || next == start || seen[next] {
            proof {
                if all_closed(links@) && links@[start as int].0 != NOWHERE {
                    assert(next != NOWHERE);
                    assert(linked(links@, cur as int, next as int));
                    if ring@.len() == 1 {
                        assert(cur == start);
                        assert(next == link.0);
                        assert(next != start);
                        assert(seen@[next as int]);
                        assert(seen0[next as int] || ring@.contains(next));
                        if ring@.contains(next) {
                            assert(ring@ =~= seq![start]);
                        }
                        assert(seen0[next as int]);
                        assert(linked(links@, next as int, start as int));
                        assert(false);
                    }
                    assert(prev == ring@[ring@.len() - 2]);
                    assert(next != prev);
                    lemma_no_shortcut(links@, ring@, next as int);
                    if next != start {
                        assert(seen0[next as int]);
                        assert(linked(links@, next as int, cur as int));
                        assert(false);
                    }
                    assert(ring@.len() >= 3) by {
                        if ring@.len() == 2 {
                            assert(prev == start);
                        }
                    }
                }
                if all_closed(links@) {
                    assert forall|a: int, b: int|
                        0 <= a < links@.len() && 0 <= b < links@.len() && #[trigger] linked(
                            links@,
                            a,
                            b,
                        ) && seen@[a] implies seen@[b] by {
                        if !seen0[a] {
                            let k = choose|k: int| 0 <= k < ring@.len() && ring@[k] == a as usize;
                            if links@[start as int].0 != NOWHERE {
                                lemma_ring_is_whole(links@, ring@, k, b);
                            } else {
                                assert(ring@.len() == 1);
                            }
                        }
                    }
                }
            }
            return ring;
        }
        assert(linked(links@, cur as int, next as int));
        prev = cur;
        cur = next;
    }
}


/// `v` is on one of `rings`.
pub open spec fn on_a_ring(rings: Seq<Vec<usize>>, v: int) -> bool {
    exists|m: int, k: int|
        0 <= m < rings.len() && 0 <= k < rings[m]@.len() && #[trigger] rings[m]@[k] == v
}

/// Every one of `rings` is at least three crossings, each joined to the
/// next, started from its first slot; and no crossing is on two rings
/// or twice on one.
pub open spec fn rings_run(links: Seq<(usize, usize)>, rings: Seq<Vec<usize>>) -> bool {
    &&& forall|m: int|
        0 <= m < rings.len() ==> {
            &&& (#[trigger] rings[m])@.len() >= 3
            &&& runs(links, rings[m]@)
            &&& rings[m]@[1] == links[rings[m]@[0] as int].0
        }
    &&& forall|m: int, k: int|
        0 <= m < rings.len() && 0 <= k < rings[m]@.len() ==> (#[trigger] rings[m]@[k]) < links.len()
    &&& forall|m: int, k: int, n: int, l: int|
        0 <= m < rings.len() && 0 <= k < rings[m]@.len() && 0 <= n < rings.len() && 0 <= l
            < rings[n]@.len() && #[trigger] rings[m]@[k] == #[trigger] rings[n]@[l] ==> m == n && k
            == l
}

/// Every ring closes, starts at its lowest crossing, and the rings come
/// by where they start; and everything joined is on one.
pub open spec fn rings_close(links: Seq<(usize, usize)>, rings: Seq<Vec<usize>>) -> bool {
    &&& forall|m: int|
        0 <= m < rings.len() ==> linked(
            links,
            (#[trigger] rings[m])@.last() as int,
            rings[m]@[0] as int,
        )
    &&& forall|m: int, k: int|
        0 <= m < rings.len() && 0 <= k < rings[m]@.len() ==> rings[m]@[0] <= #[trigger] rings[m]@[k]
    &&& forall|m: int, n: int|
        0 <= m < n < rings.len() ==> (#[trigger] rings[m])@[0] < (#[trigger] rings[n])@[0]
    &&& forall|v: int|
        0 <= v < links.len() && (#[trigger] links[v]).0 != NOWHERE ==> on_a_ring(rings, v)
}

/// What holds of `rings` while `seen` marks what has been walked.
spec fn traced(links: Seq<(usize, usize)>, rings: Seq<Vec<usize>>, seen: Seq<bool>) -> bool {
    &&& rings_run(links, rings)
    &&& forall|m: int, k: int|
        0 <= m < rings.len() && 0 <= k < rings[m]@.len() ==> seen[(#[trigger] rings[m]@[k]) as int]
}

/// And where all is closed, once everything below `start` has been walked.
spec fn traced_closed(
    links: Seq<(usize, usize)>,
    rings: Seq<Vec<usize>>,
    seen: Seq<bool>,
    start: int,
) -> bool {
    &&& whole(links, seen)
    &&& forall|m: int|
        0 <= m < rings.len() ==> linked(
            links,
            (#[trigger] rings[m])@.last() as int,
            rings[m]@[0] as int,
        )
    &&& forall|m: int, k: int|
        0 <= m < rings.len() && 0 <= k < rings[m]@.len() ==> rings[m]@[0] <= #[trigger] rings[m]@[k]
    &&& forall|m: int, n: int|
        0 <= m < n < rings.len() ==> (#[trigger] rings[m])@[0] < (#[trigger] rings[n])@[0]
    &&& forall|m: int| 0 <= m < rings.len() ==> (#[trigger] rings[m])@[0] < start
    &&& forall|v: int|
        0 <= v < links.len() && #[trigger] seen[v] && links[v].0 != NOWHERE ==> on_a_ring(rings, v)
}

proof fn lemma_traced_more(
    links: Seq<(usize, usize)>,
    rings0: Seq<Vec<usize>>,
    rings: Seq<Vec<usize>>,
    seen0: Seq<bool>,
    seen: Seq<bool>,
)
    requires
        rings.len() == rings0.len() + 1,
        rings.drop_last() == rings0,
        traced(links, rings0, seen0),
        seen0.len() == links.len(),
        seen.len() == links.len(),
        forall|v: int| 0 <= v < links.len() && #[trigger] seen0[v] ==> seen[v],
        rings.last()@.len() >= 3,
        rings.last()@[1] == links[rings.last()@[0] as int].0,
        runs(links, rings.last()@),
        rings.last()@.no_duplicates(),
        forall|k: int|
            0 <= k < rings.last()@.len() ==> {
                &&& (#[trigger] rings.last()@[k]) < links.len()
                &&& !seen0[rings.last()@[k] as int]
                &&& seen[rings.last()@[k] as int]
            },
    ensures
        traced(links, rings, seen),
{
    let last = rings.len() - 1;
    let walked = rings.last()@;
    assert forall|m: int| 0 <= m < last implies rings[m] == #[trigger] rings0[m] by {
        assert(rings.drop_last()[m] == rings[m]);
    }
    assert forall|m: int, k: int| 0 <= m < rings.len() && 0 <= k < rings[m]@.len() implies (
    #[trigger] rings[m]@[k]) < links.len() && seen[rings[m]@[k] as int] by {
        if m < last {
            assert(rings[m] == rings0[m]);
            assert(seen0[rings0[m]@[k] as int]);
        } else {
            assert(rings.last()@[k] == rings[m]@[k]);
        }
    }
    assert forall|m: int, k: int, j: int, l: int|
        0 <= m < rings.len() && 0 <= k < rings[m]@.len() && 0 <= j < rings.len() && 0 <= l
            < rings[j]@.len() && #[trigger] rings[m]@[k] == #[trigger] rings[j]@[l] implies m == j
        && k == l by {
        if m < last && j < last {
            assert(rings0[m]@[k] == rings0[j]@[l]);
        } else if m < last {
            assert(seen0[rings0[m]@[k] as int]);
            assert(!seen0[rings.last()@[l] as int]);
        } else if j < last {
            assert(seen0[rings0[j]@[l] as int]);
            assert(!seen0[rings.last()@[k] as int]);
        } else {
            assert(rings.last()@[k] == rings.last()@[l]);
        }
    }
    assert forall|m: int| 0 <= m < rings.len() implies {
        &&& (#[trigger] rings[m])@.len() >= 3
        &&& runs(links, rings[m]@)
        &&& rings[m]@[1] == links[rings[m]@[0] as int].0
    } by {
        if m < last {
            assert(rings[m] == rings0[m]);
        }
    }
}

proof fn lemma_traced_closed_more(
    links: Seq<(usize, usize)>,
    rings0: Seq<Vec<usize>>,
    rings: Seq<Vec<usize>>,
    seen0: Seq<bool>,
    seen: Seq<bool>,
    walked: Seq<usize>,
    start: int,
)
    requires
        traced_closed(links, rings0, seen0, start),
        links.len() < NOWHERE,
        seen0.len() == links.len(),
        seen.len() == links.len(),
        0 <= start < links.len(),
        whole(links, seen),
        walked.len() >= 1,
        walked[0] == start,
        forall|v: int|
            0 <= v < links.len() ==> (#[trigger] seen[v] <==> seen0[v] || walked.contains(v as usize)),
        forall|k: int| 0 <= k < walked.len() ==> start <= #[trigger] walked[k],
        links[start].0 == NOWHERE ==> walked.len() == 1,
        links[start].0 != NOWHERE ==> walked.len() >= 3,
        walked.len() < 3 ==> rings == rings0,
        walked.len() >= 3 ==> {
            &&& rings.len() == rings0.len() + 1
            &&& rings.drop_last() == rings0
            &&& rings.last()@ == walked
            &&& linked(links, walked.last() as int, start)
        },
    ensures
        traced_closed(links, rings, seen, start + 1),
{
    let last = rings.len() - 1;
    assert forall|m: int| 0 <= m < rings0.len() implies rings[m] == #[trigger] rings0[m] by {
        if walked.len() >= 3 {
            assert(rings.drop_last()[m] == rings[m]);
        }
    }
    assert forall|m: int| 0 <= m < rings.len() implies linked(
        links,
        (#[trigger] rings[m])@.last() as int,
        rings[m]@[0] as int,
    ) by {
        if m < rings0.len() {
            assert(rings[m] == rings0[m]);
        }
    }
    assert forall|m: int, k: int| 0 <= m < rings.len() && 0 <= k < rings[m]@.len() implies rings[m]@[0]
        <= #[trigger] rings[m]@[k] by {
        if m < rings0.len() {
            assert(rings0[m]@[0] <= rings0[m]@[k]);
        } else {
            assert(start <= walked[k]);
        }
    }
    assert forall|m: int, l: int| 0 <= m < l < rings.len() implies (#[trigger] rings[m])@[0] < (
    #[trigger] rings[l])@[0] by {
        assert(rings[m] == rings0[m]);
        if l < rings0.len() {
            assert(rings[l] == rings0[l]);
        }
    }
    assert forall|m: int| 0 <= m < rings.len() implies (#[trigger] rings[m])@[0] < start + 1 by {
        if m < rings0.len() {
            assert(rings[m] == rings0[m]);
        }
    }
    assert forall|v: int|
        0 <= v < links.len() && #[trigger] seen[v] && links[v].0 != NOWHERE implies on_a_ring(
        rings,
        v,
    ) by {
        if seen0[v] {
            let (m, k) = choose|m: int, k: int|
                0 <= m < rings0.len() && 0 <= k < rings0[m]@.len() && #[trigger] rings0[m]@[k] == v;
            assert(rings[m] == rings0[m]);
            assert(rings[m]@[k] == v);
        } else {
            let k = choose|k: int| 0 <= k < walked.len() && walked[k] == v as usize;
            if walked.len() < 3 {
                assert(k == 0);
            }
            assert(rings[last]@[k] == v);
        }
    }
}

/// The rings of `links`, each walked from its first crossing round to
/// it again; a run of one or two is none.
pub fn trace(links: &Vec<(usize, usize)>) -> (rings: Vec<Vec<usize>>)
    requires
        sound(links@),
    ensures
        rings_run(links@, rings@),
        all_closed(links@) ==> rings_close(links@, rings@),
{
    let n: usize = links.len();
    let mut seen: Vec<bool> = Vec::new();
    while seen.len() < n
        invariant
            seen@.len() <= n,
            forall|v: int| 0 <= v < seen@.len() ==> !(#[trigger] seen@[v]),
        decreases n - seen@.len(),
    {
        seen.push(false);
    }
    let mut rings: Vec<Vec<usize>> = Vec::new();
    let mut start: usize = 0;
    while start < n
        invariant
            n == links@.len(),
            start <= n,
            seen@.len() == n,
            sound(links@),
            forall|v: int| 0 <= v < start ==> #[trigger] seen@[v],
            traced(links@, rings@, seen@),
            all_closed(links@) ==> traced_closed(links@, rings@, seen@, start as int),
        decreases n - start,
    {
        if !seen[start] {
            let ghost seen0 = seen@;
            let ghost rings0 = rings@;
            let ring = walk(links, &mut seen, start);
            let ghost walked = ring@;
            let long: bool = ring.len() >= 3;
            proof {
                assert forall|k: int| 0 <= k < walked.len() implies start <= #[trigger] walked[k] && seen@[walked[k] as int] by {
                    assert(walked.contains(walked[k]));
                    if walked[k] < start {
                        assert(seen0[walked[k] as int]);
                    }
                }
            }
            if long {
                rings.push(ring);
                proof {
                    assert(rings@.drop_last() =~= rings0);
                    lemma_traced_more(links@, rings0, rings@, seen0, seen@);
                }
            } else {
                assert(traced(links@, rings@, seen@)) by {
                    assert forall|m: int, k: int|
                        0 <= m < rings@.len() && 0 <= k < rings@[m]@.len() implies seen@[(
                    #[trigger] rings@[m]@[k]) as int] by {
                        assert(seen0[rings@[m]@[k] as int]);
                    }
                }
            }
            proof {
                if all_closed(links@) {
                    lemma_traced_closed_more(
                        links@,
                        rings0,
                        rings@,
                        seen0,
                        seen@,
                        walked,
                        start as int,
                    );
                }
                assert(seen@[start as int]) by {
                    assert(walked.contains(walked[0]));
                }
            }
        }
        start = start + 1;
    }
    assert(all_closed(links@) ==> rings_close(links@, rings@)) by {
        if all_closed(links@) {
            assert forall|v: int| 0 <= v < links@.len() && (#[trigger] links@[v]).0 != NOWHERE implies on_a_ring(
                rings@,
                v,
            ) by {
                assert(seen@[v]);
            }
        }
    }
    rings
}


// The crossings of a sampled shape.

/// A shape sampled over a grid of `nx` by `ny` cells: whether each node
/// is inside it, and whether each cell's middle is, row by row.
pub struct Field {
    pub nx: usize,
    pub ny: usize,
    pub inside: Vec<Vec<bool>>,
    pub middle: Vec<Vec<bool>>,
}

/// A side of a cell.
#[derive(Debug, Clone, Copy, PartialEq, Eq, Structural)]
pub enum Side {
    Top,
    Right,
    Bottom,
    Left,
}

/// A grid edge from the node at column `i` of row `j`: to the node
/// below it, or to the one after it.
pub ghost struct Edge {
    pub i: int,
    pub j: int,
    pub down: bool,
}

impl Field {
    /// A flag for every node and every cell, and an index for every edge.
    pub open spec fn full(&self) -> bool {
        &&& self.inside@.len() == self.ny + 1
        &&& forall|j: int| 0 <= j <= self.ny ==> (#[trigger] self.inside@[j])@.len() == self.nx + 1
        &&& self.middle@.len() == self.ny
        &&& forall|j: int| 0 <= j < self.ny ==> (#[trigger] self.middle@[j])@.len() == self.nx
        &&& self.edges() < NOWHERE
    }

    /// How many edges the grid numbers.
    pub open spec fn edges(&self) -> int {
        2 * ((self.ny + 1) * (self.nx + 1))
    }

    pub open spec fn node(&self, i: int, j: int) -> bool {
        self.inside@[j]@[i]
    }

    /// Every node on the grid's rim is outside the shape.
    pub open spec fn rim_outside(&self) -> bool {
        forall|i: int, j: int|
            0 <= i <= self.nx && 0 <= j <= self.ny && (i == 0 || i == self.nx || j == 0 || j
                == self.ny) ==> !#[trigger] self.node(i, j)
    }

    pub open spec fn is_cell(&self, i: int, j: int) -> bool {
        0 <= i < self.nx && 0 <= j < self.ny
    }

    /// The number of an edge: row by row, the one across before the one down.
    pub open spec fn at(&self, e: Edge) -> int {
        2 * (e.j * (self.nx + 1) + e.i) + if e.down { 1int } else { 0 }
    }

    /// The edge with the number `a`.
    pub open spec fn edge(&self, a: int) -> Edge {
        Edge { i: (a / 2) % (self.nx + 1), j: (a / 2) / (self.nx + 1), down: a % 2 == 1 }
    }

    /// Whether the contour crosses a side of the cell: its ends differ.
    pub open spec fn crosses(&self, i: int, j: int, side: Side) -> bool {
        match side {
            Side::Top => self.node(i, j) != self.node(i + 1, j),
            Side::Right => self.node(i + 1, j) != self.node(i + 1, j + 1),
            Side::Bottom => self.node(i, j + 1) != self.node(i + 1, j + 1),
            Side::Left => self.node(i, j) != self.node(i, j + 1),
        }
    }

    /// The side of the cell that `side`'s crossing runs on to. With two
    /// crossings they are each other's; with four the cell is a saddle,
    /// and goes by its middle: the corner the middle is like is joined
    /// to the one across through it, and the other two are cut off.
    pub open spec fn partner(&self, i: int, j: int, side: Side) -> Option<Side> {
        if !self.crosses(i, j, side) {
            None
        } else if self.crosses(i, j, Side::Top) && self.crosses(i, j, Side::Right) && self.crosses(
            i,
            j,
            Side::Bottom,
        ) && self.crosses(i, j, Side::Left) {
            if self.middle@[j]@[i] == self.node(i, j) {
                Some(
                    match side {
                        Side::Top => Side::Right,
                        Side::Right => Side::Top,
                        Side::Bottom => Side::Left,
                        Side::Left => Side::Bottom,
                    },
                )
            } else {
                Some(
                    match side {
                        Side::Top => Side::Left,
                        Side::Left => Side::Top,
                        Side::Bottom => Side::Right,
                        Side::Right => Side::Bottom,
                    },
                )
            }
        } else if side != Side::Top && self.crosses(i, j, Side::Top) {
            Some(Side::Top)
        } else if side != Side::Right && self.crosses(i, j, Side::Right) {
            Some(Side::Right)
        } else if side != Side::Bottom && self.crosses(i, j, Side::Bottom) {
            Some(Side::Bottom)
        } else {
            Some(Side::Left)
        }
    }

    /// The edge that `side`'s crossing is joined to within the cell.
    pub open spec fn partner_edge(&self, i: int, j: int, side: Side) -> Option<Edge> {
        if self.is_cell(i, j) {
            match self.partner(i, j, side) {
                Some(s) => Some(side_edge(i, j, s)),
                None => None,
            }
        } else {
            None
        }
    }

    /// What an edge's crossing is joined to in the cell before the edge.
    pub open spec fn joined_before(&self, e: Edge) -> Option<Edge> {
        if e.down {
            self.partner_edge(e.i - 1, e.j, Side::Right)
        } else {
            self.partner_edge(e.i, e.j - 1, Side::Bottom)
        }
    }

    /// What an edge's crossing is joined to in the cell after the edge.
    pub open spec fn joined_after(&self, e: Edge) -> Option<Edge> {
        if e.down {
            self.partner_edge(e.i, e.j, Side::Left)
        } else {
            self.partner_edge(e.i, e.j, Side::Top)
        }
    }

    /// The two links as they are kept, the first slot taken first.
    pub open spec fn slots(&self, before: Option<Edge>, after: Option<Edge>) -> (usize, usize) {
        match (before, after) {
            (Some(p), Some(q)) => (self.at(p) as usize, self.at(q) as usize),
            (Some(p), None) => (self.at(p) as usize, NOWHERE),
            (None, Some(q)) => (self.at(q) as usize, NOWHERE),
            (None, None) => (NOWHERE, NOWHERE),
        }
    }

    /// What every edge's crossing is joined to.
    pub open spec fn links(&self) -> Seq<(usize, usize)> {
        Seq::new(
            self.edges() as nat,
            |a: int| self.slots(self.joined_before(self.edge(a)), self.joined_after(self.edge(a))),
        )
    }

    /// The contour crosses the edge: its two nodes are there and differ.
    pub open spec fn crossed(&self, e: Edge) -> bool {
        &&& 0 <= e.i <= self.nx
        &&& 0 <= e.j <= self.ny
        &&& if e.down {
            e.j < self.ny && self.node(e.i, e.j) != self.node(e.i, e.j + 1)
        } else {
            e.i < self.nx && self.node(e.i, e.j) != self.node(e.i + 1, e.j)
        }
    }
}

/// The edge that a side of the cell is.
pub open spec fn side_edge(i: int, j: int, side: Side) -> Edge {
    match side {
        Side::Top => Edge { i, j, down: false },
        Side::Right => Edge { i: i + 1, j, down: true },
        Side::Bottom => Edge { i, j: j + 1, down: false },
        Side::Left => Edge { i, j, down: true },
    }
}

proof fn lemma_sizes(f: Field)
    ensures
        f.nx + 1 <= f.edges(),
        f.ny + 1 <= f.edges(),
{
    let w = f.nx + 1;
    let h = f.ny + 1;
    assert(w <= h * w && h <= h * w) by (nonlinear_arith)
        requires
            w >= 1,
            h >= 1,
    ;
}

proof fn lemma_at(f: Field, e: Edge)
    requires
        0 <= e.i <= f.nx,
        0 <= e.j <= f.ny,
    ensures
        0 <= f.at(e) < f.edges(),
        f.edge(f.at(e)) == e,
{
    let w = f.nx + 1;
    let h = f.ny + 1;
    let r = e.j * w + e.i;
    assert(0 <= r < h * w) by (nonlinear_arith)
        requires
            r == e.j * w + e.i,
            0 <= e.i < w,
            0 <= e.j < h,
    ;
    let a = f.at(e);
    assert(a / 2 == r);
    assert(a % 2 == if e.down { 1int } else { 0 });
    vstd::arithmetic::div_mod::lemma_fundamental_div_mod_converse(r, w, e.j, e.i);
}

proof fn lemma_edge(f: Field, a: int)
    requires
        0 <= a < f.edges(),
    ensures
        0 <= f.edge(a).i <= f.nx,
        0 <= f.edge(a).j <= f.ny,
        f.at(f.edge(a)) == a,
{
    let w = f.nx + 1;
    let h = f.ny + 1;
    let r = a / 2;
    vstd::arithmetic::div_mod::lemma_fundamental_div_mod(r, w);
    vstd::arithmetic::div_mod::lemma_mod_bound(r, w);
    let q = r / w;
    assert(0 <= q < h) by (nonlinear_arith)
        requires
            r == w * q + r % w,
            0 <= r % w < w,
            0 <= r < h * w,
            w > 0,
            h > 0,
    ;
    assert(w * q == q * w) by (nonlinear_arith);
}

/// A crossing's partner is another crossing, and is its partner's.
proof fn lemma_partner(f: Field, i: int, j: int, side: Side)
    requires
        f.is_cell(i, j),
    ensures
        f.partner(i, j, side) is Some <==> f.crosses(i, j, side),
        f.partner(i, j, side) matches Some(s) ==> s != side && f.crosses(i, j, s) && f.partner(
            i,
            j,
            s,
        ) == Some(side),
{
}


/// A crossing's links run both ways and to two different crossings.
pub proof fn links_are_sound(f: Field)
    requires
        f.full(),
    ensures
        sound(f.links()),
{
    let links = f.links();
    assert forall|a: int| 0 <= a < links.len() implies {
        &&& (#[trigger] links[a]).0 == NOWHERE || links[a].0 < links.len()
        &&& links[a].1 == NOWHERE || links[a].1 < links.len()
        &&& links[a].0 != a && links[a].1 != a
        &&& links[a].0 == NOWHERE ==> links[a].1 == NOWHERE
        &&& links[a].0 != NOWHERE ==> links[a].0 != links[a].1
    } by {
        lemma_links_at(f, a);
    }
    assert forall|a: int, b: int|
        0 <= a < links.len() && 0 <= b < links.len() && #[trigger] linked(
            links,
            a,
            b,
        ) implies linked(links, b, a) by {
        lemma_links_both_ways(f, a, b);
    }
}

proof fn lemma_joined(f: Field, e: Edge)
    requires
        f.full(),
        0 <= e.i <= f.nx,
        0 <= e.j <= f.ny,
    ensures
        f.joined_before(e) matches Some(p) ==> {
            &&& 0 <= p.i <= f.nx
            &&& 0 <= p.j <= f.ny
            &&& p != e
            &&& f.joined_before(p) == Some(e) || f.joined_after(p) == Some(e)
        },
        f.joined_after(e) matches Some(p) ==> {
            &&& 0 <= p.i <= f.nx
            &&& 0 <= p.j <= f.ny
            &&& p != e
            &&& f.joined_before(p) == Some(e) || f.joined_after(p) == Some(e)
        },
        f.joined_before(e) is Some && f.joined_after(e) is Some ==> f.joined_before(e)->0
            != f.joined_after(e)->0,
{
    let (bi, bj, bs) = if e.down { (e.i - 1, e.j, Side::Right) } else { (e.i, e.j - 1, Side::Bottom) };
    let (ci, cj, cs) = if e.down { (e.i, e.j, Side::Left) } else { (e.i, e.j, Side::Top) };
    assert(side_edge(bi, bj, bs) == e);
    assert(side_edge(ci, cj, cs) == e);
    if f.is_cell(bi, bj) {
        lemma_partner(f, bi, bj, bs);
    }
    if f.is_cell(ci, cj) {
        lemma_partner(f, ci, cj, cs);
    }
}

proof fn lemma_links_at(f: Field, a: int)
    requires
        f.full(),
        0 <= a < f.edges(),
    ensures
        f.links()[a].0 == NOWHERE || f.links()[a].0 < f.edges(),
        f.links()[a].1 == NOWHERE || f.links()[a].1 < f.edges(),
        f.links()[a].0 != a && f.links()[a].1 != a,
        f.links()[a].0 == NOWHERE ==> f.links()[a].1 == NOWHERE,
        f.links()[a].0 != NOWHERE ==> f.links()[a].0 != f.links()[a].1,
{
    lemma_edge(f, a);
    let e = f.edge(a);
    lemma_joined(f, e);
    match f.joined_before(e) {
        Some(p) => {
            lemma_at(f, p);
        },
        None => {},
    }
    match f.joined_after(e) {
        Some(p) => {
            lemma_at(f, p);
        },
        None => {},
    }
}

proof fn lemma_links_both_ways(f: Field, a: int, b: int)
    requires
        f.full(),
        0 <= a < f.edges(),
        0 <= b < f.edges(),
        linked(f.links(), a, b),
    ensures
        linked(f.links(), b, a),
{
    lemma_edge(f, a);
    let e = f.edge(a);
    lemma_joined(f, e);
    match f.joined_before(e) {
        Some(p) => {
            lemma_at(f, p);
        },
        None => {},
    }
    match f.joined_after(e) {
        Some(p) => {
            lemma_at(f, p);
        },
        None => {},
    }
    let q = f.edge(b);
    lemma_edge(f, b);
    assert(f.joined_before(e) == Some(q) || f.joined_after(e) == Some(q));
    lemma_joined(f, q);
    assert(f.joined_before(q) == Some(e) || f.joined_after(q) == Some(e));
}

/// With every node on the rim outside the shape, every crossing is on a
/// closed ring: the contours close within the grid.
pub proof fn contours_close(f: Field)
    requires
        f.full(),
        f.rim_outside(),
    ensures
        all_closed(f.links()),
{
    let links = f.links();
    assert forall|a: int| 0 <= a < links.len() && (#[trigger] links[a]).0 != NOWHERE implies links[a].1
        != NOWHERE by {
        lemma_edge(f, a);
        let e = f.edge(a);
        lemma_joined(f, e);
        lemma_crossed_joins(f, e);
        match f.joined_before(e) {
            Some(p) => {
                lemma_at(f, p);
            },
            None => {},
        }
        match f.joined_after(e) {
            Some(p) => {
                lemma_at(f, p);
            },
            None => {},
        }
    }
}

proof fn lemma_crossed_joins(f: Field, e: Edge)
    requires
        f.full(),
        0 <= e.i <= f.nx,
        0 <= e.j <= f.ny,
    ensures
        f.joined_before(e) is Some || f.joined_after(e) is Some ==> f.crossed(e),
        f.rim_outside() && f.crossed(e) ==> f.joined_before(e) is Some && f.joined_after(e) is Some,
{
    let (bi, bj, bs) = if e.down { (e.i - 1, e.j, Side::Right) } else { (e.i, e.j - 1, Side::Bottom) };
    let (ci, cj, cs) = if e.down { (e.i, e.j, Side::Left) } else { (e.i, e.j, Side::Top) };
    if f.is_cell(bi, bj) {
        lemma_partner(f, bi, bj, bs);
    }
    if f.is_cell(ci, cj) {
        lemma_partner(f, ci, cj, cs);
    }
    if f.rim_outside() && f.crossed(e) {
        if e.down {
            assert(!(f.node(e.i, e.j) && f.node(e.i, e.j + 1)));
            if e.i == 0 || e.i == f.nx {
                assert(!f.node(e.i, e.j) && !f.node(e.i, e.j + 1));
            }
        } else {
            if e.j == 0 || e.j == f.ny {
                assert(!f.node(e.i, e.j) && !f.node(e.i + 1, e.j));
            }
        }
    }
}

/// With the rim outside, a crossing is on a ring, and only a crossing is.
pub proof fn every_crossing_is_on_a_ring(f: Field, rings: Seq<Vec<usize>>, e: Edge)
    requires
        f.full(),
        f.rim_outside(),
        rings_run(f.links(), rings),
        rings_close(f.links(), rings),
        0 <= e.i <= f.nx,
        0 <= e.j <= f.ny,
    ensures
        on_a_ring(rings, f.at(e)) <==> f.crossed(e),
{
    let a = f.at(e);
    let links = f.links();
    lemma_at(f, e);
    lemma_crossed_joins(f, e);
    lemma_joined(f, e);
    if f.crossed(e) {
        lemma_at(f, f.joined_before(e)->0);
        assert(links[a].0 != NOWHERE);
    }
    if on_a_ring(rings, a) {
        let (m, k) = choose|m: int, k: int|
            0 <= m < rings.len() && 0 <= k < rings[m]@.len() && #[trigger] rings[m]@[k] == a;
        links_are_sound(f);
        assert(runs(links, rings[m]@));
        let ring = rings[m]@;
        if k + 1 < ring.len() {
            assert(linked(links, ring[k] as int, ring[k + 1] as int));
            assert(ring[k + 1] < links.len());
        } else {
            assert(linked(links, ring.last() as int, ring[0] as int));
            assert(ring[0] < links.len());
        }
        assert(links[a] != (NOWHERE, NOWHERE));
    }
}

/// The side of the cell that `side`'s crossing runs on to.
fn partner_at(f: &Field, i: usize, j: usize, side: Side) -> (r: Option<Side>)
    requires
        f.full(),
        f.is_cell(i as int, j as int),
    ensures
        r == f.partner(i as int, j as int, side),
{
    let a = f.inside[j][i];
    let b = f.inside[j][i + 1];
    let c = f.inside[j + 1][i + 1];
    let d = f.inside[j + 1][i];
    let middle = f.middle[j][i];
    proof {
        let (x, y) = (i as int, j as int);
        assert(a == f.node(x, y) && b == f.node(x + 1, y) && c == f.node(x + 1, y + 1) && d
            == f.node(x, y + 1));
    }
    let top = a != b;
    let right = b != c;
    let bottom = d != c;
    let left = a != d;
    let crossed = match side {
        Side::Top => top,
        Side::Right => right,
        Side::Bottom => bottom,
        Side::Left => left,
    };
    if !crossed {
        None
    } else if top && right && bottom && left {
        if middle == a {
            match side {
                Side::Top => Some(Side::Right),
                Side::Right => Some(Side::Top),
                Side::Bottom => Some(Side::Left),
                Side::Left => Some(Side::Bottom),
            }
        } else {
            match side {
                Side::Top => Some(Side::Left),
                Side::Left => Some(Side::Top),
                Side::Bottom => Some(Side::Right),
                Side::Right => Some(Side::Bottom),
            }
        }
    } else if side != Side::Top && top {
        Some(Side::Top)
    } else if side != Side::Right && right {
        Some(Side::Right)
    } else if side != Side::Bottom && bottom {
        Some(Side::Bottom)
    } else {
        Some(Side::Left)
    }
}

/// The number of a side of the cell.
fn side_number(f: &Field, i: usize, j: usize, side: Side) -> (a: usize)
    requires
        f.full(),
        f.is_cell(i as int, j as int),
    ensures
        a == f.at(side_edge(i as int, j as int, side)),
        a < f.edges(),
{
    let (x, y, d): (usize, usize, usize) = match side {
        Side::Top => (i, j, 0),
        Side::Right => (i + 1, j, 1),
        Side::Bottom => (i, j + 1, 0),
        Side::Left => (i, j, 1),
    };
    proof {
        lemma_sizes(*f);
    }
    let w: usize = f.nx + 1;
    proof {
        lemma_at(*f, side_edge(i as int, j as int, side));
        let e = side_edge(i as int, j as int, side);
        assert(e.i == x && e.j == y);
        assert(0 <= y * w) by (nonlinear_arith)
            requires
                0 <= y,
                0 <= w,
        ;
    }
    2 * (y * w + x) + d
}

/// A link put in the first slot that is free.
fn put(links: &mut Vec<(usize, usize)>, from: usize, to: usize)
    requires
        from < old(links)@.len(),
    ensures
        final(links)@ == old(links)@.update(
            from as int,
            if old(links)@[from as int].0 == NOWHERE {
                (to, old(links)@[from as int].1)
            } else {
                (old(links)@[from as int].0, to)
            },
        ),
{
    let slot = links[from];
    if slot.0 == NOWHERE {
        links.set(from, (to, slot.1));
    } else {
        links.set(from, (slot.0, to));
    }
}

/// The cell at `i`, `j` comes before the one at `x`, `y`.
spec fn earlier(i: int, j: int, x: int, y: int) -> bool {
    j < y || (j == y && i < x)
}

/// An edge's links once the cells before `x`, `y` have been joined.
spec fn links_by(f: Field, e: Edge, x: int, y: int) -> (usize, usize) {
    let before = if e.down { earlier(e.i - 1, e.j, x, y) } else { earlier(e.i, e.j - 1, x, y) };
    let after = earlier(e.i, e.j, x, y);
    f.slots(
        if before { f.joined_before(e) } else { None },
        if after { f.joined_after(e) } else { None },
    )
}

spec fn joined_by(f: Field, links: Seq<(usize, usize)>, x: int, y: int) -> bool {
    &&& links.len() == f.edges()
    &&& forall|a: int|
        0 <= a < f.edges() ==> #[trigger] links[a] == links_by(f, f.edge(a), x, y)
}

/// One side of a cell joined: its link is put.
fn join_side(
    f: &Field,
    links: &mut Vec<(usize, usize)>,
    i: usize,
    j: usize,
    side: Side,
)
    requires
        f.full(),
        f.is_cell(i as int, j as int),
        old(links)@.len() == f.edges(),
        old(links)@[f.at(side_edge(i as int, j as int, side))] == links_by(
            *f,
            side_edge(i as int, j as int, side),
            i as int,
            j as int,
        ),
    ensures
        final(links)@ == old(links)@.update(
            f.at(side_edge(i as int, j as int, side)),
            links_by(*f, side_edge(i as int, j as int, side), i + 1, j as int),
        ),
{
    let ghost e = side_edge(i as int, j as int, side);
    let from: usize = side_number(f, i, j, side);
    let r = partner_at(f, i, j, side);
    proof {
        lemma_joined(*f, e);
        if f.joined_before(e) is Some {
            lemma_at(*f, f.joined_before(e)->0);
        }
        if f.joined_after(e) is Some {
            lemma_at(*f, f.joined_after(e)->0);
        }
    }
    match r {
        Some(s) => {
            let to: usize = side_number(f, i, j, s);
            put(links, from, to);
        },
        None => {
            assert(links@ =~= old(links)@.update(from as int, old(links)@[from as int]));
        },
    }
}

/// What every edge's crossing is joined to: the two crossings of each
/// cell to each other, or a saddle's four in two pairs.
pub fn join(f: &Field) -> (links: Vec<(usize, usize)>)
    requires
        f.full(),
    ensures
        links@ == f.links(),
{
    proof {
        lemma_sizes(*f);
    }
    let w: usize = f.nx + 1;
    let h: usize = f.ny + 1;
    assert(0 <= h * w) by (nonlinear_arith)
        requires
            0 <= h,
            0 <= w,
    ;
    let n: usize = 2 * (h * w);
    let mut links: Vec<(usize, usize)> = Vec::new();
    while links.len() < n
        invariant
            links@.len() <= n,
            forall|a: int| 0 <= a < links@.len() ==> #[trigger] links@[a] == (NOWHERE, NOWHERE),
        decreases n - links@.len(),
    {
        links.push((NOWHERE, NOWHERE));
    }
    proof {
        assert forall|a: int| 0 <= a < f.edges() implies #[trigger] links@[a] == links_by(
            *f,
            f.edge(a),
            0,
            0,
        ) by {
            lemma_edge(*f, a);
        }
    }
    let mut j: usize = 0;
    while j < f.ny
        invariant
            f.full(),
            j <= f.ny,
            joined_by(*f, links@, 0, j as int),
        decreases f.ny - j,
    {
        let mut i: usize = 0;
        while i < f.nx
            invariant
                f.full(),
                i <= f.nx,
                j < f.ny,
                joined_by(*f, links@, i as int, j as int),
            decreases f.nx - i,
        {
            join_cell(f, &mut links, i, j);
            i = i + 1;
        }
        proof {
            assert forall|a: int| 0 <= a < f.edges() implies #[trigger] links@[a] == links_by(
                *f,
                f.edge(a),
                0,
                j + 1,
            ) by {
                lemma_edge(*f, a);
            }
        }
        j = j + 1;
    }
    proof {
        assert forall|a: int| 0 <= a < f.edges() implies #[trigger] links@[a] == f.links()[a] by {
            lemma_edge(*f, a);
        }
        assert(links@ =~= f.links());
    }
    links
}

/// The four sides of a cell joined.
fn join_cell(f: &Field, links: &mut Vec<(usize, usize)>, i: usize, j: usize)
    requires
        f.full(),
        f.is_cell(i as int, j as int),
        joined_by(*f, old(links)@, i as int, j as int),
    ensures
        joined_by(*f, final(links)@, i + 1, j as int),
{
    let ghost before = links@;
    let ghost (x, y) = (i as int, j as int);
    let ghost top = side_edge(x, y, Side::Top);
    let ghost right = side_edge(x, y, Side::Right);
    let ghost bottom = side_edge(x, y, Side::Bottom);
    let ghost left = side_edge(x, y, Side::Left);
    proof {
        lemma_at(*f, top);
        lemma_at(*f, right);
        lemma_at(*f, bottom);
        lemma_at(*f, left);
    }
    join_side(f, links, i, j, Side::Top);
    join_side(f, links, i, j, Side::Right);
    join_side(f, links, i, j, Side::Bottom);
    join_side(f, links, i, j, Side::Left);
    proof {
        assert forall|a: int| 0 <= a < f.edges() implies #[trigger] links@[a] == links_by(
            *f,
            f.edge(a),
            x + 1,
            y,
        ) by {
            lemma_edge(*f, a);
            let e = f.edge(a);
            if e != top && e != right && e != bottom && e != left {
                assert(links@[a] == before[a]);
                assert(before[a] == links_by(*f, e, x, y));
            }
        }
    }
}

/// The rings of a sampled shape, as the numbers of the edges they
/// cross. With the rim outside they close, each crossing is on one, and
/// each starts at its lowest; a stroke that loops gives an outer ring
/// and a hole.
pub fn rings(f: &Field) -> (r: Vec<Vec<usize>>)
    requires
        f.full(),
    ensures
        rings_run(f.links(), r@),
        f.rim_outside() ==> rings_close(f.links(), r@),
{
    let links = join(f);
    proof {
        links_are_sound(*f);
        if f.rim_outside() {
            contours_close(*f);
        }
    }
    trace(&links)
}

// The rings as the viewport draws them.

/// A ring's points as a path draws them: the first moved to, the rest
/// drawn to.
pub open spec fn ring_text(points: Seq<String>) -> Seq<char>
    decreases points.len(),
{
    if points.len() == 0 {
        seq![]
    } else {
        ring_text(points.drop_last()) + (if points.len() == 1 { "M"@ } else { " L"@ })
            + points.last()@
    }
}

/// The rings as a path's commands, each moved to, drawn round and
/// closed; one of fewer than two points is left out.
pub open spec fn path_text(rings: Seq<Vec<String>>) -> Seq<char>
    decreases rings.len(),
{
    if rings.len() == 0 {
        seq![]
    } else {
        let before = path_text(rings.drop_last());
        if rings.last()@.len() < 2 {
            before
        } else {
            before + ring_text(rings.last()@) + " Z "@
        }
    }
}

fn put_ring(s: &mut String, points: &Vec<String>)
    ensures
        final(s)@ == old(s)@ + ring_text(points@),
{
    let mut i: usize = 0;
    assert(points@.take(0) =~= seq![]);
    assert(s@ =~= old(s)@ + ring_text(points@.take(0)));
    while i < points.len()
        invariant
            i <= points@.len(),
            s@ == old(s)@ + ring_text(points@.take(i as int)),
        decreases points.len() - i,
    {
        if i == 0 {
            s.append("M");
        } else {
            s.append(" L");
        }
        s.append(points[i].as_str());
        i = i + 1;
        assert(points@.take(i as int).drop_last() =~= points@.take(i - 1));
        assert(s@ =~= old(s)@ + ring_text(points@.take(i as int)));
    }
    assert(points@.take(points@.len() as int) =~= points@);
}

/// The rings as a path's commands, each moved to, drawn round and
/// closed. Empty for none. A point is its two coordinates as they are
/// written, a space between them.
pub fn commands(rings: &Vec<Vec<String>>) -> (s: String)
    ensures
        s@ == path_text(rings@),
{
    let mut s = String::new();
    let mut k: usize = 0;
    assert(rings@.take(0) =~= seq![]);
    assert(s@ =~= path_text(rings@.take(0)));
    while k < rings.len()
        invariant
            k <= rings@.len(),
            s@ == path_text(rings@.take(k as int)),
        decreases rings.len() - k,
    {
        if rings[k].len() >= 2 {
            put_ring(&mut s, &rings[k]);
            s.append(" Z ");
        }
        k = k + 1;
        assert(rings@.take(k as int).drop_last() =~= rings@.take(k - 1));
        assert(s@ =~= path_text(rings@.take(k as int)));
    }
    assert(rings@.take(rings@.len() as int) =~= rings@);
    s
}

/// A side of a cell is joined to another side of it exactly when the
/// outline crosses it, the outline crosses the other too, and the other
/// is joined back to it.
pub proof fn a_side_is_joined_to_a_crossing(f: Field, i: int, j: int, side: Side)
    ensures
        f.partner(i, j, side) is None <==> !f.crosses(i, j, side),
        f.partner(i, j, side) matches Some(other) ==> other != side && f.crosses(i, j, other)
            && f.partner(i, j, other) == Some(side),
{
}

/// Where all four sides of a cell are crossed, each line cuts off one
/// corner, and it is a corner that is not on the same side of the outline
/// as the cell's middle.
pub proof fn a_saddle_goes_by_its_middle(f: Field, i: int, j: int)
    requires
        f.crosses(i, j, Side::Top),
        f.crosses(i, j, Side::Right),
        f.crosses(i, j, Side::Bottom),
        f.crosses(i, j, Side::Left),
    ensures
        f.partner(i, j, Side::Top) == Some(Side::Right) || f.partner(i, j, Side::Top) == Some(
            Side::Left,
        ),
        f.partner(i, j, Side::Top) == Some(Side::Right) ==> f.inside@[j]@[i + 1]
            != f.middle@[j]@[i] && f.inside@[j + 1]@[i] != f.middle@[j]@[i] && f.partner(
            i,
            j,
            Side::Bottom,
        ) == Some(Side::Left),
        f.partner(i, j, Side::Top) == Some(Side::Left) ==> f.inside@[j]@[i] != f.middle@[j]@[i]
            && f.inside@[j + 1]@[i + 1] != f.middle@[j]@[i] && f.partner(i, j, Side::Bottom)
            == Some(Side::Right),
{
}

/// A side of a cell is crossed when its two corners are not both inside
/// or both outside.
pub proof fn a_side_is_crossed_between_its_corners(f: Field, i: int, j: int)
    ensures
        f.crosses(i, j, Side::Top) <==> f.inside@[j]@[i] != f.inside@[j]@[i + 1],
        f.crosses(i, j, Side::Bottom) <==> f.inside@[j + 1]@[i] != f.inside@[j + 1]@[i + 1],
        f.crosses(i, j, Side::Left) <==> f.inside@[j]@[i] != f.inside@[j + 1]@[i],
        f.crosses(i, j, Side::Right) <==> f.inside@[j]@[i + 1] != f.inside@[j + 1]@[i + 1],
{
}

/// A side is the same edge of the field from either of the cells about
/// it.
pub proof fn an_edge_is_shared_by_its_cells(i: int, j: int)
    ensures
        side_edge(i, j, Side::Bottom) == side_edge(i, j + 1, Side::Top),
        side_edge(i, j, Side::Right) == side_edge(i + 1, j, Side::Left),
        side_edge(i, j, Side::Top) == (Edge { i, j, down: false }),
        side_edge(i, j, Side::Left) == (Edge { i, j, down: true }),
{
}

/// A ring goes from each point to one that is joined to it, first to the
/// point its own first link names; no point is on two rings or twice on
/// one.
pub proof fn a_ring_goes_along_the_links(
    links: Seq<(usize, usize)>,
    rings: Seq<Vec<usize>>,
    m: int,
    k: int,
)
    requires
        rings_run(links, rings),
        0 <= m < rings.len(),
        0 <= k < rings[m]@.len(),
    ensures
        rings[m]@.len() >= 3,
        rings[m]@[k] < links.len(),
        k > 0 ==> links[rings[m]@[k - 1] as int].0 == rings[m]@[k] || links[rings[m]@[k
            - 1] as int].1 == rings[m]@[k],
        k == 1 ==> links[rings[m]@[0] as int].0 == rings[m]@[1],
        forall|n: int, l: int|
            0 <= n < rings.len() && 0 <= l < rings[n]@.len() && (n != m || l != k)
                ==> #[trigger] rings[n]@[l] != rings[m]@[k],
{
    if k > 0 {
        assert(runs(links, rings[m]@));
        assert(linked(links, rings[m]@[k - 1] as int, rings[m]@[k] as int));
    }
    assert forall|n: int, l: int|
        0 <= n < rings.len() && 0 <= l < rings[n]@.len() && (n != m || l
            != k) implies #[trigger] rings[n]@[l] != rings[m]@[k] by {
        if rings[n]@[l] == rings[m]@[k] {
            assert(n == m && l == k);
        }
    }
}

/// Where every line closes, so does every ring: its last point is joined
/// to its first, which is the least of it, the rings stand in the order
/// of their first points, and every point that is joined to any is on one
/// of them.
pub proof fn a_ring_comes_back_to_its_first_point(
    links: Seq<(usize, usize)>,
    rings: Seq<Vec<usize>>,
    m: int,
    v: int,
)
    requires
        rings_run(links, rings),
        rings_close(links, rings),
        0 <= m < rings.len(),
    ensures
        links[rings[m]@.last() as int].0 == rings[m]@[0] || links[rings[m]@.last() as int].1
            == rings[m]@[0],
        forall|k: int| 0 <= k < rings[m]@.len() ==> rings[m]@[0] <= #[trigger] rings[m]@[k],
        m > 0 ==> rings[m - 1]@[0] < rings[m]@[0],
        0 <= v < links.len() && links[v].0 != NOWHERE ==> exists|n: int, k: int|
            0 <= n < rings.len() && 0 <= k < rings[n]@.len() && #[trigger] rings[n]@[k] == v,
{
    assert(linked(links, rings[m]@.last() as int, rings[m]@[0] as int));
    if 0 <= v < links.len() && links[v].0 != NOWHERE {
        assert(on_a_ring(rings, v));
    }
}

/// A ring is drawn from its first point by a line to each of the others
/// in turn, and closed; one of a single point, or of none, is not drawn.
/// The rings are drawn one after another.
pub proof fn a_ring_is_drawn_point_by_point(
    points: Seq<String>,
    next: String,
    a: Seq<Vec<String>>,
    b: Seq<Vec<String>>,
)
    ensures
        points.len() == 0 ==> ring_text(points.push(next)) == "M"@ + next@,
        points.len() > 0 ==> ring_text(points.push(next)) == ring_text(points) + " L"@ + next@,
        ring_text(Seq::<String>::empty()).len() == 0,
        a.len() == 0 ==> path_text(a).len() == 0,
        a.len() == 1 && a[0]@.len() < 2 ==> path_text(a).len() == 0,
        a.len() == 1 && a[0]@.len() >= 2 ==> path_text(a) == ring_text(a[0]@) + " Z "@,
        path_text(a + b) == path_text(a) + path_text(b),
    decreases b.len(),
{
    let more = points.push(next);
    assert(more.drop_last() =~= points);
    assert(more.last() == next);
    if points.len() == 0 {
        assert(ring_text(points) + "M"@ + next@ =~= "M"@ + next@);
    }
    if a.len() == 1 {
        let none = a.drop_last();
        assert(none.len() == 0);
        assert(path_text(none) =~= seq![]);
        assert(path_text(none) + ring_text(a[0]@) + " Z "@ =~= ring_text(a[0]@) + " Z "@);
    }
    if b.len() == 0 {
        assert(a + b =~= a);
        assert(path_text(a) + path_text(b) =~= path_text(a));
    } else {
        let all = a + b;
        a_ring_is_drawn_point_by_point(points, next, a, b.drop_last());
        assert(all.drop_last() =~= a + b.drop_last());
        assert(all.last() == b.last());
        assert(path_text(all) =~= path_text(a) + path_text(b));
    }
}

} // verus!
