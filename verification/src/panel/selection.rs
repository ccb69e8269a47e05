//! Sets of files, as lists in order: the rows the browser shows, and
//! the frames chosen among them.

use vstd::prelude::*;

verus! {

/// In order, and none twice.
pub open spec fn ordered(s: Seq<usize>) -> bool {
    forall|i: int, j: int| 0 <= i < j < s.len() ==> #[trigger] s[i] < #[trigger] s[j]
}

/// All of them below `n`.
pub open spec fn below(s: Seq<usize>, n: int) -> bool {
    forall|i: int| 0 <= i < s.len() ==> #[trigger] s[i] < n
}

/// How many of them come before `x`: where `x` is, or would go.
pub open spec fn place(s: Seq<usize>, x: usize) -> int
    decreases s.len(),
{
    if s.len() == 0 || s[0] >= x {
        0
    } else {
        1 + place(s.drop_first(), x)
    }
}

/// The set with `x` in it as well.
pub open spec fn with(s: Seq<usize>, x: usize) -> Seq<usize> {
    if s.contains(x) {
        s
    } else {
        s.insert(place(s, x), x)
    }
}

proof fn lemma_place_is(s: Seq<usize>, x: usize, n: int)
    requires
        0 <= n <= s.len(),
        forall|i: int| 0 <= i < n ==> #[trigger] s[i] < x,
        n < s.len() ==> s[n] >= x,
    ensures
        place(s, x) == n,
    decreases n,
{
    if n > 0 {
        assert(s[0] < x);
        let rest = s.drop_first();
        assert forall|i: int| 0 <= i < n - 1 implies #[trigger] rest[i] < x by {
            assert(s[i + 1] < x);
        }
        lemma_place_is(rest, x, n - 1);
    }
}

/// Where a file stands in an ordered list: what is before it is less,
/// and what is at its place or after is not.
pub proof fn lemma_place(s: Seq<usize>, x: usize)
    requires
        ordered(s),
    ensures
        0 <= place(s, x) <= s.len(),
        forall|i: int| 0 <= i < place(s, x) ==> #[trigger] s[i] < x,
        forall|i: int| place(s, x) <= i < s.len() ==> #[trigger] s[i] >= x,
        s.contains(x) <==> place(s, x) < s.len() && s[place(s, x)] == x,
    decreases s.len(),
{
    if s.len() > 0 {
        let rest = s.drop_first();
        assert(ordered(rest)) by {
            assert forall|i: int, j: int| 0 <= i < j < rest.len() implies #[trigger] rest[i]
                < #[trigger] rest[j] by {
                assert(s[i + 1] < s[j + 1]);
            }
        }
        lemma_place(rest, x);
        if s[0] < x {
            assert forall|i: int| 0 <= i < place(s, x) implies #[trigger] s[i] < x by {
                if i > 0 {
                    assert(rest[i - 1] < x);
                }
            }
            assert forall|i: int| place(s, x) <= i < s.len() implies #[trigger] s[i] >= x by {
                assert(rest[i - 1] >= x);
            }
            if s.contains(x) {
                let k = choose|k: int| 0 <= k < s.len() && s[k] == x;
                assert(k >= place(s, x));
                if k > place(s, x) {
                    assert(s[place(s, x)] < s[k]);
                }
            }
        } else {
            assert forall|i: int| 0 <= i < s.len() implies #[trigger] s[i] >= x by {
                if i > 0 {
                    assert(s[0] < s[i]);
                }
            }
            if s.contains(x) {
                let k = choose|k: int| 0 <= k < s.len() && s[k] == x;
                if k > 0 {
                    assert(s[0] < s[k]);
                }
            }
        }
    }
}

/// A file taken into a set: the set stays in order and has it and what
/// it had.
pub proof fn a_set_takes_a_file_in_order(s: Seq<usize>, x: usize, n: int)
    requires
        ordered(s),
        below(s, n),
        x < n,
    ensures
        ordered(with(s, x)),
        below(with(s, x), n),
        forall|f: usize| #[trigger] with(s, x).contains(f) <==> s.contains(f) || f == x,
{
    lemma_place(s, x);
    if !s.contains(x) {
        let p = place(s, x);
        let t = s.insert(p, x);
        assert forall|i: int, j: int| 0 <= i < j < t.len() implies #[trigger] t[i]
            < #[trigger] t[j] by {
            let a = if i < p {
                i
            } else {
                i - 1
            };
            let b = if j < p {
                j
            } else {
                j - 1
            };
            if i != p && j != p {
                assert(s[a] < s[b]);
            } else if i == p {
                assert(s[b] >= x);
                assert(s.contains(s[b]));
            } else {
                assert(s[a] < x);
            }
        }
        assert forall|f: usize| #[trigger] t.contains(f) <==> s.contains(f) || f == x by {
            if t.contains(f) {
                let k = choose|k: int| 0 <= k < t.len() && t[k] == f;
                if k < p {
                    assert(s[k] == f);
                } else if k > p {
                    assert(s[k - 1] == f);
                }
            }
            if s.contains(f) {
                let k = choose|k: int| 0 <= k < s.len() && s[k] == f;
                if k < p {
                    assert(t[k] == f);
                } else {
                    assert(t[k + 1] == f);
                }
            }
            if f == x {
                assert(t[p] == x);
            }
        }
    }
}

/// Two sets in order with the same files are the same list.
pub proof fn a_set_has_one_order(s: Seq<usize>, t: Seq<usize>)
    requires
        ordered(s),
        ordered(t),
        forall|f: usize| #[trigger] s.contains(f) <==> t.contains(f),
    ensures
        s == t,
    decreases s.len(),
{
    if s.len() == 0 {
        if t.len() > 0 {
            assert(t.contains(t[0]));
            assert(s.contains(t[0]));
        }
        assert(s =~= t);
    } else {
        assert(s.contains(s[0]));
        let j = choose|j: int| 0 <= j < t.len() && t[j] == s[0];
        assert(t.contains(t[0]));
        assert(s.contains(t[0]));
        let i = choose|i: int| 0 <= i < s.len() && s[i] == t[0];
        if j > 0 {
            assert(t[0] < t[j]);
            if i > 0 {
                assert(s[0] < s[i]);
            }
        }
        let (a, b) = (s.drop_first(), t.drop_first());
        assert(ordered(a)) by {
            assert forall|i: int, j: int| 0 <= i < j < a.len() implies #[trigger] a[i]
                < #[trigger] a[j] by {
                assert(s[i + 1] < s[j + 1]);
            }
        }
        assert(ordered(b)) by {
            assert forall|i: int, j: int| 0 <= i < j < b.len() implies #[trigger] b[i]
                < #[trigger] b[j] by {
                assert(t[i + 1] < t[j + 1]);
            }
        }
        assert forall|f: usize| #[trigger] a.contains(f) <==> b.contains(f) by {
            if a.contains(f) {
                let k = choose|k: int| 0 <= k < a.len() && a[k] == f;
                assert(s[k + 1] == f && s[0] < s[k + 1]);
                assert(s.contains(f));
                let l = choose|l: int| 0 <= l < t.len() && t[l] == f;
                assert(b[l - 1] == f);
            }
            if b.contains(f) {
                let k = choose|k: int| 0 <= k < b.len() && b[k] == f;
                assert(t[k + 1] == f && t[0] < t[k + 1]);
                assert(t.contains(f));
                assert(s.contains(f));
                let l = choose|l: int| 0 <= l < s.len() && s[l] == f;
                assert(a[l - 1] == f);
            }
        }
        a_set_has_one_order(a, b);
        assert(s =~= seq![s[0]] + a);
        assert(t =~= seq![t[0]] + b);
    }
}

/// Where `x` is in the list, or would go: by halves.
pub fn find(v: &Vec<usize>, x: usize) -> (p: usize)
    requires
        ordered(v@),
    ensures
        p == place(v@, x),
        p <= v@.len(),
{
    let mut low: usize = 0;
    let mut high: usize = v.len();
    while low < high
        invariant
            low <= high <= v@.len(),
            ordered(v@),
            forall|i: int| 0 <= i < low ==> #[trigger] v@[i] < x,
            forall|i: int| high <= i < v@.len() ==> #[trigger] v@[i] >= x,
        decreases high - low,
    {
        let middle: usize = low + (high - low) / 2;
        if v[middle] < x {
            assert forall|i: int| 0 <= i < middle + 1 implies #[trigger] v@[i] < x by {
                if i < middle {
                    assert(v@[i] < v@[middle as int]);
                }
            }
            low = middle + 1;
        } else {
            assert forall|i: int| middle <= i < v@.len() implies #[trigger] v@[i] >= x by {
                if i > middle {
                    assert(v@[middle as int] < v@[i]);
                }
            }
            high = middle;
        }
    }
    proof {
        lemma_place_is(v@, x, low as int);
    }
    low
}

pub fn has(v: &Vec<usize>, x: usize) -> (r: bool)
    requires
        ordered(v@),
    ensures
        r == v@.contains(x),
{
    proof {
        lemma_place(v@, x);
    }
    let p: usize = find(v, x);
    p < v.len() && v[p] == x
}

/// `x` into the set.
pub fn put(v: &mut Vec<usize>, x: usize)
    requires
        ordered(old(v)@),
    ensures
        final(v)@ == with(old(v)@, x),
        ordered(final(v)@),
        final(v)@.len() <= old(v)@.len() + 1,
{
    proof {
        lemma_place(v@, x);
        lemma_with_ordered(v@, x);
    }
    let p: usize = find(v, x);
    if p < v.len() && v[p] == x {
        return;
    }
    v.insert(p, x);
}

proof fn lemma_with_ordered(s: Seq<usize>, x: usize)
    requires
        ordered(s),
    ensures
        ordered(with(s, x)),
{
    let n = usize::MAX + 1;
    a_set_takes_a_file_in_order(s, x, n);
}

/// The selection as it is acted on: the frame on screen and the rest of
/// the set. Nothing with nothing open.
pub open spec fn chosen(picked: Seq<usize>, current: Option<usize>) -> Seq<usize> {
    match current {
        Some(c) => with(picked, c),
        None => seq![],
    }
}

/// What of a set the browser still shows.
pub open spec fn pruned(picked: Seq<usize>, shown: Seq<usize>) -> Seq<usize> {
    picked.filter(|f: usize| shown.contains(f))
}

/// A frame the filter hides leaves the set, which stays in order and
/// keeps the others.
pub proof fn a_hidden_frame_leaves_the_set(picked: Seq<usize>, shown: Seq<usize>, n: int)
    requires
        ordered(picked),
        below(picked, n),
    ensures
        ordered(pruned(picked, shown)),
        below(pruned(picked, shown), n),
        forall|f: usize| #[trigger] pruned(picked, shown).contains(f) <==> picked.contains(f) && shown.contains(f),
    decreases picked.len(),
{
    let keep = |f: usize| shown.contains(f);
    reveal(Seq::filter);
    if picked.len() > 0 {
        let less = picked.drop_last();
        assert(ordered(less)) by {
            assert forall|i: int, j: int| 0 <= i < j < less.len() implies #[trigger] less[i]
                < #[trigger] less[j] by {
                assert(picked[i] < picked[j]);
            }
        }
        assert(below(less, n)) by {
            assert forall|i: int| 0 <= i < less.len() implies #[trigger] less[i] < n by {
                assert(picked[i] < n);
            }
        }
        a_hidden_frame_leaves_the_set(less, shown, n);
        let before = pruned(less, shown);
        let all = pruned(picked, shown);
        let last = picked.last();
        assert(all =~= if keep(last) { before.push(last) } else { before });
        assert forall|f: usize| #[trigger] less.contains(f) implies f < last by {
            let k = choose|k: int| 0 <= k < less.len() && less[k] == f;
            assert(picked[k] < picked[picked.len() - 1]);
        }
        assert forall|i: int, j: int| 0 <= i < j < all.len() implies #[trigger] all[i]
            < #[trigger] all[j] by {
            if j < before.len() {
                assert(before[i] < before[j]);
            } else {
                assert(before.contains(before[i]));
                assert(less.contains(before[i]));
            }
        }
        assert forall|i: int| 0 <= i < all.len() implies #[trigger] all[i] < n by {
            if i < before.len() {
                assert(before[i] < n);
            } else {
                assert(picked[picked.len() - 1] < n);
            }
        }
        assert forall|f: usize| #[trigger] all.contains(f) <==> picked.contains(f)
            && shown.contains(f) by {
            if all.contains(f) {
                let k = choose|k: int| 0 <= k < all.len() && all[k] == f;
                if k < before.len() {
                    assert(before.contains(f));
                    let m = choose|m: int| 0 <= m < less.len() && less[m] == f;
                    assert(picked[m] == f);
                } else {
                    assert(picked[picked.len() - 1] == f);
                }
            }
            if picked.contains(f) && shown.contains(f) {
                let k = choose|k: int| 0 <= k < picked.len() && picked[k] == f;
                if k < less.len() {
                    assert(less[k] == f);
                    assert(before.contains(f));
                    let m = choose|m: int| 0 <= m < before.len() && before[m] == f;
                    assert(all[m] == f);
                } else {
                    assert(all[all.len() - 1] == f);
                }
            }
        }
    }
}

/// The frames the filter hides, out of the set.
pub fn prune(picked: &Vec<usize>, shown: &Vec<usize>) -> (v: Vec<usize>)
    requires
        ordered(shown@),
    ensures
        v@ == pruned(picked@, shown@),
{
    let mut v: Vec<usize> = Vec::new();
    let mut i: usize = 0;
    proof {
        reveal(Seq::filter);
        assert(picked@.take(0) =~= seq![]);
    }
    while i < picked.len()
        invariant
            i <= picked@.len(),
            ordered(shown@),
            v@ == pruned(picked@.take(i as int), shown@),
        decreases picked.len() - i,
    {
        if has(shown, picked[i]) {
            v.push(picked[i]);
        }
        i = i + 1;
        proof {
            reveal(Seq::filter);
            let done = picked@.take(i as int);
            assert(done.drop_last() =~= picked@.take(i - 1));
            assert(done.last() == picked@[i - 1]);
        }
    }
    assert(picked@.take(i as int) =~= picked@);
    v
}

/// A copy of the list.
pub fn copy(v: &Vec<usize>) -> (r: Vec<usize>)
    ensures
        r@ == v@,
{
    let mut r: Vec<usize> = Vec::new();
    let mut i: usize = 0;
    while i < v.len()
        invariant
            i <= v@.len(),
            r@ =~= v@.take(i as int),
        decreases v.len() - i,
    {
        r.push(v[i]);
        i = i + 1;
    }
    assert(v@.take(i as int) =~= v@);
    r
}

/// The row nearest to a file that has none: the first file shown after
/// it, else the last one shown.
pub open spec fn nearest(shown: Seq<usize>, file: usize) -> Option<int> {
    if shown.len() == 0 {
        None
    } else if place(shown, file) < shown.len() {
        Some(place(shown, file))
    } else {
        Some(shown.len() - 1)
    }
}

pub fn nearest_row(shown: &Vec<usize>, file: usize) -> (r: Option<usize>)
    requires
        ordered(shown@),
    ensures
        r is Some <==> nearest(shown@, file) is Some,
        r matches Some(row) ==> nearest(shown@, file) == Some(row as int) && row < shown@.len(),
{
    if shown.len() == 0 {
        return None;
    }
    let p: usize = find(shown, file);
    if p < shown.len() {
        Some(p)
    } else {
        Some(shown.len() - 1)
    }
}

/// The nearest row's frame is the next one shown, or with none after it
/// the last before it; nothing shown lies in between.
pub proof fn nothing_shown_is_nearer(shown: Seq<usize>, file: usize)
    requires
        ordered(shown),
        shown.len() > 0,
        !shown.contains(file),
    ensures
        nearest(shown, file) matches Some(r) && 0 <= r < shown.len() && {
            let near = shown[r];
            &&& near > file ==> forall|f: usize| #[trigger] shown.contains(f) && f > file ==> f >= near
            &&& near < file ==> forall|f: usize| #[trigger] shown.contains(f) ==> f <= near
        },
{
    lemma_place(shown, file);
    let p = place(shown, file);
    if p < shown.len() {
        assert(shown.contains(shown[p]));
        assert forall|f: usize| #[trigger] shown.contains(f) && f > file implies f >= shown[p] by {
            let k = choose|k: int| 0 <= k < shown.len() && shown[k] == f;
            if k < p {
                assert(shown[k] < file);
            } else if k > p {
                assert(shown[p] < shown[k]);
            }
        }
    } else {
        let last = shown.len() - 1;
        assert forall|f: usize| #[trigger] shown.contains(f) implies f <= shown[last] by {
            let k = choose|k: int| 0 <= k < shown.len() && shown[k] == f;
            if k < last {
                assert(shown[k] < shown[last]);
            }
        }
    }
}


// Taking files out.

/// A list with those places taken out of it.
pub open spec fn without<T>(s: Seq<T>, gone: Seq<usize>) -> Seq<T>
    decreases gone.len(),
{
    if gone.len() == 0 {
        s
    } else {
        without(s.remove(gone.last() as int), gone.drop_last())
    }
}

/// Where a place is once those are taken out; nowhere for one of them.
pub open spec fn renumbered(gone: Seq<usize>, x: usize) -> Option<int> {
    if gone.contains(x) {
        None
    } else {
        Some(x - place(gone, x))
    }
}

proof fn lemma_less(gone: Seq<usize>, n: int)
    requires
        ordered(gone),
        below(gone, n),
        gone.len() > 0,
    ensures
        ordered(gone.drop_last()),
        below(gone.drop_last(), gone.last() as int),
        below(gone.drop_last(), n - 1),
        gone.last() < n,
{
    let less = gone.drop_last();
    assert forall|i: int, j: int| 0 <= i < j < less.len() implies #[trigger] less[i]
        < #[trigger] less[j] by {
        assert(gone[i] < gone[j]);
    }
    assert forall|i: int| 0 <= i < less.len() implies #[trigger] less[i] < gone.last() by {
        assert(gone[i] < gone[gone.len() - 1]);
    }
    assert(gone[gone.len() - 1] < n);
}

/// What is not taken out stays, under its new number, and nothing else
/// does: each place keeps its own.
pub proof fn what_stays_keeps_its_own<T>(s: Seq<T>, gone: Seq<usize>, x: usize)
    requires
        ordered(gone),
        below(gone, s.len() as int),
        x < s.len(),
        !gone.contains(x),
    ensures
        without(s, gone).len() == s.len() - gone.len(),
        renumbered(gone, x) matches Some(y) && 0 <= y < without(s, gone).len() && without(s, gone)[y]
            == s[x as int],
    decreases gone.len(),
{
    lemma_place(gone, x);
    if gone.len() > 0 {
        lemma_less(gone, s.len() as int);
        let less = gone.drop_last();
        let last = gone.last();
        let t = s.remove(last as int);
        assert(gone[gone.len() - 1] == last);
        assert(gone.contains(last));
        lemma_place(less, x);
        assert(!less.contains(x)) by {
            if less.contains(x) {
                let k = choose|k: int| 0 <= k < less.len() && less[k] == x;
                assert(gone[k] == x);
            }
        }
        lemma_without_len(s, gone);
        if x < last {
            what_stays_keeps_its_own(t, less, x);
            assert(t[x as int] == s[x as int]);
            let p = place(less, x);
            assert forall|i: int| 0 <= i < p implies #[trigger] gone[i] < x by {
                assert(less[i] < x);
            }
            if p < less.len() {
                assert(gone[p] == less[p]);
            }
            lemma_place_is(gone, x, p);
        } else {
            let y = (x - 1) as usize;
            assert forall|i: int| 0 <= i < less.len() implies #[trigger] less[i] < y by {
                assert(less[i] < last);
            }
            assert(!less.contains(y));
            if less.len() > 0 {
                lemma_place_is(less, y, less.len() as int);
            }
            what_stays_keeps_its_own(t, less, y);
            assert(t[y as int] == s[x as int]);
            assert forall|i: int| 0 <= i < gone.len() implies #[trigger] gone[i] < x by {
                if i < less.len() {
                    assert(less[i] < last);
                }
            }
            lemma_place_is(gone, x, gone.len() as int);
            lemma_place_is(less, y, less.len() as int);
        }
    }
}

/// Two places that stay are in the order they were in.
pub proof fn what_stays_keeps_its_order(gone: Seq<usize>, x: usize, y: usize)
    requires
        ordered(gone),
        x < y,
        !gone.contains(x),
        !gone.contains(y),
    ensures
        renumbered(gone, x) is Some,
        renumbered(gone, y) is Some,
        renumbered(gone, x)->0 < renumbered(gone, y)->0,
{
    lemma_place(gone, x);
    lemma_place(gone, y);
    let (p, q) = (place(gone, x), place(gone, y));
    if p < q {
        // What goes between them is between their numbers.
        lemma_spread(gone, p, q - 1);
        assert(gone[p] >= x && gone[q - 1] < y);
        assert(gone[p] != x);
    }
}

/// Ordered numbers are as far apart as their places, at least.
proof fn lemma_spread(s: Seq<usize>, i: int, j: int)
    requires
        ordered(s),
        0 <= i <= j < s.len(),
    ensures
        s[j] - s[i] >= j - i,
    decreases j - i,
{
    if i < j {
        lemma_spread(s, i, j - 1);
        assert(s[j - 1] < s[j]);
    }
}

/// As many go as are taken out.
pub proof fn lemma_without_len<T>(s: Seq<T>, gone: Seq<usize>)
    requires
        ordered(gone),
        below(gone, s.len() as int),
    ensures
        without(s, gone).len() == s.len() - gone.len(),
    decreases gone.len(),
{
    if gone.len() > 0 {
        lemma_less(gone, s.len() as int);
        lemma_without_len(s.remove(gone.last() as int), gone.drop_last());
    }
}

/// Take those places out of a list.
pub fn take_out<T>(v: &mut Vec<T>, gone: &Vec<usize>)
    requires
        ordered(gone@),
        below(gone@, old(v)@.len() as int),
    ensures
        final(v)@ == without(old(v)@, gone@),
        final(v)@.len() == old(v)@.len() - gone@.len(),
{
    proof {
        lemma_without_len(v@, gone@);
    }
    let mut k: usize = gone.len();
    assert(gone@.take(k as int) =~= gone@);
    while k > 0
        invariant
            k <= gone@.len(),
            ordered(gone@.take(k as int)),
            below(gone@.take(k as int), v@.len() as int),
            without(v@, gone@.take(k as int)) == without(old(v)@, gone@),
        decreases k,
    {
        proof {
            let part = gone@.take(k as int);
            lemma_less(part, v@.len() as int);
            assert(part.drop_last() =~= gone@.take(k - 1));
            assert(part.last() == gone@[k - 1]);
        }
        k = k - 1;
        let _one = v.remove(gone[k]);
    }
    assert(gone@.take(0) =~= seq![]);
}

/// The new number of a file, when it stays.
pub fn renumber(gone: &Vec<usize>, x: usize) -> (r: Option<usize>)
    requires
        ordered(gone@),
    ensures
        r is Some <==> !gone@.contains(x),
        r matches Some(y) ==> renumbered(gone@, x) == Some(y as int),
{
    proof {
        lemma_place(gone@, x);
        lemma_place_fits(gone@, x);
    }
    let p: usize = find(gone, x);
    if p < gone.len() && gone[p] == x {
        return None;
    }
    Some(x - p)
}

/// No more of an ordered list come before a number than there are below
/// it.
pub proof fn lemma_place_fits(s: Seq<usize>, x: usize)
    requires
        ordered(s),
    ensures
        place(s, x) <= x,
{
    lemma_place(s, x);
    let front = s.take(place(s, x));
    lemma_fits(front, x as int);
}

/// An ordered list of numbers below `n` is no longer than `n`.
pub proof fn lemma_fits(s: Seq<usize>, n: int)
    requires
        ordered(s),
        below(s, n),
        n >= 0,
    ensures
        s.len() <= n,
    decreases s.len(),
{
    if s.len() > 0 {
        lemma_less(s, n);
        lemma_fits(s.drop_last(), s.last() as int);
    }
}

/// How many are so.
pub open spec fn count(v: Seq<bool>) -> nat
    decreases v.len(),
{
    if v.len() == 0 {
        0
    } else {
        count(v.drop_last()) + if v.last() { 1nat } else { 0 }
    }
}

pub proof fn lemma_count(v: Seq<bool>)
    ensures
        count(v) <= v.len(),
    decreases v.len(),
{
    if v.len() > 0 {
        lemma_count(v.drop_last());
    }
}

/// The set is the frame on screen and those chosen beside it; with nothing
/// open it is empty.
pub proof fn the_set_has_the_frame_on_screen(picked: Seq<usize>, current: Option<usize>)
    requires
        ordered(picked),
    ensures
        current is None ==> chosen(picked, current).len() == 0,
        current matches Some(c) ==> (forall|f: usize| #[trigger]
            chosen(picked, current).contains(f) <==> picked.contains(f) || f == c),
{
    match current {
        Some(c) => {
            a_set_takes_a_file_in_order(picked, c, usize::MAX + 1);
        },
        None => {},
    }
}

/// The files counted are those that are so, and no more.
pub proof fn a_count_is_of_those_that_are(v: Seq<bool>)
    ensures
        (forall|i: int| 0 <= i < v.len() ==> v[i]) ==> count(v) == v.len(),
        (forall|i: int| 0 <= i < v.len() ==> !v[i]) ==> count(v) == 0,
        v.len() > 0 ==> count(v) == count(v.drop_last()) + if v.last() { 1nat } else { 0 },
    decreases v.len(),
{
    if v.len() > 0 {
        a_count_is_of_those_that_are(v.drop_last());
        assert(v.last() == v[v.len() - 1]);
    }
}

/// Taking nothing out leaves the list, and taking all of it out leaves
/// none.
pub proof fn what_is_taken_out_is_gone<T>(s: Seq<T>, gone: Seq<usize>, x: usize)
    requires
        ordered(gone),
        below(gone, s.len() as int),
    ensures
        gone.len() == 0 ==> without(s, gone) == s,
        without(s, gone).len() == s.len() - gone.len(),
        gone.contains(x) ==> renumbered(gone, x) is None,
{
    lemma_without_len(s, gone);
}

} // verus!
