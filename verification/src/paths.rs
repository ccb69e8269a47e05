//! Paths, part by part: separators that are doubled or trail, and `.` but
//! at the front of a path that has no root, are no part of one.

use crate::text;
use vstd::prelude::*;

verus! {

/// A `.` that is all of what comes before the next separator.
pub open spec fn is_dot(s: Seq<char>, sep: char) -> bool {
    s.len() > 0 && s[0] == '.' && sep != '.' && (s.len() == 1 || s[1] == sep)
}

/// A path from the root.
pub open spec fn rooted(p: Seq<char>, sep: char) -> bool {
    p.len() > 0 && p[0] == sep
}

/// `s` from where its next part begins.
pub open spec fn past_gap(s: Seq<char>, sep: char) -> Seq<char>
    decreases s.len(),
{
    if rooted(s, sep) || is_dot(s, sep) {
        past_gap(s.skip(1), sep)
    } else {
        s
    }
}

/// The part at the front of `s`, and what comes after it.
pub open spec fn head(s: Seq<char>, sep: char) -> Seq<char> {
    s.take(text::first_of(s, sep) as int)
}

pub open spec fn tail(s: Seq<char>, sep: char) -> Seq<char> {
    s.skip(text::first_of(s, sep) as int)
}

proof fn lemma_past_gap(s: Seq<char>, sep: char)
    ensures
        past_gap(s, sep).len() <= s.len(),
        !rooted(past_gap(s, sep), sep),
        !is_dot(past_gap(s, sep), sep),
    decreases s.len(),
{
    if rooted(s, sep) || is_dot(s, sep) {
        lemma_past_gap(s.skip(1), sep);
    }
}

proof fn lemma_tail_shrinks(s: Seq<char>, sep: char)
    requires
        past_gap(s, sep).len() > 0,
    ensures
        tail(past_gap(s, sep), sep).len() < s.len(),
{
    lemma_past_gap(s, sep);
    text::lemma_first_of(past_gap(s, sep), sep);
}

/// The parts of `s`, in order.
pub open spec fn parts(s: Seq<char>, sep: char) -> Seq<Seq<char>>
    decreases s.len() via parts_end
{
    let b = past_gap(s, sep);
    if b.len() == 0 {
        seq![]
    } else {
        seq![head(b, sep)] + parts(tail(b, sep), sep)
    }
}

#[via_fn]
proof fn parts_end(s: Seq<char>, sep: char) {
    if past_gap(s, sep).len() > 0 {
        lemma_tail_shrinks(s, sep);
    }
}

/// The parts of a path: a `.` at its front is one.
pub open spec fn path_parts(p: Seq<char>, sep: char) -> Seq<Seq<char>> {
    if is_dot(p, sep) {
        seq![seq!['.']] + parts(p.skip(1), sep)
    } else {
        parts(p, sep)
    }
}

/// Two paths of the same parts.
pub open spec fn same_path(a: Seq<char>, b: Seq<char>, sep: char) -> bool {
    rooted(a, sep) == rooted(b, sep) && path_parts(a, sep) == path_parts(b, sep)
}

/// `s` without what trails its last part.
pub open spec fn to_end(s: Seq<char>, sep: char) -> Seq<char>
    decreases s.len(),
{
    if s.len() > 0 && (s.last() == sep || (s.last() == '.' && (s.len() == 1 || s[s.len() - 2]
        == sep))) {
        to_end(s.drop_last(), sep)
    } else {
        s
    }
}

/// What is left of `s` after its first `n` parts, as it is written.
pub open spec fn after_parts(s: Seq<char>, n: nat, sep: char) -> Seq<char>
    decreases n,
{
    let b = past_gap(s, sep);
    if n == 0 {
        to_end(b, sep)
    } else {
        after_parts(tail(b, sep), (n - 1) as nat, sep)
    }
}

/// The path `p` under `base`: what is left of it after the parts they
/// share. None when `p` is not under it, nor for a base of nothing.
pub open spec fn under(p: Seq<char>, base: Seq<char>, sep: char) -> Option<Seq<char>> {
    let (a, b) = (path_parts(p, sep), path_parts(base, sep));
    if rooted(p, sep) != rooted(base, sep) || (!rooted(base, sep) && b.len() == 0)
        || !b.is_prefix_of(a) {
        None
    } else if is_dot(p, sep) {
        Some(after_parts(p.skip(1), (b.len() - 1) as nat, sep))
    } else {
        Some(after_parts(p, b.len(), sep))
    }
}

fn at_dot(v: &Vec<char>, a: usize, sep: char) -> (r: bool)
    requires
        a <= v@.len(),
    ensures
        r == is_dot(v@.skip(a as int), sep),
{
    a < v.len() && v[a] == '.' && sep != '.' && (v.len() - a == 1 || v[a + 1] == sep)
}

fn gap_end(v: &Vec<char>, a: usize, sep: char) -> (b: usize)
    requires
        a <= v@.len(),
    ensures
        a <= b <= v@.len(),
        v@.skip(b as int) == past_gap(v@.skip(a as int), sep),
{
    let mut b: usize = a;
    while b < v.len() && (v[b] == sep || at_dot(v, b, sep))
        invariant
            a <= b <= v@.len(),
            past_gap(v@.skip(a as int), sep) == past_gap(v@.skip(b as int), sep),
        decreases v.len() - b,
    {
        assert(v@.skip(b as int).skip(1) =~= v@.skip(b + 1));
        b = b + 1;
    }
    b
}

fn part_end(v: &Vec<char>, a: usize, sep: char) -> (e: usize)
    requires
        a <= v@.len(),
    ensures
        a <= e <= v@.len(),
        e - a == text::first_of(v@.skip(a as int), sep),
        v@.skip(e as int) == tail(v@.skip(a as int), sep),
        v@.subrange(a as int, e as int) == head(v@.skip(a as int), sep),
{
    let ghost s = v@.skip(a as int);
    let mut e: usize = a;
    while e < v.len() && v[e] != sep
        invariant
            a <= e <= v@.len(),
            s == v@.skip(a as int),
            forall|i: int| 0 <= i < e - a ==> s[i] != sep,
        decreases v.len() - e,
    {
        e = e + 1;
    }
    proof {
        text::lemma_first_of_is(s, sep, e - a);
        assert(v@.skip(e as int) =~= s.skip(e - a));
        assert(v@.subrange(a as int, e as int) =~= s.take(e - a));
    }
    e
}

/// A list of texts as what they hold.
pub open spec fn views(v: Seq<Vec<char>>) -> Seq<Seq<char>> {
    v.map_values(|t: Vec<char>| t@)
}

fn parts_of(v: &Vec<char>, sep: char) -> (out: Vec<Vec<char>>)
    ensures
        views(out@) == path_parts(v@, sep),
{
    let mut out: Vec<Vec<char>> = Vec::new();
    let mut a: usize = 0;
    assert(v@.skip(0) =~= v@);
    if at_dot(v, 0, sep) {
        out.push(text::part(v, 0, 1));
        a = 1;
        assert(v@.subrange(0, 1) =~= seq!['.']);
    }
    let ghost whole = path_parts(v@, sep);
    assert(views(out@) + parts(v@.skip(a as int), sep) =~= whole);
    let ghost body = v@.skip(a as int);
    a = gap_end(v, a, sep);
    proof {
        lemma_at_gap(body, v@.skip(a as int), sep);
    }
    while a < v.len()
        invariant
            a <= v@.len(),
            past_gap(v@.skip(a as int), sep) == v@.skip(a as int),
            views(out@) + parts(v@.skip(a as int), sep) == whole,
        decreases v.len() - a,
    {
        let ghost s = v@.skip(a as int);
        let ghost had = out@;
        proof {
            lemma_tail_shrinks(s, sep);
        }
        let e: usize = part_end(v, a, sep);
        out.push(text::part(v, a, e));
        let b: usize = gap_end(v, e, sep);
        proof {
            assert(views(out@) =~= views(had) + seq![head(s, sep)]);
            lemma_at_gap(v@.skip(e as int), v@.skip(b as int), sep);
            assert(views(had) + (seq![head(s, sep)] + parts(tail(s, sep), sep)) =~= views(out@)
                + parts(v@.skip(b as int), sep));
        }
        a = b;
    }
    assert(parts(v@.skip(a as int), sep) =~= seq![]);
    assert(views(out@) =~= whole);
    out
}

/// Past a gap the parts are the same.
proof fn lemma_at_gap(s: Seq<char>, t: Seq<char>, sep: char)
    requires
        t == past_gap(s, sep),
    ensures
        past_gap(t, sep) == t,
        parts(t, sep) == parts(s, sep),
{
    lemma_past_gap(s, sep);
}

/// Whether `b` is the front of `a`.
fn begins(a: &Vec<Vec<char>>, b: &Vec<Vec<char>>) -> (r: bool)
    ensures
        r == views(b@).is_prefix_of(views(a@)),
{
    if b.len() > a.len() {
        return false;
    }
    let mut i: usize = 0;
    while i < b.len()
        invariant
            i <= b@.len() <= a@.len(),
            forall|k: int| 0 <= k < i ==> a@[k]@ == b@[k]@,
        decreases b.len() - i,
    {
        if !text::same(&a[i], &b[i]) {
            assert(views(a@).subrange(0, b@.len() as int)[i as int] == a@[i as int]@);
            assert(views(b@)[i as int] == b@[i as int]@);
            return false;
        }
        i = i + 1;
    }
    assert(views(b@) =~= views(a@).subrange(0, b@.len() as int));
    true
}

fn is_rooted(v: &Vec<char>, sep: char) -> (r: bool)
    ensures
        r == rooted(v@, sep),
{
    v.len() > 0 && v[0] == sep
}

/// Whether two paths are of the same parts.
pub fn is_same_path(a: &str, b: &str, sep: char) -> (r: bool)
    ensures
        r == same_path(a@, b@, sep),
{
    let v = text::chars_of(a);
    let w = text::chars_of(b);
    let p = parts_of(&v, sep);
    let q = parts_of(&w, sep);
    if is_rooted(&v, sep) != is_rooted(&w, sep) || p.len() != q.len() {
        assert(views(p@).len() == p@.len() && views(q@).len() == q@.len());
        return false;
    }
    let r: bool = begins(&p, &q);
    proof {
        assert(views(p@).subrange(0, views(q@).len() as int) =~= views(p@));
    }
    r
}

fn end_of(v: &Vec<char>, from: usize, sep: char) -> (e: usize)
    requires
        from <= v@.len(),
    ensures
        from <= e <= v@.len(),
        v@.subrange(from as int, e as int) == to_end(v@.skip(from as int), sep),
{
    let mut e: usize = v.len();
    assert(v@.subrange(from as int, e as int) =~= v@.skip(from as int));
    while e > from && (v[e - 1] == sep || (v[e - 1] == '.' && (e - from == 1 || v[e - 2] == sep)))
        invariant
            from <= e <= v@.len(),
            to_end(v@.subrange(from as int, e as int), sep) == to_end(v@.skip(from as int), sep),
        decreases e,
    {
        assert(v@.subrange(from as int, e as int).drop_last() =~= v@.subrange(
            from as int,
            e - 1,
        ));
        e = e - 1;
    }
    e
}

/// What is left of `v` after its parts to `from` and `n` more.
fn left_after(v: &Vec<char>, from: usize, n: usize, sep: char) -> (out: Vec<char>)
    requires
        from <= v@.len(),
    ensures
        out@ == after_parts(v@.skip(from as int), n as nat, sep),
{
    let mut a: usize = from;
    let mut left: usize = n;
    while left > 0
        invariant
            a <= v@.len(),
            after_parts(v@.skip(from as int), n as nat, sep) == after_parts(
                v@.skip(a as int),
                left as nat,
                sep,
            ),
        decreases left,
    {
        let b: usize = gap_end(v, a, sep);
        a = part_end(v, b, sep);
        left = left - 1;
    }
    let b: usize = gap_end(v, a, sep);
    let e: usize = end_of(v, b, sep);
    text::part(v, b, e)
}

/// The path `p` under `base`.
pub fn rest_under(p: &str, base: &str, sep: char) -> (r: Option<Vec<char>>)
    ensures
        r is Some <==> under(p@, base@, sep) is Some,
        r matches Some(rest) ==> rest@ == under(p@, base@, sep)->0,
{
    let v = text::chars_of(p);
    let w = text::chars_of(base);
    let a = parts_of(&v, sep);
    let b = parts_of(&w, sep);
    assert(views(b@).len() == b@.len());
    if is_rooted(&v, sep) != is_rooted(&w, sep) || (!is_rooted(&w, sep) && b.len() == 0) || !begins(
        &a,
        &b,
    ) {
        return None;
    }
    assert(v@.skip(0) =~= v@);
    if at_dot(&v, 0, sep) {
        Some(left_after(&v, 1, b.len() - 1, sep))
    } else {
        Some(left_after(&v, 0, b.len(), sep))
    }
}

/// A file's own name: the last part of its path; nothing for a path that
/// ends at a root, at `.` or at `..`.
pub open spec fn name_of(p: Seq<char>, sep: char) -> Seq<char> {
    let a = path_parts(p, sep);
    if a.len() == 0 || a.last() == seq!['.'] || a.last() == seq!['.', '.'] {
        seq![]
    } else {
        a.last()
    }
}

fn is_dots(t: &Vec<char>) -> (r: bool)
    ensures
        r == (t@ == seq!['.'] || t@ == seq!['.', '.']),
{
    let r: bool = (t.len() == 1 && t[0] == '.') || (t.len() == 2 && t[0] == '.' && t[1] == '.');
    proof {
        if t@.len() == 1 && t@[0] == '.' {
            assert(t@ =~= seq!['.']);
        }
        if t@.len() == 2 && t@[0] == '.' && t@[1] == '.' {
            assert(t@ =~= seq!['.', '.']);
        }
    }
    r
}

/// The file's own name at the end of a path.
pub fn file_name(p: &str, sep: char) -> (s: String)
    ensures
        s@ == name_of(p@, sep),
{
    let v = text::chars_of(p);
    let a = parts_of(&v, sep);
    assert(views(a@).len() == a@.len());
    if a.len() == 0 {
        return String::new();
    }
    let last = &a[a.len() - 1];
    assert(views(a@).last() == last@);
    if is_dots(last) {
        return String::new();
    }
    text::string_of(last)
}

/// The files' own names.
pub open spec fn names_of(files: Seq<String>, sep: char) -> Seq<Seq<char>> {
    files.map_values(|p: String| name_of(p@, sep))
}

pub fn file_names(files: &Vec<String>, sep: char) -> (v: Vec<String>)
    ensures
        text::texts(v@) == names_of(files@, sep),
        v@.len() == files@.len(),
{
    let mut v: Vec<String> = Vec::new();
    let mut i: usize = 0;
    while i < files.len()
        invariant
            i <= files@.len(),
            v@.len() == i,
            forall|k: int| 0 <= k < i ==> (#[trigger] v@[k])@ == name_of(files@[k]@, sep),
        decreases files.len() - i,
    {
        v.push(file_name(files[i].as_str(), sep));
        i = i + 1;
    }
    assert(text::texts(v@) =~= names_of(files@, sep));
    v
}

/// The file at a place in a list is the one a path is of.
pub open spec fn is_at(files: Seq<String>, i: usize, path: Seq<char>, sep: char) -> bool {
    i < files.len() && same_path(files[i as int]@, path, sep)
}

/// Whether the file at a place is still the one a path is of.
pub fn still_at(files: &Vec<String>, i: usize, path: &str, sep: char) -> (r: bool)
    ensures
        r == is_at(files@, i, path@, sep),
{
    i < files.len() && is_same_path(files[i].as_str(), path, sep)
}

/// Being the same path goes both ways, and from one to the next.
pub proof fn the_same_path_is_an_equality(a: Seq<char>, b: Seq<char>, c: Seq<char>, sep: char)
    ensures
        same_path(a, a, sep),
        same_path(a, b, sep) == same_path(b, a, sep),
        same_path(a, b, sep) && same_path(b, c, sep) ==> same_path(a, c, sep),
{
}

proof fn lemma_parts_prefix(a: Seq<Seq<char>>)
    ensures
        a.is_prefix_of(a),
{
    assert(a.subrange(0, a.len() as int) =~= a);
}

/// A path from the root is under itself, and a path from the root is never
/// under one that has none.
pub proof fn a_path_is_under_itself(p: Seq<char>, base: Seq<char>, sep: char)
    ensures
        rooted(p, sep) ==> under(p, p, sep) is Some,
        rooted(p, sep) != rooted(base, sep) ==> under(p, base, sep) is None,
        under(p, base, sep) is Some ==> path_parts(base, sep).len() <= path_parts(p, sep).len(),
        under(p, base, sep) is Some ==> forall|i: int|
            0 <= i < path_parts(base, sep).len() ==> #[trigger] path_parts(p, sep)[i]
                == path_parts(base, sep)[i],
{
    lemma_parts_prefix(path_parts(p, sep));
    let (a, b) = (path_parts(p, sep), path_parts(base, sep));
    if under(p, base, sep) is Some {
        assert forall|i: int| 0 <= i < b.len() implies #[trigger] a[i] == b[i] by {
            assert(a.subrange(0, b.len() as int)[i] == b[i]);
        }
    }
}

/// The same path is under the same folders, whichever way either is
/// written.
pub proof fn a_folder_is_one_however_it_is_written(
    p: Seq<char>,
    a: Seq<char>,
    b: Seq<char>,
    sep: char,
)
    requires
        same_path(a, b, sep),
    ensures
        under(p, a, sep) is Some <==> under(p, b, sep) is Some,
        under(a, p, sep) is Some <==> under(b, p, sep) is Some,
{
}

proof fn lemma_plain(name: Seq<char>, sep: char)
    requires
        name.len() > 0,
        name[0] != '.',
        forall|i: int| 0 <= i < name.len() ==> name[i] != sep,
    ensures
        past_gap(name, sep) == name,
        text::first_of(name, sep) == name.len(),
        head(name, sep) == name,
        parts(name, sep) == seq![name],
{
    text::lemma_first_of_is(name, sep, name.len() as int);
    assert(name.take(name.len() as int) =~= name);
    assert(name.skip(name.len() as int) =~= seq![]);
    reveal_with_fuel(parts, 2);
    assert(past_gap(seq![], sep) =~= seq![]);
    assert(parts(name, sep) =~= seq![name]);
}

/// A name with no separator in it is a part, and is the file's own name at
/// the end of a path; separators before it, however many, are one.
pub proof fn a_name_is_a_part(name: Seq<char>, sep: char)
    requires
        sep != '.',
        name.len() > 0,
        name[0] != '.',
        forall|i: int| 0 <= i < name.len() ==> name[i] != sep,
    ensures
        path_parts(name, sep) == seq![name],
        path_parts(seq![sep] + name, sep) == seq![name],
        path_parts(seq![sep, sep] + name, sep) == seq![name],
        name_of(seq![sep] + name, sep) == name,
        same_path(seq![sep] + name, seq![sep, sep] + name, sep),
{
    lemma_plain(name, sep);
    let one = seq![sep] + name;
    let two = seq![sep, sep] + name;
    assert(one.skip(1) =~= name);
    assert(two.skip(1) =~= one);
    reveal_with_fuel(past_gap, 3);
    assert(past_gap(one, sep) == name);
    assert(past_gap(two, sep) == name);
    lemma_at_gap(one, name, sep);
    lemma_at_gap(two, name, sep);
    assert(seq![name].last() == name);
    assert(name != seq!['.'] && name != seq!['.', '.']) by {
        assert(name[0] != seq!['.'][0]);
        assert(name[0] != seq!['.', '.'][0]);
    }
}

/// A file at a place is the one a path is of only while that place is its.
pub proof fn a_place_is_its_own_files(files: Seq<String>, i: usize, path: Seq<char>, sep: char)
    ensures
        i >= files.len() ==> !is_at(files, i, path, sep),
        i < files.len() && files[i as int]@ == path ==> is_at(files, i, path, sep),
        is_at(files, i, path, sep) ==> same_path(files[i as int]@, path, sep),
{
}

/// A file's name is the last part of its path, and a path that ends in a
/// dot or two, or has no part, has none.
pub proof fn a_name_is_the_last_part(p: Seq<char>, sep: char)
    ensures
        path_parts(p, sep).len() == 0 ==> name_of(p, sep).len() == 0,
        path_parts(p, sep).len() > 0 && (path_parts(p, sep).last() == seq!['.'] || path_parts(
            p,
            sep,
        ).last() == seq!['.', '.']) ==> name_of(p, sep).len() == 0,
        path_parts(p, sep).len() > 0 && path_parts(p, sep).last() != seq!['.'] && path_parts(
            p,
            sep,
        ).last() != seq!['.', '.'] ==> name_of(p, sep) == path_parts(p, sep).last(),
{
}

/// What trails the last part of a path is its separators and its dots:
/// with neither at its end a path is whole, and a separator at its end is
/// nothing.
pub proof fn a_separator_at_the_end_is_nothing(s: Seq<char>, sep: char)
    ensures
        to_end(s.push(sep), sep) == to_end(s, sep),
        s.len() > 0 && s.last() != sep && s.last() != '.' ==> to_end(s, sep) == s,
        to_end(s, sep).len() <= s.len(),
        to_end(s, sep) == s.take(to_end(s, sep).len() as int),
        to_end(s, sep).len() > 0 ==> to_end(s, sep).last() != sep,
        sep != '.' ==> to_end(s.push(sep).push('.'), sep) == to_end(s, sep),
    decreases s.len(),
{
    let more = s.push(sep);
    assert(more.drop_last() =~= s);
    assert(more.last() == sep);
    let dotted = more.push('.');
    assert(dotted.drop_last() =~= more);
    assert(dotted.last() == '.');
    assert(dotted[dotted.len() - 2] == sep);
    assert(to_end(dotted, sep) == to_end(more, sep));
    assert(to_end(more, sep) == to_end(s, sep));
    if s.len() > 0 && (s.last() == sep || (s.last() == '.' && (s.len() == 1 || s[s.len() - 2]
        == sep))) {
        let t = s.drop_last();
        a_separator_at_the_end_is_nothing(t, sep);
        assert(t.take(to_end(t, sep).len() as int) =~= s.take(to_end(t, sep).len() as int));
    } else {
        assert(s.take(s.len() as int) =~= s);
    }
}

/// A file in a folder is under it by its own name, from the root and from
/// a dot alike, and the folder is not under the file.
pub proof fn a_file_is_under_its_folder(folder: Seq<char>, name: Seq<char>, sep: char)
    requires
        sep != '.',
        folder.len() > 0,
        folder[0] != '.',
        !folder.contains(sep),
        name.len() > 0,
        name[0] != '.',
        name.last() != '.',
        !name.contains(sep),
    ensures
        ({
            let base = seq![sep] + folder;
            let file = base + seq![sep] + name;
            &&& under(file, base, sep) == Some(name)
            &&& under(base, file, sep) is None
            &&& under(seq!['.'] + file, seq!['.'] + base, sep) == Some(name)
            &&& name_of(file, sep) == name
        }),
{
    assert forall|i: int| 0 <= i < folder.len() implies folder[i] != sep by {
        assert(folder.contains(folder[i]));
    }
    assert forall|i: int| 0 <= i < name.len() implies name[i] != sep by {
        assert(name.contains(name[i]));
    }
    let base = seq![sep] + folder;
    let file = base + seq![sep] + name;
    let inner = folder + seq![sep] + name;
    let last = seq![sep] + name;
    lemma_plain(folder, sep);
    lemma_plain(name, sep);
    reveal_with_fuel(past_gap, 3);
    assert(base.skip(1) =~= folder);
    assert(file.skip(1) =~= inner);
    assert(last.skip(1) =~= name);
    assert(past_gap(base, sep) == folder);
    assert(past_gap(file, sep) == inner);
    assert(past_gap(last, sep) == name);
    text::lemma_first_of_is(inner, sep, folder.len() as int);
    assert(head(inner, sep) =~= folder);
    assert(tail(inner, sep) =~= last);
    lemma_at_gap(base, folder, sep);
    lemma_at_gap(last, name, sep);
    lemma_at_gap(file, inner, sep);
    assert(parts(base, sep) == seq![folder]);
    assert(parts(last, sep) == seq![name]);
    assert(parts(file, sep) =~= seq![folder, name]);
    assert(path_parts(base, sep) == seq![folder]);
    assert(path_parts(file, sep) == seq![folder, name]);
    lemma_whole(name, sep);
    reveal_with_fuel(after_parts, 3);
    assert(after_parts(last, 0, sep) == name);
    assert(after_parts(file, 1, sep) == name);
    assert(seq![folder].is_prefix_of(seq![folder, name]));
    assert(seq![folder, name].last() == name);
    let (dot_base, dot_file) = (seq!['.'] + base, seq!['.'] + file);
    assert(dot_base.skip(1) =~= base);
    assert(dot_file.skip(1) =~= file);
    assert(is_dot(dot_base, sep) && is_dot(dot_file, sep));
    assert(path_parts(dot_base, sep) =~= seq![seq!['.'], folder]);
    assert(path_parts(dot_file, sep) =~= seq![seq!['.'], folder, name]);
    assert(path_parts(dot_base, sep).is_prefix_of(path_parts(dot_file, sep)));
    assert(!rooted(dot_base, sep) && !rooted(dot_file, sep));
    assert(name != seq!['.'] && name != seq!['.', '.']) by {
        assert(name[0] != seq!['.'][0]);
        assert(name[0] != seq!['.', '.'][0]);
    }
}

proof fn lemma_whole(name: Seq<char>, sep: char)
    requires
        name.len() > 0,
        name.last() != '.',
        name.last() != sep,
    ensures
        to_end(name, sep) == name,
{
}

} // verus!
