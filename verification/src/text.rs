//! Text as the rest of the library builds it: a sequence of characters,
//! with the few operations that names and status lines are made of.

use vstd::prelude::*;
use vstd::utf8::*;

verus! {

/// `String::push`: the character goes on the end, and nothing else changes.
pub assume_specification[ String::push ](s: &mut String, c: char)
    ensures
        final(s)@ == old(s)@.push(c),
;

/// The characters of `s`, in order.
pub fn chars_of(s: &str) -> (v: Vec<char>)
    ensures
        v@ == s@,
{
    let mut v: Vec<char> = Vec::new();
    for c in it: s.chars()
        invariant
            v@ == s@.take(it.index()),
            it.seq() == s@,
    {
        v.push(c);
        assert(v@ =~= s@.take(it.index() + 1));
    }
    assert(s@.take(s@.len() as int) =~= s@);
    v
}

/// The text made of `v`'s characters.
pub fn string_of(v: &Vec<char>) -> (s: String)
    ensures
        s@ == v@,
{
    let mut s = String::new();
    put_chars(&mut s, v);
    assert(s@ =~= v@);
    s
}

/// `v`'s characters on the end of `s`.
pub fn put_chars(s: &mut String, v: &Vec<char>)
    ensures
        final(s)@ == old(s)@ + v@,
{
    let mut i: usize = 0;
    while i < v.len()
        invariant
            i <= v.len(),
            s@ == old(s)@ + v@.take(i as int),
        decreases v.len() - i,
    {
        s.push(v[i]);
        i = i + 1;
        assert(v@.take(i as int) =~= v@.take(i - 1).push(v@[i - 1]));
        assert(s@ =~= old(s)@ + v@.take(i as int));
    }
    assert(v@.take(v@.len() as int) =~= v@);
}

/// `v` from `from` up to `to`.
pub fn part(v: &Vec<char>, from: usize, to: usize) -> (out: Vec<char>)
    requires
        from <= to <= v@.len(),
    ensures
        out@ == v@.subrange(from as int, to as int),
{
    let mut out: Vec<char> = Vec::new();
    let mut i: usize = from;
    while i < to
        invariant
            from <= i <= to <= v@.len(),
            out@ == v@.subrange(from as int, i as int),
        decreases to - i,
    {
        out.push(v[i]);
        i = i + 1;
        assert(out@ =~= v@.subrange(from as int, i as int));
    }
    out
}

/// Whether the two texts are the same.
pub fn same(a: &Vec<char>, b: &Vec<char>) -> (r: bool)
    ensures
        r == (a@ == b@),
{
    if a.len() != b.len() {
        return false;
    }
    let mut i: usize = 0;
    while i < a.len()
        invariant
            i <= a.len(),
            a.len() == b.len(),
            a@.take(i as int) == b@.take(i as int),
        decreases a.len() - i,
    {
        if a[i] != b[i] {
            assert(a@[i as int] != b@[i as int]);
            return false;
        }
        i = i + 1;
        assert(a@.take(i as int) =~= b@.take(i as int)) by {
            assert forall|j: int| 0 <= j < i implies a@[j] == b@[j] by {
                if j < i - 1 {
                    assert(a@.take(i - 1)[j] == b@.take(i - 1)[j]);
                }
            }
        }
    }
    assert(a@.take(a@.len() as int) =~= a@);
    assert(b@.take(b@.len() as int) =~= b@);
    true
}

/// Whether the two texts are the same.
pub fn same_text(a: &str, b: &str) -> (r: bool)
    ensures
        r == (a@ == b@),
{
    let x = chars_of(a);
    let y = chars_of(b);
    same(&x, &y)
}

/// An ASCII letter as a capital.
pub open spec fn upper(c: char) -> char {
    if 0x61 <= c as u32 <= 0x7a {
        (c as u32 - 0x20) as char
    } else {
        c
    }
}

pub fn upper_char(c: char) -> (r: char)
    ensures
        r == upper(c),
{
    let u: u32 = c as u32;
    if 0x61 <= u && u <= 0x7a {
        (u as u8 - 0x20) as char
    } else {
        c
    }
}

/// The same text but for the case of its ASCII letters.
pub open spec fn alike(a: Seq<char>, b: Seq<char>) -> bool {
    &&& a.len() == b.len()
    &&& forall|i: int| 0 <= i < a.len() ==> upper(#[trigger] a[i]) == upper(b[i])
}

/// Whether the two texts are the same but for the case of their ASCII
/// letters.
pub fn alike_text(a: &str, b: &str) -> (r: bool)
    ensures
        r == alike(a@, b@),
{
    let x = chars_of(a);
    let y = chars_of(b);
    if x.len() != y.len() {
        return false;
    }
    let mut i: usize = 0;
    while i < x.len()
        invariant
            i <= x@.len(),
            x@ == a@,
            y@ == b@,
            x@.len() == y@.len(),
            forall|j: int| 0 <= j < i ==> upper(#[trigger] x@[j]) == upper(y@[j]),
        decreases x.len() - i,
    {
        if upper_char(x[i]) != upper_char(y[i]) {
            assert(upper(a@[i as int]) != upper(b@[i as int]));
            return false;
        }
        i = i + 1;
    }
    true
}

/// The texts of a list of strings.
pub open spec fn texts(v: Seq<String>) -> Seq<Seq<char>> {
    Seq::new(v.len(), |i: int| v[i]@)
}

// Searching.

/// Where `c` first stands in `s`; the length of `s` when it does not.
pub open spec fn first_of(s: Seq<char>, c: char) -> nat
    decreases s.len(),
{
    if s.len() == 0 || s[0] == c {
        0
    } else {
        1 + first_of(s.drop_first(), c)
    }
}

pub proof fn lemma_first_of(s: Seq<char>, c: char)
    ensures
        first_of(s, c) <= s.len(),
        first_of(s, c) < s.len() ==> s[first_of(s, c) as int] == c,
        forall|i: int| 0 <= i < first_of(s, c) ==> s[i] != c,
    decreases s.len(),
{
    if s.len() == 0 || s[0] == c {
    } else {
        let t = s.drop_first();
        lemma_first_of(t, c);
        assert forall|i: int| 0 <= i < first_of(s, c) implies s[i] != c by {
            if i > 0 {
                assert(s[i] == t[i - 1]);
            }
        }
    }
}

/// An index with `c` at it and none before is the first.
pub proof fn lemma_first_of_is(s: Seq<char>, c: char, n: int)
    requires
        0 <= n <= s.len(),
        forall|i: int| 0 <= i < n ==> s[i] != c,
        n < s.len() ==> s[n] == c,
    ensures
        first_of(s, c) == n,
    decreases s.len(),
{
    lemma_first_of(s, c);
    if first_of(s, c) < n {
        assert(s[first_of(s, c) as int] != c);
    }
    if n < first_of(s, c) {
        assert(s[n] != c);
    }
}

/// Where `c` first stands in `v` at or after `from`; the length when it does not.
pub fn find(v: &Vec<char>, from: usize, c: char) -> (r: usize)
    requires
        from <= v@.len(),
    ensures
        from <= r <= v@.len(),
        r == from + first_of(v@.skip(from as int), c),
{
    let mut i: usize = from;
    while i < v.len() && v[i] != c
        invariant
            from <= i <= v@.len(),
            forall|j: int| from <= j < i ==> v@[j] != c,
        decreases v.len() - i,
    {
        i = i + 1;
    }
    proof {
        lemma_first_of_is(v@.skip(from as int), c, i - from);
    }
    i
}

// Spaces.

/// A control character: the category Unicode calls `Cc`.
pub open spec fn is_control(c: char) -> bool {
    c as u32 <= 0x1f || 0x7f <= c as u32 <= 0x9f
}

/// A character Unicode calls white space.
pub open spec fn is_space(c: char) -> bool {
    let u = c as u32;
    ||| 0x9 <= u <= 0xd
    ||| u == 0x20
    ||| u == 0x85
    ||| u == 0xa0
    ||| u == 0x1680
    ||| 0x2000 <= u <= 0x200a
    ||| u == 0x2028
    ||| u == 0x2029
    ||| u == 0x202f
    ||| u == 0x205f
    ||| u == 0x3000
}

pub fn control(c: char) -> (r: bool)
    ensures
        r == is_control(c),
{
    let u: u32 = c as u32;
    u <= 0x1f || (0x7f <= u && u <= 0x9f)
}

pub fn space(c: char) -> (r: bool)
    ensures
        r == is_space(c),
{
    let u: u32 = c as u32;
    (0x9 <= u && u <= 0xd) || u == 0x20 || u == 0x85 || u == 0xa0 || u == 0x1680 || (0x2000 <= u
        && u <= 0x200a) || u == 0x2028 || u == 0x2029 || u == 0x202f || u == 0x205f || u == 0x3000
}

/// `s` without the characters at its start that `drop` holds of.
pub open spec fn trim_start(s: Seq<char>, drop: spec_fn(char) -> bool) -> Seq<char>
    decreases s.len(),
{
    if s.len() > 0 && drop(s[0]) {
        trim_start(s.drop_first(), drop)
    } else {
        s
    }
}

/// `s` without the characters at its end that `drop` holds of.
pub open spec fn trim_end(s: Seq<char>, drop: spec_fn(char) -> bool) -> Seq<char>
    decreases s.len(),
{
    if s.len() > 0 && drop(s.last()) {
        trim_end(s.drop_last(), drop)
    } else {
        s
    }
}

/// `s` without the white space at its two ends.
pub open spec fn trimmed(s: Seq<char>) -> Seq<char> {
    trim_end(trim_start(s, |c: char| is_space(c)), |c: char| is_space(c))
}

/// What a `trim_start` leaves is where its first kept character is.
pub proof fn lemma_trim_start_is(s: Seq<char>, drop: spec_fn(char) -> bool, n: int)
    requires
        0 <= n <= s.len(),
        forall|i: int| 0 <= i < n ==> drop(#[trigger] s[i]),
        n < s.len() ==> !drop(s[n]),
    ensures
        trim_start(s, drop) == s.skip(n),
    decreases n,
{
    if n == 0 {
        assert(s.skip(0) =~= s);
    } else {
        let t = s.drop_first();
        assert(drop(s[0]));
        assert forall|i: int| 0 <= i < n - 1 implies drop(#[trigger] t[i]) by {
            assert(drop(s[i + 1]));
        }
        lemma_trim_start_is(t, drop, n - 1);
        assert(t.skip(n - 1) =~= s.skip(n));
    }
}

/// What a `trim_end` leaves is what goes up to its last kept character.
pub proof fn lemma_trim_end_is(s: Seq<char>, drop: spec_fn(char) -> bool, n: int)
    requires
        0 <= n <= s.len(),
        forall|i: int| n <= i < s.len() ==> drop(#[trigger] s[i]),
        n > 0 ==> !drop(s[n - 1]),
    ensures
        trim_end(s, drop) == s.take(n),
    decreases s.len() - n,
{
    if n == s.len() {
        assert(s.take(n) =~= s);
    } else {
        let t = s.drop_last();
        assert(drop(s[s.len() - 1]));
        assert forall|i: int| n <= i < t.len() implies drop(#[trigger] t[i]) by {
            assert(drop(s[i]));
        }
        lemma_trim_end_is(t, drop, n);
        assert(t.take(n) =~= s.take(n));
    }
}

/// A `trim_start` is what is left after some dropped characters.
pub proof fn lemma_trim_start(s: Seq<char>, drop: spec_fn(char) -> bool) -> (n: int)
    ensures
        0 <= n <= s.len(),
        trim_start(s, drop) == s.skip(n),
        forall|i: int| 0 <= i < n ==> drop(#[trigger] s[i]),
        n < s.len() ==> !drop(s[n]),
    decreases s.len(),
{
    if s.len() > 0 && drop(s[0]) {
        let t = s.drop_first();
        let m = lemma_trim_start(t, drop);
        assert(t.skip(m) =~= s.skip(m + 1));
        assert forall|i: int| 0 <= i < m + 1 implies drop(#[trigger] s[i]) by {
            if i > 0 {
                assert(drop(t[i - 1]));
            }
        }
        m + 1
    } else {
        assert(s.skip(0) =~= s);
        0
    }
}

/// A `trim_end` is what stands before some dropped characters.
pub proof fn lemma_trim_end(s: Seq<char>, drop: spec_fn(char) -> bool) -> (n: int)
    ensures
        0 <= n <= s.len(),
        trim_end(s, drop) == s.take(n),
        forall|i: int| n <= i < s.len() ==> drop(#[trigger] s[i]),
        n > 0 ==> !drop(s[n - 1]),
    decreases s.len(),
{
    if s.len() > 0 && drop(s.last()) {
        let t = s.drop_last();
        let m = lemma_trim_end(t, drop);
        assert(t.take(m) =~= s.take(m));
        assert forall|i: int| m <= i < s.len() implies drop(#[trigger] s[i]) by {
            if i < s.len() - 1 {
                assert(drop(t[i]));
            }
        }
        m
    } else {
        assert(s.take(s.len() as int) =~= s);
        s.len() as int
    }
}

/// `v` without the white space at its two ends.
pub fn trim(v: &Vec<char>) -> (out: Vec<char>)
    ensures
        out@ == trimmed(v@),
{
    let ghost drop = |c: char| is_space(c);
    let mut a: usize = 0;
    while a < v.len() && space(v[a])
        invariant
            a <= v@.len(),
            drop == (|c: char| is_space(c)),
            forall|i: int| 0 <= i < a ==> drop(#[trigger] v@[i]),
        decreases v.len() - a,
    {
        a = a + 1;
    }
    proof {
        lemma_trim_start_is(v@, drop, a as int);
    }
    let mut b: usize = v.len();
    while b > a && space(v[b - 1])
        invariant
            a <= b <= v@.len(),
            drop == (|c: char| is_space(c)),
            forall|i: int| b <= i < v@.len() ==> drop(#[trigger] v@[i]),
        decreases b,
    {
        b = b - 1;
    }
    proof {
        let s = v@.skip(a as int);
        assert forall|i: int| b - a <= i < s.len() implies drop(#[trigger] s[i]) by {
            assert(drop(v@[i + a]));
        }
        lemma_trim_end_is(s, drop, b - a);
        assert(s.take(b - a) =~= v@.subrange(a as int, b as int));
    }
    part(v, a, b)
}

/// `s` without the white space at its two ends.
pub fn trim_text(s: &str) -> (out: String)
    ensures
        out@ == trimmed(s@),
{
    let v = chars_of(s);
    let t = trim(&v);
    string_of(&t)
}

// The size of a text on disk.

/// How many bytes UTF-8 takes for `c`.
pub open spec fn width(c: char) -> nat {
    let u = c as u32;
    if u <= 0x7f {
        1
    } else if u <= 0x7ff {
        2
    } else if u <= 0xffff {
        3
    } else {
        4
    }
}

/// How many bytes UTF-8 takes for `s`.
pub open spec fn bytes(s: Seq<char>) -> nat
    decreases s.len(),
{
    if s.len() == 0 {
        0
    } else {
        bytes(s.drop_last()) + width(s.last())
    }
}

/// [`bytes`] counts what encoding the text makes.
pub proof fn lemma_bytes_is_utf8(s: Seq<char>)
    ensures
        bytes(s) == encode_utf8(s).len(),
    decreases s.len(),
{
    if s.len() > 0 {
        let c = s[0];
        let t = s.drop_first();
        lemma_bytes_is_utf8(t);
        char_is_scalar(c);
        lemma_bytes_concat(seq![c], t);
        assert(seq![c] + t =~= s);
        assert(bytes(seq![c]) == width(c)) by {
            reveal_with_fuel(bytes, 2);
            assert(seq![c].drop_last().len() == 0);
        }
        assert(encode_scalar(c as u32).len() == width(c));
    }
}

pub proof fn lemma_bytes_concat(a: Seq<char>, b: Seq<char>)
    ensures
        bytes(a + b) == bytes(a) + bytes(b),
    decreases b.len(),
{
    if b.len() == 0 {
        assert(a + b =~= a);
    } else {
        lemma_bytes_concat(a, b.drop_last());
        assert((a + b).drop_last() =~= a + b.drop_last());
    }
}

pub proof fn lemma_bytes_push(a: Seq<char>, c: char)
    ensures
        bytes(a.push(c)) == bytes(a) + width(c),
{
    assert(a.push(c).drop_last() =~= a);
}

/// Every character is at least a byte and at most four.
pub proof fn lemma_bytes_bounds(s: Seq<char>)
    ensures
        s.len() <= bytes(s) <= 4 * s.len(),
    decreases s.len(),
{
    if s.len() > 0 {
        lemma_bytes_bounds(s.drop_last());
    }
}

pub fn char_width(c: char) -> (n: u8)
    ensures
        n == width(c),
        1 <= n <= 4,
{
    let u: u32 = c as u32;
    if u <= 0x7f {
        1
    } else if u <= 0x7ff {
        2
    } else if u <= 0xffff {
        3
    } else {
        4
    }
}

/// How many bytes `v` takes in UTF-8.
pub fn byte_len(v: &Vec<char>) -> (n: u128)
    ensures
        n == bytes(v@),
{
    let mut n: u128 = 0;
    let mut i: usize = 0;
    while i < v.len()
        invariant
            i <= v.len(),
            n == bytes(v@.take(i as int)),
            n <= 4 * i,
        decreases v.len() - i,
    {
        n = n + char_width(v[i]) as u128;
        i = i + 1;
        proof {
            assert(v@.take(i as int) =~= v@.take(i - 1).push(v@[i - 1]));
            lemma_bytes_push(v@.take(i - 1), v@[i - 1]);
        }
    }
    assert(v@.take(v@.len() as int) =~= v@);
    n
}

/// The longest start of `s` that takes at most `limit` bytes.
pub open spec fn cut(s: Seq<char>, limit: nat) -> Seq<char>
    decreases s.len(),
{
    if bytes(s) <= limit || s.len() == 0 {
        s
    } else {
        cut(s.drop_last(), limit)
    }
}

pub proof fn lemma_cut(s: Seq<char>, limit: nat)
    ensures
        cut(s, limit).len() <= s.len(),
        cut(s, limit) == s.take(cut(s, limit).len() as int),
        bytes(cut(s, limit)) <= limit,
    decreases s.len(),
{
    if bytes(s) <= limit || s.len() == 0 {
        assert(s.take(s.len() as int) =~= s);
    } else {
        lemma_cut(s.drop_last(), limit);
        let n = cut(s, limit).len() as int;
        assert(s.drop_last().take(n) =~= s.take(n));
    }
}

/// A start that fits, with no room for the next character, is the cut.
pub proof fn lemma_cut_is(s: Seq<char>, limit: nat, n: int)
    requires
        0 <= n <= s.len(),
        bytes(s.take(n)) <= limit,
        n < s.len() ==> bytes(s.take(n + 1)) > limit,
    ensures
        cut(s, limit) == s.take(n),
    decreases s.len() - n,
{
    if n == s.len() {
        assert(s.take(n) =~= s);
    } else {
        lemma_bytes_prefix(s, n + 1);
        let t = s.drop_last();
        assert(t.take(n) =~= s.take(n));
        if n < t.len() {
            assert(t.take(n + 1) =~= s.take(n + 1));
        }
        lemma_cut_is(t, limit, n);
    }
}

pub proof fn lemma_bytes_prefix(s: Seq<char>, n: int)
    requires
        0 <= n <= s.len(),
    ensures
        bytes(s.take(n)) <= bytes(s),
{
    assert(s =~= s.take(n) + s.skip(n));
    lemma_bytes_concat(s.take(n), s.skip(n));
}

/// `v` cut to `limit` bytes, on a character's edge.
pub fn cut_to(v: &Vec<char>, limit: usize) -> (out: Vec<char>)
    ensures
        out@ == cut(v@, limit as nat),
{
    let mut n: u128 = 0;
    let mut i: usize = 0;
    while i < v.len()
        invariant
            i <= v.len(),
            n == bytes(v@.take(i as int)),
            n <= limit,
        decreases v.len() - i,
    {
        let more: u128 = n + char_width(v[i]) as u128;
        proof {
            assert(v@.take(i + 1) =~= v@.take(i as int).push(v@[i as int]));
            lemma_bytes_push(v@.take(i as int), v@[i as int]);
        }
        if more > limit as u128 {
            proof {
                lemma_cut_is(v@, limit as nat, i as int);
                assert(v@.take(i as int) =~= v@.subrange(0, i as int));
            }
            return part(v, 0, i);
        }
        n = more;
        i = i + 1;
    }
    proof {
        lemma_cut_is(v@, limit as nat, v@.len() as int);
        assert(v@.take(i as int) =~= v@.subrange(0, i as int));
    }
    part(v, 0, i)
}

// Numbers.

/// The character of a digit.
pub open spec fn digit(d: nat) -> char {
    (0x30 + d) as char
}

/// `n` in decimal.
pub open spec fn decimal(n: nat) -> Seq<char>
    decreases n,
{
    if n < 10 {
        seq![digit(n)]
    } else {
        decimal(n / 10).push(digit(n % 10))
    }
}

/// `n` in decimal, with zeros before it up to `w` characters.
pub open spec fn padded(n: nat, w: nat) -> Seq<char> {
    zeros((w - decimal(n).len()) as int) + decimal(n)
}

/// `n` zeros.
pub open spec fn zeros(n: int) -> Seq<char> {
    Seq::new(if n > 0 { n as nat } else { 0 }, |i: int| '0')
}

/// A signed number in decimal; the sign stands before the zeros and
/// counts toward the width.
pub open spec fn padded_int(n: int, w: nat) -> Seq<char> {
    if n < 0 {
        seq!['-'] + padded((-n) as nat, if w > 0 { (w - 1) as nat } else { 0 })
    } else {
        padded(n as nat, w)
    }
}

pub fn digit_char(d: u8) -> (c: char)
    requires
        d < 10,
    ensures
        c == digit(d as nat),
{
    (48 + d) as char
}

/// `n` in decimal on the end of `s`.
pub fn put_decimal(s: &mut String, n: u64)
    ensures
        final(s)@ == old(s)@ + decimal(n as nat),
    decreases n,
{
    if n >= 10 {
        put_decimal(s, n / 10);
    }
    let d: u8 = (n % 10) as u8;
    let c = digit_char(d);
    s.push(c);
    assert(s@ =~= old(s)@ + decimal(n as nat));
}

/// `n` in decimal.
pub fn decimal_of(n: u64) -> (s: String)
    ensures
        s@ == decimal(n as nat),
{
    let mut s = String::new();
    put_decimal(&mut s, n);
    assert(s@ =~= decimal(n as nat));
    s
}

/// How many characters [`decimal`] takes for `n`.
fn decimal_len(n: u64) -> (k: u64)
    ensures
        k == decimal(n as nat).len(),
        1 <= k <= 1 + n,
    decreases n,
{
    if n < 10 {
        1
    } else {
        1 + decimal_len(n / 10)
    }
}

/// `n` zeros on the end of `s`.
fn put_zeros(s: &mut String, n: usize)
    ensures
        final(s)@ == old(s)@ + zeros(n as int),
{
    let mut i: usize = 0;
    assert(s@ =~= old(s)@ + zeros(0));
    while i < n
        invariant
            i <= n,
            s@ == old(s)@ + zeros(i as int),
        decreases n - i,
    {
        s.push('0');
        i = i + 1;
        assert(s@ =~= old(s)@ + zeros(i as int));
    }
}

/// `n` in decimal on the end of `s`, with zeros before it up to `w` characters.
pub fn put_padded(s: &mut String, n: u64, w: usize)
    ensures
        final(s)@ == old(s)@ + padded(n as nat, w as nat),
{
    let k: u64 = decimal_len(n);
    if k < w as u64 {
        put_zeros(s, w - k as usize);
    }
    put_decimal(s, n);
    assert(s@ =~= old(s)@ + padded(n as nat, w as nat));
}

/// A signed number on the end of `s`, as [`padded_int`] has it.
pub fn put_padded_int(s: &mut String, n: i32, w: usize)
    ensures
        final(s)@ == old(s)@ + padded_int(n as int, w as nat),
{
    if n < 0 {
        s.push('-');
        let m: u64 = (-(n as i64)) as u64;
        let room: usize = if w > 0 { w - 1 } else { 0 };
        put_padded(s, m, room);
        assert(s@ =~= old(s)@ + padded_int(n as int, w as nat));
    } else {
        put_padded(s, n as u64, w);
    }
}

/// The number that `decimal` digits stand for.
pub open spec fn value_of(s: Seq<char>) -> nat
    decreases s.len(),
{
    if s.len() == 0 {
        0
    } else {
        10 * value_of(s.drop_last()) + ((s.last() as u32 - 0x30) as nat)
    }
}

/// Reading a decimal back gives the number that was written.
pub proof fn lemma_value_of_decimal(n: nat)
    ensures
        value_of(decimal(n)) == n,
        decimal(n).len() >= 1,
        forall|i: int| 0 <= i < decimal(n).len() ==> is_digit(#[trigger] decimal(n)[i]),
    decreases n,
{
    if n < 10 {
        reveal_with_fuel(value_of, 2);
        assert(decimal(n).drop_last().len() == 0);
    } else {
        lemma_value_of_decimal(n / 10);
        assert(decimal(n).drop_last() =~= decimal(n / 10));
    }
}

/// Zeros before a number do not change it.
pub proof fn lemma_value_of_padded(n: nat, w: nat)
    ensures
        value_of(padded(n, w)) == n,
        padded(n, w).len() >= w,
        forall|i: int| 0 <= i < padded(n, w).len() ==> is_digit(#[trigger] padded(n, w)[i]),
{
    lemma_value_of_decimal(n);
    let k = (w - decimal(n).len()) as int;
    lemma_value_of_zeros(k, decimal(n));
}

proof fn lemma_value_of_zeros(k: int, s: Seq<char>)
    ensures
        value_of(zeros(k) + s) == value_of(s),
    decreases s.len(), k,
{
    if s.len() == 0 {
        assert(zeros(k) + s =~= zeros(k));
        if k > 0 {
            assert(zeros(k).drop_last() =~= zeros(k - 1));
            assert(zeros(k - 1) + s =~= zeros(k - 1));
            lemma_value_of_zeros(k - 1, s);
        }
    } else {
        assert((zeros(k) + s).drop_last() =~= zeros(k) + s.drop_last());
        lemma_value_of_zeros(k, s.drop_last());
    }
}

/// An ASCII digit.
pub open spec fn is_digit(c: char) -> bool {
    0x30 <= c as u32 <= 0x39
}

pub fn ascii_digit(c: char) -> (r: bool)
    ensures
        r == is_digit(c),
{
    let u: u32 = c as u32;
    0x30 <= u && u <= 0x39
}


/// `v` with `between` between them.
pub open spec fn joined(v: Seq<Seq<char>>, between: Seq<char>) -> Seq<char>
    decreases v.len(),
{
    if v.len() == 0 {
        seq![]
    } else if v.len() == 1 {
        v[0]
    } else {
        joined(v.drop_last(), between) + between + v.last()
    }
}

/// `v` as one text, with `between` between them.
pub fn join(v: &Vec<String>, between: &str) -> (s: String)
    ensures
        s@ == joined(texts(v@), between@),
{
    let mut s = String::new();
    let mut i: usize = 0;
    let ghost all = texts(v@);
    assert(all.take(0) =~= seq![]);
    assert(s@ =~= joined(all.take(0), between@));
    while i < v.len()
        invariant
            i <= v@.len(),
            all == texts(v@),
            s@ == joined(all.take(i as int), between@),
        decreases v.len() - i,
    {
        if i > 0 {
            s.append(between);
        }
        s.append(v[i].as_str());
        i = i + 1;
        proof {
            let done = all.take(i as int);
            assert(done.drop_last() =~= all.take(i - 1));
            assert(done.last() == v@[i - 1]@);
            assert(s@ =~= joined(done, between@));
        }
    }
    assert(all.take(i as int) =~= all);
    s
}

// The order of texts.

/// A text is before another: the first place they differ has the lesser
/// character, or it is the beginning of the other.
pub open spec fn earlier(a: Seq<char>, b: Seq<char>) -> bool {
    ||| exists|k: int|
        0 <= k < a.len() && k < b.len() && #[trigger] a.take(k) == b.take(k) && a[k] < b[k]
    ||| a.len() < b.len() && b.take(a.len() as int) == a
}

/// No text is before itself.
pub proof fn lemma_not_before_itself(a: Seq<char>)
    ensures
        !earlier(a, a),
{
}

/// What follows texts of one length that differ does not matter.
pub proof fn lemma_earlier_front(a: Seq<char>, b: Seq<char>, x: Seq<char>, y: Seq<char>)
    requires
        earlier(a, b),
        a.len() == b.len(),
    ensures
        earlier(a + x, b + y),
{
    let k = choose|k: int|
        0 <= k < a.len() && k < b.len() && #[trigger] a.take(k) == b.take(k) && a[k] < b[k];
    assert((a + x).take(k) =~= a.take(k));
    assert((b + y).take(k) =~= b.take(k));
    assert((a + x)[k] < (b + y)[k]);
}

/// What texts begin with alike does not matter.
pub proof fn lemma_earlier_back(p: Seq<char>, a: Seq<char>, b: Seq<char>)
    requires
        earlier(a, b),
        a.len() == b.len(),
    ensures
        earlier(p + a, p + b),
{
    let k = choose|k: int|
        0 <= k < a.len() && k < b.len() && #[trigger] a.take(k) == b.take(k) && a[k] < b[k];
    let n = p.len() + k;
    assert((p + a).take(n) =~= p + a.take(k));
    assert((p + b).take(n) =~= p + b.take(k));
    assert((p + a)[n] < (p + b)[n]);
}

/// The last digit of a number with zeros before it.
proof fn lemma_padded_last(n: nat, w: nat)
    requires
        w >= 2,
    ensures
        padded(n, w) == padded(n / 10, (w - 1) as nat).push(digit(n % 10)),
{
    if n < 10 {
        assert(padded(n, w) =~= padded(n / 10, (w - 1) as nat).push(digit(n % 10)));
    } else {
        assert(padded(n, w) =~= padded(n / 10, (w - 1) as nat).push(digit(n % 10)));
    }
}

/// Numbers of two digits, and of four, are written as wide as that.
pub proof fn lemma_padded_width(n: nat)
    ensures
        n < 100 ==> padded(n, 2) == seq![digit(n / 10), digit(n % 10)],
        n < 10000 ==> padded(n, 4) == padded(n / 100, 2) + padded(n % 100, 2),
        n < 10000 ==> padded(n, 4).len() == 4,
{
    if n < 100 {
        lemma_padded_last(n, 2);
        assert(padded(n / 10, 1) =~= seq![digit(n / 10)]);
        assert(padded(n, 2) =~= seq![digit(n / 10), digit(n % 10)]);
    }
    if n < 10000 {
        lemma_padded_last(n, 4);
        lemma_padded_last(n / 10, 3);
        let (high, low) = (n / 100, n % 100);
        assert(n / 10 / 10 == high);
        assert(n / 10 % 10 == low / 10 && n % 10 == low % 10);
        lemma_padded_last(low, 2);
        assert(padded(low / 10, 1) =~= seq![digit(low / 10)]);
        assert(padded(low, 2) =~= seq![digit(low / 10), digit(low % 10)]);
        assert(high < 100);
        lemma_padded_last(high, 2);
        assert(padded(high / 10, 1) =~= seq![digit(high / 10)]);
        assert(padded(n, 4) =~= padded(high, 2) + padded(low, 2));
    }
}

/// A lesser number of two digits is written before a greater one.
pub proof fn lemma_two_digits_order(n: nat, m: nat)
    requires
        n < m < 100,
    ensures
        earlier(padded(n, 2), padded(m, 2)),
{
    lemma_padded_width(n);
    lemma_padded_width(m);
    let (a, b) = (padded(n, 2), padded(m, 2));
    if n / 10 < m / 10 {
        assert(a.take(0) =~= b.take(0));
        assert(a[0] < b[0]);
    } else {
        assert(n / 10 == m / 10);
        assert(a.take(1) =~= b.take(1));
        assert(a[1] < b[1]);
    }
}

/// A lesser number of four digits is written before a greater one.
pub proof fn lemma_four_digits_order(n: nat, m: nat)
    requires
        n < m < 10000,
    ensures
        earlier(padded(n, 4), padded(m, 4)),
{
    lemma_padded_width(n);
    lemma_padded_width(m);
    lemma_padded_width(n / 100);
    lemma_padded_width(m / 100);
    lemma_padded_width(n % 100);
    lemma_padded_width(m % 100);
    if n / 100 < m / 100 {
        lemma_two_digits_order(n / 100, m / 100);
        lemma_earlier_front(
            padded(n / 100, 2),
            padded(m / 100, 2),
            padded(n % 100, 2),
            padded(m % 100, 2),
        );
    } else {
        assert(n / 100 == m / 100);
        lemma_two_digits_order(n % 100, m % 100);
        lemma_earlier_back(padded(n / 100, 2), padded(n % 100, 2), padded(m % 100, 2));
    }
}

/// Only the small letters of ASCII have another case: each has its
/// capital, and no other character changes.
pub proof fn a_small_letter_has_its_capital(c: char)
    ensures
        'a' <= c <= 'z' ==> 'A' <= upper(c) <= 'Z' && upper(c) as u32 + 32 == c as u32,
        !('a' <= c <= 'z') ==> upper(c) == c,
        upper(upper(c)) == upper(c),
{
}

/// Two texts are alike when they differ in the case of their letters and
/// in nothing else: in any order, and through a third.
pub proof fn alike_texts_differ_in_case_alone(a: Seq<char>, b: Seq<char>, c: Seq<char>)
    ensures
        alike(a, a),
        alike(a, b) <==> alike(b, a),
        alike(a, b) && alike(b, c) ==> alike(a, c),
        alike(a, b) ==> a.len() == b.len(),
        alike(a, b) <==> a.map_values(|x: char| upper(x)) == b.map_values(|x: char| upper(x)),
{
    let (m, n) = (a.map_values(|x: char| upper(x)), b.map_values(|x: char| upper(x)));
    if alike(a, b) {
        assert forall|i: int| 0 <= i < b.len() implies upper(#[trigger] b[i]) == upper(a[i]) by {
            assert(upper(a[i]) == upper(b[i]));
        }
        assert(m =~= n);
        if alike(b, c) {
            assert forall|i: int| 0 <= i < a.len() implies upper(#[trigger] a[i]) == upper(
                c[i],
            ) by {
                assert(upper(b[i]) == upper(c[i]));
            }
        }
    }
    if alike(b, a) {
        assert forall|i: int| 0 <= i < a.len() implies upper(#[trigger] a[i]) == upper(b[i]) by {
            assert(upper(b[i]) == upper(a[i]));
        }
    }
    if m == n {
        assert(m.len() == a.len() && n.len() == b.len());
        assert forall|i: int| 0 <= i < a.len() implies upper(#[trigger] a[i]) == upper(b[i]) by {
            assert(m[i] == n[i]);
        }
    }
}

/// A space, a tab and a line's end are spaces, and no character that is
/// printed in ASCII is; the control characters are those below the space
/// and those about the delete.
pub proof fn what_is_printed_is_no_space(c: char)
    ensures
        c == ' ' || c == '\t' || c == '\n' || c == '\r' ==> is_space(c),
        '!' <= c <= '~' ==> !is_space(c),
        c < ' ' ==> is_control(c),
        ' ' <= c <= '~' ==> !is_control(c),
        is_digit(c) <==> '0' <= c <= '9',
{
}

/// A text trimmed is the part of it between the spaces at its ends: what
/// goes is all spaces, and neither end of what stays is one.
pub proof fn a_trim_takes_the_spaces_at_the_ends(s: Seq<char>) -> (r: (int, int))
    ensures
        0 <= r.0 <= r.1 <= s.len(),
        trimmed(s) == s.subrange(r.0, r.1),
        forall|i: int| 0 <= i < r.0 ==> is_space(#[trigger] s[i]),
        forall|i: int| r.1 <= i < s.len() ==> is_space(#[trigger] s[i]),
        r.0 < r.1 ==> !is_space(s[r.0]) && !is_space(s[r.1 - 1]),
        trimmed(s).len() > 0 ==> !is_space(trimmed(s)[0]) && !is_space(trimmed(s).last()),
        trimmed(s).len() == 0 ==> forall|i: int| 0 <= i < s.len() ==> is_space(#[trigger] s[i]),
        s.len() > 0 && !is_space(s[0]) && !is_space(s.last()) ==> trimmed(s) == s,
{
    let drop = |c: char| is_space(c);
    let a = lemma_trim_start(s, drop);
    let t = s.skip(a);
    let n = lemma_trim_end(t, drop);
    assert(trimmed(s) == t.take(n));
    assert(t.take(n) =~= s.subrange(a, a + n));
    assert forall|i: int| 0 <= i < a implies is_space(#[trigger] s[i]) by {
        assert(drop(s[i]));
    }
    assert forall|i: int| a + n <= i < s.len() implies is_space(#[trigger] s[i]) by {
        assert(drop(t[i - a]));
    }
    if n > 0 {
        assert(!drop(t[n - 1]));
        if a < s.len() {
            assert(!drop(s[a]));
        }
    }
    if s.len() > 0 && !is_space(s[0]) && !is_space(s.last()) {
        assert(s.last() == s[s.len() - 1]);
        assert(a == 0);
        assert(a + n == s.len());
        assert(s.subrange(0, s.len() as int) =~= s);
    }
    (a, a + n)
}

/// What is cut to a size fits it, is the beginning of the text, and is
/// the longest beginning that fits; a text that fits is not cut.
pub proof fn a_cut_is_the_longest_that_fits(s: Seq<char>, limit: nat, n: int)
    requires
        0 <= n <= s.len(),
    ensures
        bytes(cut(s, limit)) <= limit,
        cut(s, limit).len() <= s.len(),
        cut(s, limit) == s.take(cut(s, limit).len() as int),
        bytes(s.take(n)) <= limit ==> n <= cut(s, limit).len(),
        bytes(s) <= limit ==> cut(s, limit) == s,
    decreases s.len(),
{
    lemma_cut(s, limit);
    if !(bytes(s) <= limit || s.len() == 0) {
        assert(s.take(s.len() as int) =~= s);
        if n < s.len() {
            assert(s.take(n) =~= s.drop_last().take(n));
            a_cut_is_the_longest_that_fits(s.drop_last(), limit, n);
        }
    }
}

/// A number in decimal is its digits: it reads back as the number, and
/// begins with a nought only for nought.
pub proof fn a_decimal_is_the_number(n: nat)
    ensures
        value_of(decimal(n)) == n,
        forall|i: int| 0 <= i < decimal(n).len() ==> '0' <= #[trigger] decimal(n)[i] <= '9',
        decimal(n).len() >= 1,
        n > 0 ==> decimal(n)[0] != '0',
        n < 10 <==> decimal(n).len() == 1,
    decreases n,
{
    lemma_value_of_decimal(n);
    assert forall|i: int| 0 <= i < decimal(n).len() implies '0' <= #[trigger] decimal(n)[i]
        <= '9' by {
        assert(is_digit(decimal(n)[i]));
        what_is_printed_is_no_space(decimal(n)[i]);
    }
    if n >= 10 {
        a_decimal_is_the_number(n / 10);
        assert(decimal(n)[0] == decimal(n / 10)[0]);
    }
}

/// A number padded is the number with noughts before it: as wide as was
/// asked, or as wide as the number itself where that is wider. One below
/// nought has its sign first, which is part of the width.
pub proof fn a_number_padded_is_the_number(n: int, w: nat)
    ensures
        n >= 0 ==> padded_int(n, w) == padded(n as nat, w),
        n >= 0 ==> value_of(padded_int(n, w)) == n,
        n >= 0 && decimal(n as nat).len() < w ==> padded_int(n, w).len() == w,
        n >= 0 && decimal(n as nat).len() >= w ==> padded_int(n, w) == decimal(n as nat),
        n < 0 ==> padded_int(n, w)[0] == '-' && value_of(padded_int(n, w).skip(1)) == -n,
        n < 0 && decimal((-n) as nat).len() < w ==> padded_int(n, w).len() == w,
        n < 0 && decimal((-n) as nat).len() >= w ==> padded_int(n, w) == seq!['-'] + decimal(
            (-n) as nat,
        ),
{
    if n >= 0 {
        lemma_value_of_padded(n as nat, w);
        if decimal(n as nat).len() >= w {
            assert(padded(n as nat, w) =~= decimal(n as nat));
        }
    } else {
        let m = (-n) as nat;
        let v: nat = if w > 0 { (w - 1) as nat } else { 0 };
        lemma_value_of_padded(m, v);
        assert(padded_int(n, w).skip(1) =~= padded(m, v));
        if decimal(m).len() >= w {
            assert(padded(m, v) =~= decimal(m));
        }
    }
}

/// Texts joined stand in their order with the same between any two: one
/// alone has nothing about it, and two lists joined are each joined, with
/// one more between.
pub proof fn texts_joined_stand_in_order(a: Seq<Seq<char>>, b: Seq<Seq<char>>, between: Seq<char>)
    ensures
        a.len() == 0 ==> joined(a, between).len() == 0,
        a.len() == 1 ==> joined(a, between) == a[0],
        a.len() == 2 ==> joined(a, between) == a[0] + between + a[1],
        a.len() > 0 && b.len() > 0 ==> joined(a + b, between) == joined(a, between) + between
            + joined(b, between),
    decreases b.len(),
{
    if a.len() == 2 {
        let one = a.drop_last();
        assert(one.len() == 1 && one[0] == a[0]);
        assert(joined(one, between) == a[0]);
    }
    if a.len() > 0 && b.len() > 0 {
        let all = a + b;
        if b.len() == 1 {
            assert(all.drop_last() =~= a);
            assert(all.last() == b[0]);
        } else {
            texts_joined_stand_in_order(a, b.drop_last(), between);
            assert(all.drop_last() =~= a + b.drop_last());
            assert(all.last() == b.last());
            assert(joined(all, between) =~= joined(a, between) + between + joined(b, between));
        }
    }
}

/// Of two texts that are not one, one comes before the other.
pub proof fn one_of_two_texts_is_earlier(a: Seq<char>, b: Seq<char>)
    ensures
        a == b || earlier(a, b) || earlier(b, a),
        !(earlier(a, b) && earlier(b, a)),
        !earlier(a, a),
{
    lemma_not_before_itself(a);
    let k = lemma_common(a, b);
    if k < a.len() && k < b.len() {
        assert(a.take(k) == b.take(k));
        assert(b.take(k) == a.take(k));
    } else if k == a.len() && k < b.len() {
        assert(a.take(k) =~= a);
    } else if k == b.len() && k < a.len() {
        assert(b.take(k) =~= b);
    } else {
        assert(a.take(k) =~= a);
        assert(b.take(k) =~= b);
    }
    if earlier(a, b) && earlier(b, a) {
        lemma_earlier_at(a, b, k);
        lemma_earlier_at(b, a, k);
    }
}

proof fn lemma_common(a: Seq<char>, b: Seq<char>) -> (k: int)
    ensures
        0 <= k <= a.len(),
        k <= b.len(),
        a.take(k) == b.take(k),
        k < a.len() && k < b.len() ==> a[k] != b[k],
    decreases a.len(),
{
    if a.len() == 0 || b.len() == 0 || a[0] != b[0] {
        assert(a.take(0) =~= b.take(0));
        0
    } else {
        let (s, t) = (a.drop_first(), b.drop_first());
        let k = lemma_common(s, t);
        assert forall|i: int| 0 <= i < k + 1 implies a[i] == b[i] by {
            if i > 0 {
                assert(s.take(k)[i - 1] == t.take(k)[i - 1]);
                assert(s[i - 1] == t[i - 1]);
            }
        }
        assert(a.take(k + 1) =~= b.take(k + 1));
        if k < s.len() && k < t.len() {
            assert(s[k] == a[k + 1] && t[k] == b[k + 1]);
        }
        k + 1
    }
}

proof fn lemma_earlier_at(a: Seq<char>, b: Seq<char>, k: int)
    requires
        earlier(a, b),
        0 <= k <= a.len(),
        k <= b.len(),
        a.take(k) == b.take(k),
        k < a.len() && k < b.len() ==> a[k] != b[k],
    ensures
        k < b.len(),
        k < a.len() ==> a[k] < b[k],
{
    if a.len() < b.len() && b.take(a.len() as int) == a {
        if k < a.len() {
            assert(b.take(a.len() as int)[k] == b[k]);
        }
    } else {
        let j = choose|j: int|
            0 <= j < a.len() && j < b.len() && #[trigger] a.take(j) == b.take(j) && a[j] < b[j];
        assert(a.take(j) == b.take(j) && a[j] < b[j]);
        if j < k {
            assert(a.take(k)[j] == a[j] && b.take(k)[j] == b[j]);
            assert(false);
        } else if k < j {
            assert(a.take(j)[k] == a[k] && b.take(j)[k] == b[k]);
            assert(false);
        }
    }
}

} // verus!
