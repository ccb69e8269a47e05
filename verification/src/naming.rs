//! Naming patterns: `{date}/{camera}` for a folder, `{yyyy}{mm}{dd}-{seq}`
//! for a file, the tokens filled from one frame's fields.
//!
//! Pure: the fields come in, a name comes out, and nothing here reads
//! the disk or a clock.
//!
//! Every name is made safe for the strictest file system it could land
//! on, whatever this machine is: a card imported on Linux onto an
//! exFAT drive meets Windows' rules, and a folder copied to a Windows
//! machine later meets them too. So Windows' refused characters, its
//! reserved device names and its trailing dots and spaces are dealt
//! with on every platform, and a name is the same on all three.

use crate::text;
use vstd::prelude::*;

verus! {

/// A calendar day.
#[derive(Debug, Clone, Copy, PartialEq, Eq, Structural)]
pub struct Day {
    pub year: i32,
    pub month: u32,
    pub day: u32,
}

/// The number two characters of `s` stand for, and four.
pub open spec fn number_at(s: Seq<char>, a: int, b: int) -> nat {
    text::value_of(s.subrange(a, b))
}

pub open spec fn digits_at(s: Seq<char>, a: int, b: int) -> bool {
    forall|i: int| a <= i < b ==> text::is_digit(#[trigger] s[i])
}

/// Whether `t` starts with a day: four digits, two and two, a colon or
/// a hyphen between them, the same both times, and a month and a day
/// of the month that can be.
pub open spec fn starts_with_day(t: Seq<char>) -> bool {
    &&& t.len() >= 10
    &&& t[4] == ':' || t[4] == '-'
    &&& t[7] == t[4]
    &&& digits_at(t, 0, 4)
    &&& digits_at(t, 5, 7)
    &&& digits_at(t, 8, 10)
    &&& number_at(t, 0, 4) > 0
    &&& 1 <= number_at(t, 5, 7) <= 12
    &&& 1 <= number_at(t, 8, 10) <= 31
}

/// The day that `t` starts with.
pub open spec fn day_at_start(t: Seq<char>) -> Day {
    Day {
        year: number_at(t, 0, 4) as i32,
        month: number_at(t, 5, 7) as u32,
        day: number_at(t, 8, 10) as u32,
    }
}

/// The number at `a..b` of `v`; none when a character there is no digit.
fn number(v: &Vec<char>, a: usize, b: usize) -> (r: Option<u32>)
    requires
        a < b <= v@.len(),
        b - a <= 4,
    ensures
        r is Some <==> digits_at(v@, a as int, b as int),
        r matches Some(n) ==> n == number_at(v@, a as int, b as int) && n <= 9999,
{
    let mut n: u32 = 0;
    let mut i: usize = a;
    assert(v@.subrange(a as int, a as int).len() == 0);
    while i < b
        invariant
            a <= i <= b <= v@.len(),
            b - a <= 4,
            digits_at(v@, a as int, i as int),
            n == number_at(v@, a as int, i as int),
            i - a == 0 ==> n == 0,
            i - a == 1 ==> n <= 9,
            i - a == 2 ==> n <= 99,
            i - a == 3 ==> n <= 999,
            i - a == 4 ==> n <= 9999,
        decreases b - i,
    {
        let c = v[i];
        if !text::ascii_digit(c) {
            return None;
        }
        n = n * 10 + (c as u32 - 0x30);
        i = i + 1;
        assert(v@.subrange(a as int, i as int).drop_last() =~= v@.subrange(a as int, i - 1));
    }
    Some(n)
}

impl Day {
    /// The day of an EXIF date in either spelling, `2026:09:24 ...`
    /// as the file has it or `2026-09-24 ...` as the index keeps it;
    /// none when it is not one.
    pub fn from_exif(taken: &str) -> (r: Option<Day>)
        ensures
            r is Some <==> starts_with_day(text::trimmed(taken@)),
            r matches Some(d) ==> d == day_at_start(text::trimmed(taken@)),
    {
        let whole = text::chars_of(taken);
        let s = text::trim(&whole);
        if s.len() < 10 || !(s[4] == ':' || s[4] == '-') || s[7] != s[4] {
            return None;
        }
        let year = number(&s, 0, 4);
        let month = number(&s, 5, 7);
        let day = number(&s, 8, 10);
        match (year, month, day) {
            (Some(y), Some(m), Some(d)) => {
                if y > 0 && 1 <= m && m <= 12 && 1 <= d && d <= 31 {
                    Some(Day { year: y as i32, month: m, day: d })
                } else {
                    None
                }
            },
            _ => None,
        }
    }
}

/// What the tokens of one frame are filled from.
#[derive(Debug, Clone, PartialEq)]
pub struct Fields {
    /// The day it was taken: the EXIF's, or the file's modification
    /// day when the file says none.
    pub day: Day,
    /// The source file's name without its extension.
    pub name: String,
    /// The camera as the panel names it; empty when unknown.
    pub camera: String,
    /// The frame's place in the run, from one.
    pub seq: usize,
}

/// `{seq}`'s width: 0001.
pub const SEQ_WIDTH: usize = 4;

/// The longest a name is let be, in bytes: under every file system's
/// 255, with room for the import's temporary prefix and suffix.
pub const LONGEST: usize = 200;

/// Why a pattern makes no name.
#[derive(Debug, Clone, PartialEq, Eq)]
pub enum PatternError {
    /// A `{...}` that is not one of the tokens.
    Unknown(String),
    /// A `{` with no `}` after it.
    Unclosed,
}

/// The tokens a pattern may hold.
pub open spec fn token_texts() -> Seq<Seq<char>> {
    seq!["{date}"@, "{yyyy}"@, "{mm}"@, "{dd}"@, "{name}"@, "{camera}"@, "{seq}"@]
}

/// The tokens a pattern may hold, for the sheet's hint and the error.
pub fn tokens() -> (v: Vec<&'static str>)
    ensures
        v@.len() == token_texts().len(),
        forall|i: int| 0 <= i < v@.len() ==> (#[trigger] v@[i])@ == token_texts()[i],
{
    let mut v: Vec<&'static str> = Vec::new();
    v.push("{date}");
    v.push("{yyyy}");
    v.push("{mm}");
    v.push("{dd}");
    v.push("{name}");
    v.push("{camera}");
    v.push("{seq}");
    v
}

/// The tokens as the error lists them.
pub open spec fn tokens_text() -> Seq<char> {
    text::joined(token_texts(), " "@)
}

fn listed_tokens() -> (s: String)
    ensures
        s@ == tokens_text(),
{
    let tokens = tokens();
    let mut v: Vec<String> = Vec::new();
    let mut i: usize = 0;
    while i < tokens.len()
        invariant
            i <= tokens@.len(),
            v@.len() == i,
            forall|k: int| 0 <= k < i ==> (#[trigger] v@[k])@ == tokens@[k]@,
        decreases tokens.len() - i,
    {
        v.push(tokens[i].to_owned());
        i = i + 1;
    }
    assert(text::texts(v@) =~= token_texts());
    text::join(&v, " ")
}

impl PatternError {
    /// The error in words.
    pub fn message(&self) -> (s: String)
        ensures
            self is Unclosed ==> s@ == "a { with no } after it"@,
            self matches PatternError::Unknown(t) ==> s@ == seq!['{'] + t@ + "} is not a token; "@
                + tokens_text(),
    {
        match self {
            PatternError::Unclosed => "a { with no } after it".to_owned(),
            PatternError::Unknown(t) => {
                let mut s = String::new();
                s.push('{');
                s.append(t.as_str());
                s.append("} is not a token; ");
                s.append(listed_tokens().as_str());
                assert(s@ =~= seq!['{'] + t@ + "} is not a token; "@ + tokens_text());
                s
            },
        }
    }
}

/// What filling a pattern comes to: a text, or why there is none.
pub enum Filled {
    Text(Seq<char>),
    Unknown(Seq<char>),
    Unclosed,
}

/// A result as what filling came to.
pub open spec fn filled(r: Result<String, PatternError>) -> Filled {
    match r {
        Ok(s) => Filled::Text(s@),
        Err(PatternError::Unknown(t)) => Filled::Unknown(t@),
        Err(PatternError::Unclosed) => Filled::Unclosed,
    }
}

/// The day with hyphens: `2026-09-24`.
pub open spec fn date_text(d: Day) -> Seq<char> {
    text::padded_int(d.year as int, 4) + seq!['-'] + text::padded(d.month as nat, 2) + seq!['-'] + text::padded(
        d.day as nat,
        2,
    )
}

/// The camera as a name has it: a word when none is known.
pub open spec fn camera_text(camera: Seq<char>) -> Seq<char> {
    if text::trimmed(camera).len() == 0 {
        "Unknown camera"@
    } else {
        text::trimmed(camera)
    }
}

/// What the token `t` stands for; none when it is no token.
pub open spec fn token_value(t: Seq<char>, f: Fields) -> Option<Seq<char>> {
    if t == "date"@ {
        Some(date_text(f.day))
    } else if t == "yyyy"@ {
        Some(text::padded_int(f.day.year as int, 4))
    } else if t == "mm"@ {
        Some(text::padded(f.day.month as nat, 2))
    } else if t == "dd"@ {
        Some(text::padded(f.day.day as nat, 2))
    } else if t == "name"@ {
        Some(f.name@)
    } else if t == "camera"@ {
        Some(camera_text(f.camera@))
    } else if t == "seq"@ {
        Some(text::padded(f.seq as nat, SEQ_WIDTH as nat))
    } else {
        None
    }
}

/// A token as a pattern holds it, in its braces.
pub open spec fn braced(t: Seq<char>) -> Seq<char> {
    seq!['{'] + t + seq!['}']
}

/// What stands for something between braces is one of the tokens, and
/// every token stands for something.
pub proof fn the_tokens_are_those_that_fill(t: Seq<char>, f: Fields)
    ensures
        token_value(t, f) is Some <==> token_texts().contains(braced(t)),
{
    reveal_strlit("date");
    reveal_strlit("{date}");
    assert(braced("date"@) =~= "{date}"@);
    reveal_strlit("yyyy");
    reveal_strlit("{yyyy}");
    assert(braced("yyyy"@) =~= "{yyyy}"@);
    reveal_strlit("mm");
    reveal_strlit("{mm}");
    assert(braced("mm"@) =~= "{mm}"@);
    reveal_strlit("dd");
    reveal_strlit("{dd}");
    assert(braced("dd"@) =~= "{dd}"@);
    reveal_strlit("name");
    reveal_strlit("{name}");
    assert(braced("name"@) =~= "{name}"@);
    reveal_strlit("camera");
    reveal_strlit("{camera}");
    assert(braced("camera"@) =~= "{camera}"@);
    reveal_strlit("seq");
    reveal_strlit("{seq}");
    assert(braced("seq"@) =~= "{seq}"@);
    let all = token_texts();
    assert(all[0] == "{date}"@);
    assert(all[1] == "{yyyy}"@);
    assert(all[2] == "{mm}"@);
    assert(all[3] == "{dd}"@);
    assert(all[4] == "{name}"@);
    assert(all[5] == "{camera}"@);
    assert(all[6] == "{seq}"@);
    assert(all.len() == 7);
    if all.contains(braced(t)) {
        let i = choose|i: int| 0 <= i < all.len() && all[i] == braced(t);
        assert(all[i].subrange(1, all[i].len() - 1) =~= t);
        assert(braced("date"@).subrange(1, braced("date"@).len() - 1) =~= "date"@);
        assert(braced("yyyy"@).subrange(1, braced("yyyy"@).len() - 1) =~= "yyyy"@);
        assert(braced("mm"@).subrange(1, braced("mm"@).len() - 1) =~= "mm"@);
        assert(braced("dd"@).subrange(1, braced("dd"@).len() - 1) =~= "dd"@);
        assert(braced("name"@).subrange(1, braced("name"@).len() - 1) =~= "name"@);
        assert(braced("camera"@).subrange(1, braced("camera"@).len() - 1) =~= "camera"@);
        assert(braced("seq"@).subrange(1, braced("seq"@).len() - 1) =~= "seq"@);
    }
}

pub open spec fn is_separator(c: char) -> bool {
    c == '/' || c == '\\'
}

/// `s` on one level: each separator is `_`.
pub open spec fn levelled(s: Seq<char>) -> Seq<char> {
    Seq::new(s.len(), |i: int| if is_separator(s[i]) { '_' } else { s[i] })
}

/// The pattern with its tokens filled from the left, the text between
/// them as it is; the first thing wrong in it when there is one.
pub open spec fn expansion(p: Seq<char>, f: Fields) -> Filled
    decreases p.len(),
{
    let open = text::first_of(p, '{') as int;
    if open >= p.len() {
        Filled::Text(p)
    } else {
        let after = p.skip(open + 1);
        let close = text::first_of(after, '}') as int;
        if close >= after.len() {
            Filled::Unclosed
        } else {
            match token_value(after.take(close), f) {
                None => Filled::Unknown(after.take(close)),
                Some(v) => match expansion(after.skip(close + 1), f) {
                    Filled::Text(rest) => Filled::Text(p.take(open) + levelled(v) + rest),
                    other => other,
                },
            }
        }
    }
}

/// The token's text, for the token `t` names; none when it names none.
fn fill(t: &Vec<char>, f: &Fields) -> (r: Option<String>)
    ensures
        r is Some <==> token_value(t@, *f) is Some,
        r matches Some(s) ==> s@ == token_value(t@, *f)->0,
{
    let token = text::string_of(t);
    let mut s = String::new();
    if text::same_text(token.as_str(), "date") {
        text::put_padded_int(&mut s, f.day.year, 4);
        s.push('-');
        text::put_padded(&mut s, f.day.month as u64, 2);
        s.push('-');
        text::put_padded(&mut s, f.day.day as u64, 2);
        assert(s@ =~= date_text(f.day));
    } else if text::same_text(token.as_str(), "yyyy") {
        text::put_padded_int(&mut s, f.day.year, 4);
        assert(s@ =~= text::padded_int(f.day.year as int, 4));
    } else if text::same_text(token.as_str(), "mm") {
        text::put_padded(&mut s, f.day.month as u64, 2);
        assert(s@ =~= text::padded(f.day.month as nat, 2));
    } else if text::same_text(token.as_str(), "dd") {
        text::put_padded(&mut s, f.day.day as u64, 2);
        assert(s@ =~= text::padded(f.day.day as nat, 2));
    } else if text::same_text(token.as_str(), "name") {
        s = f.name.clone();
    } else if text::same_text(token.as_str(), "camera") {
        let camera = text::trim_text(f.camera.as_str());
        if camera.as_str().is_empty() {
            s = "Unknown camera".to_owned();
        } else {
            s = camera;
        }
    } else if text::same_text(token.as_str(), "seq") {
        text::put_padded(&mut s, f.seq as u64, SEQ_WIDTH);
        assert(s@ =~= text::padded(f.seq as nat, SEQ_WIDTH as nat));
    } else {
        return None;
    }
    Some(s)
}

/// `v` on one level, on the end of `out`.
fn put_levelled(out: &mut String, v: &Vec<char>)
    ensures
        final(out)@ == old(out)@ + levelled(v@),
{
    let mut i: usize = 0;
    assert(levelled(v@).take(0) =~= Seq::<char>::empty());
    while i < v.len()
        invariant
            i <= v.len(),
            out@ =~= old(out)@ + levelled(v@).take(i as int),
        decreases v.len() - i,
    {
        let c = v[i];
        if c == '/' || c == '\\' {
            out.push('_');
        } else {
            out.push(c);
        }
        i = i + 1;
    }
    assert(levelled(v@).take(v@.len() as int) =~= levelled(v@));
}

/// What an expansion comes to when `done` stands before it.
pub open spec fn after_text(done: Seq<char>, rest: Filled) -> Filled {
    match rest {
        Filled::Text(t) => Filled::Text(done + t),
        other => other,
    }
}

/// The pattern with its tokens filled, the literal text between them
/// as it is. A token's value never adds a folder: a separator in it
/// is refused as any other character is. Nothing else is made safe
/// here; [`file_name`] and [`folders`] do that.
pub fn expand(pattern: &str, f: &Fields) -> (r: Result<String, PatternError>)
    ensures
        filled(r) == expansion(pattern@, *f),
{
    let p = text::chars_of(pattern);
    let mut out = String::new();
    let mut at: usize = 0;
    assert(p@.skip(0) =~= p@);
    assert(after_text(out@, expansion(p@, *f)) == expansion(p@, *f)) by {
        match expansion(p@, *f) {
            Filled::Text(t) => {
                assert(Seq::<char>::empty() + t =~= t);
            },
            _ => {},
        }
    }
    loop
        invariant
            at <= p@.len(),
            p@ == pattern@,
            after_text(out@, expansion(p@.skip(at as int), *f)) == expansion(pattern@, *f),
        decreases p@.len() - at,
    {
        let ghost rest = p@.skip(at as int);
        let ghost before = out@;
        let open: usize = text::find(&p, at, '{');
        let literal = text::part(&p, at, open);
        text::put_chars(&mut out, &literal);
        if open == p.len() {
            assert(literal@ =~= rest);
            return Ok(out);
        }
        let ghost after = rest.skip(open - at + 1);
        assert(p@.skip(open + 1) =~= after);
        let close: usize = text::find(&p, open + 1, '}');
        if close == p.len() {
            return Err(PatternError::Unclosed);
        }
        let token = text::part(&p, open + 1, close);
        assert(token@ =~= after.take(close - open - 1));
        match fill(&token, f) {
            None => {
                return Err(PatternError::Unknown(text::string_of(&token)));
            },
            Some(value) => {
                let v = text::chars_of(value.as_str());
                put_levelled(&mut out, &v);
                at = close + 1;
                proof {
                    assert(p@.skip(at as int) =~= after.skip(close - open));
                    assert(literal@ =~= rest.take(text::first_of(rest, '{') as int));
                    match expansion(p@.skip(at as int), *f) {
                        Filled::Text(t) => {
                            assert(before + (literal@ + levelled(v@) + t) =~= out@ + t);
                        },
                        _ => {},
                    }
                }
            },
        }
    }
}


// Making a name safe.

/// Characters Windows refuses in a name, beside the controls.
pub open spec fn is_refused(c: char) -> bool {
    c == '<' || c == '>' || c == ':' || c == '"' || c == '/' || c == '\\' || c == '|' || c == '?'
        || c == '*'
}

fn refused(c: char) -> (r: bool)
    ensures
        r == is_refused(c),
{
    c == '<' || c == '>' || c == ':' || c == '"' || c == '/' || c == '\\' || c == '|' || c == '?'
        || c == '*'
}

/// A character no name may hold.
pub open spec fn is_barred(c: char) -> bool {
    text::is_control(c) || is_refused(c)
}

/// `s` with each barred character as `_`.
pub open spec fn cleaned(s: Seq<char>) -> Seq<char> {
    Seq::new(s.len(), |i: int| if is_barred(s[i]) { '_' } else { s[i] })
}

/// `s` without its leading spaces and its trailing spaces and dots.
pub open spec fn stripped(s: Seq<char>) -> Seq<char> {
    text::trim_end(text::trim_start(s, |c: char| c == ' '), |c: char| c == ' ' || c == '.')
}

/// `s` with a dot at its start as `_`.
pub open spec fn unhidden(s: Seq<char>) -> Seq<char> {
    if s.len() > 0 && s[0] == '.' {
        s.update(0, '_')
    } else {
        s
    }
}

/// What Windows reads a device from: the name up to its first dot,
/// less the white space at the end, in capitals.
pub open spec fn device_of(s: Seq<char>) -> Seq<char> {
    let stem = text::trim_end(s.take(text::first_of(s, '.') as int), |c: char| text::is_space(c));
    Seq::new(stem.len(), |i: int| text::upper(stem[i]))
}

/// A name Windows keeps for a device: `CON`, `PRN`, `AUX`, `NUL`, and
/// `COM` or `LPT` with a digit.
pub open spec fn is_device(d: Seq<char>) -> bool {
    ||| (d.len() == 3 && d[0] == 'C' && d[1] == 'O' && d[2] == 'N')
    ||| (d.len() == 3 && d[0] == 'P' && d[1] == 'R' && d[2] == 'N')
    ||| (d.len() == 3 && d[0] == 'A' && d[1] == 'U' && d[2] == 'X')
    ||| (d.len() == 3 && d[0] == 'N' && d[1] == 'U' && d[2] == 'L')
    ||| (d.len() == 4 && d[0] == 'C' && d[1] == 'O' && d[2] == 'M' && text::is_digit(d[3]))
    ||| (d.len() == 4 && d[0] == 'L' && d[1] == 'P' && d[2] == 'T' && text::is_digit(d[3]))
}

/// A name made safe but for the device it may name.
pub open spec fn shaped(s: Seq<char>, limit: nat) -> Seq<char> {
    unhidden(stripped(text::cut(cleaned(s), limit)))
}

/// A name with `_` before it, within `limit` bytes.
pub open spec fn marked(t: Seq<char>, limit: nat) -> Seq<char> {
    stripped(text::cut(seq!['_'] + t, limit))
}

/// A name made safe within `limit` bytes: barred characters as `_`, cut
/// on a character's edge, the ends stripped, a leading dot as `_`, and
/// `_` before a reserved device name, which the limit holds too.
pub open spec fn safe_text(s: Seq<char>, limit: nat) -> Seq<char> {
    let t = shaped(s, limit);
    if is_device(device_of(t)) {
        marked(t, limit)
    } else {
        t
    }
}

/// `v` with each barred character as `_`.
fn clean(v: &Vec<char>) -> (out: Vec<char>)
    ensures
        out@ == cleaned(v@),
{
    let mut out: Vec<char> = Vec::new();
    let mut i: usize = 0;
    while i < v.len()
        invariant
            i <= v.len(),
            out@ =~= cleaned(v@).take(i as int),
        decreases v.len() - i,
    {
        let c = v[i];
        if text::control(c) || refused(c) {
            out.push('_');
        } else {
            out.push(c);
        }
        i = i + 1;
    }
    assert(cleaned(v@).take(v@.len() as int) =~= cleaned(v@));
    out
}

/// `v` without its leading spaces and its trailing spaces and dots.
fn strip(v: &Vec<char>) -> (out: Vec<char>)
    ensures
        out@ == stripped(v@),
{
    let ghost lead = |c: char| c == ' ';
    let ghost tail = |c: char| c == ' ' || c == '.';
    let mut a: usize = 0;
    while a < v.len() && v[a] == ' '
        invariant
            a <= v@.len(),
            forall|i: int| 0 <= i < a ==> #[trigger] v@[i] == ' ',
        decreases v.len() - a,
    {
        a = a + 1;
    }
    proof {
        text::lemma_trim_start_is(v@, lead, a as int);
    }
    let mut b: usize = v.len();
    while b > a && (v[b - 1] == ' ' || v[b - 1] == '.')
        invariant
            a <= b <= v@.len(),
            forall|i: int| b <= i < v@.len() ==> (#[trigger] v@[i] == ' ' || v@[i] == '.'),
        decreases b,
    {
        b = b - 1;
    }
    proof {
        let s = v@.skip(a as int);
        assert forall|i: int| b - a <= i < s.len() implies tail(#[trigger] s[i]) by {
            assert(v@[i + a] == ' ' || v@[i + a] == '.');
        }
        text::lemma_trim_end_is(s, tail, b - a);
        assert(s.take(b - a) =~= v@.subrange(a as int, b as int));
    }
    text::part(v, a, b)
}

/// What Windows would read a device from in `v`.
fn device(v: &Vec<char>) -> (out: Vec<char>)
    ensures
        out@ == device_of(v@),
{
    let ghost drop = |c: char| text::is_space(c);
    let dot: usize = text::find(v, 0, '.');
    assert(v@.skip(0) =~= v@);
    let ghost stem = v@.take(dot as int);
    let mut b: usize = dot;
    while b > 0 && text::space(v[b - 1])
        invariant
            b <= dot <= v@.len(),
            stem == v@.take(dot as int),
            drop == (|c: char| text::is_space(c)),
            forall|i: int| b <= i < dot ==> drop(#[trigger] stem[i]),
        decreases b,
    {
        b = b - 1;
    }
    proof {
        text::lemma_trim_end_is(stem, drop, b as int);
    }
    let mut out: Vec<char> = Vec::new();
    let mut i: usize = 0;
    while i < b
        invariant
            i <= b <= v@.len(),
            out@.len() == i,
            forall|j: int| 0 <= j < i ==> out@[j] == text::upper(v@[j]),
        decreases b - i,
    {
        out.push(text::upper_char(v[i]));
        i = i + 1;
    }
    assert(out@ =~= device_of(v@));
    out
}

fn reserved(d: &Vec<char>) -> (r: bool)
    ensures
        r == is_device(d@),
{
    if d.len() == 3 {
        let (a, b, c) = (d[0], d[1], d[2]);
        (a == 'C' && b == 'O' && c == 'N') || (a == 'P' && b == 'R' && c == 'N') || (a == 'A' && b
            == 'U' && c == 'X') || (a == 'N' && b == 'U' && c == 'L')
    } else if d.len() == 4 {
        ((d[0] == 'C' && d[1] == 'O' && d[2] == 'M') || (d[0] == 'L' && d[1] == 'P' && d[2] == 'T'))
            && text::ascii_digit(d[3])
    } else {
        false
    }
}

/// `v` made safe within `limit` bytes.
fn safe_chars(v: &Vec<char>, limit: usize) -> (out: Vec<char>)
    ensures
        out@ == safe_text(v@, limit as nat),
{
    let c = clean(v);
    let short = text::cut_to(&c, limit);
    let mut t = strip(&short);
    if t.len() > 0 && t[0] == '.' {
        t.set(0, '_');
    }
    assert(t@ == shaped(v@, limit as nat));
    let d = device(&t);
    if reserved(&d) {
        t.insert(0, '_');
        assert(t@ =~= seq!['_'] + shaped(v@, limit as nat));
        let short = text::cut_to(&t, limit);
        return strip(&short);
    }
    t
}

/// [`safe`], cut to `limit` bytes rather than [`LONGEST`].
pub fn safe_within(name: &str, limit: usize) -> (s: String)
    ensures
        s@ == safe_text(name@, limit as nat),
{
    let v = text::chars_of(name);
    let t = safe_chars(&v, limit);
    text::string_of(&t)
}

/// One level of a path made safe on every platform: each refused
/// character and control is `_`; leading and trailing spaces and
/// trailing dots go (Windows drops them, so two names could meet);
/// a leading dot is `_` (it would hide the file on Linux and macOS,
/// and a name of dots alone is `.` or `..`); a reserved device name
/// takes `_` before it; and the name is cut to [`LONGEST`] bytes on a
/// character's edge. Empty when nothing is left.
pub fn safe(name: &str) -> (s: String)
    ensures
        s@ == safe_text(name@, LONGEST as nat),
{
    safe_within(name, LONGEST)
}

/// The bytes a stem is left by a tail of `n` bytes: at least one.
pub open spec fn room_beside(n: nat) -> nat {
    if n < LONGEST {
        (LONGEST - n) as nat
    } else {
        1
    }
}

/// A stem made safe with `tail`, made clean, after it.
pub open spec fn tailed(stem: Seq<char>, tail: Seq<char>) -> Seq<char> {
    safe_text(stem, room_beside(text::bytes(cleaned(tail)))) + cleaned(tail)
}

/// `stem` made safe and cut so that `tail` (an extension with its dot,
/// or a companion's `.CR3.xmp`) always fits after it within
/// [`LONGEST`]: a long pattern loses the end of its stem, never its
/// extension, and never half a character.
pub fn with_tail(stem: &str, tail: &str) -> (s: String)
    ensures
        s@ == tailed(stem@, tail@),
{
    let raw = text::chars_of(tail);
    let t = clean(&raw);
    let n: u128 = text::byte_len(&t);
    let room: usize = if n < LONGEST as u128 { LONGEST - n as usize } else { 1 };
    let mut s = safe_within(stem, room);
    text::put_chars(&mut s, &t);
    s
}

/// The extension as it goes after a stem: with its dot, or nothing.
pub open spec fn tail_of(extension: Seq<char>) -> Seq<char> {
    if extension.len() == 0 {
        extension
    } else {
        seq!['.'] + extension
    }
}

/// A file's name from a filled pattern: the pattern's text on one level
/// as the stem; the source's own stem where that leaves nothing; `_`
/// where that leaves nothing either.
pub open spec fn named(stem: Seq<char>, source: Seq<char>, tail: Seq<char>) -> Seq<char> {
    let first = tailed(levelled(stem), tail);
    let second = tailed(source, tail);
    if first.len() > tail.len() {
        first
    } else if second.len() > tail.len() {
        second
    } else {
        seq!['_'] + cleaned(tail)
    }
}

/// A file's name from the rename pattern, with `extension` (as the
/// source spells it) after it; the source's own stem when the pattern
/// fills to nothing.
pub fn file_name(pattern: &str, f: &Fields, extension: &str) -> (r: Result<String, PatternError>)
    ensures
        filled(r) == (match expansion(pattern@, *f) {
            Filled::Text(t) => Filled::Text(named(t, f.name@, tail_of(extension@))),
            other => other,
        }),
{
    let filled = match expand(pattern, f) {
        Ok(s) => s,
        Err(e) => {
            return Err(e);
        },
    };
    let chars = text::chars_of(filled.as_str());
    let mut stem = String::new();
    put_levelled(&mut stem, &chars);
    assert(stem@ =~= levelled(filled@));
    let mut tail = String::new();
    if !extension.is_empty() {
        tail.push('.');
        tail.append(extension);
    }
    assert(tail@ =~= tail_of(extension@));
    let tail_chars = text::chars_of(tail.as_str());
    let first = with_tail(stem.as_str(), tail.as_str());
    let first_chars = text::chars_of(first.as_str());
    if first_chars.len() > tail_chars.len() {
        return Ok(first);
    }
    let second = with_tail(f.name.as_str(), tail.as_str());
    let second_chars = text::chars_of(second.as_str());
    if second_chars.len() > tail_chars.len() {
        return Ok(second);
    }
    let mut last = String::new();
    last.push('_');
    let clean_tail = clean(&tail_chars);
    text::put_chars(&mut last, &clean_tail);
    assert(last@ =~= seq!['_'] + cleaned(tail@));
    Ok(last)
}

/// Where a level of `s` ends: its first separator, or its end.
pub open spec fn level_end(s: Seq<char>) -> nat
    decreases s.len(),
{
    if s.len() == 0 || is_separator(s[0]) {
        0
    } else {
        1 + level_end(s.drop_first())
    }
}

proof fn lemma_level_end_is(s: Seq<char>, n: int)
    requires
        0 <= n <= s.len(),
        forall|i: int| 0 <= i < n ==> !is_separator(#[trigger] s[i]),
        n < s.len() ==> is_separator(s[n]),
    ensures
        level_end(s) == n,
    decreases n,
{
    if n > 0 {
        let t = s.drop_first();
        assert(!is_separator(s[0]));
        assert forall|i: int| 0 <= i < n - 1 implies !is_separator(#[trigger] t[i]) by {
            assert(!is_separator(s[i + 1]));
        }
        lemma_level_end_is(t, n - 1);
    }
}

proof fn lemma_level_end(s: Seq<char>)
    ensures
        level_end(s) <= s.len(),
    decreases s.len(),
{
    if s.len() > 0 && !is_separator(s[0]) {
        lemma_level_end(s.drop_first());
    }
}

/// The levels of `s`, each made safe, the empty ones left out.
pub open spec fn levels(s: Seq<char>) -> Seq<Seq<char>>
    decreases s.len(),
{
    let n = level_end(s) as int;
    let level = safe_text(s.take(n), LONGEST as nat);
    let kept = if level.len() == 0 { seq![] } else { seq![level] };
    if n >= s.len() {
        kept
    } else {
        kept + levels(s.skip(n + 1))
    }
}

/// The folders under the destination from the subfolder pattern, one
/// entry a level: `/` and `\` in the pattern's literal text separate
/// them, an empty level is dropped, and each is made safe. Empty for
/// an empty pattern: the files go in the destination itself.
pub fn folders(pattern: &str, f: &Fields) -> (r: Result<Vec<String>, PatternError>)
    ensures
        r matches Ok(v) ==> expansion(pattern@, *f) is Text && text::texts(v@) == levels(
            expansion(pattern@, *f)->Text_0,
        ),
        r matches Err(e) ==> filled(Err(e)) == expansion(pattern@, *f),
{
    let expanded = match expand(pattern, f) {
        Ok(s) => s,
        Err(e) => {
            return Err(e);
        },
    };
    let s = text::chars_of(expanded.as_str());
    let mut out: Vec<String> = Vec::new();
    let mut at: usize = 0;
    assert(s@.skip(0) =~= s@);
    assert(text::texts(out@) + levels(s@) =~= levels(s@));
    loop
        invariant
            at <= s@.len(),
            text::texts(out@) + levels(s@.skip(at as int)) == levels(expanded@),
            s@ == expanded@,
            expansion(pattern@, *f) == Filled::Text(expanded@),
        decreases s@.len() - at,
    {
        let ghost rest = s@.skip(at as int);
        let mut end: usize = at;
        while end < s.len() && s[end] != '/' && s[end] != '\\'
            invariant
                at <= end <= s@.len(),
                rest == s@.skip(at as int),
                forall|i: int| 0 <= i < end - at ==> !is_separator(#[trigger] rest[i]),
            decreases s.len() - end,
        {
            end = end + 1;
        }
        proof {
            lemma_level_end_is(rest, end - at);
        }
        let level = text::part(&s, at, end);
        assert(level@ =~= rest.take(end - at));
        let made = safe_chars(&level, LONGEST);
        let ghost before = text::texts(out@);
        let ghost kept: Seq<Seq<char>> = if made@.len() == 0 { seq![] } else { seq![made@] };
        if made.len() > 0 {
            out.push(text::string_of(&made));
        }
        assert(text::texts(out@) =~= before + kept);
        if end == s.len() {
            assert(levels(rest) =~= kept);
            return Ok(out);
        }
        at = end + 1;
        proof {
            assert(s@.skip(at as int) =~= rest.skip(level_end(rest) as int + 1));
            assert(before + (kept + levels(s@.skip(at as int))) =~= text::texts(out@) + levels(s@.skip(at as int)));
        }
    }
}


// What holds of every name.

/// A shaped name has no barred character, no space or dot at its start
/// and no space or dot at its end, and fits in its limit.
proof fn lemma_shaped(s: Seq<char>, limit: nat)
    ensures
        forall|i: int| 0 <= i < shaped(s, limit).len() ==> !is_barred(#[trigger] shaped(s, limit)[i]),
        shaped(s, limit).len() > 0 ==> shaped(s, limit)[0] != ' ' && shaped(s, limit)[0] != '.',
        shaped(s, limit).len() > 0 ==> shaped(s, limit).last() != ' ' && shaped(s, limit).last() != '.',
        text::bytes(shaped(s, limit)) <= limit,
{
    let c = cleaned(s);
    let short = text::cut(c, limit);
    text::lemma_cut(c, limit);
    let lead = |c: char| c == ' ';
    let tail = |c: char| c == ' ' || c == '.';
    let a = text::lemma_trim_start(short, lead);
    let mid = short.skip(a);
    let b = text::lemma_trim_end(mid, tail);
    let t = mid.take(b);
    assert(stripped(short) == t);
    let u = unhidden(t);
    assert forall|i: int| 0 <= i < u.len() implies !is_barred(#[trigger] u[i]) by {
        if u[i] != '_' {
            assert(u[i] == t[i]);
            assert(t[i] == c[i + a]);
        }
    }
    if u.len() > 0 {
        assert(t[0] == short[a]);
        assert(t.last() == mid[b - 1]);
    }
    text::lemma_bytes_concat(short.take(a), mid);
    assert(short.take(a) + mid =~= short);
    text::lemma_bytes_prefix(mid, b);
    if t.len() > 0 && t[0] == '.' {
        let rest = t.drop_first();
        assert(t =~= seq!['.'] + rest);
        assert(u =~= seq!['_'] + rest);
        text::lemma_bytes_concat(seq!['.'], rest);
        text::lemma_bytes_concat(seq!['_'], rest);
        lemma_bytes_of_one('.');
        lemma_bytes_of_one('_');
    }
}

/// A marked name begins with its mark where anything is left, holds
/// nothing barred, has no space or dot at its end and fits in its limit.
proof fn lemma_marked(t: Seq<char>, limit: nat)
    requires
        forall|i: int| 0 <= i < t.len() ==> !is_barred(#[trigger] t[i]),
    ensures
        forall|i: int| 0 <= i < marked(t, limit).len() ==> !is_barred(#[trigger] marked(t, limit)[i]),
        marked(t, limit).len() > 0 ==> {
            &&& marked(t, limit)[0] == '_'
            &&& marked(t, limit).last() != ' '
            &&& marked(t, limit).last() != '.'
        },
        text::bytes(marked(t, limit)) <= limit,
{
    let u = seq!['_'] + t;
    let short = text::cut(u, limit);
    text::lemma_cut(u, limit);
    let lead = |c: char| c == ' ';
    let tail = |c: char| c == ' ' || c == '.';
    text::lemma_trim_start_is(short, lead, 0);
    assert(short.skip(0) =~= short);
    let b = text::lemma_trim_end(short, tail);
    let m = short.take(b);
    assert(marked(t, limit) == m);
    assert forall|i: int| 0 <= i < m.len() implies !is_barred(#[trigger] m[i]) by {
        assert(m[i] == u[i]);
        if i > 0 {
            assert(u[i] == t[i - 1]);
        }
    }
    if m.len() > 0 {
        assert(m[0] == u[0]);
        assert(m.last() == short[b - 1]);
    }
    text::lemma_bytes_prefix(short, b);
}

proof fn lemma_bytes_of_one(c: char)
    ensures
        text::bytes(seq![c]) == text::width(c),
{
    reveal_with_fuel(text::bytes, 2);
    assert(seq![c].drop_last().len() == 0);
}

/// A safe name holds no control and nothing Windows refuses, so no
/// separator: it is one level, whatever it was made from.
pub proof fn a_safe_name_holds_nothing_barred(s: Seq<char>, limit: nat)
    ensures
        forall|i: int|
            0 <= i < safe_text(s, limit).len() ==> !is_barred(#[trigger] safe_text(s, limit)[i]),
{
    lemma_shaped(s, limit);
    lemma_marked(shaped(s, limit), limit);
}

/// A safe name has no space or dot at either end: it is not hidden, it
/// is not `.` or `..`, and Windows drops nothing from it.
pub proof fn a_safe_name_has_clean_ends(s: Seq<char>, limit: nat)
    ensures
        safe_text(s, limit).len() > 0 ==> {
            &&& safe_text(s, limit)[0] != ' '
            &&& safe_text(s, limit)[0] != '.'
            &&& safe_text(s, limit).last() != ' '
            &&& safe_text(s, limit).last() != '.'
        },
{
    lemma_shaped(s, limit);
    lemma_marked(shaped(s, limit), limit);
}

/// No safe name is a reserved device name, whatever follows its first dot.
pub proof fn a_safe_name_is_no_device(s: Seq<char>, limit: nat)
    ensures
        !is_device(device_of(safe_text(s, limit))),
{
    let t = shaped(s, limit);
    if is_device(device_of(t)) {
        lemma_shaped(s, limit);
        lemma_marked(t, limit);
        let u = marked(t, limit);
        text::lemma_first_of(u, '.');
        let stem = u.take(text::first_of(u, '.') as int);
        let n = text::lemma_trim_end(stem, |c: char| text::is_space(c));
        if u.len() > 0 {
            if text::first_of(u, '.') == 0 {
                assert(u[0] == '_');
            }
            assert(stem[0] == '_');
            if n == 0 {
                assert(text::is_space(stem[0]));
            }
            assert(device_of(u)[0] == '_');
        }
    }
}

/// A safe name fits in its limit.
pub proof fn a_safe_name_fits(s: Seq<char>, limit: nat)
    ensures
        text::bytes(safe_text(s, limit)) <= limit,
{
    lemma_shaped(s, limit);
    lemma_marked(shaped(s, limit), limit);
}

/// Making a safe name safe again changes nothing.
pub proof fn safe_is_settled(s: Seq<char>, limit: nat)
    ensures
        safe_text(safe_text(s, limit), limit) == safe_text(s, limit),
{
    a_safe_name_fits(s, limit);
    let t = safe_text(s, limit);
    a_safe_name_holds_nothing_barred(s, limit);
    a_safe_name_has_clean_ends(s, limit);
    a_safe_name_is_no_device(s, limit);
    assert(cleaned(t) =~= t);
    assert(text::cut(t, limit) == t);
    let lead = |c: char| c == ' ';
    let tail = |c: char| c == ' ' || c == '.';
    text::lemma_trim_start_is(t, lead, 0);
    assert(t.skip(0) =~= t);
    text::lemma_trim_end_is(t, tail, t.len() as int);
    assert(t.take(t.len() as int) =~= t);
}

/// The tail stands whole at the end of the name, and holds nothing barred.
pub proof fn a_tail_is_never_cut(stem: Seq<char>, tail: Seq<char>)
    ensures
        tailed(stem, tail).len() >= tail.len(),
        tailed(stem, tail).skip(tailed(stem, tail).len() - tail.len()) == cleaned(tail),
        forall|i: int|
            0 <= i < tailed(stem, tail).len() ==> !is_barred(#[trigger] tailed(stem, tail)[i]),
{
    let room = room_beside(text::bytes(cleaned(tail)));
    let head = safe_text(stem, room);
    let whole = tailed(stem, tail);
    assert(whole.skip(whole.len() - tail.len()) =~= cleaned(tail));
    a_safe_name_holds_nothing_barred(stem, room);
    assert forall|i: int| 0 <= i < whole.len() implies !is_barred(#[trigger] whole[i]) by {
        if i < head.len() {
            assert(whole[i] == head[i]);
        } else {
            assert(whole[i] == cleaned(tail)[i - head.len()]);
        }
    }
}

/// A name with its tail is at most [`LONGEST`] bytes, for a tail that
/// leaves the stem a byte.
pub proof fn a_tailed_name_fits(stem: Seq<char>, tail: Seq<char>)
    requires
        text::bytes(cleaned(tail)) < LONGEST,
    ensures
        text::bytes(tailed(stem, tail)) <= LONGEST,
{
    let room = room_beside(text::bytes(cleaned(tail)));
    a_safe_name_fits(stem, room);
    text::lemma_bytes_concat(safe_text(stem, room), cleaned(tail));
}

/// A file always has a stem: some name stands before the tail, whatever
/// the pattern fills to.
pub proof fn a_file_always_has_a_stem(stem: Seq<char>, source: Seq<char>, tail: Seq<char>)
    ensures
        named(stem, source, tail).len() > tail.len(),
{
}

/// A file's name holds nothing barred and so no separator.
pub proof fn a_file_name_holds_nothing_barred(stem: Seq<char>, source: Seq<char>, tail: Seq<char>)
    ensures
        forall|i: int|
            0 <= i < named(stem, source, tail).len() ==> !is_barred(
                #[trigger] named(stem, source, tail)[i],
            ),
{
    a_tail_is_never_cut(levelled(stem), tail);
    a_tail_is_never_cut(source, tail);
    let last = seq!['_'] + cleaned(tail);
    assert forall|i: int| 0 <= i < last.len() implies !is_barred(#[trigger] last[i]) by {
        if i > 0 {
            assert(last[i] == cleaned(tail)[i - 1]);
        }
    }
}

/// A file's name is at most [`LONGEST`] bytes, for a tail that leaves the
/// stem a byte.
pub proof fn a_file_name_fits(stem: Seq<char>, source: Seq<char>, tail: Seq<char>)
    requires
        text::bytes(cleaned(tail)) < LONGEST,
    ensures
        text::bytes(named(stem, source, tail)) <= LONGEST,
{
    a_tailed_name_fits(levelled(stem), tail);
    a_tailed_name_fits(source, tail);
    text::lemma_bytes_concat(seq!['_'], cleaned(tail));
    lemma_bytes_of_one('_');
}

/// Every folder has a name, and every folder's name is safe.
pub proof fn every_folder_is_safe(s: Seq<char>)
    ensures
        forall|k: int|
            0 <= k < levels(s).len() ==> {
                &&& (#[trigger] levels(s)[k]).len() > 0
                &&& exists|level: Seq<char>| levels(s)[k] == #[trigger] safe_text(level, LONGEST as nat)
            },
    decreases s.len(),
{
    let n = level_end(s) as int;
    let level = safe_text(s.take(n), LONGEST as nat);
    let kept: Seq<Seq<char>> = if level.len() == 0 { seq![] } else { seq![level] };
    if n < s.len() {
        every_folder_is_safe(s.skip(n + 1));
        assert(levels(s) == kept + levels(s.skip(n + 1)));
    } else {
        assert(levels(s) == kept);
    }
    assert forall|k: int| 0 <= k < levels(s).len() implies {
        &&& (#[trigger] levels(s)[k]).len() > 0
        &&& exists|level: Seq<char>| levels(s)[k] == #[trigger] safe_text(level, LONGEST as nat)
    } by {
        if k < kept.len() {
            assert(levels(s)[k] == level);
        } else {
            assert(levels(s)[k] == levels(s.skip(n + 1))[k - kept.len()]);
        }
    }
}

/// No pattern, no folders: the files go in the destination itself.
pub proof fn no_pattern_no_folders(f: Fields)
    ensures
        expansion(Seq::empty(), f) == Filled::Text(Seq::empty()),
        levels(Seq::empty()) == Seq::<Seq<char>>::empty(),
{
    let e = Seq::<char>::empty();
    assert(e.take(0) =~= e);
    assert(cleaned(e) =~= e);
    assert(safe_text(e, LONGEST as nat) =~= e) by {
        assert(device_of(e).len() == 0) by {
            assert(e.take(text::first_of(e, '.') as int) =~= e);
        }
    }
}

/// A pattern with no `{` in it is its own text.
pub proof fn a_pattern_with_no_token_is_its_own_text(p: Seq<char>, f: Fields)
    requires
        forall|i: int| 0 <= i < p.len() ==> p[i] != '{',
    ensures
        expansion(p, f) == Filled::Text(p),
{
    text::lemma_first_of(p, '{');
}

/// The separators `s` holds, in order.
pub open spec fn separators(s: Seq<char>) -> Seq<char>
    decreases s.len(),
{
    if s.len() == 0 {
        seq![]
    } else if is_separator(s.last()) {
        separators(s.drop_last()).push(s.last())
    } else {
        separators(s.drop_last())
    }
}

proof fn lemma_separators_concat(a: Seq<char>, b: Seq<char>)
    ensures
        separators(a + b) == separators(a) + separators(b),
    decreases b.len(),
{
    if b.len() == 0 {
        assert(a + b =~= a);
    } else {
        lemma_separators_concat(a, b.drop_last());
        assert((a + b).drop_last() =~= a + b.drop_last());
        assert(separators(a + b) =~= separators(a) + separators(b));
    }
}

proof fn lemma_no_separators(s: Seq<char>)
    requires
        forall|i: int| 0 <= i < s.len() ==> !is_separator(#[trigger] s[i]),
    ensures
        separators(s) == Seq::<char>::empty(),
    decreases s.len(),
{
    if s.len() > 0 {
        let t = s.drop_last();
        assert forall|i: int| 0 <= i < t.len() implies !is_separator(#[trigger] t[i]) by {
            assert(!is_separator(s[i]));
        }
        lemma_no_separators(t);
    }
}

proof fn lemma_token_has_no_separator(t: Seq<char>, f: Fields)
    requires
        token_value(t, f) is Some,
    ensures
        separators(t) == Seq::<char>::empty(),
{
    reveal_strlit("date");
    reveal_strlit("yyyy");
    reveal_strlit("mm");
    reveal_strlit("dd");
    reveal_strlit("name");
    reveal_strlit("camera");
    reveal_strlit("seq");
    lemma_no_separators(t);
}

/// A token's value never adds a folder: the filled pattern has the
/// separators of the pattern's own text, in their order, and no more.
pub proof fn a_token_adds_no_folder(p: Seq<char>, f: Fields)
    ensures
        expansion(p, f) matches Filled::Text(t) ==> separators(t) == separators(p),
    decreases p.len(),
{
    text::lemma_first_of(p, '{');
    let open = text::first_of(p, '{') as int;
    if open < p.len() {
        let after = p.skip(open + 1);
        text::lemma_first_of(after, '}');
        let close = text::first_of(after, '}') as int;
        if close < after.len() {
            let token = after.take(close);
            let rest = after.skip(close + 1);
            a_token_adds_no_folder(rest, f);
            match token_value(token, f) {
                Some(v) => {
                    lemma_token_has_no_separator(token, f);
                    assert forall|i: int| 0 <= i < levelled(v).len() implies !is_separator(
                        #[trigger] levelled(v)[i],
                    ) by {}
                    lemma_no_separators(levelled(v));
                    let lit = p.take(open);
                    assert(p =~= lit + (seq!['{'] + (token + (seq!['}'] + rest))));
                    lemma_separators_concat(lit, seq!['{'] + (token + (seq!['}'] + rest)));
                    lemma_separators_concat(seq!['{'], token + (seq!['}'] + rest));
                    lemma_separators_concat(token, seq!['}'] + rest);
                    lemma_separators_concat(seq!['}'], rest);
                    lemma_no_separators(seq!['{']);
                    lemma_no_separators(seq!['}']);
                    match expansion(rest, f) {
                        Filled::Text(t) => {
                            lemma_separators_concat(lit + levelled(v), t);
                            lemma_separators_concat(lit, levelled(v));
                            assert(separators(lit) + Seq::<char>::empty() =~= separators(lit));
                            assert(Seq::<char>::empty() + separators(rest) =~= separators(rest));
                            assert(separators(lit + levelled(v) + t) =~= separators(p));
                        },
                        _ => {},
                    }
                },
                None => {},
            }
        }
    }
}

/// Whether the pattern names the frame's place in the run.
pub open spec fn names_seq(p: Seq<char>) -> bool
    decreases p.len(),
{
    let open = text::first_of(p, '{') as int;
    if open >= p.len() {
        false
    } else {
        let after = p.skip(open + 1);
        let close = text::first_of(after, '}') as int;
        if close >= after.len() {
            false
        } else {
            after.take(close) == "seq"@ || names_seq(after.skip(close + 1))
        }
    }
}

/// Two frames alike in all but their place in the run.
pub open spec fn differ_in_seq(f: Fields, g: Fields) -> bool {
    f.day == g.day && f.name@ == g.name@ && f.camera@ == g.camera@ && f.seq != g.seq
}

proof fn lemma_seq_lengths(p: Seq<char>, f: Fields, g: Fields, a: Seq<char>, b: Seq<char>)
    requires
        differ_in_seq(f, g),
        expansion(p, f) == Filled::Text(a),
        expansion(p, g) == Filled::Text(b),
    ensures
        !names_seq(p) ==> a == b,
        names_seq(p) ==> {
            let m = text::padded(f.seq as nat, SEQ_WIDTH as nat).len();
            let n = text::padded(g.seq as nat, SEQ_WIDTH as nat).len();
            &&& m < n ==> a.len() < b.len()
            &&& n < m ==> b.len() < a.len()
            &&& m == n ==> a.len() == b.len() && a != b
        },
    decreases p.len(),
{
    text::lemma_first_of(p, '{');
    let open = text::first_of(p, '{') as int;
    if open < p.len() {
        let after = p.skip(open + 1);
        text::lemma_first_of(after, '}');
        let close = text::first_of(after, '}') as int;
        let token = after.take(close);
        let rest = after.skip(close + 1);
        let ra = expansion(rest, f)->Text_0;
        let rb = expansion(rest, g)->Text_0;
        lemma_seq_lengths(rest, f, g, ra, rb);
        let va = levelled(token_value(token, f)->0);
        let vb = levelled(token_value(token, g)->0);
        let lit = p.take(open);
        assert(a == lit + va + ra);
        assert(b == lit + vb + rb);
        reveal_strlit("date");
        reveal_strlit("yyyy");
        reveal_strlit("mm");
        reveal_strlit("dd");
        reveal_strlit("name");
        reveal_strlit("camera");
        reveal_strlit("seq");
        let sa = text::padded(f.seq as nat, SEQ_WIDTH as nat);
        let sb = text::padded(g.seq as nat, SEQ_WIDTH as nat);
        text::lemma_value_of_padded(f.seq as nat, SEQ_WIDTH as nat);
        text::lemma_value_of_padded(g.seq as nat, SEQ_WIDTH as nat);
        if token == "seq"@ {
            assert(token_value(token, f) == Some(sa)) by {
                assert("seq"@.len() == 3);
                assert("seq"@[0] == 's');
            }
            assert(token_value(token, g) == Some(sb)) by {
                assert("seq"@.len() == 3);
                assert("seq"@[0] == 's');
            }
            assert(levelled(sa) =~= sa) by {
                assert forall|i: int| 0 <= i < sa.len() implies levelled(sa)[i] == sa[i] by {
                    assert(text::is_digit(sa[i]));
                }
            }
            assert(levelled(sb) =~= sb) by {
                assert forall|i: int| 0 <= i < sb.len() implies levelled(sb)[i] == sb[i] by {
                    assert(text::is_digit(sb[i]));
                }
            }
            if sa.len() == sb.len() {
                if a == b {
                    assert(sa =~= a.subrange(open, open + sa.len()));
                    assert(sb =~= b.subrange(open, open + sb.len()));
                    assert(false);
                }
            }
        } else {
            assert(va == vb);
            if names_seq(rest) && sa.len() == sb.len() {
                if a == b {
                    assert(ra =~= a.skip(open + va.len()));
                    assert(rb =~= b.skip(open + vb.len()));
                    assert(false);
                }
            }
        }
    }
}

/// A pattern with `{seq}` in it fills differently for two places in the
/// run: a name met before is made unique by the place.
pub proof fn seq_makes_a_name_unique(p: Seq<char>, f: Fields, g: Fields)
    requires
        differ_in_seq(f, g),
        names_seq(p),
    ensures
        expansion(p, f) is Text ==> expansion(p, f) != expansion(p, g),
{
    match (expansion(p, f), expansion(p, g)) {
        (Filled::Text(a), Filled::Text(b)) => {
            lemma_seq_lengths(p, f, g, a, b);
        },
        _ => {},
    }
}

/// Frames that differ in their place in the run alone, or not at all, fill
/// a pattern without `{seq}` alike.
pub proof fn without_seq_a_name_is_the_same(p: Seq<char>, f: Fields, g: Fields)
    requires
        f.day == g.day,
        f.name@ == g.name@,
        f.camera@ == g.camera@,
        !names_seq(p),
    ensures
        expansion(p, f) == expansion(p, g),
    decreases p.len(),
{
    let open = text::first_of(p, '{') as int;
    if open < p.len() {
        let after = p.skip(open + 1);
        let close = text::first_of(after, '}') as int;
        if close < after.len() {
            let token = after.take(close);
            assert(token != "seq"@);
            assert(token_value(token, f) == token_value(token, g));
            without_seq_a_name_is_the_same(after.skip(close + 1), f, g);
        }
    }
}

proof fn lemma_first_in_two(a: Seq<char>, b: Seq<char>, c: char)
    ensures
        text::first_of(a + b, c) == if text::first_of(a, c) < a.len() {
            text::first_of(a, c)
        } else {
            a.len() + text::first_of(b, c)
        },
{
    text::lemma_first_of(a, c);
    text::lemma_first_of(b, c);
    let n: nat = if text::first_of(a, c) < a.len() {
        text::first_of(a, c)
    } else {
        a.len() + text::first_of(b, c)
    };
    assert forall|i: int| 0 <= i < n implies (a + b)[i] != c by {
        if i >= a.len() {
            assert((a + b)[i] == b[i - a.len()]);
        }
    }
    text::lemma_first_of_is(a + b, c, n as int);
}

/// A pattern fills piece by piece: one that fills and another after it are
/// what each fills to, and the first that holds what is no token is what
/// is wrong with the whole. (A piece with a `{` left open may be closed by
/// the next.)
pub proof fn a_pattern_fills_piece_by_piece(p: Seq<char>, q: Seq<char>, f: Fields)
    ensures
        expansion(p, f) matches Filled::Text(a) ==> expansion(p + q, f) == after_text(
            a,
            expansion(q, f),
        ),
        expansion(p, f) matches Filled::Unknown(t) ==> expansion(p + q, f) == Filled::Unknown(t),
    decreases p.len(),
{
    let both = p + q;
    lemma_first_in_two(p, q, '{');
    text::lemma_first_of(p, '{');
    text::lemma_first_of(q, '{');
    let open = text::first_of(p, '{') as int;
    if open >= p.len() {
        let more = text::first_of(q, '{') as int;
        if more < q.len() {
            let after = q.skip(more + 1);
            assert(both.skip(p.len() + more + 1) =~= after);
            assert(both.take(p.len() + more) =~= p + q.take(more));
            let close = text::first_of(after, '}') as int;
            if close < after.len() {
                match token_value(after.take(close), f) {
                    Some(v) => match expansion(after.skip(close + 1), f) {
                        Filled::Text(rest) => {
                            assert(p + q.take(more) + levelled(v) + rest =~= p + (q.take(more)
                                + levelled(v) + rest));
                        },
                        _ => {},
                    },
                    None => {},
                }
            }
        }
    } else {
        let after = p.skip(open + 1);
        assert(both.skip(open + 1) =~= after + q);
        assert(both.take(open) =~= p.take(open));
        lemma_first_in_two(after, q, '}');
        text::lemma_first_of(after, '}');
        let close = text::first_of(after, '}') as int;
        if close < after.len() {
            let rest = after.skip(close + 1);
            assert((after + q).take(close) =~= after.take(close));
            assert((after + q).skip(close + 1) =~= rest + q);
            a_pattern_fills_piece_by_piece(rest, q, f);
            match (token_value(after.take(close), f), expansion(rest, f), expansion(q, f)) {
                (Some(v), Filled::Text(a), Filled::Text(b)) => {
                    assert(p.take(open) + levelled(v) + (a + b) =~= p.take(open) + levelled(v) + a
                        + b);
                },
                _ => {},
            }
        }
    }
}

/// With room for both a name is the stem made safe, as it would be alone,
/// and the tail made clean. A device's stem needs room for its mark too.
pub proof fn with_room_for_both_neither_is_cut(stem: Seq<char>, tail: Seq<char>)
    requires
        text::bytes(cleaned(stem)) + text::bytes(cleaned(tail)) <= LONGEST,
        is_device(device_of(shaped(stem, LONGEST as nat))) && tail.len() > 0 ==> 1 + text::bytes(
            shaped(stem, LONGEST as nat),
        ) + text::bytes(cleaned(tail)) <= LONGEST,
    ensures
        tailed(stem, tail) == safe_text(stem, LONGEST as nat) + cleaned(tail),
{
    let n = text::bytes(cleaned(tail));
    let room = room_beside(n);
    text::lemma_bytes_bounds(cleaned(stem));
    text::lemma_bytes_bounds(cleaned(tail));
    assert(text::cut(cleaned(stem), room) == cleaned(stem));
    assert(text::cut(cleaned(stem), LONGEST as nat) == cleaned(stem));
    let t = shaped(stem, LONGEST as nat);
    assert(shaped(stem, room) == t);
    if is_device(device_of(t)) {
        if tail.len() == 0 {
            assert(cleaned(tail) =~= seq![]);
            assert(room == LONGEST);
        } else {
            let u = seq!['_'] + t;
            text::lemma_bytes_concat(seq!['_'], t);
            assert(text::bytes(seq!['_']) == 1) by {
                reveal_with_fuel(text::bytes, 2);
                assert(seq!['_'].drop_last().len() == 0);
            }
            assert(n < LONGEST);
            assert(text::cut(u, room) == u);
            assert(text::cut(u, LONGEST as nat) == u);
        }
    }
}

/// The day as `{date}` writes it reads back: it is the day of an EXIF
/// date.
pub proof fn a_day_written_reads_back(d: Day)
    requires
        1 <= d.year <= 9999,
        1 <= d.month <= 12,
        1 <= d.day <= 31,
    ensures
        starts_with_day(text::trimmed(date_text(d))),
        day_at_start(text::trimmed(date_text(d))) == d,
{
    let (y, m, k) = (d.year as nat, d.month as nat, d.day as nat);
    text::lemma_padded_width(y);
    text::lemma_padded_width(m);
    text::lemma_padded_width(k);
    text::lemma_value_of_padded(y, 4);
    text::lemma_value_of_padded(m, 2);
    text::lemma_value_of_padded(k, 2);
    let (a, b, c) = (text::padded(y, 4), text::padded(m, 2), text::padded(k, 2));
    let s = date_text(d);
    assert(s == a + seq!['-'] + b + seq!['-'] + c);
    assert(s.len() == 10);
    assert(s.subrange(0, 4) =~= a);
    assert(s.subrange(5, 7) =~= b);
    assert(s.subrange(8, 10) =~= c);
    assert(s[4] == '-' && s[7] == '-');
    assert forall|i: int| 0 <= i < 4 implies text::is_digit(#[trigger] s[i]) by {
        assert(s[i] == a[i]);
    }
    assert forall|i: int| 5 <= i < 7 implies text::is_digit(#[trigger] s[i]) by {
        assert(s[i] == b[i - 5]);
    }
    assert forall|i: int| 8 <= i < 10 implies text::is_digit(#[trigger] s[i]) by {
        assert(s[i] == c[i - 8]);
    }
    let space = |c: char| text::is_space(c);
    assert(text::is_digit(s[0]) && text::is_digit(s[9]));
    text::lemma_trim_start_is(s, space, 0);
    assert(s.skip(0) =~= s);
    text::lemma_trim_end_is(s, space, 10);
    assert(s.take(10) =~= s);
    assert(text::trimmed(s) == s);
}

/// The digits a number was read from are what writing it gives back.
proof fn lemma_padded_of_digits(s: Seq<char>)
    requires
        s.len() > 0,
        forall|i: int| 0 <= i < s.len() ==> text::is_digit(#[trigger] s[i]),
    ensures
        text::padded(text::value_of(s), s.len()) == s,
        text::decimal(text::value_of(s)).len() <= s.len(),
    decreases s.len(),
{
    let t = s.drop_last();
    let d = (s.last() as u32 - 0x30) as nat;
    let n = text::value_of(s);
    let c = s.last();
    assert(c == s[s.len() - 1]);
    assert(text::is_digit(c));
    assert(0x30 <= c as u32 <= 0x39);
    assert(d == c as u32 - 0x30);
    vstd::utf8::char_u32_cast(c, c as u32);
    assert(text::digit(d) == c);
    if t.len() == 0 {
        assert(text::value_of(t) == 0);
        assert(n == d);
        assert(text::padded(n, 1) =~= s);
    } else {
        assert forall|i: int| 0 <= i < t.len() implies text::is_digit(#[trigger] t[i]) by {
            assert(text::is_digit(s[i]));
        }
        lemma_padded_of_digits(t);
        let m = text::value_of(t);
        assert(n == 10 * m + d);
        if n < 10 {
            assert(m == 0);
            assert(text::decimal(0) =~= seq!['0']);
            assert(t =~= text::zeros(t.len() as int)) by {
                assert(text::padded(0, t.len()) =~= text::zeros(t.len() as int));
            }
            assert(text::padded(n, s.len()) =~= s);
        } else {
            assert(n / 10 == m && n % 10 == d);
            assert(text::decimal(n) == text::decimal(m).push(text::digit(d)));
            assert(text::padded(n, s.len()) =~= text::padded(m, t.len()).push(s.last()));
            assert(text::padded(n, s.len()) =~= s);
        }
    }
}

/// A day read from an EXIF date writes as that date, its digits as they
/// were and hyphens between them: either spelling gives the one name.
pub proof fn a_day_writes_as_it_was_read(t: Seq<char>)
    requires
        starts_with_day(t),
    ensures
        date_text(day_at_start(t)) == t.subrange(0, 4) + seq!['-'] + t.subrange(5, 7) + seq!['-']
            + t.subrange(8, 10),
{
    let y = t.subrange(0, 4);
    let m = t.subrange(5, 7);
    let d = t.subrange(8, 10);
    assert forall|i: int| 0 <= i < y.len() implies text::is_digit(#[trigger] y[i]) by {
        assert(text::is_digit(t[i]));
    }
    assert forall|i: int| 0 <= i < m.len() implies text::is_digit(#[trigger] m[i]) by {
        assert(text::is_digit(t[i + 5]));
    }
    assert forall|i: int| 0 <= i < d.len() implies text::is_digit(#[trigger] d[i]) by {
        assert(text::is_digit(t[i + 8]));
    }
    lemma_padded_of_digits(y);
    lemma_padded_of_digits(m);
    lemma_padded_of_digits(d);
    lemma_value_below(y);
}

proof fn lemma_value_below(s: Seq<char>)
    requires
        s.len() == 4,
        forall|i: int| 0 <= i < s.len() ==> text::is_digit(#[trigger] s[i]),
    ensures
        text::value_of(s) <= 9999,
{
    reveal_with_fuel(text::value_of, 5);
    assert(text::is_digit(s[0]) && text::is_digit(s[1]) && text::is_digit(s[2]) && text::is_digit(
        s[3],
    ));
}

/// A day is read from a text whatever follows it, with hyphens or with
/// colons between its numbers; with one of each it is not.
pub proof fn a_day_is_read_with_either_mark(d: Day, c: char, e: char, rest: Seq<char>)
    requires
        1 <= d.year <= 9999,
        1 <= d.month <= 12,
        1 <= d.day <= 31,
        c == ':' || c == '-',
    ensures
        ({
            let (y, m, k) = (
                text::padded(d.year as nat, 4),
                text::padded(d.month as nat, 2),
                text::padded(d.day as nat, 2),
            );
            let t = y + seq![c] + m + seq![e] + k + rest;
            &&& starts_with_day(t) <==> c == e
            &&& c == e ==> day_at_start(t) == d
        }),
{
    let (y, m, k) = (d.year as nat, d.month as nat, d.day as nat);
    text::lemma_padded_width(y);
    text::lemma_padded_width(m);
    text::lemma_padded_width(k);
    text::lemma_value_of_padded(y, 4);
    text::lemma_value_of_padded(m, 2);
    text::lemma_value_of_padded(k, 2);
    let (a, b, n) = (text::padded(y, 4), text::padded(m, 2), text::padded(k, 2));
    let s = a + seq![c] + b + seq![e] + n + rest;
    assert(s.subrange(0, 4) =~= a);
    assert(s.subrange(5, 7) =~= b);
    assert(s.subrange(8, 10) =~= n);
    assert(s[4] == c && s[7] == e);
    assert forall|i: int| 0 <= i < 4 implies text::is_digit(#[trigger] s[i]) by {
        assert(s[i] == a[i]);
    }
    assert forall|i: int| 5 <= i < 7 implies text::is_digit(#[trigger] s[i]) by {
        assert(s[i] == b[i - 5]);
    }
    assert forall|i: int| 8 <= i < 10 implies text::is_digit(#[trigger] s[i]) by {
        assert(s[i] == n[i - 8]);
    }
}

/// A text that starts with a day has one of the calendar's in it: a year,
/// one of twelve months and a day no month is longer than.
pub proof fn a_day_read_is_on_the_calendar(t: Seq<char>)
    requires
        starts_with_day(t),
    ensures
        1 <= day_at_start(t).year <= 9999,
        1 <= day_at_start(t).month <= 12,
        1 <= day_at_start(t).day <= 31,
        t.len() >= 10,
{
    let y = t.subrange(0, 4);
    assert forall|i: int| 0 <= i < y.len() implies text::is_digit(#[trigger] y[i]) by {
        assert(text::is_digit(t[i]));
    }
    lemma_value_below(y);
}

/// What each token stands for: the parts of the day, which are the date
/// put together, the source's name, its camera, and its number in the
/// import, as wide as four digits or wider.
pub proof fn a_token_stands_for_its_field(f: Fields)
    requires
        f.day.year >= 0,
    ensures
        token_value("name"@, f) == Some(f.name@),
        text::trimmed(f.camera@).len() > 0 ==> token_value("camera"@, f) == Some(
            text::trimmed(f.camera@),
        ),
        text::trimmed(f.camera@).len() == 0 ==> token_value("camera"@, f) == Some(
            "Unknown camera"@,
        ),
        token_value("yyyy"@, f) matches Some(y) && text::value_of(y) == f.day.year && y.len() >= 4,
        token_value("mm"@, f) matches Some(m) && text::value_of(m) == f.day.month && m.len() >= 2,
        token_value("dd"@, f) matches Some(d) && text::value_of(d) == f.day.day && d.len() >= 2,
        token_value("seq"@, f) matches Some(n) && text::value_of(n) == f.seq && n.len() >= 4,
        token_value("date"@, f) == Some(
            token_value("yyyy"@, f)->0 + seq!['-'] + token_value("mm"@, f)->0 + seq!['-']
                + token_value("dd"@, f)->0,
        ),
{
    reveal_strlit("date");
    reveal_strlit("yyyy");
    reveal_strlit("mm");
    reveal_strlit("dd");
    reveal_strlit("name");
    reveal_strlit("camera");
    reveal_strlit("seq");
    assert("yyyy"@[0] != "date"@[0]);
    assert("name"@[0] != "date"@[0] && "name"@[0] != "yyyy"@[0]);
    assert("dd"@[0] != "mm"@[0]);
    assert("mm"@.len() == 2 && "dd"@.len() == 2 && "seq"@.len() == 3 && "camera"@.len() == 6);
    text::lemma_value_of_padded(f.day.year as nat, 4);
    text::lemma_value_of_padded(f.day.month as nat, 2);
    text::lemma_value_of_padded(f.day.day as nat, 2);
    text::lemma_value_of_padded(f.seq as nat, SEQ_WIDTH as nat);
}

/// A token in a pattern is filled with what it stands for, its separators
/// made harmless; braces about anything else are refused by what is in
/// them, and a brace left open is refused.
pub proof fn a_token_is_filled_with_its_value(t: Seq<char>, f: Fields)
    requires
        !t.contains('}'),
    ensures
        token_value(t, f) matches Some(v) ==> expansion(braced(t), f) == Filled::Text(levelled(v)),
        token_value(t, f) is None ==> expansion(braced(t), f) == Filled::Unknown(t),
        expansion(seq!['{'] + t, f) is Unclosed,
{
    let p = braced(t);
    text::lemma_first_of_is(p, '{', 0);
    let after = p.skip(1);
    assert forall|i: int| 0 <= i < t.len() implies after[i] != '}' by {
        assert(after[i] == t[i]);
        assert(t.contains(t[i]));
    }
    text::lemma_first_of_is(after, '}', t.len() as int);
    assert(after.take(t.len() as int) =~= t);
    let rest = after.skip(t.len() as int + 1);
    assert(rest.len() == 0);
    assert(expansion(rest, f) == Filled::Text(rest)) by {
        text::lemma_first_of(rest, '{');
    }
    match token_value(t, f) {
        Some(v) => {
            assert(p.take(0) + levelled(v) + rest =~= levelled(v));
        },
        None => {},
    }
    let q = seq!['{'] + t;
    text::lemma_first_of_is(q, '{', 0);
    assert(q.skip(1) =~= t);
    assert forall|i: int| 0 <= i < t.len() implies t[i] != '}' by {
        assert(t.contains(t[i]));
    }
    text::lemma_first_of_is(t, '}', t.len() as int);
}

/// A value put into a pattern holds no separator, and is otherwise as it
/// was, character for character.
pub proof fn a_value_has_no_separator(s: Seq<char>, i: int)
    requires
        0 <= i < s.len(),
    ensures
        levelled(s).len() == s.len(),
        levelled(s)[i] != '/' && levelled(s)[i] != '\\',
        s[i] != '/' && s[i] != '\\' ==> levelled(s)[i] == s[i],
        s[i] == '/' || s[i] == '\\' ==> levelled(s)[i] == '_',
{
}

/// What no name may hold is the control characters and the nine that
/// Windows refuses; cleaning puts a stroke in the place of each, and
/// leaves every other character.
pub proof fn a_clean_name_is_the_name_without_what_is_barred(s: Seq<char>, i: int)
    requires
        0 <= i < s.len(),
    ensures
        cleaned(s).len() == s.len(),
        is_barred(s[i]) <==> text::is_control(s[i]) || s[i] == '<' || s[i] == '>' || s[i] == ':'
            || s[i] == '"' || s[i] == '/' || s[i] == '\\' || s[i] == '|' || s[i] == '?' || s[i]
            == '*',
        is_barred(s[i]) ==> cleaned(s)[i] == '_',
        !is_barred(s[i]) ==> cleaned(s)[i] == s[i],
        cleaned(cleaned(s)) == cleaned(s),
{
    assert(cleaned(cleaned(s)) =~= cleaned(s));
}

/// A name that is fit to use is used as it is.
pub proof fn a_name_fit_to_use_is_kept(s: Seq<char>, limit: nat)
    requires
        forall|i: int| 0 <= i < s.len() ==> !is_barred(#[trigger] s[i]),
        text::bytes(s) <= limit,
        s.len() > 0 ==> s[0] != ' ' && s[0] != '.' && s.last() != ' ' && s.last() != '.',
        !is_device(device_of(s)),
    ensures
        safe_text(s, limit) == s,
{
    assert(cleaned(s) =~= s);
    assert(text::cut(s, limit) == s);
    let lead = |c: char| c == ' ';
    let tail = |c: char| c == ' ' || c == '.';
    text::lemma_trim_start_is(s, lead, 0);
    assert(s.skip(0) =~= s);
    text::lemma_trim_end_is(s, tail, s.len() as int);
    assert(s.take(s.len() as int) =~= s);
}

/// The spaces before a name go, and the spaces and dots after it; one
/// that begins with a dot then begins with a stroke, so that it is not
/// hidden.
pub proof fn the_ends_of_a_name_are_taken_off(s: Seq<char>) -> (r: (int, int))
    ensures
        0 <= r.0 <= r.1 <= s.len(),
        stripped(s) == s.subrange(r.0, r.1),
        forall|i: int| 0 <= i < r.0 ==> #[trigger] s[i] == ' ',
        forall|i: int| r.1 <= i < s.len() ==> #[trigger] s[i] == ' ' || s[i] == '.',
        r.0 < r.1 ==> s[r.0] != ' ' && s[r.1 - 1] != ' ' && s[r.1 - 1] != '.',
        unhidden(stripped(s)).len() == stripped(s).len(),
        stripped(s).len() > 0 ==> unhidden(stripped(s))[0] == if stripped(s)[0] == '.' {
            '_'
        } else {
            stripped(s)[0]
        },
        forall|i: int|
            0 < i < stripped(s).len() ==> #[trigger] unhidden(stripped(s))[i] == stripped(s)[i],
{
    let lead = |c: char| c == ' ';
    let tail = |c: char| c == ' ' || c == '.';
    let a = text::lemma_trim_start(s, lead);
    let t = s.skip(a);
    let n = text::lemma_trim_end(t, tail);
    assert(t.take(n) =~= s.subrange(a, a + n));
    assert forall|i: int| 0 <= i < a implies #[trigger] s[i] == ' ' by {
        assert(lead(s[i]));
    }
    assert forall|i: int| a + n <= i < s.len() implies #[trigger] s[i] == ' ' || s[i] == '.' by {
        assert(tail(t[i - a]));
    }
    if n > 0 {
        assert(!tail(t[n - 1]));
        assert(!lead(s[a]));
    }
    (a, a + n)
}

/// The names that Windows keeps for devices, with a number or without.
pub proof fn the_devices_are_these(d: Seq<char>, n: char)
    ensures
        is_device("CON"@) && is_device("PRN"@) && is_device("AUX"@) && is_device("NUL"@),
        '0' <= n <= '9' ==> is_device("COM"@ + seq![n]) && is_device("LPT"@ + seq![n]),
        is_device(d) ==> d == "CON"@ || d == "PRN"@ || d == "AUX"@ || d == "NUL"@ || (d.len() == 4
            && text::is_digit(d[3]) && (d.take(3) == "COM"@ || d.take(3) == "LPT"@)),
{
    reveal_strlit("CON");
    reveal_strlit("PRN");
    reveal_strlit("AUX");
    reveal_strlit("NUL");
    reveal_strlit("COM");
    reveal_strlit("LPT");
    text::what_is_printed_is_no_space(n);
    let (com, lpt) = ("COM"@ + seq![n], "LPT"@ + seq![n]);
    assert(com.len() == 4 && com[0] == 'C' && com[1] == 'O' && com[2] == 'M' && com[3] == n);
    assert(lpt.len() == 4 && lpt[0] == 'L' && lpt[1] == 'P' && lpt[2] == 'T' && lpt[3] == n);
    if is_device(d) {
        if d.len() == 3 {
            if d[0] == 'C' {
                assert(d =~= "CON"@);
            } else if d[0] == 'P' {
                assert(d =~= "PRN"@);
            } else if d[0] == 'A' {
                assert(d =~= "AUX"@);
            } else {
                assert(d =~= "NUL"@);
            }
        } else if d[0] == 'C' {
            assert(d.take(3) =~= "COM"@);
        } else {
            assert(d.take(3) =~= "LPT"@);
        }
    }
}

/// A name is taken for a device by what stands before its first dot, the
/// case of its letters aside, whatever follows.
pub proof fn a_device_is_known_by_its_stem(stem: Seq<char>, rest: Seq<char>)
    requires
        !stem.contains('.'),
        stem.len() > 0 ==> !text::is_space(stem.last()),
    ensures
        device_of(stem) == stem.map_values(|c: char| text::upper(c)),
        device_of(stem + seq!['.'] + rest) == device_of(stem),
{
    let s = stem + seq!['.'] + rest;
    assert forall|i: int| 0 <= i < stem.len() implies stem[i] != '.' by {
        assert(stem.contains(stem[i]));
    }
    text::lemma_first_of_is(stem, '.', stem.len() as int);
    text::lemma_first_of_is(s, '.', stem.len() as int);
    assert(stem.take(stem.len() as int) =~= stem);
    assert(s.take(stem.len() as int) =~= stem);
    let space = |c: char| text::is_space(c);
    text::lemma_trim_end_is(stem, space, stem.len() as int);
    assert(device_of(stem) =~= stem.map_values(|c: char| text::upper(c)));
}

/// A device's name is marked with a stroke before it, with room for that,
/// and is otherwise the name it was.
pub proof fn a_device_is_marked(s: Seq<char>, limit: nat)
    requires
        is_device(device_of(shaped(s, limit))),
        text::bytes(shaped(s, limit)) < limit,
    ensures
        safe_text(s, limit) == seq!['_'] + shaped(s, limit),
{
    let t = shaped(s, limit);
    let u = seq!['_'] + t;
    lemma_shaped(s, limit);
    lemma_bytes_of_one('_');
    text::lemma_bytes_concat(seq!['_'], t);
    assert(text::cut(u, limit) == u);
    let lead = |c: char| c == ' ';
    let tail = |c: char| c == ' ' || c == '.';
    text::lemma_trim_start_is(u, lead, 0);
    assert(u.skip(0) =~= u);
    assert(t.len() > 0 ==> u.last() == t.last());
    text::lemma_trim_end_is(u, tail, u.len() as int);
    assert(u.take(u.len() as int) =~= u);
}

/// A tail leaves the rest of the longest name to the stem, and never less
/// than one byte.
pub proof fn a_stem_has_the_rest_of_the_room(n: nat)
    ensures
        room_beside(n) >= 1,
        n < LONGEST ==> room_beside(n) + n == LONGEST,
        n >= LONGEST ==> room_beside(n) == 1,
        LONGEST == 200,
{
}

/// The tail of a name is a dot and the extension, and there is none
/// without one.
pub proof fn a_tail_is_the_extension(extension: Seq<char>)
    ensures
        extension.len() == 0 ==> tail_of(extension).len() == 0,
        extension.len() > 0 ==> tail_of(extension)[0] == '.' && tail_of(extension).skip(1)
            == extension,
{
    if extension.len() > 0 {
        assert(tail_of(extension).skip(1) =~= extension);
    }
}

/// A file is named by its pattern where that comes to a name, by its
/// source where it does not, and by a stroke where neither does. A name
/// that is fit to use, with its tail, is used as it is.
pub proof fn a_file_is_named_by_its_pattern(stem: Seq<char>, source: Seq<char>, tail: Seq<char>)
    requires
        forall|i: int| 0 <= i < tail.len() ==> !is_barred(#[trigger] tail[i]),
    ensures
        stem.len() > 0 && (forall|i: int| 0 <= i < stem.len() ==> !is_barred(#[trigger] stem[i]))
            && text::bytes(stem) + text::bytes(tail) <= LONGEST && stem[0] != ' ' && stem[0] != '.'
            && stem.last() != ' ' && stem.last() != '.' && !is_device(device_of(stem)) ==> named(
            stem,
            source,
            tail,
        ) == stem + tail,
        stem.len() == 0 ==> named(stem, source, tail) == named(source, source, tail) || (exists|
            i: int,
        |
            0 <= i < source.len() && is_separator(#[trigger] source[i])),
        stem.len() == 0 && source.len() == 0 ==> named(stem, source, tail) == seq!['_'] + tail,
{
    assert(cleaned(tail) =~= tail);
    let room = room_beside(text::bytes(tail));
    if stem.len() > 0 && (forall|i: int| 0 <= i < stem.len() ==> !is_barred(#[trigger] stem[i]))
        && text::bytes(stem) + text::bytes(tail) <= LONGEST && stem[0] != ' ' && stem[0] != '.'
        && stem.last() != ' ' && stem.last() != '.' && !is_device(device_of(stem)) {
        assert forall|i: int| 0 <= i < stem.len() implies !is_separator(#[trigger] stem[i]) by {
            assert(!is_barred(stem[i]));
        }
        assert(levelled(stem) =~= stem);
        text::lemma_bytes_bounds(stem);
        a_name_fit_to_use_is_kept(stem, room);
    }
    if stem.len() == 0 {
        assert(levelled(stem) =~= stem);
        lemma_nothing_is_safe(stem, room);
        if source.len() == 0 {
            assert(source =~= stem);
        }
        if !(exists|i: int| 0 <= i < source.len() && is_separator(#[trigger] source[i])) {
            assert(levelled(source) =~= source);
        }
    }
}

proof fn lemma_nothing_is_safe(s: Seq<char>, limit: nat)
    requires
        s.len() == 0,
    ensures
        safe_text(s, limit).len() == 0,
{
    a_device_is_known_by_its_stem(s, s);
    assert(device_of(s).len() == 0);
    a_name_fit_to_use_is_kept(s, limit);
}

/// A folder pattern is read level by level: what stands before a
/// separator gives its folders, and what stands after it gives the rest.
/// A level is one folder, under its safe name, or none where that is
/// empty.
pub proof fn folders_are_read_level_by_level(a: Seq<char>, c: char, b: Seq<char>)
    requires
        forall|i: int| 0 <= i < a.len() ==> !is_separator(#[trigger] a[i]),
        c == '/' || c == '\\',
    ensures
        safe_text(a, LONGEST as nat).len() > 0 ==> levels(a) == seq![
            safe_text(a, LONGEST as nat),
        ],
        safe_text(a, LONGEST as nat).len() == 0 ==> levels(a) == Seq::<Seq<char>>::empty(),
        levels(a + seq![c] + b) == levels(a) + levels(b),
{
    lemma_level_end_is(a, a.len() as int);
    assert(a.take(a.len() as int) =~= a);
    let s = a + seq![c] + b;
    let n = a.len() as int;
    assert forall|i: int| 0 <= i < n implies !is_separator(#[trigger] s[i]) by {
        assert(s[i] == a[i]);
    }
    lemma_level_end_is(s, n);
    assert(s.take(n) =~= a);
    assert(s.skip(n + 1) =~= b);
    let level = safe_text(a, LONGEST as nat);
    let kept: Seq<Seq<char>> = if level.len() == 0 {
        seq![]
    } else {
        seq![level]
    };
    assert(levels(a) == kept);
    assert(levels(s) == kept + levels(b));
}

} // verus!
