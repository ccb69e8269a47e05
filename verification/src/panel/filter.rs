//! The browser's filter: which frames pass it, its chips, and how many
//! frames each of them would leave.

use crate::panel::browser;
use crate::panel::meta;
use crate::panel::meta::{Label, Meta};
use crate::panel::selection;
use crate::text;
use vstd::prelude::*;

verus! {

/// How many flags there are, and how many labels.
pub const FLAGS: usize = 3;

pub const LABELS: usize = 6;

/// How the filter's stars read: at least so many, or exactly.
#[derive(Debug, Clone, Copy, PartialEq, Eq, Structural)]
pub enum Stars {
    AtLeast(u8),
    Exactly(u8),
}

impl Stars {
    pub open spec fn exact(self) -> bool {
        self is Exactly
    }

    pub open spec fn number(self) -> u8 {
        match self {
            Stars::AtLeast(n) => n,
            Stars::Exactly(n) => n,
        }
    }

    pub fn is_exact(self) -> (r: bool)
        ensures
            r == self.exact(),
    {
        matches!(self, Stars::Exactly(_))
    }

    pub fn count(self) -> (n: u8)
        ensures
            n == self.number(),
    {
        match self {
            Stars::AtLeast(n) => n,
            Stars::Exactly(n) => n,
        }
    }

    /// The same stars, read the one way or the other.
    pub fn read_as(self, exact: bool) -> (s: Stars)
        ensures
            s.number() == self.number(),
            s.exact() == exact,
    {
        let n: u8 = self.count();
        if exact {
            Stars::Exactly(n)
        } else {
            Stars::AtLeast(n)
        }
    }
}

/// What is asked of a frame: so many stars, any of the flags and any of
/// the labels that are on (all of them when none is), each by its place,
/// and the words looked for.
#[derive(Debug)]
pub struct Filter {
    pub stars: Stars,
    pub flags: Vec<bool>,
    pub labels: Vec<bool>,
    pub text: String,
}

/// None of a group is on.
pub open spec fn none_on(on: Seq<bool>) -> bool {
    forall|k: int| 0 <= k < on.len() ==> !#[trigger] on[k]
}

/// Any of those that are on, or anything when none is.
pub open spec fn wanted(on: Seq<bool>, k: int) -> bool {
    none_on(on) || on[k]
}

pub open spec fn starred(stars: Stars, rating: u8) -> bool {
    match stars {
        Stars::AtLeast(n) => rating >= n,
        Stars::Exactly(n) => rating == n,
    }
}

/// Whether a frame passes; `said` is whether the words are found on it.
pub open spec fn shows(f: Filter, m: Meta, said: bool) -> bool {
    starred(f.stars, m.rating) && wanted(f.flags@, m.flag.number()) && wanted(
        f.labels@,
        m.label.number(),
    ) && said
}

/// Which of the folder's frames pass.
pub open spec fn passes(f: Filter, metas: Seq<Meta>, said: Seq<bool>) -> Seq<bool> {
    Seq::new(metas.len(), |i: int| shows(f, metas[i], said[i]))
}

fn is_none_on(on: &Vec<bool>) -> (r: bool)
    ensures
        r == none_on(on@),
{
    let mut i: usize = 0;
    while i < on.len()
        invariant
            i <= on@.len(),
            forall|k: int| 0 <= k < i ==> !#[trigger] on@[k],
        decreases on.len() - i,
    {
        if on[i] {
            return false;
        }
        i = i + 1;
    }
    true
}

impl Filter {
    pub open spec fn wf(self) -> bool {
        self.flags@.len() == FLAGS && self.labels@.len() == LABELS
    }

    /// Nothing is asked of a frame.
    pub open spec fn empty(self) -> bool {
        self.stars == Stars::AtLeast(0) && none_on(self.flags@) && none_on(self.labels@)
            && self.text@.len() == 0
    }

    pub fn is_empty(&self) -> (r: bool)
        ensures
            r == self.empty(),
    {
        let plain: bool = match self.stars {
            Stars::AtLeast(n) => n == 0,
            Stars::Exactly(_) => false,
        };
        plain && is_none_on(&self.flags) && is_none_on(&self.labels)
            && self.text.as_str().is_empty()
    }

    /// A filter that asks nothing.
    pub fn none() -> (f: Filter)
        ensures
            f.wf(),
            f.empty(),
    {
        let f = Filter {
            stars: Stars::AtLeast(0),
            flags: vec![false, false, false],
            labels: vec![false, false, false, false, false, false],
            text: "".to_owned(),
        };
        proof {
            reveal_strlit("");
        }
        f
    }

    /// Whether the filter shows one frame.
    pub fn shows_frame(&self, m: Meta, said: bool) -> (r: bool)
        requires
            self.wf(),
        ensures
            r == shows(*self, m, said),
    {
        let starred: bool = match self.stars {
            Stars::AtLeast(n) => m.rating >= n,
            Stars::Exactly(n) => m.rating == n,
        };
        starred && (is_none_on(&self.flags) || self.flags[m.flag.code() as usize]) && (is_none_on(
            &self.labels,
        ) || self.labels[m.label.code() as usize]) && said
    }
}

/// Which of the folder's frames pass.
pub fn pass(f: &Filter, metas: &Vec<Meta>, said: &Vec<bool>) -> (v: Vec<bool>)
    requires
        f.wf(),
        said@.len() == metas@.len(),
    ensures
        v@ == passes(*f, metas@, said@),
{
    let mut v: Vec<bool> = Vec::new();
    let mut i: usize = 0;
    while i < metas.len()
        invariant
            i <= metas@.len(),
            f.wf(),
            said@.len() == metas@.len(),
            v@.len() == i,
            forall|k: int| 0 <= k < i ==> #[trigger] v@[k] == shows(*f, metas@[k], said@[k]),
        decreases metas.len() - i,
    {
        v.push(f.shows_frame(metas[i], said[i]));
        i = i + 1;
    }
    assert(v@ =~= passes(*f, metas@, said@));
    v
}

// The chips.

/// The frames a rating chip would leave: `n` stars read as the filter
/// reads them, the other groups as they stand.
pub open spec fn star_left(f: Filter, metas: Seq<Meta>, said: Seq<bool>, n: u8) -> Seq<bool> {
    let stars = if f.stars.exact() {
        Stars::Exactly(n)
    } else {
        Stars::AtLeast(n)
    };
    passes(Filter { stars, ..f }, metas, said)
}

/// The frames of a flag that the other groups leave.
pub open spec fn flag_left(f: Filter, metas: Seq<Meta>, said: Seq<bool>, k: int) -> Seq<bool> {
    Seq::new(
        metas.len(),
        |i: int|
            starred(f.stars, metas[i].rating) && wanted(f.labels@, metas[i].label.number())
                && said[i] && metas[i].flag.number() == k,
    )
}

/// The frames of a label that the other groups leave.
pub open spec fn label_left(f: Filter, metas: Seq<Meta>, said: Seq<bool>, k: int) -> Seq<bool> {
    Seq::new(
        metas.len(),
        |i: int|
            starred(f.stars, metas[i].rating) && wanted(f.flags@, metas[i].flag.number())
                && said[i] && metas[i].label.number() == k,
    )
}

/// What the chips count, and how many frames of the folder show.
#[derive(Debug)]
pub struct Counts {
    pub stars: Vec<i32>,
    pub flags: Vec<i32>,
    pub labels: Vec<i32>,
    pub shown: i32,
    pub total: i32,
}

pub open spec fn is_counts(c: Counts, f: Filter, metas: Seq<Meta>, said: Seq<bool>) -> bool {
    &&& c.stars@.len() == meta::STARS + 1
    &&& forall|n: int|
        0 <= n <= meta::STARS ==> #[trigger] c.stars@[n] == selection::count(
            star_left(f, metas, said, n as u8),
        )
    &&& c.flags@.len() == FLAGS
    &&& forall|k: int|
        0 <= k < FLAGS ==> #[trigger] c.flags@[k] == selection::count(
            flag_left(f, metas, said, k),
        )
    &&& c.labels@.len() == LABELS
    &&& forall|k: int|
        0 <= k < LABELS ==> #[trigger] c.labels@[k] == selection::count(
            label_left(f, metas, said, k),
        )
    &&& c.shown == selection::count(passes(f, metas, said))
    &&& c.total == metas.len()
}

fn count_stars(f: &Filter, metas: &Vec<Meta>, said: &Vec<bool>, n: u8) -> (c: i32)
    requires
        f.wf(),
        said@.len() == metas@.len() <= i32::MAX,
    ensures
        c == selection::count(star_left(*f, metas@, said@, n)),
{
    let stars = Stars::AtLeast(n).read_as(f.stars.is_exact());
    let ghost left = star_left(*f, metas@, said@, n);
    let mut c: i32 = 0;
    let mut i: usize = 0;
    assert(left.take(0) =~= seq![]);
    let free_flags: bool = is_none_on(&f.flags);
    let free_labels: bool = is_none_on(&f.labels);
    while i < metas.len()
        invariant
            i <= metas@.len(),
            f.wf(),
            said@.len() == metas@.len() <= i32::MAX,
            free_flags == none_on(f.flags@),
            free_labels == none_on(f.labels@),
            stars.number() == n,
            stars.exact() == f.stars.exact(),
            left == star_left(*f, metas@, said@, n),
            c == selection::count(left.take(i as int)),
            c <= i,
        decreases metas.len() - i,
    {
        let m: Meta = metas[i];
        let enough: bool = if stars.is_exact() {
            m.rating == n
        } else {
            m.rating >= n
        };
        if enough && (free_flags || f.flags[m.flag.code() as usize]) && (free_labels
            || f.labels[m.label.code() as usize]) && said[i] {
            c = c + 1;
        }
        i = i + 1;
        assert(left.take(i as int).drop_last() =~= left.take(i - 1));
    }
    assert(left.take(i as int) =~= left);
    c
}

fn count_flag(f: &Filter, metas: &Vec<Meta>, said: &Vec<bool>, k: i32) -> (c: i32)
    requires
        f.wf(),
        said@.len() == metas@.len() <= i32::MAX,
    ensures
        c == selection::count(flag_left(*f, metas@, said@, k as int)),
{
    let ghost left = flag_left(*f, metas@, said@, k as int);
    let mut c: i32 = 0;
    let mut i: usize = 0;
    assert(left.take(0) =~= seq![]);
    let free: bool = is_none_on(&f.labels);
    while i < metas.len()
        invariant
            i <= metas@.len(),
            f.wf(),
            said@.len() == metas@.len() <= i32::MAX,
            free == none_on(f.labels@),
            left == flag_left(*f, metas@, said@, k as int),
            c == selection::count(left.take(i as int)),
            c <= i,
        decreases metas.len() - i,
    {
        let m: Meta = metas[i];
        let starred: bool = match f.stars {
            Stars::AtLeast(n) => m.rating >= n,
            Stars::Exactly(n) => m.rating == n,
        };
        if starred && (free || f.labels[m.label.code() as usize]) && said[i] && m.flag.code() == k {
            c = c + 1;
        }
        i = i + 1;
        assert(left.take(i as int).drop_last() =~= left.take(i - 1));
    }
    assert(left.take(i as int) =~= left);
    c
}

fn count_label(f: &Filter, metas: &Vec<Meta>, said: &Vec<bool>, k: i32) -> (c: i32)
    requires
        f.wf(),
        said@.len() == metas@.len() <= i32::MAX,
    ensures
        c == selection::count(label_left(*f, metas@, said@, k as int)),
{
    let ghost left = label_left(*f, metas@, said@, k as int);
    let mut c: i32 = 0;
    let mut i: usize = 0;
    assert(left.take(0) =~= seq![]);
    let free: bool = is_none_on(&f.flags);
    while i < metas.len()
        invariant
            i <= metas@.len(),
            f.wf(),
            said@.len() == metas@.len() <= i32::MAX,
            free == none_on(f.flags@),
            left == label_left(*f, metas@, said@, k as int),
            c == selection::count(left.take(i as int)),
            c <= i,
        decreases metas.len() - i,
    {
        let m: Meta = metas[i];
        let starred: bool = match f.stars {
            Stars::AtLeast(n) => m.rating >= n,
            Stars::Exactly(n) => m.rating == n,
        };
        if starred && (free || f.flags[m.flag.code() as usize]) && said[i] && m.label.code() == k {
            c = c + 1;
        }
        i = i + 1;
        assert(left.take(i as int).drop_last() =~= left.take(i - 1));
    }
    assert(left.take(i as int) =~= left);
    c
}

fn count_shown(f: &Filter, metas: &Vec<Meta>, said: &Vec<bool>) -> (c: i32)
    requires
        f.wf(),
        said@.len() == metas@.len() <= i32::MAX,
    ensures
        c == selection::count(passes(*f, metas@, said@)),
{
    let left = pass(f, metas, said);
    let mut c: i32 = 0;
    let mut i: usize = 0;
    assert(left@.take(0) =~= seq![]);
    while i < left.len()
        invariant
            i <= left@.len() <= i32::MAX,
            c == selection::count(left@.take(i as int)),
            c <= i,
        decreases left.len() - i,
    {
        if left[i] {
            c = c + 1;
        }
        i = i + 1;
        assert(left@.take(i as int).drop_last() =~= left@.take(i - 1));
    }
    assert(left@.take(i as int) =~= left@);
    c
}

/// The chips' counts, over the frames of the open folder.
pub fn counts(f: &Filter, metas: &Vec<Meta>, said: &Vec<bool>) -> (c: Counts)
    requires
        f.wf(),
        said@.len() == metas@.len() <= i32::MAX,
    ensures
        is_counts(c, *f, metas@, said@),
{
    let mut stars: Vec<i32> = Vec::new();
    let mut n: u8 = 0;
    while n <= meta::STARS
        invariant
            n <= meta::STARS + 1,
            f.wf(),
            said@.len() == metas@.len() <= i32::MAX,
            stars@.len() == n,
            forall|k: int|
                0 <= k < n ==> #[trigger] stars@[k] == selection::count(
                    star_left(*f, metas@, said@, k as u8),
                ),
        decreases meta::STARS + 1 - n,
    {
        stars.push(count_stars(f, metas, said, n));
        n = n + 1;
    }
    let mut flags: Vec<i32> = Vec::new();
    let mut k: i32 = 0;
    while k < FLAGS as i32
        invariant
            0 <= k <= FLAGS,
            f.wf(),
            said@.len() == metas@.len() <= i32::MAX,
            flags@.len() == k,
            forall|j: int|
                0 <= j < k ==> #[trigger] flags@[j] == selection::count(
                    flag_left(*f, metas@, said@, j),
                ),
        decreases FLAGS - k,
    {
        flags.push(count_flag(f, metas, said, k));
        k = k + 1;
    }
    let mut labels: Vec<i32> = Vec::new();
    let mut l: i32 = 0;
    while l < LABELS as i32
        invariant
            0 <= l <= LABELS,
            f.wf(),
            said@.len() == metas@.len() <= i32::MAX,
            labels@.len() == l,
            forall|j: int|
                0 <= j < l ==> #[trigger] labels@[j] == selection::count(
                    label_left(*f, metas@, said@, j),
                ),
        decreases LABELS - l,
    {
        labels.push(count_label(f, metas, said, l));
        l = l + 1;
    }
    Counts {
        stars,
        flags,
        labels,
        shown: count_shown(f, metas, said),
        total: metas.len() as i32,
    }
}

/// A chip of the filter.
#[derive(Debug)]
pub struct Chip {
    pub text: String,
    pub count: i32,
    pub on: bool,
    pub code: i32,
}

/// The rating chips: one a number of stars from none, with how many
/// frames each would leave and the one picked on.
pub fn star_chips(names: &Vec<String>, counts: &Vec<i32>, stars: Stars) -> (chips: Vec<Chip>)
    requires
        names@.len() == meta::STARS + 1,
        counts@.len() == meta::STARS + 1,
    ensures
        chips@.len() == meta::STARS + 1,
        forall|n: int|
            0 <= n <= meta::STARS ==> {
                let c = #[trigger] chips@[n];
                c.text@ == names@[n]@ && c.count == counts@[n] && c.on == (n == stars.number())
                    && c.code == n
            },
{
    let mut chips: Vec<Chip> = Vec::new();
    let mut n: usize = 0;
    while n <= meta::STARS as usize
        invariant
            n <= meta::STARS + 1,
            names@.len() == meta::STARS + 1,
            counts@.len() == meta::STARS + 1,
            chips@.len() == n,
            forall|k: int|
                0 <= k < n ==> {
                    let c = #[trigger] chips@[k];
                    c.text@ == names@[k]@ && c.count == counts@[k] && c.on == (k
                        == stars.number()) && c.code == k
                },
        decreases meta::STARS + 1 - n,
    {
        chips.push(
            Chip {
                text: names[n].clone(),
                count: counts[n],
                on: n == stars.count() as usize,
                code: n as i32,
            },
        );
        n = n + 1;
    }
    chips
}

/// The flag and the label chips: by their place in the row, which is what
/// a press gives back, and which is the badge's code too.
pub fn place_chips(names: &Vec<String>, counts: &Vec<i32>, on: &Vec<bool>) -> (chips: Vec<Chip>)
    requires
        names@.len() == counts@.len(),
        on@.len() == counts@.len(),
        counts@.len() < i32::MAX,
    ensures
        chips@.len() == counts@.len(),
        forall|n: int|
            0 <= n < chips@.len() ==> {
                let c = #[trigger] chips@[n];
                c.text@ == names@[n]@ && c.count == counts@[n] && c.on == on@[n] && c.code == n
            },
{
    let mut chips: Vec<Chip> = Vec::new();
    let mut n: usize = 0;
    while n < counts.len()
        invariant
            n <= counts@.len(),
            names@.len() == counts@.len(),
            on@.len() == counts@.len(),
            counts@.len() < i32::MAX,
            chips@.len() == n,
            forall|k: int|
                0 <= k < n ==> {
                    let c = #[trigger] chips@[k];
                    c.text@ == names@[k]@ && c.count == counts@[k] && c.on == on@[k] && c.code == k
                },
        decreases counts.len() - n,
    {
        chips.push(
            Chip { text: names[n].clone(), count: counts[n], on: on[n], code: n as i32 },
        );
        n = n + 1;
    }
    chips
}

/// A label chip's words: a color says itself; the chip for no color at
/// all has nothing to say it with, so it says it in words.
pub fn label_chip_text(l: Label) -> (s: &'static str)
    ensures
        s@ == if l is Plain {
            "No label"@
        } else {
            ""@
        },
{
    match l {
        Label::Plain => "No label",
        _ => "",
    }
}

/// The words of the label chips.
pub open spec fn label_text(k: int) -> Seq<char> {
    if k == 0 {
        "No label"@
    } else {
        ""@
    }
}

fn label_names() -> (v: Vec<String>)
    ensures
        v@.len() == LABELS,
        forall|k: int| 0 <= k < LABELS ==> (#[trigger] v@[k])@ == label_text(k),
{
    let mut v: Vec<String> = Vec::new();
    let mut k: i32 = 0;
    while k < LABELS as i32
        invariant
            0 <= k <= LABELS,
            v@.len() == k,
            forall|j: int| 0 <= j < k ==> (#[trigger] v@[j])@ == label_text(j),
        decreases LABELS - k,
    {
        match Label::from_code(k) {
            Some(l) => {
                v.push(label_chip_text(l).to_owned());
            },
            None => {
                v.push("".to_owned());
            },
        }
        k = k + 1;
    }
    v
}

/// The filter's chips and what they count, on the grid's header and on
/// the CULLING section alike.
#[derive(Debug)]
pub struct Bar {
    pub stars: Vec<Chip>,
    pub flags: Vec<Chip>,
    pub labels: Vec<Chip>,
    pub exact: bool,
    pub shown: i32,
    pub total: i32,
    pub on: bool,
}

/// The chips of a row, by their place.
pub open spec fn is_row(
    chips: Seq<Chip>,
    names: Seq<Seq<char>>,
    counts: Seq<i32>,
    on: Seq<bool>,
) -> bool {
    &&& chips.len() == counts.len()
    &&& forall|n: int|
        0 <= n < chips.len() ==> {
            let c = #[trigger] chips[n];
            c.text@ == names[n] && c.count == counts[n] && c.on == on[n] && c.code == n
        }
}

/// The filter's chips and what they count: one pass over what is said of
/// the open folder's frames. `stars` and `flags` are the chips' words.
pub fn show_filter(
    f: &Filter,
    metas: &Vec<Meta>,
    said: &Vec<bool>,
    stars: &Vec<String>,
    flags: &Vec<String>,
) -> (b: Bar)
    requires
        f.wf(),
        said@.len() == metas@.len() <= i32::MAX,
        stars@.len() == meta::STARS + 1,
        flags@.len() == FLAGS,
    ensures
        exists|c: Counts| #[trigger] is_counts(c, *f, metas@, said@) && {
            &&& is_row(
                b.stars@,
                text::texts(stars@),
                c.stars@,
                Seq::new((meta::STARS + 1) as nat, |n: int| n == f.stars.number()),
            )
            &&& is_row(b.flags@, text::texts(flags@), c.flags@, f.flags@)
            &&& is_row(
                b.labels@,
                Seq::new(LABELS as nat, |k: int| label_text(k)),
                c.labels@,
                f.labels@,
            )
            &&& b.shown == c.shown
            &&& b.total == c.total
        },
        b.exact == f.stars.exact(),
        b.on == !f.empty(),
{
    let c = counts(f, metas, said);
    assert(is_counts(c, *f, metas@, said@));
    let names = label_names();
    let b = Bar {
        stars: star_chips(stars, &c.stars, f.stars),
        flags: place_chips(flags, &c.flags, &f.flags),
        labels: place_chips(&names, &c.labels, &f.labels),
        exact: f.stars.is_exact(),
        shown: c.shown,
        total: c.total,
        on: !f.is_empty(),
    };
    assert(is_row(
        b.stars@,
        text::texts(stars@),
        c.stars@,
        Seq::new((meta::STARS + 1) as nat, |n: int| n == f.stars.number()),
    ));
    assert(is_row(
        b.labels@,
        Seq::new(LABELS as nat, |k: int| label_text(k)),
        c.labels@,
        f.labels@,
    ));
    b
}

// The chips pressed. Each says whether the filter moved.

/// A rating chip: so many stars, read as they were; nothing when they are
/// that already or the chip is none.
pub fn star_picked(f: &mut Filter, chip: i32) -> (moved: bool)
    ensures
        moved == (0 <= chip <= 255 && chip != old(f).stars.number()),
        moved ==> final(f).stars.number() == chip && final(f).stars.exact() == old(
            f,
        ).stars.exact(),
        *final(f) == (Filter { stars: final(f).stars, ..*old(f) }),
        !moved ==> *final(f) == *old(f),
{
    if chip < 0 || chip > 255 {
        return false;
    }
    if chip as u8 == f.stars.count() {
        return false;
    }
    f.stars = Stars::AtLeast(chip as u8).read_as(f.stars.is_exact());
    true
}

/// The reading turned over.
pub fn exact_toggled(f: &mut Filter)
    ensures
        final(f).stars.number() == old(f).stars.number(),
        final(f).stars.exact() == !old(f).stars.exact(),
        *final(f) == (Filter { stars: final(f).stars, ..*old(f) }),
{
    f.stars = f.stars.read_as(!f.stars.is_exact());
}

/// The chip a press is of, in a row of `count`; below the first is the
/// first.
pub open spec fn chip_at(chip: i32, count: int) -> Option<int> {
    let k: int = if chip < 0 {
        0
    } else {
        chip as int
    };
    if k < count {
        Some(k)
    } else {
        None
    }
}

/// A row with a chip turned over.
pub open spec fn turned_over(on: Seq<bool>, chip: i32) -> Seq<bool> {
    match chip_at(chip, on.len() as int) {
        Some(k) => on.update(k, !on[k]),
        None => on,
    }
}

fn turn_over(on: &mut Vec<bool>, chip: i32) -> (moved: bool)
    ensures
        moved == chip_at(chip, old(on)@.len() as int) is Some,
        final(on)@ == turned_over(old(on)@, chip),
{
    let k: usize = if chip < 0 {
        0
    } else {
        chip as usize
    };
    if k < on.len() {
        let was: bool = on[k];
        on.set(k, !was);
        true
    } else {
        false
    }
}

/// A flag chip turned over.
pub fn flag_toggled(f: &mut Filter, chip: i32) -> (moved: bool)
    requires
        old(f).wf(),
    ensures
        moved == chip_at(chip, FLAGS as int) is Some,
        final(f).flags@ == turned_over(old(f).flags@, chip),
        *final(f) == (Filter { flags: final(f).flags, ..*old(f) }),
        final(f).wf(),
{
    turn_over(&mut f.flags, chip)
}

/// A label chip turned over.
pub fn label_toggled(f: &mut Filter, chip: i32) -> (moved: bool)
    requires
        old(f).wf(),
    ensures
        moved == chip_at(chip, LABELS as int) is Some,
        final(f).labels@ == turned_over(old(f).labels@, chip),
        *final(f) == (Filter { labels: final(f).labels, ..*old(f) }),
        final(f).wf(),
{
    turn_over(&mut f.labels, chip)
}

/// The words looked for, typed.
pub fn text_edited(f: &mut Filter, typed: &str) -> (moved: bool)
    ensures
        moved == (old(f).text@ != typed@),
        final(f).text@ == typed@,
        *final(f) == (Filter { text: final(f).text, ..*old(f) }),
        !moved ==> *final(f) == *old(f),
{
    if text::same_text(f.text.as_str(), typed) {
        return false;
    }
    f.text = typed.to_owned();
    true
}

/// The filter cleared: nothing is asked of a frame. The field holds its
/// own words, so emptying the filter empties it too.
pub fn cleared(f: &mut Filter) -> (moved: bool)
    requires
        old(f).wf(),
    ensures
        moved == !old(f).empty(),
        final(f).wf(),
        final(f).empty(),
        !moved ==> *final(f) == *old(f),
{
    if f.is_empty() {
        return false;
    }
    *f = Filter::none();
    true
}

// What the filter promises.

/// A filter that asks nothing shows every frame of the folder. (With no
/// words to look for they are found on every frame.)
pub proof fn an_empty_filter_shows_all(f: Filter, metas: Seq<Meta>, said: Seq<bool>)
    requires
        f.empty(),
        said.len() == metas.len(),
        forall|i: int| 0 <= i < said.len() ==> #[trigger] said[i],
    ensures
        forall|i: int| 0 <= i < metas.len() ==> #[trigger] passes(f, metas, said)[i],
{
}

/// A chip says what it would leave: the count on a rating chip is how
/// many frames show once it is picked, and, while no chip of its row is
/// on, so is the count on a flag's or a label's.
pub proof fn a_chip_says_what_it_leaves(
    f: Filter,
    metas: Seq<Meta>,
    said: Seq<bool>,
    n: u8,
    stars: Filter,
    k: int,
    flagged: Filter,
    l: int,
    labelled: Filter,
)
    requires
        f.wf(),
        stars == (Filter { stars: stars.stars, ..f }),
        stars.stars.number() == n && stars.stars.exact() == f.stars.exact(),
        0 <= k < FLAGS,
        flagged == (Filter { flags: flagged.flags, ..f }),
        flagged.flags@ == turned_over(f.flags@, k as i32),
        0 <= l < LABELS,
        labelled == (Filter { labels: labelled.labels, ..f }),
        labelled.labels@ == turned_over(f.labels@, l as i32),
    ensures
        star_left(f, metas, said, n) == passes(stars, metas, said),
        none_on(f.flags@) ==> flag_left(f, metas, said, k) == passes(flagged, metas, said),
        none_on(f.labels@) ==> label_left(f, metas, said, l) == passes(labelled, metas, said),
{
    assert(star_left(f, metas, said, n) =~= passes(stars, metas, said));
    if none_on(f.flags@) {
        assert(flagged.flags@[k]);
        assert forall|j: int| 0 <= j < FLAGS && j != k implies !flagged.flags@[j] by {
            assert(!f.flags@[j]);
        }
        assert(flag_left(f, metas, said, k) =~= passes(flagged, metas, said));
    }
    if none_on(f.labels@) {
        assert(labelled.labels@[l]);
        assert forall|j: int| 0 <= j < LABELS && j != l implies !labelled.labels@[j] by {
            assert(!f.labels@[j]);
        }
        assert(label_left(f, metas, said, l) =~= passes(labelled, metas, said));
    }
}

/// A chip turned over twice is as it was.
pub proof fn a_chip_turned_twice_is_as_it_was(on: Seq<bool>, chip: i32)
    ensures
        turned_over(turned_over(on, chip), chip) == on,
{
    assert(turned_over(turned_over(on, chip), chip) =~= on);
}

/// Any of: a flag or a label turned on beside another takes no frame
/// away.
pub proof fn another_chip_takes_none_away(on: Seq<bool>, chip: i32, k: int)
    requires
        !none_on(on),
        chip_at(chip, on.len() as int) matches Some(c) && !on[c],
        0 <= k < on.len(),
        wanted(on, k),
    ensures
        wanted(turned_over(on, chip), k),
{
    assert(turned_over(on, chip)[k]);
}

/// As many frames show as the browser has rows.
pub proof fn the_count_shown_is_the_rows(passes: Seq<bool>)
    ensures
        selection::count(passes) == browser::passing(passes).len(),
    decreases passes.len(),
{
    if passes.len() > 0 {
        the_count_shown_is_the_rows(passes.drop_last());
    }
}

/// A frame is shown exactly where it has the stars asked for, so many or
/// more or just so many, and a flag and a label among those that are on,
/// or any where none is, and the text says it.
pub proof fn a_frame_is_shown_by_what_it_has(f: Filter, m: Meta, said: bool)
    requires
        f.wf(),
    ensures
        shows(f, m, said) <==> {
            &&& said
            &&& f.stars matches Stars::AtLeast(n) ==> m.rating >= n
            &&& f.stars matches Stars::Exactly(n) ==> m.rating == n
            &&& (forall|k: int| 0 <= k < f.flags@.len() ==> !#[trigger] f.flags@[k]) || match m.flag {
                meta::Flag::Unflagged => f.flags@[0],
                meta::Flag::Pick => f.flags@[1],
                meta::Flag::Reject => f.flags@[2],
            }
            &&& (forall|k: int| 0 <= k < f.labels@.len() ==> !#[trigger] f.labels@[k])
                || match m.label {
                meta::Label::Plain => f.labels@[0],
                meta::Label::Red => f.labels@[1],
                meta::Label::Yellow => f.labels@[2],
                meta::Label::Green => f.labels@[3],
                meta::Label::Blue => f.labels@[4],
                meta::Label::Purple => f.labels@[5],
            }
        },
{
}

/// Each file passes or not by its own marks and its own words: so many
/// stars and more, or just so many, as it is asked.
pub proof fn a_file_passes_by_its_own_marks(f: Filter, metas: Seq<Meta>, said: Seq<bool>, i: int)
    requires
        0 <= i < metas.len(),
    ensures
        passes(f, metas, said).len() == metas.len(),
        passes(f, metas, said)[i] <==> shows(f, metas[i], said[i]),
        forall|n: u8| #[trigger]
            starred(Stars::AtLeast(n), metas[i].rating) <==> metas[i].rating >= n,
        forall|n: u8| #[trigger]
            starred(Stars::Exactly(n), metas[i].rating) <==> metas[i].rating == n,
        !said[i] ==> !passes(f, metas, said)[i],
{
}

/// What a chip says it would leave are the frames that have its mark and
/// pass the rest of the filter.
pub proof fn a_chip_counts_the_frames_of_its_mark(
    f: Filter,
    metas: Seq<Meta>,
    said: Seq<bool>,
    k: int,
    i: int,
)
    requires
        0 <= i < metas.len(),
    ensures
        flag_left(f, metas, said, k).len() == metas.len(),
        label_left(f, metas, said, k).len() == metas.len(),
        flag_left(f, metas, said, k)[i] ==> metas[i].flag.number() == k && said[i],
        label_left(f, metas, said, k)[i] ==> metas[i].label.number() == k && said[i],
        metas[i].flag.number() == k && shows(f, metas[i], said[i]) ==> flag_left(
            f,
            metas,
            said,
            k,
        )[i],
        metas[i].label.number() == k && shows(f, metas[i], said[i]) ==> label_left(
            f,
            metas,
            said,
            k,
        )[i],
{
}

/// A chip turns over its own place and no other.
pub proof fn a_chip_turns_its_own_place(on: Seq<bool>, chip: i32, k: int)
    requires
        0 <= chip < on.len(),
        0 <= k < on.len(),
    ensures
        turned_over(on, chip).len() == on.len(),
        turned_over(on, chip)[chip as int] == !on[chip as int],
        k != chip ==> turned_over(on, chip)[k] == on[k],
{
}

/// A filter asks nothing exactly where it asks for no star, no flag, no
/// label and no word.
pub proof fn an_empty_filter_asks_nothing(f: Filter)
    ensures
        f.empty() <==> {
            &&& f.stars is AtLeast
            &&& f.stars.number() == 0
            &&& forall|k: int| 0 <= k < f.flags@.len() ==> !#[trigger] f.flags@[k]
            &&& forall|k: int| 0 <= k < f.labels@.len() ==> !#[trigger] f.labels@[k]
            &&& f.text@.len() == 0
        },
        f.stars.exact() <==> f.stars is Exactly,
{
}

/// Each chip's count is of the frames it would leave, the filter's own
/// choice of its kind aside; those shown are the frames that pass, and the
/// total is all of them.
pub proof fn a_chip_counts_what_it_would_leave(
    c: Counts,
    f: Filter,
    metas: Seq<Meta>,
    said: Seq<bool>,
    n: int,
)
    requires
        is_counts(c, f, metas, said),
    ensures
        c.total == metas.len(),
        c.shown == selection::count(passes(f, metas, said)),
        c.stars@.len() == meta::STARS + 1,
        0 <= n <= meta::STARS ==> c.stars@[n] == selection::count(
            star_left(f, metas, said, n as u8),
        ),
        c.flags@.len() == FLAGS,
        0 <= n < FLAGS ==> c.flags@[n] == selection::count(flag_left(f, metas, said, n)),
        c.labels@.len() == LABELS,
        0 <= n < LABELS ==> c.labels@[n] == selection::count(label_left(f, metas, said, n)),
{
}

/// A row of chips has one for each count, in order, each with its own
/// name, count and state, and known by its place.
pub proof fn a_chip_is_known_by_its_place(
    chips: Seq<Chip>,
    names: Seq<Seq<char>>,
    counts: Seq<i32>,
    on: Seq<bool>,
    n: int,
)
    requires
        is_row(chips, names, counts, on),
        0 <= n < counts.len(),
    ensures
        chips.len() == counts.len(),
        chips[n].text@ == names[n],
        chips[n].count == counts[n],
        chips[n].on == on[n],
        chips[n].code == n,
{
}

/// Only the chip for no label has words on it.
pub proof fn a_label_is_a_colour(k: int)
    ensures
        label_text(0) == "No label"@,
        k != 0 ==> label_text(k) == ""@,
{
}

} // verus!
