//! What culling says of a frame: its stars, its flag and its color
//! label.

use vstd::prelude::*;

verus! {

/// The most stars a frame has.
pub const STARS: u8 = 5;

#[derive(Debug, Clone, Copy, PartialEq, Eq, Structural)]
pub enum Flag {
    Unflagged,
    Pick,
    Reject,
}

#[derive(Debug, Clone, Copy, PartialEq, Eq, Structural)]
pub enum Label {
    Plain,
    Red,
    Yellow,
    Green,
    Blue,
    Purple,
}

#[derive(Debug, Clone, Copy, PartialEq, Eq, Structural)]
pub struct Meta {
    pub rating: u8,
    pub flag: Flag,
    pub label: Label,
}

/// What a culling key asks for. A label is a toggle over the frames it
/// is asked of.
#[derive(Debug, Clone, Copy, PartialEq, Eq, Structural)]
pub enum Change {
    Rating(u8),
    Flag(Flag),
    Label(Label),
}

impl Flag {
    /// The number a badge draws the flag by.
    pub open spec fn number(self) -> int {
        match self {
            Flag::Unflagged => 0,
            Flag::Pick => 1,
            Flag::Reject => 2,
        }
    }

    pub fn code(self) -> (c: i32)
        ensures
            c == self.number(),
    {
        match self {
            Flag::Unflagged => 0,
            Flag::Pick => 1,
            Flag::Reject => 2,
        }
    }

    /// The flag a number is of.
    pub fn from_code(code: i32) -> (f: Option<Flag>)
        ensures
            f is Some <==> 0 <= code <= 2,
            f matches Some(f) ==> f.number() == code,
    {
        if code == 0 {
            Some(Flag::Unflagged)
        } else if code == 1 {
            Some(Flag::Pick)
        } else if code == 2 {
            Some(Flag::Reject)
        } else {
            None
        }
    }
}

impl Label {
    /// The number a badge draws the label by.
    pub open spec fn number(self) -> int {
        match self {
            Label::Plain => 0,
            Label::Red => 1,
            Label::Yellow => 2,
            Label::Green => 3,
            Label::Blue => 4,
            Label::Purple => 5,
        }
    }

    pub fn code(self) -> (c: i32)
        ensures
            c == self.number(),
    {
        match self {
            Label::Plain => 0,
            Label::Red => 1,
            Label::Yellow => 2,
            Label::Green => 3,
            Label::Blue => 4,
            Label::Purple => 5,
        }
    }

    /// The label a number is of.
    pub fn from_code(code: i32) -> (l: Option<Label>)
        ensures
            l is Some <==> 0 <= code <= 5,
            l matches Some(l) ==> l.number() == code,
    {
        if code == 0 {
            Some(Label::Plain)
        } else if code == 1 {
            Some(Label::Red)
        } else if code == 2 {
            Some(Label::Yellow)
        } else if code == 3 {
            Some(Label::Green)
        } else if code == 4 {
            Some(Label::Blue)
        } else if code == 5 {
            Some(Label::Purple)
        } else {
            None
        }
    }
}

impl Meta {
    /// The meta with a settled change in it.
    pub open spec fn with(self, change: Change) -> Meta {
        match change {
            Change::Rating(n) => Meta { rating: n, ..self },
            Change::Flag(f) => Meta { flag: f, ..self },
            Change::Label(l) => Meta { label: l, ..self },
        }
    }

    pub fn set(&mut self, change: Change)
        ensures
            *final(self) == old(self).with(change),
    {
        match change {
            Change::Rating(n) => {
                self.rating = n;
            },
            Change::Flag(f) => {
                self.flag = f;
            },
            Change::Label(l) => {
                self.label = l;
            },
        }
    }

    /// The stars a badge draws: never more than there are.
    pub open spec fn drawn(self) -> int {
        if self.rating > STARS {
            STARS as int
        } else {
            self.rating as int
        }
    }

    pub fn stars(&self) -> (n: i32)
        ensures
            n == self.drawn(),
    {
        if self.rating > STARS {
            STARS as i32
        } else {
            self.rating as i32
        }
    }
}

/// Every frame of `frames` has the label already.
pub open spec fn all_labelled(metas: Seq<Meta>, frames: Seq<usize>, label: Label) -> bool {
    forall|k: int| 0 <= k < frames.len() ==> metas[(#[trigger] frames[k]) as int].label == label
}

/// A change settled against the frames it is for: a label they all have
/// comes off, so one press on a mixed set makes it uniform rather than
/// half one thing and half the other.
pub open spec fn settled(metas: Seq<Meta>, frames: Seq<usize>, change: Change) -> Change {
    match change {
        Change::Label(l) => if all_labelled(metas, frames, l) {
            Change::Label(Label::Plain)
        } else {
            change
        },
        _ => change,
    }
}

pub fn settle(metas: &Vec<Meta>, frames: &Vec<usize>, change: Change) -> (c: Change)
    requires
        forall|k: int| 0 <= k < frames@.len() ==> (#[trigger] frames@[k]) < metas@.len(),
    ensures
        c == settled(metas@, frames@, change),
{
    match change {
        Change::Label(l) => {
            let mut k: usize = 0;
            while k < frames.len()
                invariant
                    k <= frames@.len(),
                    change == Change::Label(l),
                    forall|j: int|
                        0 <= j < frames@.len() ==> (#[trigger] frames@[j]) < metas@.len(),
                    forall|j: int|
                        0 <= j < k ==> metas@[(#[trigger] frames@[j]) as int].label == l,
                decreases frames.len() - k,
            {
                if metas[frames[k]].label != l {
                    return change;
                }
                k = k + 1;
            }
            Change::Label(Label::Plain)
        },
        _ => change,
    }
}

/// A label pressed twice over the same frames comes off all of them,
/// whatever they had before.
pub proof fn a_second_press_takes_the_label_off(
    metas: Seq<Meta>,
    frames: Seq<usize>,
    label: Label,
    after: Seq<Meta>,
)
    requires
        !all_labelled(metas, frames, label),
        after.len() == metas.len(),
        forall|k: int|
            0 <= k < frames.len() ==> after[(#[trigger] frames[k]) as int]
                == metas[frames[k] as int].with(settled(metas, frames, Change::Label(label))),
    ensures
        all_labelled(after, frames, label),
        settled(after, frames, Change::Label(label)) == Change::Label(Label::Plain),
{
}

/// A flag is drawn by its own number, and a label by its own.
pub proof fn a_badge_is_of_one_mark(f: Flag, l: Label)
    ensures
        f is Unflagged <==> f.number() == 0,
        f is Pick <==> f.number() == 1,
        f is Reject <==> f.number() == 2,
        l is Plain <==> l.number() == 0,
        l is Red <==> l.number() == 1,
        l is Yellow <==> l.number() == 2,
        l is Green <==> l.number() == 3,
        l is Blue <==> l.number() == 4,
        l is Purple <==> l.number() == 5,
{
}

/// A change puts what it asks for into a meta and leaves the rest of it:
/// a flag is that flag, so many stars are so many, and a label that label.
pub proof fn a_change_is_put_in_and_the_rest_stays(m: Meta, n: u8, f: Flag, l: Label)
    ensures
        m.with(Change::Rating(n)).rating == n,
        m.with(Change::Rating(n)).flag == m.flag,
        m.with(Change::Rating(n)).label == m.label,
        m.with(Change::Flag(f)).flag == f,
        m.with(Change::Flag(f)).rating == m.rating,
        m.with(Change::Flag(f)).label == m.label,
        m.with(Change::Label(l)).label == l,
        m.with(Change::Label(l)).rating == m.rating,
        m.with(Change::Label(l)).flag == m.flag,
{
}

/// A flag or a number of stars is put in as it is asked for, whatever the
/// frames have; a label comes off exactly where every one of them has it.
pub proof fn only_a_label_is_a_toggle(metas: Seq<Meta>, frames: Seq<usize>, change: Change)
    ensures
        change is Rating || change is Flag ==> settled(metas, frames, change) == change,
        change matches Change::Label(l) ==> settled(metas, frames, change) == Change::Label(
            if forall|k: int|
                0 <= k < frames.len() ==> metas[(#[trigger] frames[k]) as int].label == l {
                Label::Plain
            } else {
                l
            },
        ),
{
}

/// The stars drawn are the frame's, and never more than there are.
pub proof fn the_stars_drawn_are_the_frames(m: Meta)
    ensures
        m.rating <= 5 ==> m.drawn() == m.rating,
        m.rating > 5 ==> m.drawn() == 5,
{
}

} // verus!
