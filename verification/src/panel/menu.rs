//! The frame menu: a right-click over a frame in the strip, the grid or
//! the viewport.
//!
//! A frame in the selection keeps the selection, one outside it is
//! opened first and becomes the selection, as a file manager does. Every
//! item is what a key already does.

use crate::panel::browser::Browser;
use crate::panel::browser;
use crate::panel::meta::{Change, Flag, Label, Meta};
use crate::panel::meta;
use crate::panel::selection;
use crate::text;
use vstd::prelude::*;

verus! {

/// The change an item asks for, by its kind and value.
pub open spec fn asks(kind: Seq<char>, value: i32, change: Change) -> bool {
    match change {
        Change::Rating(n) => kind == "rating"@ && n == value && n <= meta::STARS,
        Change::Flag(f) => kind == "flag"@ && f.number() == value,
        Change::Label(l) => kind == "label"@ && l.number() == value,
    }
}

/// What a menu item asks for, as a culling key would: a rating of
/// `value` stars, the flag or the label whose code is `value` (a toggle
/// over the selection, as the key is; the menu ticks the one the
/// selection wears, so a tick taken off is what it looks like).
pub fn menu_change(kind: &str, value: i32) -> (c: Option<Change>)
    ensures
        c matches Some(change) ==> asks(kind@, value, change),
        c is None ==> !exists|change: Change| asks(kind@, value, change),
{
    proof {
        reveal_strlit("rating");
        reveal_strlit("flag");
        reveal_strlit("label");
        assert("rating"@.len() == 6 && "flag"@.len() == 4 && "label"@.len() == 5);
    }
    if text::same_text(kind, "rating") {
        if 0 <= value && value <= meta::STARS as i32 {
            return Some(Change::Rating(value as u8));
        }
        return None;
    }
    if text::same_text(kind, "flag") {
        return match Flag::from_code(value) {
            Some(f) => Some(Change::Flag(f)),
            None => None,
        };
    }
    if text::same_text(kind, "label") {
        return match Label::from_code(value) {
            Some(l) => Some(Change::Label(l)),
            None => None,
        };
    }
    None
}

/// The value every one of `values` has, or -1 when they differ (or there
/// are none).
pub open spec fn shared_by(values: Seq<i32>) -> int {
    if values.len() > 0 && forall|i: int| 0 <= i < values.len() ==> #[trigger] values[i] == values[0] {
        values[0] as int
    } else {
        -1
    }
}

/// What the menu ticks: the value every one of `values` has, or -1 when
/// they differ (or there are none).
pub fn shared(values: &Vec<i32>) -> (r: i32)
    ensures
        r == shared_by(values@),
{
    if values.len() == 0 {
        return -1;
    }
    let first: i32 = values[0];
    let mut i: usize = 1;
    while i < values.len()
        invariant
            1 <= i <= values@.len(),
            first == values@[0],
            forall|k: int| 0 <= k < i ==> #[trigger] values@[k] == first,
        decreases values.len() - i,
    {
        if values[i] != first {
            return -1;
        }
        i = i + 1;
    }
    first
}

/// The frame a right-click on row `row` is about: the row's, or the one
/// on screen for a click in the viewport (a row below zero).
pub open spec fn file_of(b: Browser, row: i32) -> Option<usize> {
    if row < 0 {
        b.current
    } else {
        browser::file_at(b.shown@, row)
    }
}

/// What a right-click is about.
#[derive(Debug, Clone, Copy, PartialEq, Eq, Structural)]
pub struct Asked {
    pub file: usize,
    /// It is outside the selection: it is opened first, and the set
    /// collapses to it, as a plain click does.
    pub open: bool,
}

/// Settle what a right-click on a row is about.
pub fn menu_asked(b: &Browser, row: i32) -> (a: Option<Asked>)
    requires
        b.wf(),
    ensures
        a == match file_of(*b, row) {
            Some(file) => Some(
                Asked { file, open: !selection::chosen(b.picked@, b.current).contains(file) },
            ),
            None => None,
        },
{
    let file: Option<usize> = if row < 0 {
        b.current
    } else {
        browser::file_on_row(&b.shown, row)
    };
    match file {
        Some(file) => {
            let frames = browser::chosen_frames(&b.picked, b.current);
            Some(Asked { file, open: !selection::has(&frames, file) })
        },
        None => None,
    }
}

/// The menu's count and ticks.
#[derive(Debug, Clone, Copy, PartialEq, Eq, Structural)]
pub struct Menu {
    pub count: i32,
    pub rating: i32,
    pub flag: i32,
    pub label: i32,
}

pub open spec fn ratings(metas: Seq<Meta>, frames: Seq<usize>) -> Seq<i32> {
    frames.map_values(|f: usize| metas[f as int].rating as i32)
}

pub open spec fn flags(metas: Seq<Meta>, frames: Seq<usize>) -> Seq<i32> {
    frames.map_values(|f: usize| metas[f as int].flag.number() as i32)
}

pub open spec fn labels(metas: Seq<Meta>, frames: Seq<usize>) -> Seq<i32> {
    frames.map_values(|f: usize| metas[f as int].label.number() as i32)
}

/// Fill the menu for the frame it was asked for on: how many frames it is
/// about, and what the whole selection shares.
pub fn menu_filled(b: &mut Browser, file: usize) -> (m: Menu)
    requires
        old(b).wf(),
    ensures
        *final(b) == (Browser { menu_file: Some(file), ..*old(b) }),
        ({
            let frames = selection::chosen(old(b).picked@, old(b).current);
            m == (Menu {
                count: browser::counted(frames.len()) as i32,
                rating: shared_by(ratings(old(b).metas@, frames)) as i32,
                flag: shared_by(flags(old(b).metas@, frames)) as i32,
                label: shared_by(labels(old(b).metas@, frames)) as i32,
            })
        }),
{
    b.menu_file = Some(file);
    proof {
        browser::lemma_chosen(b.picked@, b.current, b.names@.len() as int);
    }
    let frames = browser::chosen_frames(&b.picked, b.current);
    let mut r: Vec<i32> = Vec::new();
    let mut f: Vec<i32> = Vec::new();
    let mut l: Vec<i32> = Vec::new();
    let mut k: usize = 0;
    while k < frames.len()
        invariant
            k <= frames@.len(),
            b.wf(),
            selection::below(frames@, b.names@.len() as int),
            r@.len() == k,
            f@.len() == k,
            l@.len() == k,
            forall|i: int| 0 <= i < k ==> #[trigger] r@[i] == ratings(b.metas@, frames@)[i],
            forall|i: int| 0 <= i < k ==> #[trigger] f@[i] == flags(b.metas@, frames@)[i],
            forall|i: int| 0 <= i < k ==> #[trigger] l@[i] == labels(b.metas@, frames@)[i],
        decreases frames.len() - k,
    {
        let m: Meta = b.metas[frames[k]];
        r.push(m.rating as i32);
        f.push(m.flag.code());
        l.push(m.label.code());
        k = k + 1;
    }
    proof {
        assert(r@ =~= ratings(b.metas@, frames@));
        assert(f@ =~= flags(b.metas@, frames@));
        assert(l@ =~= labels(b.metas@, frames@));
    }
    let count: i32 = if frames.len() == 0 {
        1
    } else {
        frames.len() as i32
    };
    Menu { count, rating: shared(&r), flag: shared(&f), label: shared(&l) }
}

/// The file Reveal shows in the file manager: the one the menu was asked
/// for on, else the one on screen, when the folder still has it.
pub fn revealed(b: &Browser) -> (r: Option<usize>)
    ensures
        ({
            let file = match b.menu_file {
                Some(f) => Some(f),
                None => b.current,
            };
            r == match file {
                Some(f) => if f < b.names@.len() {
                    Some(f)
                } else {
                    None
                },
                None => None,
            }
        }),
{
    let file: Option<usize> = match b.menu_file {
        Some(f) => Some(f),
        None => b.current,
    };
    match file {
        Some(f) => if f < b.names.len() {
            Some(f)
        } else {
            None
        },
        None => None,
    }
}

/// The words for a file that could not be shown.
pub fn reveal_failed(name: &str, why: &str) -> (s: String)
    ensures
        s@ == "could not show "@ + name@ + ": "@ + why@,
{
    let mut s = "could not show ".to_owned();
    s.append(name);
    s.append(": ");
    s.append(why);
    s
}

/// The desktop a file manager is of.
#[derive(Debug, Clone, Copy, PartialEq, Eq, Structural)]
pub enum Desktop {
    Mac,
    Windows,
    Other,
}

/// A program, and what it is started with.
#[derive(Debug)]
pub struct Reveal {
    pub program: &'static str,
    pub args: Vec<String>,
}

/// The command that shows a file in the file manager: the Finder and
/// Explorer choose the file, and elsewhere its folder is opened. Explorer
/// reads "/select," and the path as one argument, quoted by the path
/// alone.
pub fn reveal_command(desktop: Desktop, path: &str, parent: Option<&str>) -> (r: Reveal)
    ensures
        r.program@ == match desktop {
            Desktop::Mac => "open"@,
            Desktop::Windows => "explorer"@,
            Desktop::Other => "xdg-open"@,
        },
        text::texts(r.args@) == match desktop {
            Desktop::Mac => seq!["-R"@, path@],
            Desktop::Windows => seq!["/select,\""@ + path@ + "\""@],
            Desktop::Other => seq![
                match parent {
                    Some(p) => p@,
                    None => "."@,
                },
            ],
        },
{
    let mut args: Vec<String> = Vec::new();
    match desktop {
        Desktop::Mac => {
            args.push("-R".to_owned());
            args.push(path.to_owned());
            Reveal { program: "open", args }
        },
        Desktop::Windows => {
            let mut s = "/select,\"".to_owned();
            s.append(path);
            s.append("\"");
            args.push(s);
            Reveal { program: "explorer", args }
        },
        Desktop::Other => {
            let folder: &str = match parent {
                Some(p) => p,
                None => ".",
            };
            args.push(folder.to_owned());
            Reveal { program: "xdg-open", args }
        },
    }
}

/// The menu says a mark where every frame of the set has it, and none
/// where they differ or there are none.
pub proof fn a_mark_is_ticked_where_all_have_it(values: Seq<i32>)
    requires
        forall|i: int| 0 <= i < values.len() ==> #[trigger] values[i] >= 0,
    ensures
        forall|v: i32|
            v >= 0 ==> (#[trigger] shared_by(seq![v]) == v),
        shared_by(values) >= 0 <==> values.len() > 0 && (forall|i: int, j: int|
            0 <= i < values.len() && 0 <= j < values.len() ==> values[i] == values[j]),
        shared_by(values) >= 0 ==> (forall|i: int|
            0 <= i < values.len() ==> #[trigger] values[i] == shared_by(values)),
        shared_by(values) < 0 ==> shared_by(values) == -1,
{
    assert(values.len() > 0 ==> values[0] >= 0);
    assert forall|v: i32| v >= 0 implies #[trigger] shared_by(seq![v]) == v by {
        assert(seq![v][0] == v);
    }
}

/// The values are the frames' own, in the set's order.
pub proof fn the_menu_reads_the_frames_marks(metas: Seq<Meta>, frames: Seq<usize>, k: int)
    requires
        0 <= k < frames.len(),
    ensures
        ratings(metas, frames).len() == frames.len(),
        flags(metas, frames).len() == frames.len(),
        labels(metas, frames).len() == frames.len(),
        ratings(metas, frames)[k] == metas[frames[k] as int].rating,
        flags(metas, frames)[k] == 2 <==> metas[frames[k] as int].flag is Reject,
        flags(metas, frames)[k] == 1 <==> metas[frames[k] as int].flag is Pick,
        labels(metas, frames)[k] == metas[frames[k] as int].label.number(),
{
}

/// A choice in the menu asks for its own value of its own mark, and for no
/// other.
pub proof fn a_choice_asks_for_its_own_mark(kind: Seq<char>, value: i32, change: Change)
    requires
        asks(kind, value, change),
    ensures
        change matches Change::Rating(n) ==> kind == "rating"@ && n == value && 0 <= value <= 5,
        change matches Change::Flag(f) ==> kind == "flag"@ && 0 <= value <= 2 && (value == 2
            <==> f is Reject) && (value == 1 <==> f is Pick),
        change matches Change::Label(l) ==> kind == "label"@ && 0 <= value <= 5 && (value == 0
            <==> l is Plain),
{
}

/// A menu asked for on a row is about that row's file; off the rows, about
/// the frame on screen.
pub proof fn a_menu_is_about_the_row_it_was_asked_on(b: Browser, row: i32)
    ensures
        row < 0 ==> file_of(b, row) == b.current,
        0 <= row < b.shown@.len() ==> file_of(b, row) == Some(b.shown@[row as int]),
        row >= 0 && row >= b.shown@.len() ==> file_of(b, row) is None,
{
}

/// Every rating, flag and label can be asked for by the menu, by its own
/// number.
pub proof fn every_mark_can_be_asked_for(n: u8, f: Flag, l: Label)
    ensures
        n <= 5 ==> asks("rating"@, n as i32, Change::Rating(n)),
        n > 5 ==> !asks("rating"@, n as i32, Change::Rating(n)),
        asks("flag"@, f.number() as i32, Change::Flag(f)),
        asks("label"@, l.number() as i32, Change::Label(l)),
{
}

} // verus!
