//! The camera's picture standing in for a develop.
//!
//! A frame chosen in the develop view shows the JPEG its camera wrote
//! until its develop lands. The pictures live where the culling mode's
//! do, so a frame just culled, or just arrowed away from, is on screen
//! in the next frame rather than decoded again.

use crate::panel::browser::Browser;
use crate::panel::edit::Work;
use crate::panel::selection;
use crate::paths;
use std::collections::HashMap;
use vstd::prelude::*;

verus! {

broadcast use vstd::std_specs::hash::group_hash_axioms;

/// A frame whose develop is waited on.
#[derive(Debug, Clone, Copy, PartialEq, Eq, Structural)]
pub struct Wait {
    pub file: usize,
    /// The develop that was asked for it.
    pub generation: u64,
    /// The frame whose camera picture is on screen meanwhile: its own
    /// once it is decoded, the one before it until then.
    pub showing: Option<usize>,
}

impl Wait {
    /// Its own picture is the one on screen.
    pub open spec fn is_up(self) -> bool {
        self.showing == Some(self.file)
    }

    /// A frame asked for, with `showing` left on screen until its own
    /// picture is in hand.
    pub fn asked(file: usize, generation: u64, showing: Option<usize>) -> (w: Wait)
        ensures
            w == (Wait { file, generation, showing }),
    {
        Wait { file, generation, showing }
    }

    /// A frame whose picture is up already.
    pub fn held(file: usize, generation: u64) -> (w: Wait)
        ensures
            w == (Wait { file, generation, showing: Some(file) }),
            w.is_up(),
    {
        Wait { file, generation, showing: Some(file) }
    }

    pub fn up(&self) -> (r: bool)
        ensures
            r == self.is_up(),
    {
        match self.showing {
            Some(f) => f == self.file,
            None => false,
        }
    }

    /// A picture of `file` is in hand: it goes up when it is the one
    /// waited on.
    pub fn arrived(&mut self, file: usize) -> (r: bool)
        ensures
            r == (file == old(self).file),
            *final(self) == if r {
                Wait { showing: Some(file), ..*old(self) }
            } else {
                *old(self)
            },
    {
        if file != self.file {
            return false;
        }
        self.showing = Some(file);
        true
    }

    /// A develop of `generation` is this frame's picture, or a later
    /// one's of it: an older develop is of another frame.
    pub fn replaced_by(&self, generation: u64) -> (r: bool)
        ensures
            r == (generation >= self.generation),
    {
        generation >= self.generation
    }
}

/// The camera's pictures in hand, by file: those at the view's size, and
/// one at its own.
#[derive(Debug)]
pub struct Cache {
    pub screen: Vec<usize>,
    pub full: Option<usize>,
}

impl Cache {
    pub open spec fn wf(self) -> bool {
        selection::ordered(self.screen@)
    }

    /// There is a picture of the file, at either size.
    pub open spec fn has_best(self, file: usize) -> bool {
        self.screen@.contains(file) || self.full == Some(file)
    }

    pub fn best(&self, file: usize) -> (r: bool)
        requires
            self.wf(),
        ensures
            r == self.has_best(file),
    {
        let own: bool = match self.full {
            Some(f) => f == file,
            None => false,
        };
        selection::has(&self.screen, file) || own
    }

    /// A picture put in.
    pub fn insert(&mut self, file: usize, full: bool)
        requires
            old(self).wf(),
        ensures
            final(self).wf(),
            final(self).screen@ == if full {
                old(self).screen@
            } else {
                selection::with(old(self).screen@, file)
            },
            final(self).full == if full {
                Some(file)
            } else {
                old(self).full
            },
    {
        if full {
            self.full = Some(file);
        } else {
            selection::put(&mut self.screen, file);
        }
    }

    /// What of it is in the window about a frame: the pictures at the
    /// view's size that are, and the one at its own when it is that
    /// frame's.
    pub fn keep(&mut self, window: &Vec<usize>, file: usize)
        requires
            old(self).wf(),
            selection::ordered(window@),
        ensures
            final(self).wf(),
            final(self).screen@ == selection::pruned(old(self).screen@, window@),
            final(self).full == if old(self).full == Some(file) {
                Some(file)
            } else {
                None
            },
    {
        proof {
            selection::a_hidden_frame_leaves_the_set(
                self.screen@,
                window@,
                usize::MAX + 1,
            );
        }
        self.screen = selection::prune(&self.screen, window);
        self.drop_full_unless(file);
    }

    /// The copy at its own size let go, unless it is `file`'s.
    pub fn drop_full_unless(&mut self, file: usize)
        ensures
            *final(self) == (Cache {
                full: if old(self).full == Some(file) {
                    Some(file)
                } else {
                    None
                },
                ..*old(self)
            }),
    {
        match self.full {
            Some(f) => {
                if f != file {
                    self.full = None;
                }
            },
            None => {},
        }
    }

    pub fn clear(&mut self)
        ensures
            final(self).wf(),
            final(self).screen@.len() == 0,
            final(self).full is None,
    {
        self.screen = Vec::new();
        self.full = None;
    }
}

/// The culling mode, or the pictures the develop view keeps of it.
#[derive(Debug)]
pub struct Cull {
    pub cache: Cache,
    /// Files with no preview to show, and why.
    pub failed: HashMap<usize, String>,
    /// The file whose full-size copy has been asked for and has not
    /// arrived.
    pub full_asked: Option<usize>,
    /// The files whose previews are on the GPU.
    pub textured: Vec<usize>,
    /// How many frames side by side, one, two or four, and the first row
    /// of them.
    pub compare: usize,
    pub anchor: usize,
    /// The panel's tab before the mode, put back on leaving.
    pub tab_kept: String,
    /// Which way the last arrow went, for the order of the decodes.
    pub forward: bool,
    /// The long edge the screen-size previews are made at.
    pub size: u32,
    /// The selection has moved, or the frame has been turned, and the
    /// frame that shows it is yet to be drawn.
    pub switched: bool,
    pub turned: bool,
    /// The status line as last set, so it is set only on a change.
    pub status: String,
}

impl Cull {
    pub open spec fn wf(self) -> bool {
        &&& self.cache.wf()
        &&& selection::ordered(self.textured@)
        &&& self.compare == 1 || self.compare == 2 || self.compare == 4
    }

    pub fn new(tab_kept: String, size: u32) -> (c: Cull)
        ensures
            c.wf(),
            c.cache.screen@.len() == 0,
            c.cache.full is None,
            c.failed@ == Map::<usize, String>::empty(),
            c.textured@.len() == 0,
            c.status@ == ""@,
            c == (Cull {
                cache: c.cache,
                failed: c.failed,
                full_asked: None,
                textured: c.textured,
                compare: 1,
                anchor: 0,
                tab_kept,
                forward: true,
                size,
                switched: false,
                turned: false,
                status: c.status,
            }),
    {
        Cull {
            cache: Cache { screen: Vec::new(), full: None },
            failed: HashMap::new(),
            full_asked: None,
            textured: Vec::new(),
            compare: 1,
            anchor: 0,
            tab_kept,
            forward: true,
            size,
            switched: false,
            turned: false,
            status: "".to_owned(),
        }
    }
}

/// What the shot line says of the open frame.
#[derive(Debug)]
pub struct Shot {
    pub camera: String,
    pub exposure: String,
    pub size: String,
}

/// The window about the picture.
#[derive(Debug)]
pub struct Screen {
    pub culling: bool,
    pub compare: i32,
    /// A camera's picture stands in for the develop, and what it is.
    pub placeholder: bool,
    pub placeholder_status: String,
    /// The readings of the developed picture: the navigator and the part
    /// it shows, the scopes, the histogram and the clipping lamps.
    pub navigator: bool,
    pub nav_partial: bool,
    pub scopes: bool,
    pub bins: bool,
    pub clip_shadows: bool,
    pub clip_highlights: bool,
    pub file_name: String,
    pub shot: Shot,
}

/// What may be in hand or under way on the panel, none of which can act
/// on the camera's picture.
#[derive(Debug, Clone, Copy, PartialEq, Eq, Structural)]
pub struct Hands {
    /// A shape being placed, a repair, a dropper, a guide, the level and
    /// the crop.
    pub placing: bool,
    pub retouching: bool,
    pub picking: bool,
    pub guiding: bool,
    pub leveling: bool,
    pub cropping: bool,
    /// A drag of the crop, a mask or a patch.
    pub crop_drag: bool,
    pub mask_drag: bool,
    pub patch_drag: bool,
    /// A save and a develop still on their timers.
    pub saving: bool,
    pub developing: bool,
    /// The outgoing frame's edit held over its picture, a history state
    /// looked at, and the words and the view kept for after it.
    pub held: bool,
    pub peek: bool,
    pub status_kept: bool,
    pub view_kept: bool,
}

impl Hands {
    pub open spec fn bare() -> Hands {
        Hands {
            placing: false,
            retouching: false,
            picking: false,
            guiding: false,
            leveling: false,
            cropping: false,
            crop_drag: false,
            mask_drag: false,
            patch_drag: false,
            saving: false,
            developing: false,
            held: false,
            peek: false,
            status_kept: false,
            view_kept: false,
        }
    }

    pub fn empty() -> (h: Hands)
        ensures
            h == Hands::bare(),
    {
        Hands {
            placing: false,
            retouching: false,
            picking: false,
            guiding: false,
            leveling: false,
            cropping: false,
            crop_drag: false,
            mask_drag: false,
            patch_drag: false,
            saving: false,
            developing: false,
            held: false,
            peek: false,
            status_kept: false,
            view_kept: false,
        }
    }
}

/// The frame on screen and what stands about it.
#[derive(Debug)]
pub struct Desk {
    pub browser: Browser,
    /// The culling mode, when it is on.
    pub cull: Option<Cull>,
    /// Its pictures, kept by the develop view.
    pub hold: Option<Cull>,
    /// The frame whose develop is waited on.
    pub placeholder: Option<Wait>,
    pub work: Work,
    pub screen: Screen,
    pub hands: Hands,
    /// The view is fitted, and not at a zoom.
    pub fitted: bool,
    /// The size of the picture the view was fitted to.
    pub image_size: (u32, u32),
    /// The open frame's developed size; none until its develop lands.
    pub source_size: (u32, u32),
    /// A develop is on the GPU.
    pub developed: bool,
    /// The frames to cull side by side when the first file opens.
    pub cull_at_start: Option<u32>,
}

pub open spec fn cull_wf(c: Option<Cull>) -> bool {
    c matches Some(c) ==> c.wf()
}

impl Desk {
    pub open spec fn wf(self) -> bool {
        &&& self.browser.wf()
        &&& cull_wf(self.cull)
        &&& cull_wf(self.hold)
    }
}

/// A picture to decode, at a long edge; at its own for zero.
#[derive(Debug, Clone, Copy, PartialEq, Eq, Structural)]
pub struct Want {
    pub file: usize,
    pub size: u32,
}

// The readings.

/// The window with the readings of the developed picture off it, or let
/// back.
pub open spec fn overlays(s: Screen, up: bool) -> Screen {
    if up {
        Screen {
            placeholder: true,
            navigator: false,
            nav_partial: false,
            scopes: false,
            bins: false,
            clip_shadows: false,
            clip_highlights: false,
            ..s
        }
    } else {
        Screen { placeholder: false, ..s }
    }
}

/// What the panel draws over the picture and beside it while the
/// camera's stands in for a develop: every reading of the developed
/// picture goes, the histogram behind the curve and the clipping lamps
/// with the scopes, and the bins with them, or the next touch of the
/// curve would paint the last frame's back. What is taken away comes
/// back with the develop.
pub fn show_overlays(s: &mut Screen, up: bool)
    ensures
        *final(s) == overlays(*old(s), up),
{
    s.placeholder = up;
    if up {
        s.navigator = false;
        s.nav_partial = false;
        s.scopes = false;
        s.bins = false;
        s.clip_shadows = false;
        s.clip_highlights = false;
    }
}

/// What the camera's picture is, on the window. The line goes on its own
/// property rather than into the status line, so that the word over the
/// picture and the line under it cannot disagree.
pub fn say_placeholder(s: &mut Screen, line: &str)
    ensures
        final(s).placeholder_status@ == line@,
        *final(s) == (Screen { placeholder_status: final(s).placeholder_status, ..*old(s) }),
{
    s.placeholder_status = line.to_owned();
}

/// The pictures kept, with none of them on the GPU.
pub open spec fn untextured(before: Option<Cull>, after: Option<Cull>) -> bool {
    match before {
        Some(c) => {
            &&& after is Some
            &&& after->0.textured@ == Seq::<usize>::empty()
            &&& after->0 == (Cull { textured: after->0.textured, ..c })
        },
        None => after is None,
    }
}

/// The desk with no camera's picture standing in.
pub open spec fn dropped(before: Desk, after: Desk) -> bool {
    if before.placeholder is Some {
        &&& after.screen.placeholder_status@ == ""@
        &&& untextured(before.hold, after.hold)
        &&& after == (Desk {
            placeholder: None,
            hold: after.hold,
            screen: Screen {
                placeholder_status: after.screen.placeholder_status,
                ..overlays(before.screen, false)
            },
            ..before
        })
    } else {
        after == before
    }
}

/// The develop landed, or the frame is no longer the one waited on: the
/// camera's picture comes down and the panel's overlays come back. True
/// when one was waited on. The pictures themselves stay, for the arrow
/// back; the textures made from them do not.
pub fn drop_placeholder(d: &mut Desk) -> (was: bool)
    requires
        old(d).wf(),
    ensures
        dropped(*old(d), *final(d)),
        was == old(d).placeholder is Some,
        final(d).wf(),
{
    let was: bool = d.placeholder.is_some();
    if !was {
        return false;
    }
    d.placeholder = None;
    show_overlays(&mut d.screen, false);
    d.screen.placeholder_status = "".to_owned();
    match &mut d.hold {
        Some(h) => {
            h.textured = Vec::new();
        },
        None => {},
    }
    true
}

/// The frame whose camera picture the viewport draws in place of a
/// develop.
pub open spec fn stands_in(d: Desk) -> Option<usize> {
    match d.placeholder {
        Some(w) => match w.showing {
            Some(file) => match d.hold {
                Some(h) => if h.cache.has_best(file) {
                    Some(file)
                } else {
                    None
                },
                None => None,
            },
            None => None,
        },
        None => None,
    }
}

/// The frame whose camera picture the viewport draws in place of a
/// develop, when it is drawing one: the selected frame's once it is
/// decoded, the one before it until then, and none where neither is held
/// any more, which leaves the developed picture on screen.
pub fn standing_in(d: &Desk) -> (r: Option<usize>)
    requires
        d.wf(),
    ensures
        r == stands_in(*d),
{
    match &d.placeholder {
        Some(w) => match w.showing {
            Some(file) => match &d.hold {
                Some(h) => if h.cache.best(file) {
                    Some(file)
                } else {
                    None
                },
                None => None,
            },
            None => None,
        },
        None => None,
    }
}

/// A develop of `generation` is on the frame being drawn now: the
/// camera's picture standing in for it comes down, unless the wait is
/// for a frame chosen since, whose own develop is still to come.
pub fn develop_landed(d: &mut Desk, generation: u64) -> (r: bool)
    requires
        old(d).wf(),
    ensures
        r == (old(d).placeholder matches Some(w) && generation >= w.generation),
        r ==> dropped(*old(d), *final(d)),
        !r ==> *final(d) == *old(d),
        final(d).wf(),
{
    let ours: bool = match &d.placeholder {
        Some(w) => w.replaced_by(generation),
        None => false,
    };
    if !ours {
        return false;
    }
    drop_placeholder(d)
}

/// The desk with the camera's picture of a frame up: fitted, whatever
/// the view was at, since the develop it stands in for arrives fitted;
/// the line says what it is, and the readings of another picture go.
pub open spec fn picture_up(before: Desk, line: Seq<char>, after: Desk) -> bool {
    &&& after.screen.placeholder_status@ == line
    &&& after == (Desk {
        fitted: true,
        image_size: (0, 0),
        screen: Screen {
            placeholder_status: after.screen.placeholder_status,
            ..overlays(before.screen, true)
        },
        ..before
    })
}

/// The camera's picture of `file` is in hand: it goes up on the next
/// frame.
fn placeholder_arrived(d: &mut Desk, file: usize, line: &str)
    requires
        old(d).wf(),
    ensures
        final(d).wf(),
        old(d).hold matches Some(h) && h.cache.has_best(file) ==> picture_up(
            *old(d),
            line@,
            *final(d),
        ),
        !(old(d).hold matches Some(h) && h.cache.has_best(file)) ==> *final(d) == *old(d),
{
    let there: bool = match &d.hold {
        Some(h) => h.cache.best(file),
        None => false,
    };
    if !there {
        return;
    }
    d.fitted = true;
    d.image_size = (0, 0);
    say_placeholder(&mut d.screen, line);
    show_overlays(&mut d.screen, true);
}


// A frame selected.

/// The pictures kept, trimmed to the window about a frame: those made
/// for a view since resized all go.
pub open spec fn trimmed_hold(
    before: Option<Cull>,
    size: u32,
    window: Seq<usize>,
    file: usize,
    after: Option<Cull>,
) -> bool {
    match before {
        None => after is None,
        Some(h) => {
            let same = h.size == size;
            let a = after->0;
            &&& after is Some
            &&& a.cache.screen@ == if same {
                selection::pruned(h.cache.screen@, window)
            } else {
                seq![]
            }
            &&& a.cache.full == if same && h.cache.full == Some(file) {
                Some(file)
            } else {
                None
            }
            &&& a.textured@ == if same {
                selection::pruned(h.textured@, window)
            } else {
                seq![]
            }
            &&& a == (Cull { cache: a.cache, textured: a.textured, size, ..h })
        },
    }
}

pub open spec fn trimmed(
    before: Desk,
    size: u32,
    window: Seq<usize>,
    file: usize,
    after: Desk,
) -> bool {
    &&& after == (Desk { hold: after.hold, ..before })
    &&& trimmed_hold(before.hold, size, window, file, after.hold)
}

/// The window of files about a frame: the one given, or the frame alone
/// when the filter hides it.
pub open spec fn window_about(shown: Seq<usize>, window: Seq<usize>, file: usize) -> Seq<usize> {
    if shown.contains(file) {
        window
    } else {
        seq![file]
    }
}

fn trim_hold(h: &mut Cull, size: u32, window: &Vec<usize>, file: usize)
    requires
        old(h).wf(),
        selection::ordered(window@),
    ensures
        final(h).wf(),
        trimmed_hold(Some(*old(h)), size, window@, file, Some(*final(h))),
{
    if h.size != size {
        h.cache.clear();
        h.textured = Vec::new();
        h.size = size;
    }
    proof {
        reveal(Seq::filter);
        selection::a_hidden_frame_leaves_the_set(h.textured@, window@, usize::MAX + 1);
    }
    h.cache.keep(window, file);
    h.textured = selection::prune(&h.textured, window);
    proof {
        if old(h).size != size {
            assert(h.cache.screen@ =~= seq![]);
            assert(h.textured@ =~= seq![]);
        }
    }
}

/// The pictures the develop view keeps: those there are, or none yet.
pub open spec fn held_or_new(hold: Option<Cull>, size: u32, h: Cull) -> bool {
    match hold {
        Some(c) => h == c,
        None => {
            &&& h.wf()
            &&& h.cache.screen@.len() == 0
            &&& h.cache.full is None
            &&& h.failed@ == Map::<usize, String>::empty()
            &&& h.textured@.len() == 0
            &&& h.size == size
        },
    }
}

/// The desk waiting on a frame.
pub open spec fn waiting(d: Desk, h: Cull, w: Wait) -> Desk {
    Desk { hold: Some(h), placeholder: Some(w), ..d }
}

pub open spec fn showing(d: Desk) -> Option<usize> {
    match d.placeholder {
        Some(w) => w.showing,
        None => None,
    }
}

/// A frame asked for, its own kept pictures being `h`: up at once when
/// its picture is in hand, not asked for when its file has none, and
/// else asked for with whatever camera picture is on screen left there
/// until its own is in hand.
pub open spec fn asked_for(
    d: Desk,
    h: Cull,
    file: usize,
    size: u32,
    line: Seq<char>,
    after: Desk,
    want: Option<Want>,
) -> bool {
    let w = Wait { file, generation: d.work.generation, showing: showing(d) };
    if h.cache.screen@.contains(file) {
        &&& picture_up(waiting(d, h, Wait { showing: Some(file), ..w }), line, after)
        &&& want is None
    } else if h.failed@.contains_key(file) {
        &&& dropped(waiting(d, h, w), after)
        &&& want is None
    } else {
        let a = waiting(d, h, w);
        &&& after == (Desk { screen: overlays(a.screen, stands_in(a) is Some), ..a })
        &&& want == Some(Want { file, size })
    }
}

/// What selecting a frame in the develop view comes to, the pictures
/// kept already trimmed.
pub open spec fn started(
    d: Desk,
    file: usize,
    size: u32,
    worth: bool,
    line: Seq<char>,
    after: Desk,
    want: Option<Want>,
) -> bool {
    if !d.browser.shown@.contains(file) || !worth {
        &&& dropped(d, after)
        &&& want is None
    } else {
        exists|h: Cull|
            {
                &&& #[trigger] held_or_new(d.hold, size, h)
                &&& asked_for(d, h, file, size, line, after, want)
            }
    }
}

/// A frame asked for, with its pictures kept in hand.
fn ask(d: &mut Desk, file: usize, size: u32, line: &str) -> (want: Option<Want>)
    requires
        old(d).wf(),
        old(d).hold is Some,
    ensures
        final(d).wf(),
        asked_for(*old(d), old(d).hold->0, file, size, line@, *final(d), want),
{
    let ghost h = d.hold->0;
    let (held, none_in_it): (bool, bool) = match &d.hold {
        Some(h) => (selection::has(&h.cache.screen, file), h.failed.contains_key(&file)),
        None => (false, false),
    };
    let still: Option<usize> = match &d.placeholder {
        Some(w) => w.showing,
        None => None,
    };
    let mut wait = Wait::asked(file, d.work.generation, still);
    if held {
        // Already decoded: up on the next frame, no thread needed.
        let _ours = wait.arrived(file);
        d.placeholder = Some(wait);
        assert(*d == waiting(*old(d), h, wait));
        placeholder_arrived(d, file, line);
        return None;
    }
    d.placeholder = Some(wait);
    assert(*d == waiting(*old(d), h, wait));
    if none_in_it {
        let _was = drop_placeholder(d);
        return None;
    }
    // The frame before this one may have gone with the window, and then
    // nothing stands in.
    let up: bool = standing_in(d).is_some();
    show_overlays(&mut d.screen, up);
    Some(Want { file, size })
}

/// The pictures kept, trimmed to the window about a frame.
fn trim(d: &mut Desk, file: usize, size: u32, window: &Vec<usize>, shown: bool)
    requires
        old(d).wf(),
        selection::ordered(window@),
        shown == old(d).browser.shown@.contains(file),
    ensures
        final(d).wf(),
        trimmed(
            *old(d),
            size,
            window_about(old(d).browser.shown@, window@, file),
            file,
            *final(d),
        ),
{
    let mut alone: Vec<usize> = Vec::new();
    alone.push(file);
    assert(alone@ =~= seq![file]);
    match &mut d.hold {
        Some(h) => {
            if shown {
                trim_hold(h, size, window, file);
            } else {
                trim_hold(h, size, &alone, file);
            }
        },
        None => {},
    }
}

/// A frame selected in the develop view: its camera JPEG asked for, to
/// stand in for the develop until that lands. Only the selection's own
/// is asked for: nothing is decoded ahead here, where the develop wants
/// the cores.
///
/// What is kept is trimmed to the `window` of files about it on every
/// selection. A file that is not `worth` it (not a raw) or that the
/// filter hides has nothing to stand in with: what is on screen stays.
/// `line` says what its picture is.
pub fn start_placeholder(
    d: &mut Desk,
    file: usize,
    size: u32,
    window: &Vec<usize>,
    worth: bool,
    line: &str,
) -> (want: Option<Want>)
    requires
        old(d).wf(),
        selection::ordered(window@),
    ensures
        final(d).wf(),
        exists|t: Desk|
            {
                &&& #[trigger] trimmed(
                    *old(d),
                    size,
                    window_about(old(d).browser.shown@, window@, file),
                    file,
                    t,
                )
                &&& started(t, file, size, worth, line@, *final(d), want)
            },
{
    let shown: bool = selection::has(&d.browser.shown, file);
    trim(d, file, size, window, shown);
    let ghost t = *d;
    if !shown || !worth {
        let _was = drop_placeholder(d);
        return None;
    }
    if d.hold.is_none() {
        d.hold = Some(Cull::new("".to_owned(), size));
    }
    let ghost h = d.hold->0;
    let ghost before = *d;
    let want = ask(d, file, size, line);
    proof {
        assert(held_or_new(t.hold, size, h));
        assert(before == (Desk { hold: Some(h), ..t }));
        assert(waiting(before, h, Wait { file, generation: t.work.generation, showing: showing(t) })
            == waiting(t, h, Wait { file, generation: t.work.generation, showing: showing(t) }));
        assert(asked_for(t, h, file, size, line@, *d, want));
    }
    want
}

// A picture decoded.

/// What a decode thread came back with.
#[derive(Debug)]
pub enum Decoded {
    /// A picture, at its own size or the view's.
    Picture { full: bool },
    /// None is in the file, and why.
    Missing { why: String },
}

/// A full-size copy of a frame no longer selected is not kept.
pub open spec fn unwanted(decoded: Decoded, current: Option<usize>, file: usize) -> bool {
    decoded matches Decoded::Picture { full } && full && current != Some(file)
}

/// The pictures with what was decoded among them.
pub open spec fn taken(
    before: Cull,
    current: Option<usize>,
    file: usize,
    size: u32,
    decoded: Decoded,
    after: Cull,
) -> bool {
    let full_asked = if before.full_asked == Some(file) && size == 0 {
        None
    } else {
        before.full_asked
    };
    match decoded {
        Decoded::Picture { full } => if unwanted(decoded, current, file) {
            after == (Cull { full_asked, ..before })
        } else {
            &&& after.cache.screen@ == if full {
                before.cache.screen@
            } else {
                selection::with(before.cache.screen@, file)
            }
            &&& after.cache.full == if full {
                Some(file)
            } else {
                before.cache.full
            }
            &&& after == (Cull { cache: after.cache, full_asked, ..before })
        },
        Decoded::Missing { why } => {
            &&& after.failed@ == before.failed@.insert(file, why)
            &&& after == (Cull { failed: after.failed, full_asked, ..before })
        },
    }
}

fn take(c: &mut Cull, current: Option<usize>, file: usize, size: u32, decoded: Decoded)
    requires
        old(c).wf(),
    ensures
        final(c).wf(),
        taken(*old(c), current, file, size, decoded, *final(c)),
{
    let asked: bool = match c.full_asked {
        Some(f) => f == file,
        None => false,
    };
    if asked && size == 0 {
        c.full_asked = None;
    }
    match decoded {
        Decoded::Picture { full } => {
            let selected: bool = match current {
                Some(f) => f == file,
                None => false,
            };
            if full && !selected {
                return;
            }
            c.cache.insert(file, full);
        },
        Decoded::Missing { why } => {
            let _was = c.failed.insert(file, why);
        },
    }
}

/// The develop view's pictures with what was decoded among them.
pub open spec fn hold_took(
    before: Desk,
    file: usize,
    size: u32,
    decoded: Decoded,
    after: Desk,
) -> bool {
    &&& before.hold is Some
    &&& after.hold is Some
    &&& after == (Desk { hold: after.hold, ..before })
    &&& taken(before.hold->0, before.browser.current, file, size, decoded, after.hold->0)
}

/// The frame still waited on puts its picture up, and a frame with no
/// camera JPEG in it gives up the wait.
pub open spec fn put_up(
    d: Desk,
    file: usize,
    decoded: Decoded,
    line: Seq<char>,
    after: Desk,
) -> bool {
    let ours = d.placeholder matches Some(w) && w.file == file;
    if unwanted(decoded, d.browser.current, file) || !ours {
        after == d
    } else if decoded is Picture {
        picture_up(
            Desk { placeholder: Some(Wait { showing: Some(file), ..d.placeholder->0 }), ..d },
            line,
            after,
        )
    } else if d.placeholder->0.is_up() {
        after == d
    } else {
        dropped(d, after)
    }
}

/// What a decoded picture does.
pub open spec fn delivered(
    before: Desk,
    path: Seq<char>,
    file: usize,
    size: u32,
    decoded: Decoded,
    line: Seq<char>,
    after: Desk,
) -> bool {
    if !paths::is_at(before.browser.paths@, file, path, before.browser.separator) || (before.cull
        is None && before.hold is None) {
        after == before
    } else if before.cull is Some {
        &&& after.cull is Some
        &&& after == (Desk { cull: after.cull, ..before })
        &&& taken(before.cull->0, before.browser.current, file, size, decoded, after.cull->0)
    } else {
        exists|t: Desk|
            {
                &&& #[trigger] hold_took(before, file, size, decoded, t)
                &&& put_up(t, file, decoded, line, after)
            }
    }
}

/// A preview decoded on a cull thread: into the mode's cache while the
/// mode is on, and into the develop view's hold otherwise, where it
/// stands in for the frame's develop as soon as it is the frame still
/// being waited on. A frame with no preview is remembered as such, and
/// the picture on screen is left where it is. One of a list since
/// replaced would land on a stranger's slot: only its own file's (`path`)
/// is taken. `line` says what the picture is.
pub fn deliver_preview(
    d: &mut Desk,
    path: &str,
    file: usize,
    size: u32,
    decoded: Decoded,
    line: &str,
)
    requires
        old(d).wf(),
    ensures
        final(d).wf(),
        delivered(*old(d), path@, file, size, decoded, line@, *final(d)),
{
    if !paths::still_at(&d.browser.paths, file, path, d.browser.separator) {
        return;
    }
    let current: Option<usize> = d.browser.current;
    if d.cull.is_some() {
        match &mut d.cull {
            Some(c) => {
                take(c, current, file, size, decoded);
            },
            None => {},
        }
        return;
    }
    if d.hold.is_none() {
        return;
    }
    let made: bool = matches!(decoded, Decoded::Picture { .. });
    let selected: bool = match current {
        Some(f) => f == file,
        None => false,
    };
    let wanted: bool = match &decoded {
        Decoded::Picture { full } => !*full || selected,
        Decoded::Missing { .. } => true,
    };
    let ghost what = decoded;
    match &mut d.hold {
        Some(h) => {
            take(h, current, file, size, decoded);
        },
        None => {},
    }
    let ghost t = *d;
    assert(hold_took(*old(d), file, size, what, t));
    if !wanted {
        return;
    }
    let mut put: bool = false;
    let mut gone: bool = false;
    match &mut d.placeholder {
        Some(w) => {
            if made {
                put = w.arrived(file);
            } else {
                gone = w.file == file && !w.up();
            }
        },
        None => {},
    }
    if put {
        proof {
            let h = t.hold->0;
            selection::a_set_takes_a_file_in_order(
                old(d).hold->0.cache.screen@,
                file,
                usize::MAX + 1,
            );
            assert(h.cache.has_best(file));
        }
        placeholder_arrived(d, file, line);
    } else if gone {
        let _was = drop_placeholder(d);
    }
}


// What holds of the standing in.

/// A develop that lands first keeps the late camera picture down: with
/// nothing waited on, a decoded picture is kept and nothing goes up.
pub proof fn a_late_picture_stays_down(
    before: Desk,
    path: Seq<char>,
    file: usize,
    size: u32,
    decoded: Decoded,
    line: Seq<char>,
    after: Desk,
)
    requires
        before.placeholder is None,
        delivered(before, path, file, size, decoded, line, after),
    ensures
        after.placeholder is None,
        after.screen == before.screen,
        stands_in(after) is None,
{
}

/// A frame with no camera JPEG in it is not asked for again, and
/// choosing it leaves nothing waited on and no camera picture up.
pub proof fn a_frame_without_a_picture_is_asked_for_once(
    before: Desk,
    t: Desk,
    file: usize,
    size: u32,
    window: Seq<usize>,
    worth: bool,
    line: Seq<char>,
    after: Desk,
    want: Option<Want>,
)
    requires
        before.wf(),
        selection::ordered(window),
        before.hold matches Some(h) && h.failed@.contains_key(file) && !h.cache.screen@.contains(
            file,
        ),
        trimmed(before, size, window_about(before.browser.shown@, window, file), file, t),
        started(t, file, size, worth, line, after, want),
    ensures
        want is None,
        after.placeholder is None,
        after.hold matches Some(h) && h.failed@.contains_key(file),
{
    let h = before.hold->0;
    let about = window_about(before.browser.shown@, window, file);
    selection::a_hidden_frame_leaves_the_set(h.cache.screen@, about, usize::MAX + 1);
    assert(!t.hold->0.cache.screen@.contains(file)) by {
        assert(!selection::pruned(h.cache.screen@, about).contains(file));
    }
}

/// A second frame chosen before the first has developed keeps the
/// picture there is on screen until its own is decoded, rather than the
/// viewport going blank between them.
pub proof fn the_picture_there_is_stays(
    before: Desk,
    t: Desk,
    first: usize,
    file: usize,
    size: u32,
    window: Seq<usize>,
    line: Seq<char>,
    after: Desk,
    want: Option<Want>,
)
    requires
        before.wf(),
        stands_in(before) == Some(first),
        before.browser.shown@.contains(file),
        selection::ordered(window),
        window.contains(first),
        before.hold matches Some(h) && h.size == size && h.cache.screen@.contains(first)
            && !h.cache.screen@.contains(file) && !h.failed@.contains_key(file),
        trimmed(before, size, window, file, t),
        started(t, file, size, true, line, after, want),
    ensures
        after.placeholder matches Some(w) && w.file == file && !w.is_up(),
        stands_in(after) == Some(first),
        after.screen.placeholder,
        want == Some(Want { file, size }),
{
    let h = before.hold->0;
    selection::a_hidden_frame_leaves_the_set(h.cache.screen@, window, usize::MAX + 1);
    let kept = selection::pruned(h.cache.screen@, window);
    assert(kept.contains(first));
    assert(!kept.contains(file));
}

/// A frame chosen shows its camera picture once it is decoded, with the
/// readings of any other picture off the window, and its own develop
/// takes it down; an older one does not.
pub proof fn a_picture_is_up_until_its_develop(
    before: Desk,
    path: Seq<char>,
    file: usize,
    size: u32,
    line: Seq<char>,
    up: Desk,
)
    requires
        before.wf(),
        before.cull is None,
        before.hold is Some,
        before.placeholder matches Some(w) && w.file == file,
        paths::is_at(before.browser.paths@, file, path, before.browser.separator),
        delivered(before, path, file, size, Decoded::Picture { full: false }, line, up),
    ensures
        stands_in(up) == Some(file),
        up.placeholder matches Some(w) && w.is_up() && w.generation
            == before.placeholder->0.generation,
        up.screen.placeholder,
        up.screen.placeholder_status@ == line,
        !up.screen.navigator && !up.screen.nav_partial && !up.screen.scopes && !up.screen.bins
            && !up.screen.clip_shadows && !up.screen.clip_highlights,
        up.fitted,
        up.hold matches Some(h) && h.cache.screen@.contains(file),
{
    selection::a_set_takes_a_file_in_order(
        before.hold->0.cache.screen@,
        file,
        usize::MAX + 1,
    );
}

/// With a camera's picture up nothing on the window reads the developed
/// one; with it down only its own mark goes, and nothing is lit.
pub proof fn a_camera_picture_takes_the_readings_off(s: Screen)
    ensures
        ({
            let up = overlays(s, true);
            &&& up.placeholder
            &&& !up.navigator && !up.nav_partial && !up.scopes && !up.bins && !up.clip_shadows
                && !up.clip_highlights
            &&& up.culling == s.culling && up.compare == s.compare && up.file_name == s.file_name
                && up.shot == s.shot
        }),
        !overlays(s, false).placeholder,
        overlays(s, false) == (Screen { placeholder: false, ..s }),
{
}

/// A picture taken down leaves nothing waited on, nothing standing in and
/// no words of it, and keeps the pictures there are for the way back.
pub proof fn a_picture_taken_down_is_down(before: Desk, after: Desk)
    requires
        dropped(before, after),
    ensures
        after.placeholder is None,
        stands_in(after) is None,
        before.placeholder is Some ==> !after.screen.placeholder
            && after.screen.placeholder_status@.len() == 0,
        before.placeholder is None ==> after == before,
        before.hold matches Some(h) ==> (after.hold matches Some(k) && k.cache == h.cache
            && k.failed == h.failed),
        after.browser == before.browser && after.work == before.work && after.cull == before.cull,
{
    reveal_strlit("");
}

/// What stands in is the picture on screen, where there is one of it in
/// hand and a develop is waited on.
pub proof fn what_stands_in_is_on_screen(d: Desk, f: usize)
    ensures
        stands_in(d) == Some(f) <==> {
            &&& d.placeholder matches Some(w) && w.showing == Some(f)
            &&& d.hold matches Some(h) && (h.cache.screen@.contains(f) || h.cache.full == Some(f))
        },
        d.placeholder matches Some(w) ==> (w.is_up() <==> w.showing == Some(w.file)),
{
}

/// The pictures kept about a frame are those of the window round it; of
/// another size none is kept.
pub proof fn the_pictures_kept_are_the_windows(
    before: Cull,
    size: u32,
    window: Seq<usize>,
    file: usize,
    after: Option<Cull>,
    f: usize,
)
    requires
        before.wf(),
        trimmed_hold(Some(before), size, window, file, after),
    ensures
        after matches Some(a) && {
            &&& before.size == size ==> (a.cache.screen@.contains(f)
                <==> before.cache.screen@.contains(f) && window.contains(f))
            &&& before.size != size ==> a.cache.screen@.len() == 0 && a.cache.full is None
            &&& before.size == size && before.cache.full == Some(file) ==> a.cache.full == Some(
                file,
            )
            &&& a.cache.full is Some ==> a.cache.full == Some(file)
            &&& a.size == size
            &&& a.failed == before.failed
        },
{
    selection::a_hidden_frame_leaves_the_set(before.cache.screen@, window, usize::MAX + 1);
}

/// A picture decoded is in hand from then on, beside those there were: at
/// the screen's size for any frame, and at its own for the frame selected.
/// A frame with none is remembered as such.
pub proof fn a_picture_decoded_is_in_hand(
    before: Cull,
    current: Option<usize>,
    file: usize,
    size: u32,
    decoded: Decoded,
    after: Cull,
    f: usize,
)
    requires
        before.wf(),
        taken(before, current, file, size, decoded, after),
    ensures
        decoded == (Decoded::Picture { full: false }) ==> (after.cache.screen@.contains(f)
            <==> before.cache.screen@.contains(f) || f == file) && after.cache.full
            == before.cache.full,
        decoded == (Decoded::Picture { full: true }) && current == Some(file) ==> after.cache.full
            == Some(file),
        decoded == (Decoded::Picture { full: true }) && current != Some(file) ==> after.cache
            == before.cache,
        decoded is Missing ==> after.failed@.contains_key(file) && after.cache == before.cache,
        decoded is Picture ==> after.failed == before.failed,
        before.full_asked == Some(file) && size == 0 ==> after.full_asked is None,
        size != 0 ==> after.full_asked == before.full_asked,
{
    selection::a_set_takes_a_file_in_order(before.cache.screen@, file, usize::MAX + 1);
}

/// A picture of another folder's file, or with nowhere to put it, changes
/// nothing; in culling it is the mode's alone.
pub proof fn a_picture_lands_on_its_own_file(
    before: Desk,
    path: Seq<char>,
    file: usize,
    size: u32,
    decoded: Decoded,
    line: Seq<char>,
    after: Desk,
)
    requires
        delivered(before, path, file, size, decoded, line, after),
    ensures
        file >= before.browser.paths@.len() ==> after == before,
        file < before.browser.paths@.len() && !paths::same_path(
            before.browser.paths@[file as int]@,
            path,
            before.browser.separator,
        ) ==> after == before,
        before.cull is None && before.hold is None ==> after == before,
        before.cull is Some ==> after == (Desk { cull: after.cull, ..before }),
        after.browser == before.browser && after.work == before.work,
{
}

/// A frame chosen with its picture in hand shows it at once and asks for
/// none; one known to have none is not asked for; any other is asked for,
/// at the size there is, and waited on.
pub proof fn a_frame_chosen_asks_for_what_it_lacks(
    d: Desk,
    file: usize,
    size: u32,
    line: Seq<char>,
    after: Desk,
    want: Option<Want>,
)
    requires
        d.hold is Some,
        d.browser.shown@.contains(file),
        started(d, file, size, true, line, after, want),
    ensures
        d.hold->0.cache.screen@.contains(file) ==> {
            &&& want is None
            &&& after.placeholder matches Some(w) && w.file == file && w.showing == Some(file)
                && w.generation == d.work.generation
            &&& after.screen.placeholder
            &&& after.screen.placeholder_status@ == line
            &&& after.fitted
        },
        !d.hold->0.cache.screen@.contains(file) && d.hold->0.failed@.contains_key(file) ==> want
            is None && after.placeholder is None,
        !d.hold->0.cache.screen@.contains(file) && !d.hold->0.failed@.contains_key(file) ==> {
            &&& want matches Some(w) && w.file == file && w.size == size
            &&& after.placeholder matches Some(w) && w.file == file && w.generation
                == d.work.generation && w.showing == (match d.placeholder {
                Some(p) => p.showing,
                None => None,
            })
        },
{
}

/// A frame that is hidden, or that no picture is worth standing in for, is
/// waited on by nothing.
pub proof fn a_frame_not_shown_is_not_waited_on(
    d: Desk,
    file: usize,
    size: u32,
    worth: bool,
    line: Seq<char>,
    after: Desk,
    want: Option<Want>,
)
    requires
        !d.browser.shown@.contains(file) || !worth,
        started(d, file, size, worth, line, after, want),
    ensures
        want is None,
        after.placeholder is None,
{
}

/// Empty hands hold nothing: no tool, no drag, nothing on a timer, and
/// nothing kept for after.
pub proof fn empty_hands_hold_nothing()
    ensures
        ({
            let h = Hands::bare();
            &&& !h.placing && !h.retouching && !h.picking && !h.guiding && !h.leveling
            &&& !h.cropping && !h.crop_drag && !h.mask_drag && !h.patch_drag
            &&& !h.saving && !h.developing
            &&& !h.held && !h.peek && !h.status_kept && !h.view_kept
        }),
{
}

/// The pictures kept about a frame that is listed are those of the window
/// given; about one that is not, its own alone.
pub proof fn a_hidden_frame_keeps_its_own_picture(
    shown: Seq<usize>,
    window: Seq<usize>,
    file: usize,
    f: usize,
)
    ensures
        shown.contains(file) ==> window_about(shown, window, file) == window,
        !shown.contains(file) ==> (window_about(shown, window, file).contains(f) <==> f == file),
{
    if !shown.contains(file) {
        assert(window_about(shown, window, file)[0] == file);
    }
}

} // verus!
