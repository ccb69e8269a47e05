//! The window as the run opens it, and the settings as it leaves them.

use crate::panel::browser;
use crate::panel::edit;
use crate::panel::export;
use crate::panel::export::{ExportPreset, Sheet, SheetWindow};
use crate::panel::selection;
use crate::panel::startup::{Monitor, FILE, SYSTEM};
use crate::text;
use vstd::prelude::*;

verus! {

/// What a profile's key names.
#[derive(Debug)]
pub enum Named {
    /// A standard or a working space, by its name.
    Space(String),
    /// A file, by its path.
    File(String),
    /// Nothing the program knows.
    Nothing,
}

/// A profile on the panel: the picker's choice, and the file when it is
/// one.
#[derive(Debug)]
pub struct Picked {
    pub choice: String,
    pub file: String,
}

/// The picker with a profile's key on it; `unknown` for a key that names
/// nothing.
pub open spec fn picks(key: Named, unknown: Seq<char>, p: Picked) -> bool {
    match key {
        Named::Space(s) => p.choice@ == s@ && p.file@ == ""@,
        Named::File(path) => p.choice@ == FILE@ && p.file@ == path@,
        Named::Nothing => p.choice@ == unknown && p.file@ == ""@,
    }
}

fn pick(key: Named, unknown: &str) -> (p: Picked)
    ensures
        picks(key, unknown@, p),
{
    match key {
        Named::Space(s) => Picked { choice: s, file: "".to_owned() },
        Named::File(path) => Picked { choice: FILE.to_owned(), file: path },
        Named::Nothing => Picked { choice: unknown.to_owned(), file: "".to_owned() },
    }
}

/// The profile to proof through: the key's, sRGB for one that names
/// nothing.
pub fn proof_at_start(key: Named, srgb: &str) -> (p: Picked)
    ensures
        picks(key, srgb@, p),
{
    pick(key, srgb)
}

/// The key of the monitor's profile to open with: none at all is sRGB's,
/// else the command line's file, else the last run's.
pub fn display_key(none: bool, srgb: &str, flag: Option<&str>, remembered: &str) -> (key: String)
    ensures
        key@ == if none {
            srgb@
        } else {
            match flag {
                Some(path) => path@,
                None => remembered@,
            }
        },
{
    if none {
        srgb.to_owned()
    } else {
        match flag {
            Some(path) => path.to_owned(),
            None => remembered.to_owned(),
        }
    }
}

/// The monitor's profile to open with: the system's own for its key or
/// for one that names nothing (`named` is what the key names).
pub fn display_at_start(key: &str, named: Named) -> (p: Picked)
    ensures
        if key@ == SYSTEM@ {
            p.choice@ == SYSTEM@ && p.file@ == ""@
        } else {
            picks(named, SYSTEM@, p)
        },
{
    if text::same_text(key, SYSTEM) {
        Picked { choice: SYSTEM.to_owned(), file: "".to_owned() }
    } else {
        pick(named, SYSTEM)
    }
}

/// The models of the monitors that have a profile, in order.
pub open spec fn known_models(monitors: Seq<Monitor>) -> Seq<Seq<char>>
    decreases monitors.len(),
{
    if monitors.len() == 0 {
        Seq::empty()
    } else {
        let before = known_models(monitors.drop_last());
        if monitors.last().profile is Some {
            before.push(monitors.last().model@)
        } else {
            before
        }
    }
}

/// The monitor to open with: the one remembered when it is known, else
/// the first, else none.
pub open spec fn monitor_for(known: Seq<Seq<char>>, remembered: Seq<char>) -> Seq<char> {
    if known.len() == 0 {
        ""@
    } else if known.contains(remembered) {
        remembered
    } else {
        known[0]
    }
}

/// The monitors offered, and the one picked.
#[derive(Debug)]
pub struct Offered {
    pub known: Vec<String>,
    pub picked: String,
}

/// The monitors with a profile to offer, and the one to open with.
pub fn monitors_at_start(monitors: &Vec<Monitor>, remembered: &str) -> (o: Offered)
    ensures
        text::texts(o.known@) == known_models(monitors@),
        o.picked@ == monitor_for(known_models(monitors@), remembered@),
{
    let mut known: Vec<String> = Vec::new();
    let mut found: bool = false;
    let mut i: usize = 0;
    assert(text::texts(known@) =~= known_models(monitors@.take(0)));
    while i < monitors.len()
        invariant
            i <= monitors@.len(),
            text::texts(known@) == known_models(monitors@.take(i as int)),
            found == text::texts(known@).contains(remembered@),
        decreases monitors.len() - i,
    {
        let ghost before = text::texts(known@);
        assert(monitors@.take(i + 1).drop_last() =~= monitors@.take(i as int));
        assert(monitors@.take(i + 1).last() == monitors@[i as int]);
        if monitors[i].profile.is_some() {
            let same: bool = text::same_text(monitors[i].model.as_str(), remembered);
            known.push(monitors[i].model.clone());
            assert(text::texts(known@) =~= before.push(monitors@[i as int].model@));
            proof {
                let after = before.push(monitors@[i as int].model@);
                if same {
                    assert(after[before.len() as int] == remembered@);
                }
                if found {
                    let k = choose|k: int| 0 <= k < before.len() && before[k] == remembered@;
                    assert(after[k] == remembered@);
                }
                if after.contains(remembered@) && !same {
                    let k = choose|k: int| 0 <= k < after.len() && after[k] == remembered@;
                    assert(before[k] == remembered@);
                }
            }
            found = found || same;
        }
        i = i + 1;
    }
    assert(monitors@.take(i as int) =~= monitors@);
    let picked = if found {
        remembered.to_owned()
    } else if known.len() > 0 {
        known[0].clone()
    } else {
        "".to_owned()
    };
    proof {
        if known@.len() > 0 {
            assert(text::texts(known@)[0] == known@[0]@);
        }
    }
    Offered { known, picked }
}

// The first file.

/// What the first frame does about the file to start on.
#[derive(Debug, Clone, Copy, PartialEq, Eq, Structural)]
pub enum FirstRow {
    /// There is none to start on.
    Nothing,
    /// This row is selected.
    Select(usize),
    /// A filter hides them all: that is said, and a batch run, which
    /// would wait for a picture, ends as failed.
    NothingShown { fails: bool },
}

/// The row to start on, as the browser has it, which may be filtered. The
/// files the desktop handed over (`handed`) come before the one the
/// settings remembered.
pub fn first_row(shown: &Vec<usize>, at_start: Option<usize>, handed: bool, batch: bool) -> (r:
    FirstRow)
    requires
        selection::ordered(shown@),
    ensures
        r == match at_start {
            Some(file) if !handed => match browser::opening_row(shown@, file) {
                Some(row) => FirstRow::Select(row as usize),
                None => FirstRow::NothingShown { fails: batch },
            },
            _ => FirstRow::Nothing,
        },
{
    match at_start {
        Some(file) => {
            if handed {
                return FirstRow::Nothing;
            }
            match browser::row_of(shown, file) {
                Some(row) => FirstRow::Select(row),
                None => match selection::nearest_row(shown, file) {
                    Some(row) => FirstRow::Select(row),
                    None => FirstRow::NothingShown { fails: batch },
                },
            }
        },
        None => FirstRow::Nothing,
    }
}

/// The rows within the first `rows`.
pub open spec fn within(rows: usize) -> spec_fn(usize) -> bool {
    |r: usize| r < rows
}

/// The rows to add to the set at the start: those the browser shows, in
/// the order given. One the filter left out is said, not passed over
/// quietly: those come second.
pub fn also_rows(also: &Vec<usize>, rows: usize) -> (r: (Vec<usize>, Vec<usize>))
    ensures
        r.0@ == also@.filter(within(rows)),
        r.1@ == also@.filter(|x: usize| x >= rows),
{
    let mut clicked: Vec<usize> = Vec::new();
    let mut said: Vec<usize> = Vec::new();
    let mut i: usize = 0;
    let ghost inside = within(rows);
    let ghost outside = |x: usize| x >= rows;
    proof {
        reveal(Seq::filter);
        assert(also@.take(0) =~= seq![]);
    }
    while i < also.len()
        invariant
            i <= also@.len(),
            inside == within(rows),
            outside == (|x: usize| x >= rows),
            clicked@ == also@.take(i as int).filter(inside),
            said@ == also@.take(i as int).filter(outside),
        decreases also.len() - i,
    {
        if also[i] < rows {
            clicked.push(also[i]);
        } else {
            said.push(also[i]);
        }
        i = i + 1;
        proof {
            reveal(Seq::filter);
            let done = also@.take(i as int);
            assert(done.drop_last() =~= also@.take(i - 1));
            assert(done.last() == also@[i - 1]);
        }
    }
    assert(also@.take(i as int) =~= also@);
    (clicked, said)
}

// The settings.

/// What one run leaves for the next.
#[derive(Debug)]
pub struct Settings<N> {
    pub export: Sheet<N>,
    pub export_presets: Vec<ExportPreset<N>>,
    pub export_preset: String,
    pub scope: String,
    pub curve_mode: String,
    pub warn_shadows: bool,
    pub warn_highlights: bool,
    pub proof_profile: String,
    pub proof_intent: String,
    pub gamut_warning: bool,
    pub display_profile: String,
    pub display_monitor: String,
    pub canvas_color: String,
    pub collapsed: Vec<String>,
    pub grid_cell: N,
    pub xmp_sidecars: bool,
    pub sidecars_in_folder: bool,
    pub lenses_declined: bool,
    pub last_file: String,
    pub thumb_cache_mb: u32,
}

/// The panel's choices, beside the export sheet's and the folds.
#[derive(Debug)]
pub struct Choices<N> {
    pub scope: String,
    pub curve_mode: String,
    pub warn_shadows: bool,
    pub warn_highlights: bool,
    /// The proof's profile by its key, when there is one.
    pub proof_profile: Option<String>,
    pub proof_intent: String,
    pub gamut_warning: bool,
    pub display_profile: String,
    pub display_monitor: String,
    pub canvas_color: String,
    pub grid_cell: N,
}

/// The settings a panel's choices come to, but for what the panel does
/// not own.
pub open spec fn remembers<N>(
    p: Choices<N>,
    w: SheetWindow<N>,
    folds: Seq<bool>,
    s: Settings<N>,
) -> bool {
    &&& export::same_sheet(s.export, w.sheet)
    &&& s.export_preset@ == match export::chosen(w.preset@) {
        Some(name) => name,
        None => ""@,
    }
    &&& s.scope@ == p.scope@
    &&& s.curve_mode@ == p.curve_mode@
    &&& s.warn_shadows == p.warn_shadows
    &&& s.warn_highlights == p.warn_highlights
    &&& s.proof_profile@ == match p.proof_profile {
        Some(key) => key@,
        None => ""@,
    }
    &&& s.proof_intent@ == p.proof_intent@
    &&& s.gamut_warning == p.gamut_warning
    &&& s.display_profile@ == p.display_profile@
    &&& s.display_monitor@ == p.display_monitor@
    &&& s.canvas_color@ == p.canvas_color@
    &&& text::texts(s.collapsed@) == edit::flagged(edit::fold_texts(), folds)
    &&& s.grid_cell == p.grid_cell
}

/// The settings hold nothing of what the panel does not own.
pub open spec fn owns_nothing<N>(s: Settings<N>) -> bool {
    &&& s.export_presets@.len() == 0
    &&& !s.xmp_sidecars
    &&& !s.sidecars_in_folder
    &&& !s.lenses_declined
    &&& s.last_file@ == ""@
    &&& s.thumb_cache_mb == 0
}

/// The panel's choices, to keep for the next run. What the panel does
/// not own — the presets, the last file, the settings sheet's two, the
/// lens offer's answer and the cache's size, each kept when it changes —
/// is put back by [`keep`].
pub fn remember<N: Copy>(p: &Choices<N>, w: &SheetWindow<N>, folds: &Vec<bool>) -> (s: Settings<N>)
    requires
        folds@.len() == edit::fold_texts().len(),
    ensures
        remembers(*p, *w, folds@, s),
        owns_nothing(s),
{
    Settings {
        export: export::read_sheet(w),
        export_presets: Vec::new(),
        export_preset: match export::chosen_preset(w) {
            Some(name) => name,
            None => "".to_owned(),
        },
        scope: p.scope.clone(),
        curve_mode: p.curve_mode.clone(),
        warn_shadows: p.warn_shadows,
        warn_highlights: p.warn_highlights,
        proof_profile: match &p.proof_profile {
            Some(key) => key.clone(),
            None => "".to_owned(),
        },
        proof_intent: p.proof_intent.clone(),
        gamut_warning: p.gamut_warning,
        display_profile: p.display_profile.clone(),
        display_monitor: p.display_monitor.clone(),
        canvas_color: p.canvas_color.clone(),
        collapsed: edit::read_folds(folds),
        grid_cell: p.grid_cell,
        xmp_sidecars: false,
        sidecars_in_folder: false,
        lenses_declined: false,
        last_file: "".to_owned(),
        thumb_cache_mb: 0,
    }
}

/// The settings a run leaves: the panel's, with the run's presets and
/// with what the file kept of the rest. None from a capture or a batch
/// export, which leave the user's alone.
pub fn keep<N>(
    batch: bool,
    settings: Settings<N>,
    presets: Vec<ExportPreset<N>>,
    kept: &Settings<N>,
) -> (r: Option<Settings<N>>)
    ensures
        r is None <==> batch,
        r matches Some(s) ==> s.last_file@ == kept.last_file@ && s == (Settings {
            export_presets: presets,
            last_file: s.last_file,
            xmp_sidecars: kept.xmp_sidecars,
            sidecars_in_folder: kept.sidecars_in_folder,
            lenses_declined: kept.lenses_declined,
            thumb_cache_mb: kept.thumb_cache_mb,
            ..settings
        }),
{
    if batch {
        return None;
    }
    let mut s = settings;
    s.export_presets = presets;
    s.last_file = kept.last_file.clone();
    s.xmp_sidecars = kept.xmp_sidecars;
    s.sidecars_in_folder = kept.sidecars_in_folder;
    s.lenses_declined = kept.lenses_declined;
    s.thumb_cache_mb = kept.thumb_cache_mb;
    Some(s)
}

/// The settings with the presets, the one chosen and the sheet in them
/// now, not at the window's close: a preset is worth keeping even from a
/// session that ends badly. None where there is no file to write, from a
/// capture or a batch run.
pub fn keep_presets<N: Copy>(
    written: bool,
    kept: Settings<N>,
    presets: Vec<ExportPreset<N>>,
    w: &SheetWindow<N>,
) -> (r: Option<Settings<N>>)
    ensures
        r is None <==> !written,
        r matches Some(s) ==> {
            &&& export::same_sheet(s.export, w.sheet)
            &&& s.export_preset@ == match export::chosen(w.preset@) {
                Some(name) => name,
                None => ""@,
            }
            &&& s == (Settings {
                export: s.export,
                export_presets: presets,
                export_preset: s.export_preset,
                ..kept
            })
        },
{
    if !written {
        return None;
    }
    let mut s = kept;
    s.export_presets = presets;
    s.export_preset = match export::chosen_preset(w) {
        Some(name) => name,
        None => "".to_owned(),
    };
    s.export = export::read_sheet(w);
    Some(s)
}

/// A profile's key puts the picker on what it names: a space by its name
/// and with no file, a file by its path, and the picker's own word for a
/// key that names nothing.
pub proof fn a_key_puts_the_picker_on_what_it_names(key: Named, unknown: Seq<char>, p: Picked)
    requires
        picks(key, unknown, p),
    ensures
        key matches Named::Space(s) ==> p.choice@ == s@ && p.file@ == ""@,
        key matches Named::File(path) ==> p.choice@ == FILE@ && p.file@ == path@,
        key is Nothing ==> p.choice@ == unknown && p.file@ == ""@,
{
}

/// The monitors offered are those with a profile, in the order they were
/// found.
pub proof fn the_monitors_offered_have_a_profile(monitors: Seq<Monitor>, model: Seq<char>)
    ensures
        known_models(monitors).contains(model) <==> exists|i: int|
            0 <= i < monitors.len() && (#[trigger] monitors[i]).profile is Some
                && monitors[i].model@ == model,
        known_models(monitors).len() <= monitors.len(),
        monitors.len() > 0 && monitors[0].profile is Some ==> known_models(monitors).len() > 0
            && known_models(monitors)[0] == monitors[0].model@,
    decreases monitors.len(),
{
    if monitors.len() > 0 {
        let front = monitors.drop_last();
        let before = known_models(front);
        let all = known_models(monitors);
        the_monitors_offered_have_a_profile(front, model);
        assert forall|i: int| 0 <= i < front.len() implies #[trigger] monitors[i] == front[i] by {}
        assert(monitors[monitors.len() - 1] == monitors.last());
        if before.contains(model) {
            let k = choose|k: int| 0 <= k < before.len() && before[k] == model;
            assert(all[k] == model);
            let i = choose|i: int|
                0 <= i < front.len() && (#[trigger] front[i]).profile is Some && front[i].model@
                    == model;
            assert(monitors[i].model@ == model);
        }
        if all.contains(model) {
            let k = choose|k: int| 0 <= k < all.len() && all[k] == model;
            if k < before.len() {
                assert(before[k] == model);
            }
        }
        if exists|i: int|
            0 <= i < monitors.len() && (#[trigger] monitors[i]).profile is Some
                && monitors[i].model@ == model {
            let i = choose|i: int|
                0 <= i < monitors.len() && (#[trigger] monitors[i]).profile is Some
                    && monitors[i].model@ == model;
            if i < front.len() {
                assert(front[i].model@ == model);
                assert(before.contains(model));
            } else {
                assert(all[all.len() - 1] == model);
                assert(all.contains(model));
            }
        }
    } else {
        assert(!known_models(monitors).contains(model));
    }
}

/// The monitor picked is the one remembered while it is still there, and
/// the first there is otherwise; with none known it is none.
pub proof fn the_monitor_picked_is_one_there_is(known: Seq<Seq<char>>, remembered: Seq<char>)
    ensures
        known.len() == 0 ==> monitor_for(known, remembered) == ""@,
        known.len() > 0 ==> known.contains(monitor_for(known, remembered)),
        known.contains(remembered) ==> monitor_for(known, remembered) == remembered,
        known.len() > 0 && !known.contains(remembered) ==> monitor_for(known, remembered)
            == known[0],
{
    if known.len() > 0 {
        assert(known.contains(known[0]));
    }
}

/// Of the rows asked for beside the first, those that there are are
/// chosen and the rest are said: each is one or the other.
pub proof fn a_row_asked_for_is_chosen_or_said(also: Seq<usize>, rows: usize, x: usize)
    ensures
        also.filter(within(rows)).contains(x) <==> also.contains(x) && x < rows,
        also.filter(|x: usize| x >= rows).contains(x) <==> also.contains(x) && x >= rows,
{
    let outside = |x: usize| x >= rows;
    broadcast use vstd::seq_lib::group_filter_ensures;

    if also.contains(x) && x < rows {
        let i = choose|i: int| 0 <= i < also.len() && also[i] == x;
        assert(within(rows)(also[i]));
        assert(also.filter(within(rows)).contains(also[i]));
    }
    if also.contains(x) && x >= rows {
        let i = choose|i: int| 0 <= i < also.len() && also[i] == x;
        assert(outside(also[i]));
        assert(also.filter(outside).contains(also[i]));
    }
    if also.filter(within(rows)).contains(x) {
        also.lemma_filter_contains_rev(within(rows), x);
        assert(within(rows)(x));
    }
    if also.filter(outside).contains(x) {
        also.lemma_filter_contains_rev(outside, x);
        assert(outside(x));
    }
}

/// What is kept for the next run is what the panel is set to: the sheet
/// and the preset chosen on it, the scope and the curve, the warnings, the
/// proof and the display, and the sections folded.
pub proof fn what_is_kept_is_what_is_set<N>(
    p: Choices<N>,
    w: SheetWindow<N>,
    folds: Seq<bool>,
    s: Settings<N>,
)
    requires
        remembers(p, w, folds, s),
    ensures
        s.export.format@ == w.sheet.format@,
        s.export.quality == w.sheet.quality,
        export::same_sheet(s.export, w.sheet),
        w.preset@.len() > 0 && !export::is_reserved(w.preset@) ==> s.export_preset@ == w.preset@,
        w.preset@.len() == 0 || export::is_reserved(w.preset@) ==> s.export_preset@ == ""@,
        s.scope@ == p.scope@,
        s.curve_mode@ == p.curve_mode@,
        s.warn_shadows == p.warn_shadows,
        s.warn_highlights == p.warn_highlights,
        p.proof_profile matches Some(key) ==> s.proof_profile@ == key@,
        p.proof_profile is None ==> s.proof_profile@ == ""@,
        s.proof_intent@ == p.proof_intent@,
        s.gamut_warning == p.gamut_warning,
        s.display_profile@ == p.display_profile@,
        s.display_monitor@ == p.display_monitor@,
        s.canvas_color@ == p.canvas_color@,
        s.grid_cell == p.grid_cell,
        (forall|i: int| 0 <= i < folds.len() ==> !folds[i]) ==> s.collapsed@.len() == 0,
        forall|i: int|
            0 <= i < folds.len() && #[trigger] folds[i] ==> text::texts(s.collapsed@).contains(
                edit::fold_texts()[i],
            ),
{
    assert(text::texts(s.collapsed@).len() == s.collapsed@.len());
    lemma_folded(edit::fold_texts(), folds);
}

proof fn lemma_folded(names: Seq<Seq<char>>, flags: Seq<bool>)
    ensures
        (forall|i: int| 0 <= i < flags.len() ==> !flags[i]) ==> edit::flagged(names, flags).len()
            == 0,
        forall|i: int|
            0 <= i < flags.len() && #[trigger] flags[i] ==> edit::flagged(names, flags).contains(
                names[i],
            ),
    decreases flags.len(),
{
    if flags.len() > 0 {
        let front = flags.drop_last();
        let before = edit::flagged(names, front);
        let all = edit::flagged(names, flags);
        lemma_folded(names, front);
        assert(flags.last() == flags[flags.len() - 1]);
        assert forall|i: int| 0 <= i < flags.len() && #[trigger] flags[i] implies all.contains(
            names[i],
        ) by {
            if i < front.len() {
                assert(front[i] == flags[i]);
                let k = choose|k: int| 0 <= k < before.len() && before[k] == names[i];
                assert(all[k] == names[i]);
            } else {
                assert(all[all.len() - 1] == names[i]);
            }
        }
        if forall|i: int| 0 <= i < flags.len() ==> !flags[i] {
            assert forall|i: int| 0 <= i < front.len() implies !front[i] by {
                assert(front[i] == flags[i]);
            }
        }
    }
}

/// The panel's settings hold nothing that is not the panel's.
pub proof fn the_panel_keeps_its_own<N>(s: Settings<N>)
    requires
        owns_nothing(s),
    ensures
        s.export_presets@.len() == 0,
        !s.xmp_sidecars && !s.sidecars_in_folder && !s.lenses_declined,
        s.last_file@ == ""@,
        s.thumb_cache_mb == 0,
{
}

} // verus!
