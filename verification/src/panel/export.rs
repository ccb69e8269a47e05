//! The export sheet: its choices, its presets and where a file goes.

use crate::text;
use vstd::prelude::*;

verus! {

/// The sheet's choices.
#[derive(Debug)]
pub struct Sheet<N> {
    pub format: String,
    pub quality: N,
    pub size: String,
    pub custom: String,
    pub space: String,
    pub embed: bool,
    pub sharpen: String,
    pub on_exists: String,
    pub metadata: String,
    pub mark: String,
    pub mark_text: String,
    pub mark_image: String,
    pub mark_color: String,
    pub mark_position: String,
    pub mark_size: N,
    pub mark_margin: N,
    pub mark_opacity: N,
}

/// The sheet on the window.
#[derive(Debug)]
pub struct SheetWindow<N> {
    pub sheet: Sheet<N>,
    /// The watermark's name without its folder.
    pub mark_image_name: String,
    /// The picker's entries and the one chosen, and whether the sheet has
    /// moved from it.
    pub presets: Vec<String>,
    pub preset: String,
    pub edited: bool,
    pub open: bool,
    pub status: String,
}

/// Two sheets with the same choices.
pub open spec fn same_sheet<N>(a: Sheet<N>, b: Sheet<N>) -> bool {
    &&& a.format@ == b.format@
    &&& a.quality == b.quality
    &&& a.size@ == b.size@
    &&& a.custom@ == b.custom@
    &&& a.space@ == b.space@
    &&& a.embed == b.embed
    &&& a.sharpen@ == b.sharpen@
    &&& a.on_exists@ == b.on_exists@
    &&& a.metadata@ == b.metadata@
    &&& a.mark@ == b.mark@
    &&& a.mark_text@ == b.mark_text@
    &&& a.mark_image@ == b.mark_image@
    &&& a.mark_color@ == b.mark_color@
    &&& a.mark_position@ == b.mark_position@
    &&& a.mark_size == b.mark_size
    &&& a.mark_margin == b.mark_margin
    &&& a.mark_opacity == b.mark_opacity
}

/// The export sheet's choices as the panel holds them.
pub fn read_sheet<N: Copy>(w: &SheetWindow<N>) -> (s: Sheet<N>)
    ensures
        same_sheet(s, w.sheet),
{
    copy_sheet(&w.sheet)
}

pub fn copy_sheet<N: Copy>(s: &Sheet<N>) -> (r: Sheet<N>)
    ensures
        same_sheet(r, *s),
{
    Sheet {
        format: s.format.clone(),
        quality: s.quality,
        size: s.size.clone(),
        custom: s.custom.clone(),
        space: s.space.clone(),
        embed: s.embed,
        sharpen: s.sharpen.clone(),
        on_exists: s.on_exists.clone(),
        metadata: s.metadata.clone(),
        mark: s.mark.clone(),
        mark_text: s.mark_text.clone(),
        mark_image: s.mark_image.clone(),
        mark_color: s.mark_color.clone(),
        mark_position: s.mark_position.clone(),
        mark_size: s.mark_size,
        mark_margin: s.mark_margin,
        mark_opacity: s.mark_opacity,
    }
}

/// The window with a sheet's choices on it.
pub open spec fn shows_sheet<N>(
    s: Sheet<N>,
    image_name: Seq<char>,
    before: SheetWindow<N>,
    after: SheetWindow<N>,
) -> bool {
    &&& same_sheet(after.sheet, s)
    &&& after.mark_image_name@ == image_name
    &&& after == (SheetWindow {
        sheet: after.sheet,
        mark_image_name: after.mark_image_name,
        ..before
    })
}

/// Put a sheet's choices on the panel.
pub fn show_sheet<N: Copy>(w: &mut SheetWindow<N>, s: &Sheet<N>, image_name: &str)
    ensures
        shows_sheet(*s, image_name@, *old(w), *final(w)),
{
    w.sheet = copy_sheet(s);
    w.mark_image_name = image_name.to_owned();
}

/// A sheet put on the panel reads back as it was.
pub proof fn a_sheet_shown_reads_back<N>(
    s: Sheet<N>,
    image_name: Seq<char>,
    before: SheetWindow<N>,
    shown: SheetWindow<N>,
    read: Sheet<N>,
)
    requires
        shows_sheet(s, image_name, before, shown),
        same_sheet(read, shown.sheet),
    ensures
        same_sheet(read, s),
{
}

/// The picker's word for no preset. A preset cannot take it as a name.
pub const NO_PRESET: &'static str = "None";

/// A preset of the sheet's.
#[derive(Debug)]
pub struct ExportPreset<N> {
    pub name: String,
    pub sheet: Sheet<N>,
}

/// A name that is the picker's own word, in any case.
pub open spec fn is_reserved(name: Seq<char>) -> bool {
    text::alike(name, NO_PRESET@)
}

/// The first preset of a name, in any case; the length for none.
pub open spec fn preset_place<N>(presets: Seq<ExportPreset<N>>, name: Seq<char>) -> nat
    decreases presets.len(),
{
    if presets.len() == 0 || text::alike(presets[0].name@, name) {
        0
    } else {
        1 + preset_place(presets.drop_first(), name)
    }
}

/// The preset of a name, by its place.
pub open spec fn preset_of<N>(presets: Seq<ExportPreset<N>>, name: Seq<char>) -> Option<int> {
    if preset_place(presets, name) < presets.len() {
        Some(preset_place(presets, name) as int)
    } else {
        None
    }
}

/// The preset of a name, in any case: its place.
pub fn find<N>(presets: &Vec<ExportPreset<N>>, name: &str) -> (r: Option<usize>)
    ensures
        r is Some <==> preset_of(presets@, name@) is Some,
        r matches Some(i) ==> preset_of(presets@, name@) == Some(i as int) && i < presets@.len(),
{
    let mut i: usize = 0;
    assert(presets@.skip(0) =~= presets@);
    while i < presets.len()
        invariant
            i <= presets@.len(),
            preset_place(presets@, name@) == i + preset_place(presets@.skip(i as int), name@),
        decreases presets.len() - i,
    {
        assert(presets@.skip(i as int).drop_first() =~= presets@.skip(i + 1));
        if text::alike_text(presets[i].name.as_str(), name) {
            return Some(i);
        }
        i = i + 1;
    }
    None
}

/// The name a preset has been chosen by, if one has.
pub open spec fn chosen(preset: Seq<char>) -> Option<Seq<char>> {
    if preset.len() > 0 && !is_reserved(preset) {
        Some(preset)
    } else {
        None
    }
}

/// The preset the panel has chosen; none for the picker's own word.
pub fn chosen_preset<N>(w: &SheetWindow<N>) -> (r: Option<String>)
    ensures
        r is Some <==> chosen(w.preset@) is Some,
        r matches Some(s) ==> chosen(w.preset@) == Some(s@),
{
    if w.preset.as_str().is_empty() || text::alike_text(w.preset.as_str(), NO_PRESET) {
        None
    } else {
        Some(w.preset.clone())
    }
}

/// The sheet has moved from the preset it was filled from: one is chosen
/// that there is, and does not write the same file (`same` says of each
/// preset whether it does).
pub open spec fn is_edited<N>(
    presets: Seq<ExportPreset<N>>,
    preset: Seq<char>,
    same: Seq<bool>,
) -> bool {
    match chosen(preset) {
        Some(name) => match preset_of(presets, name) {
            Some(i) => !same[i],
            None => false,
        },
        None => false,
    }
}

/// "(edited)" beside the name when the sheet writes another file than
/// the preset does; `same` says of each preset whether it writes the file
/// the sheet does.
pub fn show_edited<N>(w: &mut SheetWindow<N>, presets: &Vec<ExportPreset<N>>, same: &Vec<bool>)
    requires
        same@.len() == presets@.len(),
    ensures
        *final(w) == (SheetWindow {
            edited: is_edited(presets@, old(w).preset@, same@),
            ..*old(w)
        }),
{
    let edited: bool = match chosen_preset(w) {
        Some(name) => match find(presets, name.as_str()) {
            Some(i) => !same[i],
            None => false,
        },
        None => false,
    };
    w.edited = edited;
}

/// The picker's entries: none first, then the presets as they are kept.
pub open spec fn picker_texts<N>(presets: Seq<ExportPreset<N>>) -> Seq<Seq<char>> {
    seq![NO_PRESET@] + presets.map_values(|p: ExportPreset<N>| p.name@)
}

/// The name on the picker for a choice: the preset's own, the picker's
/// word for none.
pub open spec fn picker_name<N>(presets: Seq<ExportPreset<N>>, choice: Option<Seq<char>>) -> Seq<
    char,
> {
    match choice {
        Some(name) => match preset_of(presets, name) {
            Some(i) => presets[i].name@,
            None => NO_PRESET@,
        },
        None => NO_PRESET@,
    }
}

/// The window with the picker on it.
pub open spec fn shows_picker<N>(
    presets: Seq<ExportPreset<N>>,
    choice: Option<Seq<char>>,
    same: Seq<bool>,
    before: SheetWindow<N>,
    after: SheetWindow<N>,
) -> bool {
    &&& text::texts(after.presets@) == picker_texts(presets)
    &&& after.preset@ == picker_name(presets, choice)
    &&& after.edited == is_edited(presets, picker_name(presets, choice), same)
    &&& after == (SheetWindow {
        presets: after.presets,
        preset: after.preset,
        edited: after.edited,
        ..before
    })
}

pub open spec fn text_of(s: Option<&str>) -> Option<Seq<char>> {
    match s {
        Some(s) => Some(s@),
        None => None,
    }
}

/// The picker's entries and the one chosen, and whether the sheet has
/// moved from it.
pub fn show_presets_picker<N>(
    w: &mut SheetWindow<N>,
    presets: &Vec<ExportPreset<N>>,
    choice: Option<&str>,
    same: &Vec<bool>,
)
    requires
        same@.len() == presets@.len(),
    ensures
        shows_picker(presets@, text_of(choice), same@, *old(w), *final(w)),
{
    let mut names: Vec<String> = Vec::new();
    names.push(NO_PRESET.to_owned());
    let mut i: usize = 0;
    while i < presets.len()
        invariant
            i <= presets@.len(),
            names@.len() == i + 1,
            forall|k: int| 0 <= k <= i ==> (#[trigger] names@[k])@ == picker_texts(presets@)[k],
        decreases presets.len() - i,
    {
        names.push(presets[i].name.clone());
        i = i + 1;
    }
    assert(text::texts(names@) =~= picker_texts(presets@));
    let found: Option<usize> = match choice {
        Some(name) => find(presets, name),
        None => None,
    };
    w.presets = names;
    w.preset = match found {
        Some(i) => presets[i].name.clone(),
        None => NO_PRESET.to_owned(),
    };
    show_edited(w, presets, same);
}

/// The window after a preset has been chosen by its name, before the
/// picker shows it: the preset fills the sheet, and none leaves it as it
/// is.
pub open spec fn filled<N>(
    presets: Seq<ExportPreset<N>>,
    name: Seq<char>,
    image_name: Seq<char>,
    before: SheetWindow<N>,
    after: SheetWindow<N>,
) -> bool {
    match preset_of(presets, name) {
        Some(i) => {
            &&& same_sheet(after.sheet, presets[i].sheet)
            &&& after.mark_image_name@ == image_name
            &&& after.status@ == "export preset "@ + presets[i].name@
            &&& after == (SheetWindow {
                sheet: after.sheet,
                mark_image_name: after.mark_image_name,
                status: after.status,
                ..before
            })
        },
        None => after == before,
    }
}

/// A preset chosen fills the sheet; none leaves it as it is. `image_name`
/// is its watermark's name without its folder.
pub fn preset_chosen<N: Copy>(
    w: &mut SheetWindow<N>,
    presets: &Vec<ExportPreset<N>>,
    name: &str,
    image_name: &str,
    same: &Vec<bool>,
)
    requires
        same@.len() == presets@.len(),
    ensures
        exists|t: SheetWindow<N>|
            #[trigger] filled(presets@, name@, image_name@, *old(w), t) && shows_picker(
                presets@,
                Some(name@),
                same@,
                t,
                *final(w),
            ),
{
    if let Some(i) = find(presets, name) {
        show_sheet(w, &presets[i].sheet, image_name);
        let mut s = "export preset ".to_owned();
        s.append(presets[i].name.as_str());
        w.status = s;
    }
    assert(filled(presets@, name@, image_name@, *old(w), *w));
    show_presets_picker(w, presets, Some(name), same);
}

/// The name to save the sheet under, without the spaces around it, or
/// what is wrong with it.
pub fn preset_name(name: &str) -> (r: Result<String, String>)
    ensures
        r is Ok <==> chosen(text::trimmed(name@)) is Some,
        r matches Ok(s) ==> s@ == text::trimmed(name@),
        r matches Err(e) ==> e@ == NO_PRESET@ + " is the picker's; choose another name"@,
{
    let name = text::trim_text(name);
    if name.as_str().is_empty() || text::alike_text(name.as_str(), NO_PRESET) {
        let mut s = NO_PRESET.to_owned();
        s.append(" is the picker's; choose another name");
        return Err(s);
    }
    Ok(name)
}

proof fn lemma_place<N>(presets: Seq<ExportPreset<N>>, name: Seq<char>)
    ensures
        preset_place(presets, name) <= presets.len(),
        preset_place(presets, name) < presets.len() ==> text::alike(
            presets[preset_place(presets, name) as int].name@,
            name,
        ),
        forall|k: int|
            0 <= k < preset_place(presets, name) ==> !text::alike(
                #[trigger] presets[k].name@,
                name,
            ),
    decreases presets.len(),
{
    if presets.len() > 0 && !text::alike(presets[0].name@, name) {
        let rest = presets.drop_first();
        lemma_place(rest, name);
        assert forall|k: int| 0 <= k < preset_place(presets, name) implies !text::alike(
            #[trigger] presets[k].name@,
            name,
        ) by {
            if k > 0 {
                assert(rest[k - 1] == presets[k]);
            }
        }
    }
}

proof fn lemma_place_is<N>(presets: Seq<ExportPreset<N>>, name: Seq<char>, n: int)
    requires
        0 <= n <= presets.len(),
        n < presets.len() ==> text::alike(presets[n].name@, name),
        forall|k: int| 0 <= k < n ==> !text::alike(#[trigger] presets[k].name@, name),
    ensures
        preset_place(presets, name) == n,
{
    lemma_place(presets, name);
    let m = preset_place(presets, name) as int;
    if m < n {
        assert(text::alike(presets[m].name@, name));
    } else if n < m {
        assert(!text::alike(presets[n].name@, name));
    }
}

/// The presets with a sheet saved under a name: over the one of that
/// name, or after the rest.
pub open spec fn saved_as<N>(
    before: Seq<ExportPreset<N>>,
    name: Seq<char>,
    sheet: Sheet<N>,
    after: Seq<ExportPreset<N>>,
) -> bool {
    let at = preset_place(before, name) as int;
    &&& after.len() == if at < before.len() {
        before.len()
    } else {
        before.len() + 1
    }
    &&& after[at].name@ == name
    &&& same_sheet(after[at].sheet, sheet)
    &&& forall|k: int| 0 <= k < before.len() && k != at ==> #[trigger] after[k] == before[k]
}

/// Save the sheet under a name, over one of that name. A name that is
/// empty or the picker's own word is refused.
pub fn save_as<N: Copy>(
    presets: &mut Vec<ExportPreset<N>>,
    name: &str,
    sheet: &Sheet<N>,
) -> (saved: bool)
    ensures
        saved == (chosen(name@) is Some),
        if saved {
            saved_as(old(presets)@, name@, *sheet, final(presets)@)
        } else {
            final(presets)@ == old(presets)@
        },
{
    if name.is_empty() || text::alike_text(name, NO_PRESET) {
        return false;
    }
    proof {
        lemma_place(presets@, name@);
    }
    let preset = ExportPreset { name: name.to_owned(), sheet: copy_sheet(sheet) };
    match find(presets, name) {
        Some(i) => {
            presets.set(i, preset);
        },
        None => {
            presets.push(preset);
        },
    }
    true
}

/// No two presets have the same name.
pub open spec fn distinct<N>(presets: Seq<ExportPreset<N>>) -> bool {
    forall|i: int, j: int|
        0 <= i < j < presets.len() ==> !text::alike(
            #[trigger] presets[i].name@,
            #[trigger] presets[j].name@,
        )
}

proof fn lemma_alike(a: Seq<char>, b: Seq<char>, c: Seq<char>)
    ensures
        text::alike(a, a),
        text::alike(a, b) ==> text::alike(b, a),
        text::alike(a, b) && text::alike(b, c) ==> text::alike(a, c),
{
    if text::alike(a, b) {
        assert forall|i: int| 0 <= i < b.len() implies text::upper(#[trigger] b[i]) == text::upper(
            a[i],
        ) by {
            assert(text::upper(a[i]) == text::upper(b[i]));
        }
        if text::alike(b, c) {
            assert forall|i: int| 0 <= i < a.len() implies text::upper(#[trigger] a[i])
                == text::upper(c[i]) by {
                assert(text::upper(b[i]) == text::upper(c[i]));
            }
        }
    }
}

/// A sheet saved under a name is found by it, in any case, and every
/// other preset stays as it was.
pub proof fn a_preset_saved_is_found<N>(
    before: Seq<ExportPreset<N>>,
    name: Seq<char>,
    sheet: Sheet<N>,
    after: Seq<ExportPreset<N>>,
    asked: Seq<char>,
)
    requires
        saved_as(before, name, sheet, after),
    ensures
        text::alike(name, asked) ==> match preset_of(after, asked) {
            Some(i) => after[i].name@ == name && same_sheet(after[i].sheet, sheet),
            None => false,
        },
        !text::alike(name, asked) ==> preset_of(after, asked) == preset_of(before, asked),
        !text::alike(name, asked) ==> match preset_of(before, asked) {
            Some(i) => after[i] == before[i],
            None => true,
        },
{
    lemma_place(before, name);
    let at = preset_place(before, name) as int;
    if text::alike(name, asked) {
        assert forall|k: int| 0 <= k < at implies !text::alike(#[trigger] after[k].name@, asked) by {
            lemma_alike(name, asked, name);
            lemma_alike(after[k].name@, asked, name);
            assert(after[k] == before[k]);
        }
        lemma_place_is(after, asked, at);
    } else {
        lemma_place(before, asked);
        let m = preset_place(before, asked) as int;
        if at < before.len() {
            lemma_alike(before[at].name@, name, asked);
            lemma_alike(name, before[at].name@, asked);
        }
        if m < before.len() {
            assert(m != at);
            assert(after[m] == before[m]);
        }
        let n = if m < before.len() {
            m
        } else {
            after.len() as int
        };
        assert forall|k: int| 0 <= k < n implies !text::alike(#[trigger] after[k].name@, asked) by {
            if k != at {
                assert(after[k] == before[k]);
            }
        }
        lemma_place_is(after, asked, n);
    }
}

/// Saving and deleting keep the names distinct, and a preset deleted is
/// found no more.
pub proof fn a_preset_has_one_name<N>(
    before: Seq<ExportPreset<N>>,
    name: Seq<char>,
    sheet: Sheet<N>,
    saved: Seq<ExportPreset<N>>,
)
    requires
        distinct(before),
        saved_as(before, name, sheet, saved),
    ensures
        distinct(saved),
        preset_of(before, name) matches Some(i) ==> distinct(before.remove(i)) && preset_of(
            before.remove(i),
            name,
        ) is None,
{
    lemma_place(before, name);
    let at = preset_place(before, name) as int;
    assert forall|i: int, j: int| 0 <= i < j < saved.len() implies !text::alike(
        #[trigger] saved[i].name@,
        #[trigger] saved[j].name@,
    ) by {
        if i == at {
            assert(saved[j] == before[j]);
            lemma_alike(before[at].name@, name, before[j].name@);
        } else if j == at {
            assert(saved[i] == before[i]);
        } else {
            assert(saved[i] == before[i] && saved[j] == before[j]);
        }
    }
    if at < before.len() {
        let left = before.remove(at);
        assert forall|i: int, j: int| 0 <= i < j < left.len() implies !text::alike(
            #[trigger] left[i].name@,
            #[trigger] left[j].name@,
        ) by {
            let a = if i < at { i } else { i + 1 };
            let b = if j < at { j } else { j + 1 };
            assert(left[i] == before[a] && left[j] == before[b]);
        }
        assert forall|k: int| 0 <= k < left.len() implies !text::alike(#[trigger] left[k].name@, name) by {
            let a = if k < at { k } else { k + 1 };
            assert(left[k] == before[a]);
            lemma_alike(before[a].name@, name, before[at].name@);
            lemma_alike(before[at].name@, name, before[a].name@);
            lemma_alike(name, before[at].name@, before[a].name@);
        }
        lemma_place_is(left, name, left.len() as int);
    }
}

/// The sheet saved as a preset under `name`: `presets` has it, and it is
/// the one chosen.
pub fn preset_saved<N>(
    w: &mut SheetWindow<N>,
    presets: &Vec<ExportPreset<N>>,
    name: &str,
    same: &Vec<bool>,
)
    requires
        same@.len() == presets@.len(),
    ensures
        final(w).status@ == "export preset "@ + name@ + " saved"@,
        shows_picker(presets@, Some(name@), same@, (SheetWindow {
            status: final(w).status,
            ..*old(w)
        }), *final(w)),
{
    show_presets_picker(w, presets, Some(name), same);
    w.status = preset_said(name, true);
}

/// A preset deleted: the chosen one leaves the list, nothing is chosen
/// and the sheet keeps its choices. Whether there was one.
pub fn preset_deleted<N>(
    w: &mut SheetWindow<N>,
    presets: &mut Vec<ExportPreset<N>>,
    same: &Vec<bool>,
) -> (r: bool)
    requires
        same@.len() + 1 == old(presets)@.len() || old(presets)@.len() == 0,
    ensures
        r == match chosen(old(w).preset@) {
            Some(name) => preset_of(old(presets)@, name) is Some,
            None => false,
        },
        if r {
            let gone = preset_of(old(presets)@, old(w).preset@)->0;
            &&& final(presets)@ == old(presets)@.remove(gone)
            &&& final(w).status@ == "export preset "@ + old(w).preset@ + " deleted"@
            &&& shows_picker(final(presets)@, None, same@, (SheetWindow {
                status: final(w).status,
                ..*old(w)
            }), *final(w))
        } else {
            final(presets)@ == old(presets)@ && *final(w) == *old(w)
        },
{
    let name = match chosen_preset(w) {
        Some(name) => name,
        None => {
            return false;
        },
    };
    match find(presets, name.as_str()) {
        Some(i) => {
            let _gone = presets.remove(i);
            show_presets_picker(w, presets, None, same);
            w.status = preset_said(name.as_str(), false);
            true
        },
        None => false,
    }
}

/// The line for a preset saved, or deleted.
pub fn preset_said(name: &str, saved: bool) -> (s: String)
    ensures
        s@ == "export preset "@ + name@ + if saved {
            " saved"@
        } else {
            " deleted"@
        },
{
    let mut s = "export preset ".to_owned();
    s.append(name);
    if saved {
        s.append(" saved");
    } else {
        s.append(" deleted");
    }
    s
}

/// A watermark to draw.
#[derive(Debug)]
pub enum Mark {
    Off,
    Text(String),
    Image(String),
}

/// A mark asked for with nothing to draw, in words.
pub open spec fn mark_wrong(m: Mark) -> Option<Seq<char>> {
    match m {
        Mark::Off => None,
        Mark::Text(t) => if text::trimmed(t@).len() == 0 {
            Some("the watermark's text is empty"@)
        } else {
            None
        },
        Mark::Image(path) => if path@.len() == 0 {
            Some("the watermark has no PNG"@)
        } else {
            None
        },
    }
}

/// What is wrong with a mark, if anything.
pub fn mark_check(m: &Mark) -> (r: Result<(), &'static str>)
    ensures
        r is Ok <==> mark_wrong(*m) is None,
        r matches Err(e) ==> mark_wrong(*m) == Some(e@),
{
    match m {
        Mark::Off => Ok(()),
        Mark::Text(t) => {
            let t = text::trim_text(t.as_str());
            if t.as_str().is_empty() {
                Err("the watermark's text is empty")
            } else {
                Ok(())
            }
        },
        Mark::Image(path) => if path.as_str().is_empty() {
            Err("the watermark has no PNG")
        } else {
            Ok(())
        },
    }
}

/// What Export does.
#[derive(Debug, Clone, Copy, PartialEq, Eq, Structural)]
pub enum Exports {
    /// Nothing is open.
    Nothing,
    /// The sheet stays up: the mark has nothing to draw, and the picture
    /// is not written unmarked.
    Refused,
    /// The desktop's chooser is asked where to.
    Chooses,
}

/// Export the current file: where to is asked, unless a mark asked for
/// has nothing to draw, which is said with the sheet kept up.
pub fn export<N>(w: &mut SheetWindow<N>, current: Option<usize>, mark: &Mark) -> (e: Exports)
    ensures
        match current {
            None => e is Nothing && *final(w) == *old(w),
            Some(_) => match mark_wrong(*mark) {
                Some(why) => {
                    &&& e is Refused
                    &&& final(w).status@ == "not exported: "@ + why
                    &&& *final(w) == (SheetWindow {
                        open: true,
                        status: final(w).status,
                        ..*old(w)
                    })
                },
                None => {
                    &&& e is Chooses
                    &&& final(w).status@ == "choosing where to export..."@
                    &&& *final(w) == (SheetWindow { status: final(w).status, ..*old(w) })
                },
            },
        },
{
    if current.is_none() {
        return Exports::Nothing;
    }
    match mark_check(mark) {
        Err(why) => {
            let mut s = "not exported: ".to_owned();
            s.append(why);
            w.status = s;
            w.open = true;
            Exports::Refused
        },
        Ok(()) => {
            w.status = "choosing where to export...".to_owned();
            Exports::Chooses
        },
    }
}

pub open spec fn export_name(stem: Option<&str>, extension: Seq<char>) -> Seq<char> {
    (match stem {
        Some(s) => s@,
        None => "export"@,
    }) + ".greycard."@ + extension
}

/// Where an export of a file goes without a chooser: beside it (`folder`
/// is its path up to its name), as `NAME.greycard.EXT`, which no camera
/// writes.
pub fn export_path(folder: &str, stem: Option<&str>, extension: &str) -> (s: String)
    ensures
        s@ == folder@ + export_name(stem, extension@),
{
    let mut name = match stem {
        Some(s) => s.to_owned(),
        None => "export".to_owned(),
    };
    name.append(".greycard.");
    name.append(extension);
    let mut s = folder.to_owned();
    s.append(name.as_str());
    s
}

/// Where the export goes, once the chooser has answered.
#[derive(Debug)]
pub enum Where {
    /// To the path chosen, which the chooser asked to confirm: a file
    /// there is written over.
    Chosen(String),
    /// Beside the file, by the sheet's own answer to a file being there:
    /// there was no chooser to ask.
    Beside(String),
    /// Nowhere: it was canceled.
    Canceled,
}

/// The chooser's answer.
#[derive(Debug)]
pub enum Answer {
    Path(String),
    Canceled,
    Failed,
}

/// Where an export goes, and what is said of it: `name` is the chosen
/// file's own name.
pub fn export_to(
    answer: Answer,
    name: &str,
    folder: &str,
    stem: Option<&str>,
    extension: &str,
) -> (r: (Where, String))
    ensures
        match answer {
            Answer::Path(p) => r.0 == Where::Chosen(p) && r.1@ == "exporting "@ + name@ + "..."@,
            Answer::Canceled => r.0 is Canceled && r.1@ == "export canceled"@,
            Answer::Failed => {
                &&& r.0 is Beside
                &&& r.0->Beside_0@ == folder@ + export_name(stem, extension@)
                &&& r.1@ == "exporting "@ + export_name(stem, extension@) + "..."@
            },
        },
{
    match answer {
        Answer::Path(p) => {
            let mut s = "exporting ".to_owned();
            s.append(name);
            s.append("...");
            (Where::Chosen(p), s)
        },
        Answer::Canceled => (Where::Canceled, "export canceled".to_owned()),
        Answer::Failed => {
            let path = export_path(folder, stem, extension);
            let own = export_path("", stem, extension);
            proof {
                reveal_strlit("");
                assert(""@ + export_name(stem, extension@) =~= export_name(stem, extension@));
            }
            let mut s = "exporting ".to_owned();
            s.append(own.as_str());
            s.append("...");
            (Where::Beside(path), s)
        },
    }
}

/// A batch export's format: the one its path's extension names, or the
/// sheet's when it names none.
pub fn batch_format<T: Copy>(named: Option<T>, sheet: T) -> (t: T)
    ensures
        t == match named {
            Some(f) => f,
            None => sheet,
        },
{
    match named {
        Some(f) => f,
        None => sheet,
    }
}

/// Sheets are the same when every choice on them is: the file's kind and
/// size, its colour, what is done with a file there already, and all of
/// the watermark.
pub proof fn a_sheet_is_all_its_choices<N>(a: Sheet<N>, b: Sheet<N>, c: Sheet<N>)
    ensures
        same_sheet(a, a),
        same_sheet(a, b) ==> same_sheet(b, a),
        same_sheet(a, b) && same_sheet(b, c) ==> same_sheet(a, c),
        same_sheet(a, b) ==> a.format@ == b.format@ && a.quality == b.quality && a.size@ == b.size@
            && a.custom@ == b.custom@ && a.space@ == b.space@ && a.embed == b.embed,
        same_sheet(a, b) ==> a.sharpen@ == b.sharpen@ && a.on_exists@ == b.on_exists@
            && a.metadata@ == b.metadata@,
        same_sheet(a, b) ==> a.mark@ == b.mark@ && a.mark_text@ == b.mark_text@ && a.mark_image@
            == b.mark_image@ && a.mark_color@ == b.mark_color@ && a.mark_position@
            == b.mark_position@ && a.mark_size == b.mark_size && a.mark_margin == b.mark_margin
            && a.mark_opacity == b.mark_opacity,
{
}

/// A sheet put on the window changes its choices and the watermark's
/// name, and leaves the picker, the sheet's being up and the status.
pub proof fn a_sheet_shown_leaves_the_rest<N>(
    s: Sheet<N>,
    image_name: Seq<char>,
    before: SheetWindow<N>,
    after: SheetWindow<N>,
)
    requires
        shows_sheet(s, image_name, before, after),
    ensures
        same_sheet(after.sheet, s),
        after.mark_image_name@ == image_name,
        after.presets == before.presets,
        after.preset == before.preset,
        after.edited == before.edited,
        after.open == before.open,
        after.status == before.status,
{
}

/// The preset found is of the name asked, the case of its letters aside,
/// and no earlier one is. Where none is found, none is of that name.
pub proof fn the_preset_found_is_of_the_name<N>(presets: Seq<ExportPreset<N>>, name: Seq<char>)
    ensures
        preset_of(presets, name) matches Some(i) ==> {
            &&& 0 <= i < presets.len()
            &&& text::alike(presets[i].name@, name)
            &&& forall|j: int| 0 <= j < i ==> !text::alike((#[trigger] presets[j]).name@, name)
        },
        preset_of(presets, name) is None ==> forall|j: int|
            0 <= j < presets.len() ==> !text::alike((#[trigger] presets[j]).name@, name),
    decreases presets.len(),
{
    if presets.len() > 0 && !text::alike(presets[0].name@, name) {
        let rest = presets.drop_first();
        the_preset_found_is_of_the_name(rest, name);
        assert forall|j: int| 0 < j < presets.len() implies #[trigger] presets[j] == rest[j
            - 1] by {}
    }
}

/// A preset is chosen by its own name: not by no name, nor by the word
/// the picker has for none, in any case of its letters.
pub proof fn a_preset_chosen_has_a_name(preset: Seq<char>)
    ensures
        chosen(preset) is Some <==> preset.len() > 0 && !text::alike(preset, "None"@),
        chosen(preset) matches Some(name) ==> name == preset,
        is_reserved(preset) ==> chosen(preset) is None,
        is_reserved(NO_PRESET@),
{
}

/// The sheet counts as moved from its preset only while one of the list
/// is chosen, and then exactly when it is not that preset's sheet.
pub proof fn a_sheet_is_edited_against_its_preset<N>(
    presets: Seq<ExportPreset<N>>,
    preset: Seq<char>,
    same: Seq<bool>,
    i: int,
)
    requires
        same.len() == presets.len(),
    ensures
        preset.len() == 0 || text::alike(preset, NO_PRESET@) ==> !is_edited(presets, preset, same),
        (forall|j: int| 0 <= j < presets.len() ==> !text::alike((#[trigger] presets[j]).name@, preset))
            ==> !is_edited(presets, preset, same),
        preset.len() > 0 && !text::alike(preset, NO_PRESET@) && 0 <= i < presets.len()
            && text::alike(presets[i].name@, preset) && (forall|j: int|
            0 <= j < i ==> !text::alike((#[trigger] presets[j]).name@, preset)) ==> is_edited(
            presets,
            preset,
            same,
        ) == !same[i],
{
    the_preset_found_is_of_the_name(presets, preset);
}

/// The picker lists none first and then the presets in their order, and
/// what it has chosen is one of its entries: the preset asked for, under
/// the name it was saved with, or none.
pub proof fn the_picker_lists_the_presets<N>(
    presets: Seq<ExportPreset<N>>,
    choice: Option<Seq<char>>,
    same: Seq<bool>,
    before: SheetWindow<N>,
    after: SheetWindow<N>,
    i: int,
)
    requires
        shows_picker(presets, choice, same, before, after),
    ensures
        after.presets@.len() == presets.len() + 1,
        after.presets@[0]@ == NO_PRESET@,
        0 <= i < presets.len() ==> after.presets@[i + 1]@ == presets[i].name@,
        choice is None ==> after.preset@ == NO_PRESET@,
        choice matches Some(name) ==> (match preset_of(presets, name) {
            Some(k) => after.preset@ == presets[k].name@ && text::alike(after.preset@, name),
            None => after.preset@ == NO_PRESET@,
        }),
        after.preset@ == NO_PRESET@ ==> !after.edited,
        after.sheet == before.sheet,
        after.mark_image_name == before.mark_image_name,
        after.open == before.open,
        after.status == before.status,
{
    let listed = text::texts(after.presets@);
    assert(listed.len() == after.presets@.len());
    assert(listed[0] == after.presets@[0]@);
    if 0 <= i < presets.len() {
        assert(listed[i + 1] == after.presets@[i + 1]@);
    }
    match choice {
        Some(name) => {
            the_preset_found_is_of_the_name(presets, name);
        },
        None => {},
    }
}

/// Choosing a preset puts its sheet on the window and says its name, and
/// a name that is no preset's changes nothing.
pub proof fn a_preset_chosen_is_on_the_sheet<N>(
    presets: Seq<ExportPreset<N>>,
    name: Seq<char>,
    image_name: Seq<char>,
    before: SheetWindow<N>,
    after: SheetWindow<N>,
)
    requires
        filled(presets, name, image_name, before, after),
    ensures
        (forall|j: int| 0 <= j < presets.len() ==> !text::alike((#[trigger] presets[j]).name@, name))
            ==> after == before,
        preset_of(presets, name) matches Some(i) ==> {
            &&& text::alike(presets[i].name@, name)
            &&& same_sheet(after.sheet, presets[i].sheet)
            &&& after.mark_image_name@ == image_name
            &&& after.status@ == "export preset "@ + presets[i].name@
        },
        after.presets == before.presets,
        after.preset == before.preset,
        after.edited == before.edited,
        after.open == before.open,
{
    the_preset_found_is_of_the_name(presets, name);
}

/// Saving under a name that is taken replaces that preset, and under a
/// new one adds it at the end; no other preset moves.
pub proof fn a_preset_saved_replaces_its_own<N>(
    before: Seq<ExportPreset<N>>,
    name: Seq<char>,
    sheet: Sheet<N>,
    after: Seq<ExportPreset<N>>,
    k: int,
)
    requires
        saved_as(before, name, sheet, after),
        0 <= k < before.len(),
    ensures
        preset_of(before, name) is Some ==> after.len() == before.len(),
        preset_of(before, name) is None ==> after.len() == before.len() + 1 && after.last().name@
            == name && same_sheet(after.last().sheet, sheet),
        preset_of(before, name) == Some(k) ==> after[k].name@ == name && same_sheet(
            after[k].sheet,
            sheet,
        ),
        preset_of(before, name) != Some(k) ==> after[k] == before[k],
        !text::alike(before[k].name@, name) ==> after[k] == before[k],
{
    the_preset_found_is_of_the_name(before, name);
    if preset_of(before, name) is None {
        lemma_place_is_in(before, name);
    }
}

proof fn lemma_place_is_in<N>(presets: Seq<ExportPreset<N>>, name: Seq<char>)
    ensures
        preset_place(presets, name) <= presets.len(),
    decreases presets.len(),
{
    if presets.len() > 0 {
        lemma_place_is_in(presets.drop_first(), name);
    }
}

/// A watermark is refused when there is nothing to draw: a text of spaces
/// alone, or no picture. With none asked for there is nothing to refuse.
pub proof fn a_mark_with_nothing_to_draw_is_refused(m: Mark)
    ensures
        m is Off ==> mark_wrong(m) is None,
        m matches Mark::Text(t) ==> (mark_wrong(m) is Some <==> text::trimmed(t@).len() == 0),
        m matches Mark::Image(p) ==> (mark_wrong(m) is Some <==> p@.len() == 0),
        m is Text && mark_wrong(m) is Some ==> mark_wrong(m) == Some(
            "the watermark's text is empty"@,
        ),
        m is Image && mark_wrong(m) is Some ==> mark_wrong(m) == Some("the watermark has no PNG"@),
{
}

/// An export beside its raw has the raw's stem and ends in the format's
/// extension.
pub proof fn an_export_is_named_for_its_raw(stem: Option<&str>, extension: Seq<char>)
    ensures
        stem matches Some(s) ==> export_name(stem, extension) == s@ + ".greycard."@ + extension,
        stem is None ==> export_name(stem, extension) == "export.greycard."@ + extension,
{
    reveal_strlit("export");
    reveal_strlit(".greycard.");
    reveal_strlit("export.greycard.");
    assert("export"@ + ".greycard."@ =~= "export.greycard."@);
}

} // verus!
