use greycard_ui::panel::browser::{
    meta_followed, new_folder, set_meta, Browser, Followed, Stand,
};
use greycard_ui::panel::cull::{
    apply_filter, ask_rejects, captures, centered_on, compare_changed, control_over_frame,
    cull_frame, cull_refresh, cull_status, cull_toggled, enter_cull, filter_asked, frame_drawn,
    control_moved, leave_cull, mode_drawn, move_failed, move_rejects, moved_words, placeholder_status,
    preview_size, rejected, rejects_moved, rows_drawn, settle_full, switch_shown, tab_reached, texture_up,
    time_cull, After, AtStart, Bar, Entered, Filtered, Left, Seen, Sheet, Toggled, Waiting,
    CULL_TAB, LEAST_SIZE,
};
use greycard_ui::panel::curve::{
    channels_behind, draw_curve, peak, Channel, Columns, Histogram, Scene, Spot, SIDE,
};
use greycard_ui::panel::edit::{develop_now, Work};
use greycard_ui::panel::filter::{
    cleared, exact_toggled, flag_toggled, label_chip_text, label_toggled, pass, show_filter,
    star_picked, text_edited, Filter, Stars,
};
use greycard_ui::panel::frame::{drawn_source, frame_begun, Arrived, Viewed};
use greycard_ui::panel::history::{take_current, Taken};
use greycard_ui::panel::mask::Editing;
use greycard_ui::panel::meta::{Change, Flag, Label, Meta};
use greycard_ui::panel::model::{
    Blank, ColorRange, Edit, Look, LuminanceRange, Window,
};
use greycard_ui::panel::open::{mode_entered, open_files, open_row, panel_owned, row_reached, First, RowOpened, StandIn};
use greycard_ui::panel::placeholder::{
    deliver_preview, develop_landed, standing_in, Cull, Decoded, Desk, Hands, Screen, Shot,
};
use greycard_ui::panel::turn::turn_frames;

type Pane = Window<f32, u32, u32>;

/// A slider's value, by its bits.
fn level(v: f32) -> i32 {
    v.to_bits() as i32
}

fn pane() -> Pane {
    let luminance = LuminanceRange {
        low: level(0.0),
        high: level(1.0),
        low_feather: level(0.1),
        high_feather: level(0.1),
    };
    let color = ColorRange {
        hue: level(0.0),
        width: level(30.0),
        hue_feather: level(10.0),
        chroma: level(0.0),
        chroma_feather: level(0.1),
    };
    Window {
        status: String::new(),
        panel_tab: "Light".into(),
        placing: String::new(),
        placing_into: false,
        picking: String::new(),
        retouch_mode: String::new(),
        show_mask: false,
        shapes_open: false,
        target: 0,
        target_name: String::new(),
        adjustment_names: Vec::new(),
        adjustment_on: Vec::new(),
        adjustment_enabled: true,
        adjustment_name: String::new(),
        mask_invert: false,
        component: 0,
        component_names: Vec::new(),
        component_on: Vec::new(),
        component_invert: false,
        component_kind: String::new(),
        has_feather: false,
        mask_feather: level(0.0),
        luminance,
        color,
        hue_round: level(0.0),
        look: Look {
            tone: true,
            sliders: 0,
        },
        picture: 0,
        patch_names: Vec::new(),
        patch: -1,
        patch_size: level(0.0),
        patch_feather: level(0.0),
        patch_opacity: level(1.0),
        blank: Blank {
            zero: 0.0,
            feather: level(0.5),
            luminance,
            color,
        },
    }
}

fn edit() -> Edit<f32, u32, u32> {
    Edit {
        look: Look {
            tone: true,
            sliders: 0,
        },
        adjustments: Vec::new(),
        patches: Vec::new(),
        picture: 0,
    }
}

fn plain() -> Meta {
    Meta {
        rating: 0,
        flag: Flag::Unflagged,
        label: Label::Plain,
    }
}

const UP: Stand = Stand {
    turns: 0,
    flip: false,
};

fn browser(n: usize) -> Browser {
    let mut b = Browser {
        paths: Vec::new(),
        separator: '/',
        names: Vec::new(),
        metas: Vec::new(),
        pictured: Vec::new(),
        stood: Vec::new(),
        shown: Vec::new(),
        current: None,
        picked: Vec::new(),
        menu_file: None,
        thumbs: Vec::new(),
        selected: -1,
        set_count: 1,
        reject_count: 0,
    };
    let names = (0..n).map(|i| format!("IMG_{i:04}.CR3")).collect();
    new_folder(&mut b, names, vec![plain(); n], &vec![true; n], 0);
    b
}

fn desk(n: usize) -> Desk {
    Desk {
        browser: browser(n),
        cull: None,
        hold: None,
        placeholder: None,
        work: Work {
            generation: 0,
            busy: false,
            status: String::new(),
            status_after_develop: None,
        },
        screen: Screen {
            culling: false,
            compare: 1,
            placeholder: false,
            placeholder_status: String::new(),
            navigator: true,
            nav_partial: false,
            scopes: true,
            bins: true,
            clip_shadows: false,
            clip_highlights: false,
            file_name: String::new(),
            shot: Shot {
                camera: String::new(),
                exposure: String::new(),
                size: String::new(),
            },
        },
        hands: Hands::empty(),
        fitted: true,
        image_size: (0, 0),
        source_size: (0, 0),
        developed: false,
        cull_at_start: None,
    }
}

/// The files whose pictures are kept about a row.
fn about(row: usize, count: usize) -> Vec<usize> {
    (row.saturating_sub(2)..count.min(row + 3)).collect()
}

fn line(size: (u32, u32)) -> String {
    placeholder_status(size.0, size.1, false)
}

/// A row chosen in the window.
fn select(d: &mut Desk, w: &mut Pane, row: i32, raw: bool) -> RowOpened {
    let n = d.browser.shown.len();
    open_row(
        d,
        w,
        &edit(),
        &mut First {
            mask: None,
            patch: None,
        },
        row,
        false,
        StandIn {
            size: 1024,
            worth: raw,
        },
        &about(row as usize, n),
        row as usize,
        &line((6000, 4000)),
    )
}

/// The camera's picture of `file`, as a decode thread delivers one.
fn picture(d: &mut Desk, file: usize, source: (u32, u32)) {
    let path = d.browser.paths[file].clone();
    deliver_preview(
        d,
        &path,
        file,
        1024,
        Decoded::Picture { full: false },
        &line(source),
    );
}

fn missing(d: &mut Desk, file: usize) {
    let path = d.browser.paths[file].clone();
    deliver_preview(
        d,
        &path,
        file,
        1024,
        Decoded::Missing {
            why: "no camera preview in the file".into(),
        },
        "",
    );
}

fn kept(d: &Desk, file: usize) -> bool {
    d.hold.as_ref().unwrap().cache.screen.contains(&file)
}

#[test]
fn a_frame_chosen_shows_its_camera_picture_until_its_develop_lands() {
    let (mut d, mut w) = (desk(4), pane());
    // A scope and a navigator from the frame before it.
    d.screen.nav_partial = true;
    d.screen.clip_highlights = true;
    select(&mut d, &mut w, 1, true);
    {
        let wait = d.placeholder.as_ref().expect("a frame is waited on");
        assert_eq!(wait.file, 1);
        assert!(!wait.up(), "nothing stands in until the JPEG is decoded");
        assert_eq!(standing_in(&d), None);
    }
    assert!(
        !d.screen.placeholder,
        "the picture on screen is still ours"
    );

    // The decode comes back: the camera's picture stands in.
    picture(&mut d, 1, (8192, 5464));
    assert!(d.placeholder.as_ref().unwrap().up());
    assert_eq!(standing_in(&d), Some(1));
    assert!(d.fitted, "a placeholder is the fit view's");
    assert!(d.screen.placeholder);
    assert_eq!(
        d.screen.placeholder_status,
        "camera preview: the camera JPEG, 8192 \u{d7} 5464, fitted, \
         through the monitor profile only; developing..."
    );
    // The readings of a picture that is not on screen wait.
    assert!(!d.screen.nav_partial);
    assert!(!d.screen.clip_highlights);
    assert!(!d.screen.bins);
    assert!(!d.screen.scopes);

    // The develop lands: ours takes its place and the panel comes
    // back to it.
    let generation = d.work.generation;
    assert!(develop_landed(&mut d, generation));
    assert!(!d.screen.placeholder);
    assert_eq!(d.screen.placeholder_status, "");
    assert!(d.placeholder.is_none());
    assert!(kept(&d, 1), "the picture is kept for the arrow back");
}

#[test]
fn a_frame_with_no_camera_picture_keeps_the_last_develop_on_screen() {
    let (mut d, mut w) = (desk(4), pane());
    select(&mut d, &mut w, 1, true);
    let generation = d.work.generation;
    develop_landed(&mut d, generation);
    d.source_size = (6000, 4000);
    let shown_size = (6000, 4000);

    // On to a frame whose file has no camera JPEG in it: the
    // decode comes back with nothing and the wait is given up.
    select(&mut d, &mut w, 2, true);
    missing(&mut d, 2);
    assert!(d.placeholder.is_none(), "nothing stands in for it");
    assert_eq!(
        d.source_size,
        (0, 0),
        "the open frame has no develop of its own yet"
    );
    assert_eq!(
        drawn_source(d.source_size, shown_size),
        (6000, 4000),
        "the picture on screen is drawn at its own size, not at nothing"
    );
}

#[test]
fn a_second_frame_chosen_first_keeps_the_picture_there_is() {
    let (mut d, mut w) = (desk(4), pane());
    select(&mut d, &mut w, 1, true);
    picture(&mut d, 1, (6000, 4000));
    assert_eq!(standing_in(&d), Some(1));
    let first = d.work.generation;

    select(&mut d, &mut w, 2, true);
    {
        let wait = d.placeholder.as_ref().expect("the second frame waits");
        assert_eq!(wait.file, 2);
        assert!(!wait.up());
        assert_eq!(standing_in(&d), Some(1), "the picture there is stays");
    }
    assert!(d.screen.placeholder, "a camera picture is still on screen");

    // The first frame's develop, landing late for a frame no
    // longer selected, is not this frame's picture.
    assert!(!d.placeholder.as_ref().unwrap().replaced_by(first));

    picture(&mut d, 2, (6000, 4000));
    assert!(d.placeholder.as_ref().unwrap().up());
    assert_eq!(standing_in(&d), Some(2));
}

#[test]
fn a_develop_that_lands_first_keeps_the_late_camera_picture_down() {
    let (mut d, mut w) = (desk(4), pane());
    select(&mut d, &mut w, 1, true);
    let generation = d.work.generation;
    assert!(develop_landed(&mut d, generation));
    picture(&mut d, 1, (6000, 4000));
    assert!(d.placeholder.is_none(), "the late JPEG re-armed the wait");
    assert_eq!(standing_in(&d), None, "the late JPEG went up over ours");
    assert!(!d.screen.placeholder);
    assert!(
        kept(&d, 1),
        "the picture is still kept for the arrow back"
    );
}

#[test]
fn an_older_develop_leaves_the_placeholder_standing() {
    let (mut d, mut w) = (desk(4), pane());
    select(&mut d, &mut w, 1, true);
    let older = d.work.generation;
    picture(&mut d, 1, (6000, 4000));
    select(&mut d, &mut w, 2, true);
    picture(&mut d, 2, (6000, 4000));
    assert_eq!(standing_in(&d), Some(2));
    // The render loop's question, asked of the older develop.
    assert!(!develop_landed(&mut d, older));
    assert!(d.placeholder.is_some());
    assert_eq!(standing_in(&d), Some(2));
    assert!(d.screen.placeholder);
}

#[test]
fn culling_entered_over_a_placeholder_takes_it_and_gives_it_back() {
    for decoded in [false, true] {
        let (mut d, mut w) = (desk(4), pane());
        select(&mut d, &mut w, 1, true);
        picture(&mut d, 1, (6000, 4000));
        assert!(d.screen.placeholder);
        assert!(matches!(cull_toggled(&mut d), Toggled::Enter));
        let e = enter_cull(&mut d, &mut w, 1, 1024).unwrap();
        assert_eq!(e.select, Some(1));
        assert!(d.placeholder.is_none(), "a wait survived into the mode");
        assert!(d.hold.is_none(), "the develop view's pictures survived");
        assert!(d.cull.is_some(), "the mode did not start");
        assert!(!d.screen.placeholder, "the mode draws without it");
        if decoded {
            picture(&mut d, 1, (6000, 4000));
        }
        let l = leave_cull(&mut d, &mut w, &edit(), false, &line((6000, 4000)));
        assert!(matches!(l, Left::Develop { file: 1, .. }));
        assert!(d.cull.is_none());
        assert_eq!(d.placeholder.is_some(), decoded);
        assert_eq!(d.screen.placeholder, decoded);
        assert_eq!(
            d.screen.placeholder_status.starts_with("camera preview: "),
            decoded,
            "the loupe's picture said {:?}",
            d.screen.placeholder_status
        );
    }
}

#[test]
fn a_frame_with_no_camera_jpeg_is_not_asked_for_again() {
    let (mut d, mut w) = (desk(4), pane());
    select(&mut d, &mut w, 1, true);
    missing(&mut d, 1);
    select(&mut d, &mut w, 2, true);
    let r = select(&mut d, &mut w, 1, true);
    assert!(
        d.hold.as_ref().unwrap().failed.contains_key(&1),
        "the frame is asked for again on every select"
    );
    assert!(matches!(r, RowOpened::Opened { want: None, .. }));
    assert!(
        d.placeholder.is_none(),
        "it waits for a decode nobody sent"
    );
    assert!(!d.screen.placeholder);
}

#[test]
fn a_picture_file_chosen_takes_the_placeholder_down_and_still_prunes() {
    let (mut d, mut w) = (desk(5), pane());
    select(&mut d, &mut w, 0, true);
    picture(&mut d, 0, (6000, 4000));
    assert!(d.screen.placeholder);
    // A JPEG has no camera JPEG in it.
    select(&mut d, &mut w, 4, false);
    assert!(d.placeholder.is_none(), "a picture file got a placeholder");
    assert!(!d.screen.placeholder);
    assert!(
        !kept(&d, 0),
        "the window was not trimmed on the way past"
    );
}

#[test]
fn a_frame_with_no_camera_jpeg_keeps_the_picture_on_screen() {
    let (mut d, mut w) = (desk(4), pane());
    select(&mut d, &mut w, 1, true);
    missing(&mut d, 1);
    assert!(d.placeholder.is_none(), "nothing is waited on any more");
    assert_eq!(standing_in(&d), None);
    assert!(!d.screen.placeholder);
    // Asked for once: the frame is not re-decoded every frame.
    assert!(d.hold.as_ref().unwrap().failed.contains_key(&1));
}

/// A culling key under a filter, and the frame it hands the selection to
/// opened.
fn key(d: &mut Desk, w: &mut Pane, stars: u8, filter: &Filter) {
    let current = d.browser.current.unwrap();
    let news = set_meta(&mut d.browser, &vec![current], Change::Rating(stars));
    let n = d.browser.names.len();
    let passes = pass(filter, &d.browser.metas, &vec![true; n]);
    let f = meta_followed(
        &mut d.browser,
        &vec![current],
        !news.is_empty(),
        &passes,
        &vec![UP; n],
        false,
    );
    if let Followed::Rows { open: Some(row), .. } = f {
        select(d, w, row as i32, true);
    }
}

fn words(names: &[&str]) -> Vec<String> {
    names.iter().map(|s| s.to_string()).collect()
}

/// The filter's chips over the folder.
fn chips(d: &Desk, f: &Filter, said: &Vec<bool>) -> greycard_ui::panel::filter::Bar {
    show_filter(
        f,
        &d.browser.metas,
        said,
        &words(&["Any", "1+", "2+", "3+", "4+", "5"]),
        &words(&["Unflagged", "Pick", "Reject"]),
    )
}

/// The list again, under the filter.
fn filtered(d: &mut Desk, f: &Filter, said: &Vec<bool>) -> Vec<usize> {
    let n = d.browser.names.len();
    apply_filter(&mut d.browser, f, said, &vec![UP; n], false);
    d.browser.shown.clone()
}

#[test]
fn a_filter_leaves_the_rows_it_says_it_leaves() {
    let mut d = desk(6);
    // Two five-star frames, two threes, two nothing.
    for (i, stars) in [0u8, 5, 3, 0, 5, 3].into_iter().enumerate() {
        d.browser.metas[i].rating = stars;
    }
    d.browser.metas[1].flag = Flag::Pick;
    d.browser.metas[4].flag = Flag::Reject;
    d.browser.metas[2].label = Label::Red;
    d.browser.current = Some(2);
    let all = vec![true; 6];
    let mut f = Filter::none();
    let bar = chips(&d, &f, &all);
    assert_eq!((bar.total, bar.shown), (6, 6));
    assert!(!bar.on, "nothing asked of a frame yet");

    // Three stars or more: the two fives and the two threes, and the
    // chips say so before they are pressed.
    assert_eq!(bar.stars[3].text, "3+");
    assert_eq!(bar.stars[3].count, 4);
    assert_eq!(bar.stars[5].count, 2);
    assert!(star_picked(&mut f, 3));
    assert_eq!(filtered(&mut d, &f, &all), vec![1, 2, 4, 5]);
    let bar = chips(&d, &f, &all);
    assert_eq!(bar.shown, 4);
    assert!(bar.on && bar.stars[3].on && !bar.stars[2].on);
    assert_eq!(d.browser.thumbs.len(), 4);
    assert_eq!(d.browser.thumbs[0].name, "IMG_0001.CR3");

    // The flag chips read how the frames the stars left are flagged, their
    // own group set aside: of those four, one is a pick and one a reject.
    assert_eq!(bar.flags[1].text, "Pick");
    assert_eq!(bar.flags[1].count, 1);
    assert_eq!(bar.flags[2].count, 1);
    assert_eq!(bar.labels[1].count, 1);
    assert_eq!(bar.labels[0].text, "No label");
    assert!(flag_toggled(&mut f, 1));
    assert_eq!(filtered(&mut d, &f, &all), vec![1]);
    assert!(chips(&d, &f, &all).flags[1].on);
    // Any-of: the rejects as well, and then neither again.
    assert!(flag_toggled(&mut f, 2));
    assert_eq!(filtered(&mut d, &f, &all), vec![1, 4]);
    flag_toggled(&mut f, 1);
    flag_toggled(&mut f, 2);
    assert_eq!(filtered(&mut d, &f, &all), vec![1, 2, 4, 5]);

    // "Exactly" reads the same chip the other way.
    exact_toggled(&mut f);
    assert!(chips(&d, &f, &all).exact);
    assert_eq!(filtered(&mut d, &f, &all), vec![2, 5]);
    exact_toggled(&mut f);

    // A word: a keyword one frame carries, then part of a name, and both
    // of them narrow what the stars already left.
    assert!(text_edited(&mut f, "harbor"));
    let said = vec![false, false, true, false, false, false];
    assert_eq!(filtered(&mut d, &f, &said), vec![2]);
    assert!(text_edited(&mut f, "0004"));
    assert!(!text_edited(&mut f, "0004"));
    let said = vec![false, false, false, false, true, false];
    assert_eq!(filtered(&mut d, &f, &said), vec![4]);

    // Clear puts the folder back, the field with it.
    assert!(cleared(&mut f));
    assert_eq!(filtered(&mut d, &f, &all), vec![0, 1, 2, 3, 4, 5]);
    assert_eq!(f.text, "");
    assert!(!chips(&d, &f, &all).on);
    assert!(!cleared(&mut f));
}

#[test]
fn a_rating_that_hides_the_shown_frame_hands_the_selection_on() {
    let (mut d, mut w) = (desk(5), pane());
    for (i, stars) in [4u8, 4, 4, 0, 4].into_iter().enumerate() {
        d.browser.metas[i].rating = stars;
    }
    select(&mut d, &mut w, 2, true);
    let mut filter = Filter::none();
    assert!(star_picked(&mut filter, 4));
    let f = apply_filter(
        &mut d.browser,
        &filter,
        &vec![true; 5],
        &vec![UP; 5],
        false,
    );
    assert!(matches!(f, Filtered::Redraws));
    assert_eq!(d.browser.shown, vec![0, 1, 2, 4]);
    assert_eq!(d.browser.selected, 2, "the frame kept its own row");

    // One star on it: it leaves the list, and file 4 — the next
    // one still shown, at row 2 now — is what opens.
    key(&mut d, &mut w, 1, &filter);
    assert_eq!(d.browser.shown, vec![0, 1, 4]);
    assert_eq!(d.browser.current, Some(4));
    assert_eq!(d.browser.selected, 2);
    assert_eq!(d.browser.thumbs[2].name, "IMG_0004.CR3");
    assert_eq!(d.screen.file_name, "IMG_0004.CR3");

    // And a star that does not hide anything leaves the selection
    // where it is, and still moves the counts.
    key(&mut d, &mut w, 5, &filter);
    assert_eq!(d.browser.current, Some(4));
    assert_eq!(d.browser.shown, vec![0, 1, 4]);
    assert_eq!(chips(&d, &filter, &vec![true; 5]).stars[5].count, 1);

    // The last frame the filter shows, rated out of it: there is
    // nothing after it, so the one before takes the selection.
    select(&mut d, &mut w, 2, true);
    key(&mut d, &mut w, 0, &filter);
    assert_eq!(d.browser.shown, vec![0, 1]);
    assert_eq!(d.browser.current, Some(1));
    assert_eq!(d.browser.selected, 1);
}

#[test]
fn a_chip_is_pressed_by_its_place() {
    let mut f = Filter::none();
    f.stars = Stars::Exactly(3);
    assert!(!star_picked(&mut f, 3));
    assert!(!star_picked(&mut f, -1));
    assert!(star_picked(&mut f, 4));
    assert_eq!(f.stars, Stars::Exactly(4));
    exact_toggled(&mut f);
    assert_eq!(f.stars, Stars::AtLeast(4));
    assert!(!flag_toggled(&mut f, 3));
    assert!(label_toggled(&mut f, 5));
    assert!(label_toggled(&mut f, -1));
    assert!(!label_toggled(&mut f, 6));
    assert_eq!(f.labels, vec![true, false, false, false, false, true]);
    assert_eq!(label_chip_text(Label::Plain), "No label");
    assert_eq!(label_chip_text(Label::Red), "");
}

#[test]
fn a_turn_goes_on_the_frames_it_is_for() {
    let (mut d, mut w) = (desk(3), pane());
    select(&mut d, &mut w, 1, true);
    d.browser.pictured = vec![true, true, false];
    d.source_size = (6000, 4000);
    d.image_size = (6000, 4000);
    let generation = d.work.generation;
    let mut turns = vec![0, 3, 2];
    let side = Stand {
        turns: 1,
        flip: false,
    };
    assert!(turn_frames(&mut d, &mut turns, &vec![1, 2], 4, &vec![side; 3]).is_none());
    assert_eq!(turns, vec![0, 3, 2]);
    let t = turn_frames(&mut d, &mut turns, &vec![1, 2], 1, &vec![side; 3]).unwrap();
    assert_eq!(turns, vec![0, 0, 3]);
    assert_eq!(t.frames.len(), 2);
    assert!(t.frames[0].panel && !t.frames[1].panel);
    assert!(matches!(t.develop, Some(j) if j.generation == generation + 1 && j.turn == 0));
    assert_eq!(d.source_size, (4000, 6000));
    assert_eq!(d.image_size, (0, 0));
    assert_eq!(d.work.status, "developing...");
    assert_eq!(d.browser.thumbs[1].picture, Some(side));
    assert_eq!(d.browser.stood[1], Some(side));
    assert_eq!(d.browser.stood[2], None, "its picture is not made yet");
    // And back: as they were.
    turn_frames(&mut d, &mut turns, &vec![1, 2], -1, &vec![UP; 3]);
    assert_eq!(turns, vec![0, 3, 2]);
    assert_eq!(d.source_size, (6000, 4000));
    // In culling the panel is not the frame's: nothing develops.
    d.cull = Some(Cull::new("Light".into(), 1024));
    let t = turn_frames(&mut d, &mut turns, &vec![1], 2, &vec![UP; 3]).unwrap();
    assert!(t.develop.is_none() && !t.frames[0].panel);
    assert!(d.cull.as_ref().unwrap().turned);
    assert_eq!(d.source_size, (6000, 4000));
}

#[test]
fn the_filter_key_opens_the_grid_or_unfolds_the_culling_section() {
    // A develop tab, no grid: the chips are only in the grid's header, so
    // that is where the key goes.
    assert!(matches!(filter_asked(false, "Light"), Bar::OpensGrid));
    // Once it is up, its bar is the one that answers.
    assert!(matches!(filter_asked(true, "Light"), Bar::Grid));
    assert!(matches!(filter_asked(true, CULL_TAB), Bar::Grid));
}

#[test]
fn the_filter_key_unfolds_a_folded_culling_section() {
    // The panel already has the chips, so the key unfolds them.
    assert!(matches!(filter_asked(false, CULL_TAB), Bar::Section));
}

#[test]
fn a_slider_over_the_placeholder_keeps_it_up_and_says_so() {
    let (mut d, mut w) = (desk(4), pane());
    select(&mut d, &mut w, 1, true);
    picture(&mut d, 1, (6000, 4000));
    let said = d.screen.placeholder_status.clone();
    assert!(said.starts_with("camera preview: "), "{said}");
    let before = d.work.generation;
    develop_now(&mut d.work, 0);
    assert!(d.work.generation > before, "no develop was asked for");
    assert_eq!(d.work.status, "developing...");
    let wait = d.placeholder.as_ref().expect("the placeholder went down early");
    assert!(wait.replaced_by(d.work.generation));
    assert!(d.screen.placeholder);
    assert_eq!(d.screen.placeholder_status, said);
    // That develop lands, and the line goes with the picture.
    let generation = d.work.generation;
    assert!(develop_landed(&mut d, generation));
    assert!(!d.screen.placeholder);
    assert_eq!(d.screen.placeholder_status, "");
}

#[test]
fn undo_and_redo_over_the_placeholder_keep_it_up() {
    let (mut d, mut w) = (desk(4), pane());
    select(&mut d, &mut w, 1, true);
    picture(&mut d, 1, (6000, 4000));
    let mut st = Editing {
        edit: Edit { picture: 2, ..edit() },
        target: None,
        placing: None,
        retouching: None,
        patch_stroke: None,
        picking: false,
        show_mask_kept: None,
    };
    let mut seen = Vec::new();
    for value in [1, 2] {
        let before = d.work.generation;
        let to = Edit { picture: value, ..edit() };
        let current = d.browser.current;
        let t = take_current(current, false, false, to, &mut st, &mut w, &mut d.work, 0);
        assert!(matches!(t, Taken::Develop(j) if j.generation == before + 1));
        assert_eq!(standing_in(&d), Some(1), "it was taken down");
        assert!(d.screen.placeholder);
        seen.push(w.picture);
    }
    assert_eq!(seen, [1, 2], "undo and redo did not move the panel");
}

#[test]
fn a_turn_over_the_placeholder_keeps_it_up_and_turns_the_picture() {
    let (mut d, mut w) = (desk(4), pane());
    select(&mut d, &mut w, 1, true);
    picture(&mut d, 1, (6000, 4000));
    d.browser.pictured = vec![true; 4];
    let before = d.work.generation;
    let mut turns = vec![0; 4];
    let side = Stand {
        turns: 1,
        flip: false,
    };
    turn_frames(&mut d, &mut turns, &vec![1], 1, &vec![side; 4]);
    assert!(d.work.generation > before, "the develop was not re-keyed");
    assert_eq!(standing_in(&d), Some(1), "the turn took it down");
    assert_eq!(turns[1], 1);
    assert_eq!(
        d.browser.thumbs[1].picture,
        Some(side),
        "the camera picture would be drawn the same way up"
    );
    assert!(d.screen.placeholder);
    assert!(!d.screen.bins, "the last frame's bins came back");
}

#[test]
fn the_sheet_counts_what_moves() {
    let mut metas = vec![plain(); 4];
    assert!(matches!(ask_rejects(&metas, Some("/r")), Sheet::Says(_)));
    metas[1].flag = Flag::Reject;
    metas[3].flag = Flag::Reject;
    assert_eq!(rejected(&metas), vec![1, 3]);
    match ask_rejects(&metas, Some("/r")) {
        Sheet::Opens(s) => assert!(s.contains('2') && s.contains("/r"), "{s}"),
        other => panic!("{other:?}"),
    }
    assert!(moved_words(2, 1, "/r", 0).contains("/r"));
    assert!(move_failed("full").ends_with("full"));
}

#[test]
fn a_frame_that_went_gives_way_to_the_nearest_left() {
    let mut b = browser(4);
    b.current = Some(1);
    b.selected = 1;
    let open = move_rejects(&mut b, &vec![1], &vec![true; 3], &vec![UP; 3]);
    assert_eq!(b.names, vec!["IMG_0000.CR3", "IMG_0002.CR3", "IMG_0003.CR3"]);
    assert_eq!(b.shown, vec![0, 1, 2]);
    assert_eq!(open, Some(1));
    // One that stays keeps its frame, under its new number.
    let mut b = browser(4);
    b.current = Some(2);
    let open = move_rejects(&mut b, &vec![0], &vec![true; 3], &vec![UP; 3]);
    assert_eq!(open, None);
    assert_eq!(b.current, Some(1));
    // And the whole desk: nothing left is a blank one.
    let (mut d, mut w) = (desk(1), pane());
    select(&mut d, &mut w, 0, true);
    let (after, _) = rejects_moved(&mut d, &vec![0], &vec![], &vec![], "moved".into());
    assert!(matches!(after, After::Blank));
    assert!(d.browser.names.is_empty());
}

#[test]
fn the_loupe_says_what_is_on_screen() {
    let seen = Seen {
        width: 6000,
        height: 4000,
        small: false,
        own_size: false,
    };
    assert_eq!(
        cull_status(1, None, Some(seen), None),
        "culling: the camera JPEG, 6000 \u{d7} 4000, fitted, through the monitor profile only; Enter develops"
    );
    assert_eq!(
        cull_status(2, None, Some(seen), Some(100)),
        "culling, 2 up: the camera JPEG, 6000 \u{d7} 4000, 100% of its own pixels, the screen-size copy until the full one is decoded, through the monitor profile only; Enter develops"
    );
    assert_eq!(
        cull_status(1, None, None, None),
        "culling: decoding the camera JPEG..."
    );
    assert_eq!(
        cull_status(1, Some("why"), None, None),
        "culling: no camera preview (why); Enter develops the frame"
    );
    assert_eq!(
        placeholder_status(160, 120, true),
        "camera preview: a small camera preview, 160 \u{d7} 120, fitted, through the monitor profile only; developing..."
    );
    assert!(preview_size(0, 0) >= LEAST_SIZE);
}

#[test]
fn the_pictures_about_a_frame_are_asked_for_once() {
    let (mut d, mut w) = (desk(4), pane());
    select(&mut d, &mut w, 1, true);
    enter_cull(&mut d, &mut w, 2, 1024);
    picture(&mut d, 1, (6000, 4000));
    let wants = cull_refresh(&mut d, &vec![1, 2], &vec![1, 2, 0], &vec![0, 1, 2], false).unwrap();
    let files: Vec<usize> = wants.iter().map(|w| w.file).collect();
    assert_eq!(files, vec![2, 0], "what is in hand is not wanted");
    let drawn = frame_drawn(&d).unwrap();
    assert_eq!((drawn.file, drawn.holding), (1, false));
    let rows = rows_drawn(&d.browser.shown, drawn, &vec![1, 2]);
    let seen = Seen {
        width: 6000,
        height: 4000,
        small: false,
        own_size: false,
    };
    let l = cull_frame(
        &d.browser,
        d.cull.as_ref().unwrap(),
        drawn,
        &rows,
        &vec![Some(seen), None],
        true,
    );
    assert_eq!(l.tiles.len(), 2);
    assert!(l.tiles[0].on && !l.tiles[1].on);
    assert!(l.shown && !l.ready);
    compare_changed(&mut d, 1, 1);
    let l = cull_frame(
        &d.browser,
        d.cull.as_ref().unwrap(),
        drawn,
        &vec![1],
        &vec![Some(seen)],
        true,
    );
    assert!(l.tiles.is_empty() && l.ready);
    let none = Waiting {
        leaving: false,
        turning: false,
        asking: false,
        grid: false,
        placeholder: false,
    };
    let c = captures(&l, none, false, false);
    assert!(c.snapshot && c.screenshot && c.ends);
    let c = captures(&l, Waiting { turning: true, ..none }, false, false);
    assert!(!c.snapshot);
}

#[test]
fn a_full_size_copy_is_for_a_zoom_alone() {
    let mut c = Cull::new("Light".into(), 1024);
    assert!(settle_full(&mut c, 1, false, false, false));
    assert!(!settle_full(&mut c, 1, false, false, false), "asked once");
    c.cache.full = Some(1);
    c.textured = vec![1, 2];
    assert!(!settle_full(&mut c, 1, false, true, true));
    assert_eq!(c.cache.full, None);
    assert_eq!(c.textured, vec![2]);
}

#[test]
fn a_batch_run_presses_its_keys_once() {
    let mut a = AtStart {
        turn: Some(1),
        develop: true,
        ask_rejects: true,
        move_rejects: true,
    };
    let p = switch_shown(&mut a);
    assert_eq!(p.turn, Some((1, true)));
    assert!(!p.leave);
    assert_eq!(p.rejects, Some(true));
    let p = switch_shown(&mut a);
    assert_eq!(p.rejects, None);
    assert_eq!(p.turn, Some((1, false)));
}

#[test]
fn a_folder_opened_in_the_mode_leaves_nothing_of_the_last() {
    let (mut d, mut w) = (desk(3), pane());
    select(&mut d, &mut w, 1, true);
    picture(&mut d, 1, (6000, 4000));
    assert!(panel_owned(&d));
    let names = vec!["x.CR3".to_string(), "y.CR3".to_string()];
    let (_, open) = open_files(
        &mut d,
        names,
        vec![plain(); 2],
        &vec![true; 2],
        1,
        "nothing shown",
    );
    assert_eq!(open, Some(1));
    assert_eq!(d.browser.current, None);
    assert!(d.placeholder.is_none() && d.hold.is_none());
    // With nothing open there is nothing to cull.
    let mut empty = desk(0);
    assert!(matches!(cull_toggled(&mut empty), Toggled::Empty));
    assert_eq!(empty.work.status, "nothing to cull: open a folder");
    // In the mode there is no entering it again.
    let e: Option<Entered> = enter_cull(&mut d, &mut w, 2, 1024);
    assert!(e.is_some());
    assert!(enter_cull(&mut d, &mut w, 2, 1024).is_none());
    assert_eq!(d.screen.compare, 2);
}

#[test]
fn a_control_reached_in_culling_goes_over_the_frame() {
    assert_eq!(control_over_frame(Some(0), true, Some(7)), Some(7));
    assert_eq!(control_over_frame(Some(0), false, Some(7)), None, "nothing moved");
    assert_eq!(control_over_frame(None, true, Some(7)), None);
    assert_eq!(control_over_frame(Some(0), true, None::<i32>), None);
}

#[test]
fn a_timed_culling_run_ends() {
    assert_eq!(time_cull(3, Some(0), 9), Some(2));
    assert_eq!(time_cull(0, Some(0), 9), None);
    assert_eq!(time_cull(3, Some(8), 9), None, "the last row");
    assert_eq!(time_cull(3, None, 0), Some(2));
}

#[test]
fn a_texture_is_made_once_a_copy() {
    let mut c = Cull::new("Light".into(), 1024);
    assert!(texture_up(&mut c, 4, false));
    assert!(!texture_up(&mut c, 4, true), "the same copy is there");
    assert!(texture_up(&mut c, 4, false), "another copy");
    assert!(texture_up(&mut c, 1, true), "not there yet");
    assert_eq!(c.textured, vec![1, 4]);
}

#[test]
fn the_loupe_centers_on_another_size() {
    assert_eq!(centered_on((0, 0), Some((6000, 4000))), Some((6000, 4000)));
    assert_eq!(centered_on((6000, 4000), Some((6000, 4000))), None);
    assert_eq!(centered_on((6000, 4000), None), None);
}

#[test]
fn a_frame_of_the_mode_says_what_is_new() {
    let mut c = Cull::new("Light".into(), 1024);
    c.switched = true;
    c.turned = true;
    let n = mode_drawn(&mut c, "culling: IMG_0001".into(), false);
    assert!(n.says && !n.turned && !n.switched);
    let n = mode_drawn(&mut c, "culling: IMG_0001".into(), true);
    assert!(!n.says && n.turned && n.switched);
    let n = mode_drawn(&mut c, "culling: IMG_0001".into(), true);
    assert!(!n.says && !n.turned && !n.switched, "once");
}

#[test]
fn a_develop_takes_the_place_of_the_picture_standing_in() {
    let (mut d, mut w) = (desk(3), pane());
    select(&mut d, &mut w, 1, true);
    picture(&mut d, 1, (6000, 4000));
    assert!(matches!(frame_begun(&mut d, None), Viewed::Loupe));
    let arrived = |generation: u64| Arrived {
        generation,
        width: 6000,
        height: 4000,
    };
    // One asked for before the frame was chosen leaves it standing.
    let asked = d.work.generation;
    assert!(asked > 0);
    let v = frame_begun(&mut d, Some(arrived(asked - 1)));
    assert!(matches!(v, Viewed::Loupe));
    assert_eq!(standing_in(&d), Some(1));
    let v = frame_begun(&mut d, Some(arrived(asked)));
    assert!(matches!(v, Viewed::Develop));
    assert_eq!(standing_in(&d), None);
    assert_eq!(d.source_size, (6000, 4000));
    assert_eq!(d.screen.shot.size, "6000 \u{d7} 4000 \u{b7} 24 MP");
    assert!(d.developed);
}

/// A develop tab reached in culling is the way out of it, on to that tab.
#[test]
fn a_tab_reached_in_culling_leaves_it_for_that_tab() {
    let (mut d, mut w) = (desk(2), pane());
    select(&mut d, &mut w, 1, true);
    w.panel_tab = "Color".into();
    enter_cull(&mut d, &mut w, 1, 1024).unwrap();
    assert_eq!(w.panel_tab, CULL_TAB);
    let mut st = Editing {
        edit: edit(),
        target: Some(0),
        placing: None,
        retouching: None,
        patch_stroke: None,
        picking: false,
        show_mask_kept: None,
    };
    let generation = d.work.generation;
    let l = tab_reached(&mut d, &mut st, &mut w, edit(), true, "line", "Crop");
    match l {
        Left::Develop { file, generation: g, save } => {
            assert_eq!((file, g, save), (1, generation + 1, true));
        }
        _ => panic!("it stayed in culling"),
    }
    assert!(d.cull.is_none());
    assert_eq!(w.panel_tab, "Crop");
    assert_eq!(st.target, None);
    // Out of it a control is read into the edit in hand.
    w.picture = 5;
    let l = control_moved(&mut d, &mut st, &mut w, edit(), true, "line");
    assert!(matches!(l, Left::Nothing));
    assert_eq!(st.edit.picture, 5);
    // In it the control is the way out, and the edit with it is in hand.
    enter_cull(&mut d, &mut w, 1, 1024).unwrap();
    let generation = d.work.generation;
    let with = Edit { picture: 8, ..edit() };
    let l = control_moved(&mut d, &mut st, &mut w, with, true, "line");
    assert!(matches!(l, Left::Develop { file: 1, save: true, .. }));
    assert_eq!((st.edit.picture, w.picture), (8, 8));
    assert_eq!((w.panel_tab.as_str(), d.work.generation), ("Crop", generation + 1));
    let generation = d.work.generation - 1;
    // And a tab is only a tab.
    let l = tab_reached(&mut d, &mut st, &mut w, edit(), false, "line", "Light");
    assert!(matches!(l, Left::Nothing));
    assert_eq!(d.work.generation, generation + 1);
}

/// The histogram behind the curve editor goes with the scopes while the
/// camera picture stands in, and a touch of the curve does not paint the
/// last frame's back: the bins go with it.
#[test]
fn the_curve_editor_does_not_paint_the_last_frames_histogram_back() {
    let (mut d, mut w) = (desk(4), pane());
    let last: Vec<u32> = (0..768).map(|i| (i % 97) as u32 + 1).collect();
    let drawn = |bins: bool, points: &[Spot]| {
        let histogram = if bins {
            let behind = channels_behind(Channel::Rgb);
            let top = peak(&last, &behind);
            Histogram::Channels(
                behind
                    .iter()
                    .map(|&(c, color)| Columns {
                        color,
                        heights: (0..SIDE).map(|x| last[c * 256 + x] * SIDE as u32 / top).collect(),
                    })
                    .collect(),
            )
        } else {
            Histogram::Off
        };
        draw_curve(&Scene {
            channel: Channel::Rgb,
            histogram,
            heights: (0..SIDE as u32).collect(),
            splits: None,
            points: points.to_vec(),
        })
    };
    d.screen.bins = true;
    select(&mut d, &mut w, 1, true);
    picture(&mut d, 1, (6000, 4000));
    assert!(d.screen.placeholder);
    assert_eq!(
        drawn(d.screen.bins, &[]),
        drawn(false, &[]),
        "the histogram was not taken off the curve"
    );
    // A point put on the curve: it is redrawn from whatever bins are in
    // hand.
    let point = [Spot { x: 128, y: 128 }];
    assert_ne!(
        drawn(d.screen.bins, &point),
        drawn(true, &point),
        "the last frame's histogram came back behind the camera picture"
    );
}

/// A preview of a list since replaced lands on no stranger's slot.
#[test]
fn a_preview_of_another_folders_file_is_not_taken() {
    let (mut d, mut w) = (desk(2), pane());
    select(&mut d, &mut w, 1, true);
    deliver_preview(
        &mut d,
        "/elsewhere/IMG_0001.CR3",
        1,
        1024,
        Decoded::Picture { full: false },
        "line",
    );
    assert!(!d.screen.placeholder && !kept(&d, 1));
    picture(&mut d, 1, (6000, 4000));
    assert!(d.screen.placeholder && kept(&d, 1));
}

/// Arrowing through the folder leaves each frame with what the panel had.
#[test]
fn a_row_reached_records_the_one_left() {
    let (mut d, mut w) = (desk(3), pane());
    let mut st = Editing {
        edit: edit(),
        target: None,
        placing: None,
        retouching: None,
        patch_stroke: None,
        picking: false,
        show_mask_kept: None,
    };
    let mut edits: Vec<Edit<f32, u32, u32>> = (0..3)
        .map(|i| Edit { picture: 10 * i, ..edit() })
        .collect();
    let mut reach = |d: &mut Desk,
                     st: &mut Editing<f32, u32, u32>,
                     w: &mut Pane,
                     edits: &mut Vec<Edit<f32, u32, u32>>,
                     row: i32,
                     migrated: Option<u32>| {
        row_reached(
            d,
            st,
            w,
            edits,
            migrated,
            &mut First { mask: None, patch: None },
            row,
            false,
            StandIn { size: 1024, worth: true },
            &about(row as usize, 3),
            row as usize,
            &line((6000, 4000)),
        )
    };
    let pictures = |e: &Vec<Edit<f32, u32, u32>>| e.iter().map(|e| e.picture).collect::<Vec<_>>();
    // The first: nothing was open, so nothing is recorded.
    d.browser.current = None;
    reach(&mut d, &mut st, &mut w, &mut edits, 0, None);
    assert_eq!((st.edit.picture, w.picture), (0, 0));
    assert_eq!(pictures(&edits), [0, 10, 20]);
    // A slider moved, then the next row: it is the first frame's.
    w.picture = 5;
    reach(&mut d, &mut st, &mut w, &mut edits, 1, Some(11));
    assert_eq!(pictures(&edits), [5, 11, 20]);
    assert_eq!((st.edit.picture, w.picture), (11, 11));
    // The same row again keeps what the panel had.
    w.picture = 12;
    reach(&mut d, &mut st, &mut w, &mut edits, 1, None);
    assert_eq!((pictures(&edits), st.edit.picture), (vec![5, 12, 20], 12));
    // No such row: nothing is recorded either.
    w.picture = 13;
    let r = reach(&mut d, &mut st, &mut w, &mut edits, 3, None);
    assert!(matches!(r, RowOpened::Nothing));
    assert_eq!(pictures(&edits), [5, 12, 20]);
    // In culling the panel is not the frame's; entering it records what
    // the panel had.
    let e = mode_entered(&mut d, &mut st, &mut w, &mut edits, 1, 1024).unwrap();
    assert_eq!((e.save, e.select), (true, Some(1)));
    assert!(mode_entered(&mut d, &mut st, &mut w, &mut edits, 1, 1024).is_none());
    assert_eq!(pictures(&edits), [5, 13, 20]);
    let r = reach(&mut d, &mut st, &mut w, &mut edits, 2, None);
    assert!(matches!(r, RowOpened::Culled { file: 2, .. }));
    assert_eq!((pictures(&edits), st.edit.picture), (vec![5, 13, 20], 12));
}
