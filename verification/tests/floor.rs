use greycard_ui::panel::browser::{new_folder, Browser, Loaded, Stand, Start};
use greycard_ui::panel::crop::{crop_toggled, Crop};
use greycard_ui::panel::cull::After;
use greycard_ui::panel::deliver::{deliver, Floor, Outcome, Run, Thumbs, Uses};
use greycard_ui::panel::edit::Work;
use greycard_ui::panel::floor::{
    floor_opened, floor_rejects_moved, folder_reached, rejects_answered, MovedOut,
};
use greycard_ui::panel::mask::{Editing, Next};
use greycard_ui::panel::meta::{Flag, Label, Meta};
use greycard_ui::panel::model::{Blank, ColorRange, Edit, Look, LuminanceRange, Window};
use greycard_ui::panel::placeholder::{Desk, Hands, Screen, Shot};

const UP: Stand = Stand {
    turns: 0,
    flip: false,
};

const PLAIN: Meta = Meta {
    rating: 0,
    flag: Flag::Unflagged,
    label: Label::Plain,
};

/// A floor of `n` files, of which the rows show those that pass.
fn floor(n: usize, passes: &[bool]) -> Floor {
    let mut browser = Browser {
        paths: Vec::new(),
        separator: '/',
        names: Vec::new(),
        metas: Vec::new(),
        pictured: Vec::new(),
        stood: Vec::new(),
        shown: Vec::new(),
        current: None,
        picked: Vec::new(),
        menu_file: None,
        thumbs: Vec::new(),
        selected: -1,
        set_count: 1,
        reject_count: 0,
    };
    let names = (0..n).map(|i| format!("IMG_{i:04}.CR3")).collect();
    new_folder(&mut browser, names, vec![PLAIN; n], &passes.to_vec(), 0);
    browser.current = Some(0);
    Floor {
        desk: Desk {
            browser,
            cull: None,
            hold: None,
            placeholder: None,
            work: Work {
                generation: 3,
                busy: false,
                status: String::new(),
                status_after_develop: None,
            },
            screen: Screen {
                culling: false,
                compare: 1,
                placeholder: false,
                placeholder_status: String::new(),
                navigator: true,
                nav_partial: false,
                scopes: true,
                bins: true,
                clip_shadows: false,
                clip_highlights: false,
                file_name: String::new(),
                shot: Shot {
                    camera: String::new(),
                    exposure: String::new(),
                    size: String::new(),
                },
            },
            hands: Hands::empty(),
            fitted: true,
            image_size: (0, 0),
            source_size: (0, 0),
            developed: false,
            cull_at_start: None,
        },
        thumbs: Thumbs {
            made: (0..n as u32).collect(),
            asked: (0..n as u32).map(|i| 100 + i).collect(),
            want: 160,
            grid_shown: None,
        },
        seed: (0..n).map(|i| i % 2 == 0).collect(),
        run: Run {
            batch: false,
            failed: false,
            turn_at_start: None,
            awaiting_turn: false,
            export_waits: false,
            ends_after_export: false,
        },
        fetching: false,
        offered: false,
        declined: Vec::new(),
        asked: Vec::new(),
        shown_size: (0, 0),
        pending: None,
        show_mask: false,
        raw_input: false,
        source_note: String::new(),
    }
}

fn pane() -> Window<u8, u8, u8> {
    let luminance = LuminanceRange { low: 0, high: 0, low_feather: 0, high_feather: 0 };
    let color = ColorRange {
        hue: 0,
        width: 0,
        hue_feather: 0,
        chroma: 0,
        chroma_feather: 0,
    };
    Window {
        status: String::new(),
        panel_tab: "Light".into(),
        placing: String::new(),
        placing_into: false,
        picking: String::new(),
        retouch_mode: String::new(),
        show_mask: false,
        shapes_open: false,
        target: 0,
        target_name: String::new(),
        adjustment_names: Vec::new(),
        adjustment_on: Vec::new(),
        adjustment_enabled: true,
        adjustment_name: String::new(),
        mask_invert: false,
        component: 0,
        component_names: Vec::new(),
        component_on: Vec::new(),
        component_invert: false,
        component_kind: String::new(),
        has_feather: false,
        mask_feather: 0,
        luminance,
        color,
        hue_round: 0,
        look: Look { tone: true, sliders: 0 },
        picture: 0,
        patch_names: Vec::new(),
        patch: -1,
        patch_size: 0,
        patch_feather: 0,
        patch_opacity: 0,
        blank: Blank { zero: 0, feather: 0, luminance, color },
    }
}

fn nothing() -> Edit<u8, u8, u8> {
    Edit {
        look: Look { tone: true, sliders: 0 },
        adjustments: Vec::new(),
        patches: Vec::new(),
        picture: 0,
    }
}

#[test]
fn every_list_loses_the_files_that_went() {
    let mut f = floor(5, &[true; 5]);
    f.desk.browser.current = Some(2);
    let (after, _) =
        floor_rejects_moved(&mut f, &vec![0, 3], &vec![true; 3], &vec![UP; 3], "moved".into());
    assert_eq!(
        f.desk.browser.names,
        ["IMG_0001.CR3", "IMG_0002.CR3", "IMG_0004.CR3"]
    );
    assert_eq!(f.desk.browser.paths, f.desk.browser.names);
    assert_eq!(f.thumbs.made, [1, 2, 4]);
    assert_eq!(f.thumbs.asked, [101, 102, 104]);
    assert_eq!(f.seed, [false, true, true]);
    assert_eq!(f.desk.browser.current, Some(1));
    assert!(matches!(after, After::Stays));
    assert_eq!(f.desk.work.status, "moved");
}

#[test]
fn a_move_that_failed_takes_nothing_out() {
    let mut f = floor(3, &[true; 3]);
    let failed = Err("no room".to_string());
    let (after, again) = rejects_answered(&mut f, failed, "/r", &vec![], &vec![]);
    assert!(matches!(after, After::Stays) && again.is_empty());
    assert_eq!(f.desk.work.status, "the rejects could not be moved: no room");
    assert_eq!((f.desk.browser.names.len(), f.seed.len()), (3, 3));
    let moved = MovedOut {
        files: vec![0],
        sidecars: 1,
        skipped: 1,
    };
    let (after, _) = rejects_answered(&mut f, Ok(moved), "/r", &vec![true; 2], &vec![UP; 2]);
    assert_eq!(
        f.desk.work.status,
        "moved 1 frame and 1 sidecar to /r; 1 left where it was (a file of that name is there already)"
    );
    assert_eq!(f.thumbs.made, [1, 2]);
    assert_eq!(f.seed, [false, true]);
    // The frame on show went, and the nearest left opens.
    assert!(matches!(after, After::Opens(0)));
}

#[test]
fn a_folder_opened_has_its_lists_made_anew() {
    let mut f = floor(2, &[true; 2]);
    let names = vec!["/s/A.CR3".to_string(), "/s//B.CR3".into(), "/s/C.CR3/".into()];
    let loaded = vec![
        Loaded { start: Start::Fresh, seed: true },
        Loaded { start: Start::Sidecar, seed: false },
        Loaded { start: Start::Fresh, seed: true },
    ];
    let passes = vec![false, true, true];
    let (saved, row) =
        floor_opened(&mut f, names.clone(), vec![PLAIN; 3], &loaded, &passes, 2, 256, "none");
    assert!(saved, "the frame that was on the panel is written first");
    assert_eq!(row, Some(1));
    assert_eq!(f.desk.browser.paths, names);
    assert_eq!(f.desk.browser.names, ["A.CR3", "B.CR3", "C.CR3"]);
    assert_eq!(f.thumbs.made, [0, 0, 0]);
    assert_eq!(f.thumbs.asked, [256, 256, 256]);
    assert_eq!((f.thumbs.want, f.thumbs.grid_shown), (256, None));
    assert_eq!(f.seed, [true, false, true]);
    // Nothing passes: nothing opens, and it is said.
    let (_, row) = floor_opened(
        &mut f,
        names,
        vec![PLAIN; 3],
        &loaded,
        &vec![false; 3],
        0,
        256,
        "nothing passes",
    );
    assert_eq!(row, None);
    assert_eq!(f.desk.work.status, "nothing passes");
}

/// The grid's rows are places in what is shown, not in the folder.
#[test]
fn a_thumbnail_is_asked_for_again_by_its_row() {
    for (rows, asked) in [((0, 0), 160), ((-2, 0), 160), ((1, 3), 102), ((-2, -1), 102)] {
        // Of four files the last two are shown; file 2 is on row 0.
        let mut f = floor(4, &[false, false, true, true]);
        f.thumbs.made[2] = 0;
        f.thumbs.grid_shown = Some(rows);
        deliver(
            &mut f,
            &nothing(),
            Uses { denoiser: None, repairs_on: false },
            &Outcome::Thumbnail {
                index: 2,
                path: "IMG_0002.CR3".into(),
                size: 80,
                bigger: true,
                stand: UP,
            },
        );
        assert_eq!(f.thumbs.asked[2], asked, "{rows:?}");
    }
}

#[test]
fn crop_mode_fits_the_view() {
    let mut f = floor(1, &[true]);
    f.desk.fitted = false;
    f.desk.image_size = (60, 40);
    f.desk.hands.crop_drag = true;
    let mut drag = Some(Crop { x: 0, y: 0, w: 1, h: 1 });
    assert_eq!(crop_toggled(&mut f.desk, &mut drag), Next::Redraw);
    assert!(f.desk.fitted && !f.desk.hands.crop_drag && drag.is_none());
    assert_eq!(f.desk.image_size, (0, 0));
}

#[test]
fn another_folder_takes_the_old_ones_place() {
    let mut f = floor(2, &[true; 2]);
    f.desk.browser.current = Some(1);
    let st: Editing<u8, u8, u8> = Editing {
        edit: nothing(),
        target: None,
        placing: None,
        retouching: None,
        patch_stroke: None,
        picking: false,
        show_mask_kept: None,
    };
    let mut w = pane();
    w.picture = 4;
    let mut kept = vec![nothing(), nothing()];
    let reach = |f: &mut Floor, kept: &mut Vec<Edit<u8, u8, u8>>| {
        folder_reached(
            f,
            &st,
            &w,
            kept,
            vec![Edit { picture: 9, ..nothing() }],
            vec!["/n/A.CR3".into()],
            vec![PLAIN],
            &vec![Loaded { start: Start::Fresh, seed: true }],
            &vec![true],
            0,
            256,
            "none",
        )
    };
    let (left, row) = reach(&mut f, &mut kept);
    let (file, edit) = left.unwrap();
    assert_eq!((file, edit.picture, row), (1, 4, Some(0)));
    assert_eq!((kept.len(), kept[0].picture), (1, 9));
    assert_eq!(f.desk.browser.paths, ["/n/A.CR3"]);
    // Nothing open now, so nothing is left to record.
    assert!(reach(&mut f, &mut kept).0.is_none());
}
