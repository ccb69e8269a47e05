use greycard_ui::panel::browser::{
    chosen_frames, chosen_said, file_on_row, frame_aspect, frame_clicked, grid_filled_rows,
    grid_range, grid_step, load_sidecars, meta_followed, meta_key, migrate_frame, new_folder,
    open_folder, open_paths, own_size, rebuild_browser, reject_count, row_of, say_if_empty,
    set_meta, show_thumb, stance, stance_read, step, step_to, strip_range, thumb_for, thumb_turns, time_select,
    turn_plan, turn_words, turned_size, Arrow, Browser, Chosen, Click, Followed, Measures,
    Migration, SidecarRead, Stand, Standing, Start,
};
use greycard_ui::panel::meta::{settle, Change, Flag, Label, Meta};
use greycard_ui::panel::selection::{
    find, has, nearest_row, prune, put, renumber, take_out,
};

fn plain() -> Meta {
    Meta {
        rating: 0,
        flag: Flag::Unflagged,
        label: Label::Plain,
    }
}

const UP: Stand = Stand {
    turns: 0,
    flip: false,
};

fn folder(names: &[&str]) -> Browser {
    let mut b = Browser {
        paths: Vec::new(),
        separator: '/',
        names: Vec::new(),
        metas: Vec::new(),
        pictured: Vec::new(),
        stood: Vec::new(),
        shown: Vec::new(),
        current: None,
        picked: Vec::new(),
        menu_file: None,
        thumbs: Vec::new(),
        selected: -1,
        set_count: 1,
        reject_count: 0,
    };
    let n = names.len();
    let names = names.iter().map(|s| s.to_string()).collect();
    new_folder(&mut b, names, vec![plain(); n], &vec![true; n], 0);
    b
}

/// What a filter of no rejects lets by.
fn no_rejects(b: &Browser) -> Vec<bool> {
    b.metas.iter().map(|m| m.flag != Flag::Reject).collect()
}

/// A row of the browser and a file of the folder are two different
/// numbers whenever a filter is on.
#[test]
fn a_badge_set_under_a_filter_lands_on_the_filtered_row() {
    let mut b = folder(&["a.CR3", "b.CR3", "c.CR3", "d.CR3", "e.CR3"]);
    // One reject at the front, so every row is the file one along.
    b.metas[0].flag = Flag::Reject;
    let passes = no_rejects(&b);
    rebuild_browser(&mut b, &passes, &vec![UP; 5]);
    assert_eq!(b.shown, vec![1, 2, 3, 4]);
    assert_eq!(b.thumbs.len(), 4);

    // Four stars on file 1: row 0, and nothing on row 1.
    set_meta(&mut b, &vec![1], Change::Rating(4));
    assert_eq!(b.thumbs[0].name, "b.CR3");
    assert_eq!(b.thumbs[0].rating, 4, "the file's own row");
    assert_eq!(b.thumbs[1].rating, 0, "and not its neighbour's");
    assert!(
        (2..4).all(|r| b.thumbs[r].rating == 0),
        "and nobody else's"
    );

    // A label on the last file shown, which is file 4 at row 3.
    set_meta(&mut b, &vec![4], Change::Label(Label::Red));
    assert_eq!(b.thumbs[3].name, "e.CR3");
    assert_eq!(b.thumbs[3].label, Label::Red.code());
    assert!(
        (0..3).all(|r| b.thumbs[r].label == 0),
        "the label went to one row"
    );
    // And the star set a moment ago is still where it was put.
    assert_eq!(b.thumbs[0].rating, 4);
}

#[test]
fn the_badges_read_the_meta() {
    let meta = Meta {
        rating: 200,
        flag: Flag::Reject,
        label: Label::Purple,
    };
    // A rating past the range does not draw two hundred stars.
    let thumb = thumb_for("IMG_0001.CR3", &meta);
    assert_eq!(thumb.name, "IMG_0001.CR3");
    assert_eq!(thumb.rating, 5);
    assert_eq!(thumb.flag, 2);
    assert_eq!(thumb.label, 5);
    let bare = thumb_for("a.CR3", &plain());
    assert_eq!((bare.rating, bare.flag, bare.label), (0, 0, 0));
    assert_eq!(Flag::Pick.code(), 1);
    assert_eq!(Label::Red.code(), 1);
    assert_eq!(Label::Blue.code(), 4);
}

/// The shape a turn maps masks by is the frame's own, and a frame whose
/// develop has not landed has no shape on the panel to borrow.
#[test]
fn a_frame_without_its_own_develop_does_not_borrow_the_last_ones_shape() {
    let aspect = |m: &Measures| frame_aspect(m).map(|(w, h)| w as f32 / h as f32);
    let mut m = Measures {
        own: None,
        file: None,
        preview: None,
        thumb: None,
        turn: 0,
    };
    // Nothing developed yet, and nothing else to measure by.
    m.own = own_size(Some(0), false, (0, 0), 0);
    assert_eq!(aspect(&m), None);
    // The first frame's develop lands: landscape.
    m.own = own_size(Some(0), false, (6000, 4000), 0);
    assert_eq!(aspect(&m), Some(1.5));
    // The selection moves: the size is forgotten, and the second frame
    // has no shape of its own to be had, so nothing is claimed.
    m.own = own_size(Some(1), false, (0, 0), 1);
    assert_eq!(
        aspect(&m),
        None,
        "the last frame's shape is not this one's"
    );
    // Its thumbnail arrives, portrait: that is what answers, and the
    // frame's own turn goes on top of it.
    m.thumb = Some((400, 600));
    assert_eq!(aspect(&m), Some(400.0 / 600.0));
    m.turn = 1;
    assert_eq!(aspect(&m), Some(600.0 / 400.0));
    // Another frame's develop is nobody else's measure.
    assert_eq!(own_size(Some(0), false, (6000, 4000), 1), None);
    assert_eq!(own_size(Some(0), true, (6000, 4000), 0), None);
}

#[test]
fn a_frame_rated_but_never_developed_still_gets_its_iso_blend() {
    let files = vec![
        (false, SidecarRead::Held { never_developed: true }),
        (false, SidecarRead::Held { never_developed: false }),
        (false, SidecarRead::Missing),
        (true, SidecarRead::Held { never_developed: false }),
    ];
    let seed: Vec<bool> = load_sidecars(&files, true).iter().map(|l| l.seed).collect();
    assert_eq!(seed, vec![true, false, true, false]);
    // With sidecars off nothing is read and nothing is seeded.
    let off = load_sidecars(&files, false);
    assert_eq!(off.iter().map(|l| l.seed).collect::<Vec<_>>(), vec![false; 4]);
    // A broken sidecar is no sidecar.
    let broken = load_sidecars(&vec![(true, SidecarRead::Broken)], true);
    assert!(matches!(broken[0].start, Start::Picture));
    assert!(!broken[0].seed);
}

#[test]
fn a_filter_hides_a_frame_from_the_set_and_hands_the_selection_on() {
    let mut b = folder(&["a", "b", "c", "d"]);
    b.current = Some(1);
    b.selected = 1;
    b.picked = vec![1, 2, 3];
    b.metas[1].flag = Flag::Reject;
    b.metas[3].flag = Flag::Reject;
    let passes = no_rejects(&b);
    let next = rebuild_browser(&mut b, &passes, &vec![UP; 4]);
    assert_eq!(b.shown, vec![0, 2]);
    // The frame on screen stays until the one it gives way to opens.
    assert_eq!(b.picked, vec![1, 2]);
    // The nearest row shown: the one that took its place.
    assert_eq!(next, Some(1));
    assert_eq!(row_of(&b.shown, 2), Some(1));
    assert_eq!(row_of(&b.shown, 1), None);
    assert_eq!(file_on_row(&b.shown, 1), Some(2));
    assert_eq!(file_on_row(&b.shown, -1), None);
    assert_eq!(reject_count(&b.metas), 2);
    // Nothing passes: it is said.
    rebuild_browser(&mut b, &vec![false; 4], &vec![UP; 4]);
    assert!(say_if_empty(&b));
}

#[test]
fn a_change_under_a_filter_is_followed() {
    let mut b = folder(&["a", "b", "c"]);
    b.current = Some(0);
    let stands = vec![UP; 3];
    assert!(matches!(
        meta_followed(&mut b, &vec![0], false, &vec![true; 3], &stands, false),
        Followed::Nothing
    ));
    assert!(matches!(
        meta_followed(&mut b, &vec![0], true, &vec![true; 3], &stands, false),
        Followed::Counts
    ));
    let f = meta_followed(
        &mut b,
        &vec![0],
        true,
        &vec![false, true, true],
        &stands,
        false,
    );
    match f {
        Followed::Rows { open, again } => {
            assert_eq!(open, Some(0));
            assert_eq!(again, None);
        }
        other => panic!("{other:?}"),
    }
    assert_eq!(b.shown, vec![1, 2]);
}

#[test]
fn a_second_press_takes_the_label_off() {
    let mut metas = vec![plain(); 2];
    let frames = vec![0, 1];
    let first = settle(&metas, &frames, Change::Label(Label::Green));
    assert_eq!(first, Change::Label(Label::Green));
    for m in metas.iter_mut() {
        m.set(first);
    }
    let second = settle(&metas, &frames, Change::Label(Label::Green));
    assert_eq!(second, Change::Label(Label::Plain));
}

#[test]
fn a_turn_plans_the_frames_and_says_which_way() {
    assert_eq!(turn_words(1), "a quarter turn to the right of its tag");
    assert_eq!(turn_words(-1), "a quarter turn to the left of its tag");
    assert_eq!(turn_words(2), "a half turn from its tag");
    assert_eq!(turn_words(4), "as its tag says");
    let plan = turn_plan(&vec![0, 2, 9], 3, Some(2), false, 1);
    let got: Vec<(usize, bool)> = plan.iter().map(|t| (t.file, t.panel)).collect();
    assert_eq!(got, vec![(0, false), (2, true)]);
    assert!(turn_plan(&vec![0], 3, None, false, 4).is_empty());
    assert_eq!(turned_size((6000, 4000), -1), (4000, 6000));
    assert_eq!(turned_size((6000, 4000), 2), (6000, 4000));
    let side = Stand {
        turns: 1,
        flip: false,
    };
    assert_eq!(thumb_turns(Some(1), false, 1, side, UP), side);
    assert_eq!(thumb_turns(Some(1), true, 1, side, UP), UP);
    assert!(matches!(
        migrate_frame(true, Some((400, 600))),
        Migration::Now { upright: true }
    ));
    assert!(matches!(migrate_frame(true, None), Migration::Waits));
    assert!(matches!(migrate_frame(false, None), Migration::Settled));
}

#[test]
fn the_arrows_stop_at_either_end() {
    let mut b = folder(&["a", "b", "c"]);
    b.current = Some(1);
    b.selected = 1;
    let l = step(&b, 1).unwrap();
    assert_eq!((l.row, l.moves), (2, true));
    let l = step(&b, 5).unwrap();
    assert_eq!((l.row, l.moves), (2, true));
    b.current = Some(2);
    b.selected = 2;
    let l = step(&b, 1).unwrap();
    assert_eq!((l.row, l.moves), (2, false));
    assert!(matches!(step_to(false, false), Arrow::Collapses));
    assert!(matches!(step_to(true, true), Arrow::Extends));
    assert!(matches!(step_to(true, false), Arrow::Opens));
    assert!(matches!(step_to(false, true), Arrow::Rests));
    assert_eq!(grid_step(2, -1), None);
    assert_eq!(grid_step(2, 2), Some(false));
    assert_eq!(grid_step(2, 3), Some(true));
    assert_eq!(time_select(0, Some(0), 3), None);
    assert_eq!(time_select(2, Some(2), 3), None);
    assert_eq!(time_select(2, Some(1), 3), Some(1));
}

#[test]
fn a_click_opens_or_chooses() {
    let mut b = folder(&["a", "b", "c"]);
    b.current = Some(0);
    assert!(frame_clicked(&mut b, Click::Open(1)));
    assert!(!frame_clicked(&mut b, Click::Chosen(vec![1, 2])));
    assert_eq!(b.picked, vec![0, 1, 2]);
    assert_eq!(b.set_count, 3);
    assert!(b.thumbs.iter().all(|t| t.chosen));
    // The frame already on screen: the set collapses to it.
    assert!(!frame_clicked(&mut b, Click::Open(0)));
    assert_eq!(chosen_frames(&b.picked, b.current), vec![0]);
    assert_eq!(meta_key(&b, Some(Change::Rating(1))), Some(vec![0]));
    assert_eq!(meta_key(&b, None), None);
}

#[test]
fn a_picture_is_made_again_once() {
    let shown = vec![0, 1, 2, 3];
    let made = vec![100, 100, 0, 400];
    let small = vec![true, true, false, false];
    let mut asked = vec![0, 400, 0, 0];
    let mut want = 100;
    let r = grid_range(&shown, &made, &mut asked, &small, &mut want, 400, 0, 9);
    assert!(r.resize);
    assert_eq!(want, 400);
    assert_eq!(r.again, vec![0]);
    assert_eq!(asked, vec![400, 400, 0, 0]);
    assert_eq!((r.first, r.last), (0, 3));
    let r = grid_range(&shown, &made, &mut asked, &small, &mut want, 400, 0, 9);
    assert!(!r.resize && r.again.is_empty());
    assert!(!grid_filled_rows(true, &shown, &made, &small, Some((0, 3))));
    assert!(grid_filled_rows(true, &shown, &made, &small, Some((3, 3))));
    assert!(grid_filled_rows(false, &shown, &made, &small, None));
    assert_eq!(strip_range(&shown, 1, 2), Some((1, 2)));
    assert_eq!(strip_range(&shown, 1, 4), None);
}

#[test]
fn a_thumbnail_lands_on_its_row() {
    let mut b = folder(&["a", "b"]);
    b.pictured[1] = true;
    let side = Stand {
        turns: 3,
        flip: true,
    };
    show_thumb(&mut b, 1, side);
    assert_eq!(b.thumbs[1].picture, Some(side));
    assert_eq!(b.stood[1], Some(side));
    assert!(b.thumbs[0].picture.is_none());
}

#[test]
fn a_folder_says_why_it_does_not_open() {
    assert_eq!(open_folder("/d", Some(3), 2), Ok(2));
    assert_eq!(open_folder("/d", Some(0), 0), Err("no pictures in /d".into()));
    assert_eq!(open_folder("/d", None, 0), Err("/d: not a folder".into()));
    assert_eq!(open_paths(0, None), Err("nothing to open".into()));
    assert_eq!(open_paths(0, Some("why")), Err("why".into()));
    assert_eq!(open_paths(2, Some("why")), Ok(0));
    assert_eq!(chosen_said(Chosen::Canceled), Some("open folder canceled"));
    assert_eq!(
        chosen_said(Chosen::Failed),
        Some("the desktop offered no file chooser")
    );
    assert_eq!(chosen_said(Chosen::Folder), None);
}

#[test]
fn a_set_is_kept_in_order() {
    let mut v = vec![1, 4, 7];
    put(&mut v, 5);
    put(&mut v, 4);
    assert_eq!(v, vec![1, 4, 5, 7]);
    assert_eq!(find(&v, 6), 3);
    assert!(has(&v, 7) && !has(&v, 6));
    assert_eq!(prune(&v, &vec![4, 7, 9]), vec![4, 7]);
    assert_eq!(nearest_row(&vec![2, 5], 3), Some(1));
    assert_eq!(nearest_row(&vec![2, 5], 9), Some(1));
    assert_eq!(nearest_row(&vec![], 0), None);
    let mut names = vec!["a", "b", "c", "d"];
    take_out(&mut names, &vec![1, 3]);
    assert_eq!(names, vec!["a", "c"]);
    assert_eq!(renumber(&vec![1, 3], 2), Some(1));
    assert_eq!(renumber(&vec![1, 3], 3), None);
}

#[test]
fn a_stance_is_read_once() {
    let files = vec!["a.CR3".to_string(), "b.CR3".to_string()];
    let mut kept: Vec<(String, u8)> = Vec::new();
    assert!(matches!(stance(&files, &kept, 2, '/'), Standing::Gone));
    assert!(matches!(stance(&files, &kept, 0, '/'), Standing::Read));
    // A file that would not say is asked again.
    assert_eq!(stance_read(&mut kept, files[0].clone(), None), None);
    assert!(matches!(stance(&files, &kept, 0, '/'), Standing::Read));
    assert_eq!(stance_read(&mut kept, files[0].clone(), Some(6)), Some(6));
    assert!(matches!(stance(&files, &kept, 0, '/'), Standing::Known(6)));
    assert!(matches!(stance(&files, &kept, 1, '/'), Standing::Read));
    stance_read(&mut kept, "./b.CR3".into(), Some(9));
    assert!(matches!(stance(&files, &kept, 1, '/'), Standing::Read), "another path");
    stance_read(&mut kept, files[1].clone(), Some(1));
    assert!(matches!(stance(&files, &kept, 0, '/'), Standing::Known(6)));
}
