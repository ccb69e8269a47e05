use greycard_ui::panel::browser::{
    chosen_frames, new_folder, set_collapsed, set_meta, Browser,
};
use greycard_ui::panel::menu::{
    menu_asked, menu_change, menu_filled, reveal_command, reveal_failed, revealed, shared, Desktop,
};
use greycard_ui::panel::meta::{Change, Flag, Label, Meta};

fn plain() -> Meta {
    Meta {
        rating: 0,
        flag: Flag::Unflagged,
        label: Label::Plain,
    }
}

/// A folder of `n` frames, all shown, opened on `current`.
fn folder(n: usize, current: usize) -> Browser {
    let mut b = Browser {
        paths: Vec::new(),
        separator: '/',
        names: Vec::new(),
        metas: Vec::new(),
        pictured: Vec::new(),
        stood: Vec::new(),
        shown: Vec::new(),
        current: None,
        picked: Vec::new(),
        menu_file: None,
        thumbs: Vec::new(),
        selected: -1,
        set_count: 1,
        reject_count: 0,
    };
    let names = (0..n).map(|i| format!("IMG_{i:04}.CR3")).collect();
    new_folder(&mut b, names, vec![plain(); n], &vec![true; n], 0);
    b.current = Some(current);
    b
}

/// What a culling key asks for.
fn from_key(key: &str) -> Change {
    match key {
        "p" => Change::Flag(Flag::Pick),
        "x" => Change::Flag(Flag::Reject),
        "u" => Change::Flag(Flag::Unflagged),
        "6" => Change::Label(Label::Red),
        "7" => Change::Label(Label::Yellow),
        "8" => Change::Label(Label::Green),
        "9" => Change::Label(Label::Blue),
        n => Change::Rating(n.parse().unwrap()),
    }
}

#[test]
fn a_menu_item_is_the_change_its_key_makes() {
    for key in ["0", "3", "5", "p", "x", "u", "6", "7", "8", "9"] {
        let want = from_key(key);
        let got = match want {
            Change::Rating(n) => menu_change("rating", i32::from(n)),
            Change::Flag(f) => menu_change("flag", f.code()),
            Change::Label(l) => menu_change("label", l.code()),
        };
        assert_eq!(got, Some(want), "{key}");
    }
    // The menu reaches what no key does: purple, and no label.
    assert_eq!(menu_change("label", 5), Some(Change::Label(Label::Purple)));
    assert_eq!(menu_change("label", 0), Some(Change::Label(Label::Plain)));
    assert_eq!(menu_change("rating", 6), None);
    assert_eq!(menu_change("rating", -1), None);
    assert_eq!(menu_change("flag", 3), None);
    assert_eq!(menu_change("turn", 1), None);
}

#[test]
fn the_ticks_are_what_the_whole_selection_shares() {
    assert_eq!(shared(&vec![3, 3, 3]), 3);
    assert_eq!(shared(&vec![3, 2]), -1);
    assert_eq!(shared(&vec![0]), 0);
    assert_eq!(shared(&vec![]), -1);
}

#[test]
fn a_right_click_outside_the_set_opens_the_frame_and_inside_keeps_the_set() {
    let mut b = folder(6, 1);
    b.picked = vec![1, 3];
    b.metas[1].rating = 4;
    b.metas[3].rating = 4;
    b.metas[3].label = Label::Red;
    // Inside the set, on a frame that is not the current one: the
    // set stands, the frame on screen with it, and the menu is
    // about both.
    let a = menu_asked(&b, 3).unwrap();
    assert!(!a.open);
    assert_eq!(b.current, Some(1));
    assert_eq!(chosen_frames(&b.picked, b.current), vec![1, 3]);
    let m = menu_filled(&mut b, a.file);
    assert_eq!(b.menu_file, Some(3));
    assert_eq!(m.count, 2);
    assert_eq!(m.rating, 4);
    assert_eq!(m.flag, 0);
    assert_eq!(m.label, -1);
    // A rating from the menu reaches the whole set, as the key.
    let frames = chosen_frames(&b.picked, b.current);
    set_meta(&mut b, &frames, menu_change("rating", 2).unwrap());
    let ratings: Vec<u8> = b.metas.iter().map(|m| m.rating).collect();
    assert_eq!(ratings, [0, 2, 0, 2, 0, 0]);
    // Outside it: that frame opened, alone.
    let a = menu_asked(&b, 4).unwrap();
    assert!(a.open);
    b.current = Some(a.file);
    set_collapsed(&mut b);
    assert_eq!(chosen_frames(&b.picked, b.current), vec![4]);
    let m = menu_filled(&mut b, a.file);
    assert_eq!(m.count, 1);
    assert_eq!(m.rating, 0);
    let frames = chosen_frames(&b.picked, b.current);
    set_meta(&mut b, &frames, menu_change("flag", 1).unwrap());
    set_meta(&mut b, &frames, menu_change("label", 5).unwrap());
    assert_eq!(b.metas[4].flag, Flag::Pick);
    assert_eq!(b.metas[4].label, Label::Purple);
    assert_eq!(b.metas[3].flag, Flag::Unflagged);
}

#[test]
fn the_viewport_menu_is_the_frame_on_screen_and_its_set() {
    let mut b = folder(4, 2);
    b.picked = vec![0, 2];
    let a = menu_asked(&b, -1).unwrap();
    assert_eq!((a.file, a.open), (2, false));
    let m = menu_filled(&mut b, a.file);
    assert_eq!(b.current, Some(2));
    assert_eq!(chosen_frames(&b.picked, b.current), vec![0, 2]);
    assert_eq!(b.menu_file, Some(2));
    assert_eq!(m.count, 2);
}

#[test]
fn reveal_shows_the_menu_s_file_while_the_folder_has_it() {
    let mut b = folder(3, 1);
    assert_eq!(revealed(&b), Some(1));
    b.menu_file = Some(2);
    assert_eq!(revealed(&b), Some(2));
    b.menu_file = Some(9);
    assert_eq!(revealed(&b), None);
    assert_eq!(
        reveal_failed("a.CR3", "no xdg-open"),
        "could not show a.CR3: no xdg-open"
    );
    // Past the rows there is nothing to ask about.
    assert!(menu_asked(&b, 3).is_none());
}

#[test]
fn reveal_opens_the_folder() {
    let path = "/shoot/day one/IMG_0001.CR3";
    let cmd = reveal_command(Desktop::Other, path, Some("/shoot/day one"));
    assert_eq!(cmd.program, "xdg-open");
    assert_eq!(cmd.args, ["/shoot/day one"]);
    assert_eq!(reveal_command(Desktop::Other, "/", None).args, ["."]);
}

#[test]
fn reveal_chooses_the_file_in_the_finder() {
    let path = "/shoot/day one/IMG_0001.CR3";
    let cmd = reveal_command(Desktop::Mac, path, Some("/shoot/day one"));
    assert_eq!(cmd.program, "open");
    assert_eq!(cmd.args, ["-R", "/shoot/day one/IMG_0001.CR3"]);
}

#[test]
fn reveal_chooses_the_file_in_explorer() {
    let cmd = reveal_command(Desktop::Windows, r"C:\shoot\IMG_0001.CR3", None);
    assert_eq!(cmd.program, "explorer");
    assert_eq!(cmd.args, ["/select,\"C:\\shoot\\IMG_0001.CR3\""]);
}
