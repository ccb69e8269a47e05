use greycard_ui::naming::{Day, Fields};
use greycard_ui::panel::import::{
    ask, backup_cleared, browsed_folder, check, choices, chooser_answered, chooser_title, close_asked, close_waited,
    finish_said, finished, folder_chosen, folders_looked, found, frames, header_rests, look,
    named_preset, note_text, options, preview, progress, scanned, start, start_when_read, stop, tilde, waits_on, which_of,
    Answer, Asked, Chosen, Ended, Found, Item, Kept, Looked, Places, Read, Scan, Sheet, Shown, Started,
    Wait, Which, CLOSE_WAIT,
};

fn fields() -> Fields {
    Fields {
        day: Day {
            year: 2026,
            month: 9,
            day: 24,
        },
        name: "IMG_0001".into(),
        camera: "Canon EOS R6".into(),
        seq: 1,
    }
}

fn scan_of(names: &[&str]) -> Scan {
    Scan {
        items: names
            .iter()
            .map(|n| Item {
                name: n.to_string(),
                extension: n.rsplit('.').next().unwrap().to_string(),
                companions: 0,
            })
            .collect(),
        left: 0,
    }
}

fn places() -> Places {
    Places {
        home: Some("/home/me".into()),
        separator: '/',
    }
}

fn sheet() -> Sheet {
    Sheet {
        source: None,
        destination: None,
        backup: None,
        scan: None,
        first: None,
        generation: 0,
        filled: false,
        running: false,
        canceled: false,
        destination_there: None,
        backup_there: None,
        same_drive: false,
        folders_generation: 0,
        in_hand: String::new(),
        closing: false,
        gave_up: false,
        folder_at_start: None,
    }
}

fn shown() -> Shown {
    Shown {
        source: String::new(),
        destination: String::new(),
        backup: String::new(),
        folders_note: String::new(),
        count: 0,
        note: String::new(),
        preview: String::new(),
        ready: false,
        subfolder: String::new(),
        name: "{name}".into(),
        preset: String::new(),
        presets: Vec::new(),
        open: false,
        running: false,
        stopping: false,
        status: String::new(),
        import_status: String::new(),
    }
}

fn kept() -> Kept {
    Kept {
        destination: String::new(),
        subfolder: String::new(),
        name: "{name}".into(),
        backup: String::new(),
        preset: String::new(),
    }
}

#[test]
fn the_preview_names_the_first_frame_s_path_or_why_not() {
    let scan = Some(scan_of(&["IMG_0001.CR3"]));
    let dest = Some("photos".to_string());
    let first = Some(fields());
    let (text, ready) = preview(
        true,
        &dest,
        "{yyyy}/{date}",
        "{camera}-{seq}",
        &scan,
        &first,
        &places(),
    );
    assert!(ready);
    assert_eq!(
        text,
        "IMG_0001.CR3 becomes photos/2026/2026-09-24/Canon EOS R6-0001.CR3"
    );
    // No destination yet: the name, and not ready.
    let (text, ready) = preview(true, &None, "", "{name}", &scan, &first, &places());
    assert!(!ready);
    assert_eq!(text, "IMG_0001.CR3 becomes IMG_0001.CR3");
    // A pattern that is not one says so.
    let (text, ready) = preview(true, &dest, "", "{lens}", &scan, &first, &places());
    assert!(!ready);
    assert!(text.starts_with("Not a pattern: {lens}"), "{text}");
    // Nothing read yet: nothing to say.
    assert_eq!(
        preview(true, &dest, "", "{name}", &None, &None, &places()),
        (String::new(), false)
    );
}

#[test]
fn the_note_counts_frames_companions_and_what_is_left() {
    let mut scan = scan_of(&["a.CR3", "b.JPG"]);
    assert_eq!(note_text(&scan), "2 frames");
    scan.items[0].companions = 1;
    scan.left = 1;
    assert_eq!(
        note_text(&scan),
        "2 frames, 3 files with the JPEGs and XMPs that go with their raws; \
         1 left on the card (videos, and files the editor does not open)"
    );
    assert_eq!(
        note_text(&scan_of(&[])),
        "no frames here the editor opens"
    );
    assert_eq!(scan.files(), 3);
    assert_eq!(frames(1), "1 frame");
}

/// The sheet opens with nothing open, the remembered patterns on it and
/// the presets offered; a card found fills the source, and a source
/// picked by hand first is not replaced.
#[test]
fn the_sheet_opens_on_the_key_and_takes_a_card_found() {
    let (mut st, mut w, p) = (sheet(), shown(), places());
    let presets = vec!["Warm".to_string()];
    let a = ask(&mut st, &p, &mut w, &kept(), &None, &presets);
    assert!(matches!(a, Asked::Searches { .. }));
    assert!(w.open);
    assert_eq!(w.presets.len(), 2);
    assert_eq!(w.preset, "None");
    assert!(!w.ready);

    // The search's answer, as its thread would post it.
    let card = "/media/EOS_DIGITAL/DCIM".to_string();
    let f = found(&mut st, &p, &mut w, Some(card.clone()));
    assert!(matches!(f, Found::Reads(_)));
    assert_eq!(st.source.as_deref(), Some(card.as_str()));
    let generation = st.generation;
    // And the reading's, with a frame and a destination: ready.
    st.destination = Some("/photos".into());
    scanned(
        &mut st,
        &p,
        &mut w,
        generation,
        Read::Holds(scan_of(&["IMG_0001.CR3"]), Some(fields())),
    );
    // Not until the destination has been looked at and is there.
    assert!(!w.ready);
    let folders = st.folders_generation;
    let there = Looked {
        destination: Some(true),
        backup: None,
        same_drive: false,
    };
    folders_looked(&mut st, &p, &mut w, folders, there);
    assert!(w.ready);
    assert_eq!(w.count, 1);
    assert_eq!(w.note, "1 frame");
    // An older reading that answers late says nothing.
    scanned(
        &mut st,
        &p,
        &mut w,
        generation - 1,
        Read::Holds(scan_of(&[]), None),
    );
    assert_eq!(w.count, 1);
    // A card found after one was chosen by hand is not taken.
    let f = found(&mut st, &p, &mut w, Some("/media/other".into()));
    assert!(matches!(f, Found::Ignored));
    assert_eq!(st.source.as_deref(), Some(card.as_str()));
}

/// A remembered folder that is not there (a backup drive not plugged in)
/// is said so and not made; and a backup on the destination's drive is
/// warned of.
#[test]
fn a_folder_that_is_not_there_is_said_and_refused() {
    let (mut st, mut w, p) = (sheet(), shown(), places());
    let looked = look(Some(true), Some(false), false);
    assert_eq!(
        (looked.destination, looked.backup),
        (Some(true), Some(false))
    );
    st.source = Some("/card".into());
    st.destination = Some("/photos".into());
    st.backup = Some("/mnt/backup".into());
    st.scan = Some(scan_of(&["IMG_0001.CR3"]));
    st.first = Some(fields());
    let generation = st.folders_generation;
    folders_looked(&mut st, &p, &mut w, generation, looked);
    assert!(!w.ready);
    assert!(
        w.folders_note.contains("backup folder is not there"),
        "{}",
        w.folders_note
    );
    // Cleared, it is ready; the same drive is warned of.
    st.backup = Some("/backup".into());
    let generation = st.folders_generation;
    let looked = look(Some(true), Some(true), true);
    folders_looked(&mut st, &p, &mut w, generation, looked);
    assert!(w.ready);
    assert!(w.folders_note.contains("same drive"));
}

/// A close while an import runs keeps the window up saying what it waits
/// on; and the wait after the event loop has ended gives up after its
/// limit rather than outliving the window.
#[test]
fn a_close_waits_for_the_frame_in_hand_but_not_forever() {
    let (mut st, mut w) = (sheet(), shown());
    assert!(!close_asked(&mut st, &mut w), "nothing running");
    st.running = true;
    st.in_hand = "IMG_0042.CR3".into();
    assert!(close_asked(&mut st, &mut w));
    assert!(st.canceled);
    assert!(st.closing);
    assert!(
        w.status.contains("finishing IMG_0042.CR3"),
        "{}",
        w.status
    );
    assert!(waits_on(false, false, 99, 100));
    assert!(!waits_on(false, false, 100, 100));
    // One that finishes in time is joined.
    assert!(!waits_on(false, true, 0, 5000));
    // The window gives up at last, and then waits no more.
    assert!(close_waited(&mut st));
    assert!(st.gave_up);
    assert!(!waits_on(st.gave_up, false, 0, CLOSE_WAIT));
}

#[test]
fn an_import_runs_and_says_where_the_frames_are() {
    let (mut st, mut w, p) = (sheet(), shown(), places());
    assert!(matches!(start(&mut st, &mut w, None, None), Started::Nothing));
    st.source = Some("/card".into());
    st.destination = Some("/photos".into());
    st.scan = Some(scan_of(&["a.CR3", "b.CR3"]));
    let s = start(&mut st, &mut w, Some("on the card".into()), None);
    assert!(matches!(s, Started::Refused));
    assert_eq!(w.preview, "on the card");
    let s = start(&mut st, &mut w, None, Some("/old".into()));
    assert!(matches!(s, Started::Running));
    assert_eq!(w.status, "importing 2 frames...");
    progress(&mut st, &mut w, "a.CR3".into(), "1 of 2");
    assert_eq!(w.import_status, "1 of 2");
    stop(&mut st, &mut w);
    assert!(st.canceled && w.stopping);
    // Went elsewhere meanwhile: told, and not taken away.
    let (e, line) = finished(
        &mut st,
        &mut w,
        &p,
        &Some("/elsewhere".into()),
        2,
        &Some("/home/me/photos".into()),
        "imported 2",
    );
    assert!(matches!(e, Ended::Say));
    assert_eq!(line, "imported 2; open ~/photos to see them");
    finish_said(&st, &p, &mut w, &line);
    header_rests(&mut w, &line);
    assert_eq!(w.import_status, "");
    assert_eq!(w.status, line);
    // Still there, however it is spelled: the folder opens.
    let at = Some("/old/./".to_string());
    let (e, _) = finished(&mut st, &mut w, &p, &at, 2, &Some("/p".into()), "x");
    assert!(matches!(e, Ended::Open));
    let (e, _) = finished(&mut st, &mut w, &p, &Some("/old".into()), 2, &Some("/p".into()), "x");
    assert!(matches!(e, Ended::Open));
    st.closing = true;
    let (e, _) = finished(&mut st, &mut w, &p, &Some("/old".into()), 2, &Some("/p".into()), "x");
    assert!(matches!(e, Ended::Quit));
}

#[test]
fn the_folders_are_chosen_shown_and_kept() {
    let (mut st, mut w, p) = (sheet(), shown(), places());
    assert_eq!(tilde("/home/me/a", &p), "~/a");
    assert_eq!(tilde("/home/me", &p), "/home/me");
    assert_eq!(tilde("/home/mean", &p), "/home/mean");
    // A path goes by its parts.
    assert_eq!(tilde("/home//me/a", &p), "~/a");
    assert_eq!(tilde("/home/me/a/", &p), "~/a");
    assert_eq!(tilde("/home/./me/./a/./", &p), "~/a");
    assert_eq!(tilde("/home/me/a//b", &p), "~/a//b");
    assert_eq!(tilde("/home/me/", &p), "/home/me/");
    assert_eq!(tilde("home/me/a", &p), "home/me/a");
    assert_eq!(which_of("source"), Which::Source);
    assert_eq!(chooser_title(Which::Backup), "Back up to");
    let c = folder_chosen(&mut st, &p, &mut w, Which::Destination, "/home/me/p".into());
    assert!(matches!(c, Chosen::Looks(1)));
    assert_eq!(w.destination, "~/p");
    let c = folder_chosen(&mut st, &p, &mut w, Which::Source, "/card".into());
    assert!(matches!(c, Chosen::Reads(1)));
    folder_chosen(&mut st, &p, &mut w, Which::Backup, "/b".into());
    backup_cleared(&mut st, &p, &mut w);
    assert_eq!(st.backup, None);
    w.preset = "Warm".into();
    let k = choices(&st, &w, &vec!["Warm".into()]);
    assert_eq!(k.destination, "/home/me/p");
    assert_eq!(k.preset, "Warm");
    assert_eq!(
        browsed_folder(&vec![Some("/a".into()), Some("/a".into())]),
        Some("/a".into())
    );
    assert!(matches!(start_when_read(true, 3), Wait::Press));
    assert!(matches!(start_when_read(false, 0), Wait::GiveUp));
}

#[test]
fn the_sheet_makes_its_options() {
    let mut st = sheet();
    let mut w = shown();
    let presets = vec!["Warm".to_string(), "Muted".to_string()];
    let none = options(&st, &w, &presets, None, true, Some(false));
    assert!(none.is_none(), "no source");
    st.source = Some("/card".into());
    assert!(options(&st, &w, &presets, None, true, None).is_none());
    st.destination = Some("/photos".into());
    st.backup = Some("/backup".into());
    w.preset = "Muted".into();
    w.subfolder = "{year}".into();
    let o = options(&st, &w, &presets, Some("/index".into()), true, Some(false)).unwrap();
    assert_eq!((o.source.as_str(), o.destination.as_str()), ("/card", "/photos"));
    assert_eq!((o.subfolder.as_str(), o.name.as_str()), ("{year}", "{name}"));
    assert_eq!(o.preset, Some(1));
    assert_eq!(o.backup.as_deref(), Some("/backup"));
    assert_eq!(o.library.as_deref(), Some("/index"));
    assert!(o.verify);
    assert_eq!(o.placement, Some(false));
    w.preset = "None".into();
    let o = options(&st, &w, &presets, None, false, None).unwrap();
    assert_eq!(o.preset, None);
    assert_eq!(o.placement, None);
}

#[test]
fn a_preset_that_is_not_there_stops_an_import_with_no_window() {
    assert_eq!(named_preset(None, None), Ok(None));
    assert_eq!(named_preset(Some("Warm"), Some(2)), Ok(Some(2)));
    assert_eq!(
        named_preset(Some("Warm"), None),
        Err("no preset called Warm".to_string())
    );
}

/// Asked before anything is made: nothing goes onto the card.
#[test]
fn the_command_line_refuses_the_card_before_it_makes_a_folder() {
    let source = "/dir/card2/EOS_DIGITAL/DCIM";
    let refused = |to: &str, backup: Option<&str>| check(source, to, backup, '/').unwrap_err();
    let e = refused("/dir/card2/EOS_DIGITAL/DCIM/out", None);
    assert!(e.contains("is on the card"), "{e}");
    let e = refused("/dir/card2/EOS_DIGITAL/Imported", None);
    assert_eq!(e, "/dir/card2/EOS_DIGITAL/Imported is on the card");
    let e = refused("/dir/photos", Some("/dir/card2/EOS_DIGITAL/backup"));
    assert!(e.contains("backup"), "{e}");
    assert_eq!(check(source, "/dir/photos", Some("/dir/backup"), '/'), Ok(()));
    assert_eq!(check(source, "/dir/card2/EOS_DIGITAL2", None, '/'), Ok(()));
    assert!(check("/card", "/card/out", None, '/').is_err());
    assert_eq!(check("/card", "/photos", None, '/'), Ok(()));
    assert!(check("/DCIM", "/photos", None, '/').is_err(), "the root is the card");
}

#[test]
fn a_chooser_that_gives_no_folder_changes_none() {
    let (mut st, mut w, p) = (sheet(), shown(), places());
    let (before, note) = (st.destination.clone(), w.note.clone());
    assert!(chooser_answered(&mut st, &p, &mut w, Which::Source, Answer::Nothing).is_none());
    assert_eq!(w.note, note);
    assert!(chooser_answered(&mut st, &p, &mut w, Which::Destination, Answer::Refused).is_none());
    assert_eq!(w.note, "the desktop offered no folder chooser");
    assert_eq!(st.destination, before);
    let a = Answer::Folder("/home/me/q".into());
    let c = chooser_answered(&mut st, &p, &mut w, Which::Destination, a);
    assert!(matches!(c, Some(Chosen::Looks(1))));
    assert_eq!(w.destination, "~/q");
}
