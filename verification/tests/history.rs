use greycard_ui::panel::history::{
    date_of, history_clicked, history_hovered, peek, show_history, snapshot_deleted,
    snapshot_hovered, snapshot_name, snapshot_renamed, snapshot_restored, snapshot_said, state_at_row, step_back_or_on, stepped,
    After, Before, Click, History, Listed, Peek, Recorded, Said,
};
use greycard_ui::panel::prefs::{
    misplaced, move_sidecars, moved_words, placement_changed, placement_name, placement_named,
    settings_asked, settle, show_elsewhere, sidecars_elsewhere, sidecars_move, xmp_changed, Found,
    Kept, Moved, Placement, Prefs, Settled,
};

#[test]
fn a_moment_reads_as_a_date() {
    assert_eq!(date_of(0), "1970-01-01 00:00 UTC");
    assert_eq!(date_of(951_782_400), "2000-02-29 00:00 UTC");
    assert_eq!(date_of(1_789_000_000), "2026-09-10 00:26 UTC");
}

#[test]
fn a_later_moment_is_written_later() {
    let moments = [0, 59, 60, 86_399, 86_400, 951_782_400, 1_789_000_000, 253_402_300_799];
    for pair in moments.windows(2) {
        let (a, b) = (date_of(pair[0]), date_of(pair[1]));
        if pair[0] / 60 == pair[1] / 60 {
            assert_eq!(a, b);
        } else {
            assert!(a < b, "{a} is not before {b}");
        }
    }
}

fn listed() -> Listed {
    let row = |words: Option<&str>, untouched: bool| Recorded {
        words: words.map(|s| s.to_string()),
        untouched,
    };
    Listed {
        can_undo: true,
        can_redo: false,
        states: vec![row(None, true), row(Some("Exposure"), false)],
        position: 1,
        snapshots: vec!["Snapshot 1".into()],
    }
}

#[test]
fn the_rows_are_newest_first_and_the_current_one_is_current() {
    let mut h = History {
        can_undo: false,
        can_redo: true,
        names: Vec::new(),
        current: -1,
        snapshots: Vec::new(),
    };
    let mut l = listed();
    show_history(Some(&l), &mut h);
    assert_eq!(h.names, vec!["Exposure".to_string(), "Original".to_string()]);
    assert_eq!(h.current, 0);
    assert!(h.can_undo && !h.can_redo);
    assert_eq!(state_at_row(h.current, 2), Some(1));
    l.position = 0;
    l.states[0].untouched = false;
    show_history(Some(&l), &mut h);
    assert_eq!(h.current, 1);
    assert_eq!(h.names[1], "Earliest kept");
    assert_eq!(state_at_row(1, 2), Some(0));
    assert_eq!(state_at_row(2, 2), None);
    show_history(None, &mut h);
    assert!(h.names.is_empty() && h.snapshots.is_empty());
    assert_eq!(h.current, -1);
}

#[test]
fn a_hover_leaves_no_trace() {
    let mut p = Peek {
        peek: None,
        status_kept: None,
        view_kept: None,
        view: 7,
        status: "ready".to_string(),
    };
    peek(&mut p, Some(1), "Exposure", &vec!["mask".into(), "grain".into()]);
    assert_eq!(p.status, "Exposure; the mask and grain shown once restored");
    p.view = 9;
    peek(&mut p, Some(2), "Original", &Vec::new());
    assert_eq!(p.status, "Original");
    for row in 3..6 {
        peek(&mut p, Some(row), "Grain", &Vec::new());
        p.view = row;
    }
    peek(&mut p, None, "", &Vec::new());
    assert_eq!((p.peek, p.view, p.status.as_str()), (None, 7, "ready"));
}

#[test]
fn a_step_is_taken_where_there_is_one() {
    assert!(matches!(step_back_or_on(None, false), Before::Nothing));
    assert!(matches!(stepped(false, true), After::TakeCurrent));
    assert!(matches!(stepped(true, true), After::LeaveCulling));
    assert!(matches!(stepped(true, false), After::Nothing));
    // A click lets the words kept from before the hover go, unless there
    // is no such row.
    let mut kept = Some("ready".to_string());
    assert_eq!(history_clicked(&mut kept, 3, 3, false, false, 0), None);
    assert_eq!(history_clicked(&mut kept, -1, 3, false, false, 0), None);
    assert_eq!(kept.as_deref(), Some("ready"));
    let c = history_clicked(&mut kept, 1, 3, false, false, 0);
    assert_eq!((c, kept.take()), (Some((1, Click::GoTo)), None));
    let c = history_clicked(&mut kept, 0, 3, false, true, 1);
    assert_eq!(c, Some((2, Click::Record)), "an undone row follows as a step");
    let c = history_clicked(&mut kept, 0, 3, true, true, 1);
    assert_eq!(c, Some((2, Click::GoTo)), "in culling the sidecar goes on its own");
}

#[test]
fn the_words_of_the_history() {
    assert!(history_hovered(1, 1, "Exposure").contains("Exposure"));
    assert!(snapshot_hovered("One", "2026").contains("One"));
    assert_eq!(snapshot_name(1), "Snapshot 2");
    for said in [Said::Taken, Said::Restored, Said::Current, Said::Removed] {
        assert!(snapshot_said("One", said).contains("One"));
    }
    assert_eq!(snapshot_said("One", Said::Removed), "One removed");
    let mut names = vec!["One".to_string()];
    assert!(!snapshot_renamed(&mut names, 1, "Two"));
    assert!(snapshot_renamed(&mut names, 0, "Two"));
    assert_eq!(names, vec!["Two".to_string()]);
}

#[test]
fn the_rows_words_name_the_places() {
    for p in [Placement::Beside, Placement::Folder] {
        assert_eq!(placement_named(placement_name(p)), p);
    }
    assert_eq!(placement_named("anything"), Placement::Beside);
}

/// Four frames: two with a sidecar beside, one under the hidden
/// folder, one with none.
fn shoot() -> Vec<Found> {
    let at = |read| Found { read, stale: false };
    vec![
        at(Some(Placement::Beside)),
        at(Some(Placement::Beside)),
        at(Some(Placement::Folder)),
        at(None),
    ]
}

fn none_failed(n: usize) -> Vec<Option<String>> {
    vec![None; n]
}

#[test]
fn the_move_puts_a_folders_sidecars_in_the_chosen_place() {
    let mut files = shoot();
    assert_eq!(sidecars_elsewhere(&files, Placement::Folder), 2);
    assert_eq!(sidecars_elsewhere(&files, Placement::Beside), 1);

    let moved = move_sidecars(&mut files, Placement::Folder, &none_failed(4));
    assert_eq!(
        moved,
        Moved {
            moved: 2,
            dropped: 0,
            failed: Vec::new()
        }
    );
    assert_eq!(sidecars_elsewhere(&files, Placement::Folder), 0);
    for f in &files[..3] {
        assert_eq!(f.read, Some(Placement::Folder));
        assert!(!misplaced(*f, Placement::Folder));
    }
    assert!(files[3].read.is_none(), "none made");
    assert_eq!(
        moved_words(&moved, Placement::Folder),
        "Moved 2 sidecars into the hidden folder."
    );

    // A second move finds nothing to do; and back beside, all three.
    assert_eq!(
        move_sidecars(&mut files, Placement::Folder, &none_failed(4)).moved,
        0
    );
    assert_eq!(
        move_sidecars(&mut files, Placement::Beside, &none_failed(4)).moved,
        3
    );
    assert_eq!(sidecars_elsewhere(&files, Placement::Beside), 0);
}

#[test]
fn a_stale_copy_removed_is_not_counted_as_moved() {
    // One under the folder only; one beside, with an older copy under
    // the folder too.
    let mut files = vec![
        Found {
            read: Some(Placement::Folder),
            stale: false,
        },
        Found {
            read: Some(Placement::Beside),
            stale: true,
        },
    ];
    assert_eq!(settle(files[1], Placement::Beside), Settled::Dropped);
    let moved = move_sidecars(&mut files, Placement::Beside, &none_failed(2));
    assert_eq!((moved.moved, moved.dropped), (1, 1));
    assert_eq!(
        moved_words(&moved, Placement::Beside),
        "Moved 1 sidecar beside their raws. Removed 1 older copy left in the other place."
    );
    assert_eq!(files[0].read, Some(Placement::Beside));
    assert!(!files[1].stale);
}

#[test]
fn one_that_fails_is_said_and_the_rest_go_on() {
    let mut files = shoot();
    let errors = vec![Some("full".to_string()), None, None, None];
    let moved = move_sidecars(&mut files, Placement::Folder, &errors);
    assert_eq!(moved.moved, 1);
    assert_eq!(moved.failed, vec![(0, "full".to_string())]);
    assert_eq!(
        moved_words(&moved, Placement::Folder),
        "Moved 1 sidecar into the hidden folder. 1 could not be moved; the log says why."
    );
    assert_eq!(sidecars_elsewhere(&files, Placement::Folder), 1);
}

fn prefs() -> Prefs {
    Prefs {
        placement: String::new(),
        xmp_sidecars: false,
        note: String::new(),
        open_frames: 0,
        elsewhere: 0,
        sidecars_written: true,
        open: false,
    }
}

#[test]
fn the_sheet_opens_counts_and_moves() {
    let mut files = shoot();
    let mut w = prefs();
    let mut st = Kept {
        placement: Placement::Beside,
        xmp_sidecars: false,
        write_sidecars: true,
        batch: false,
    };
    // It opens with the place and the count as they are.
    settings_asked(&st, &files, &mut w);
    assert!(w.open);
    assert_eq!(w.placement, "Beside the raw");
    assert_eq!((w.open_frames, w.elsewhere), (4, 1));

    // Flipping the place moves nothing: only the count changes.
    w.placement = "Hidden folder".into();
    let keep = placement_changed(&mut st, &files, &mut w);
    assert_eq!(keep, Some(Placement::Folder));
    assert_eq!(st.placement, Placement::Folder);
    assert_eq!(w.elsewhere, 2);
    assert_eq!(files[0].read, Some(Placement::Beside));

    // The move, confirmed: done, reported, and the count is none.
    assert!(sidecars_move(&st, &mut files, &none_failed(4), &mut w).is_some());
    assert_eq!(w.elsewhere, 0);
    assert_eq!(w.note, "Moved 2 sidecars into the hidden folder.");
    assert_eq!(files[0].read, Some(Placement::Folder));

    assert_eq!(xmp_changed(&mut st, true), Some(true));
    assert!(st.xmp_sidecars);
    // A batch run leaves the user's settings alone.
    st.batch = true;
    assert_eq!(xmp_changed(&mut st, false), None);
    assert_eq!(placement_changed(&mut st, &files, &mut w), None);
    show_elsewhere(&st, &Vec::new(), &mut w);
    assert_eq!((w.open_frames, w.elsewhere), (0, 0));
}

#[test]
fn no_sidecars_moves_nothing() {
    let mut files = shoot();
    let mut w = prefs();
    let st = Kept {
        placement: Placement::Folder,
        xmp_sidecars: false,
        write_sidecars: false,
        batch: false,
    };
    settings_asked(&st, &files, &mut w);
    assert!(!w.sidecars_written, "the sheet is told");
    assert!(sidecars_move(&st, &mut files, &none_failed(4), &mut w).is_none());
    assert_eq!(files[0].read, Some(Placement::Beside));
    assert_eq!(w.elsewhere, 2);
}

#[test]
fn a_snapshot_goes_by_its_row() {
    let mut names = vec!["Snapshot 1".to_string(), "Print".to_string()];
    let mut kept = Some("ready".to_string());
    assert!(snapshot_restored(&mut kept, 2, 5, true, true).is_none());
    assert_eq!(kept.as_deref(), Some("ready"));
    let r = snapshot_restored(&mut kept, 2, 1, false, true).unwrap();
    assert_eq!((r.after, r.said), (After::TakeCurrent, Some(Said::Restored)));
    assert_eq!(kept, None);
    let r = snapshot_restored(&mut kept, 2, 1, true, true).unwrap();
    assert_eq!((r.after, r.said), (After::LeaveCulling, Some(Said::Restored)));
    let r = snapshot_restored(&mut kept, 2, 0, false, false).unwrap();
    assert_eq!((r.after, r.said), (After::Nothing, Some(Said::Current)));
    assert_eq!(snapshot_restored(&mut kept, 2, 0, true, false).unwrap().said, None);
    assert!(snapshot_restored(&mut kept, 2, 2, false, true).is_none());
    assert!(snapshot_restored(&mut kept, 2, -1, false, true).is_none());
    let mut p = Peek {
        peek: None,
        status_kept: None,
        view_kept: None,
        view: 7,
        status: "ready".to_string(),
    };
    peek(&mut p, Some(1), "Print", &Vec::new());
    p.view = 9;
    assert_eq!(snapshot_deleted(&mut p, &mut names, -1), None);
    assert_eq!(snapshot_deleted(&mut p, &mut names, 2), None);
    assert_eq!((p.peek, p.status.as_str()), (Some(1), "Print"));
    assert_eq!(snapshot_deleted(&mut p, &mut names, 0).as_deref(), Some("Snapshot 1"));
    assert_eq!(names, ["Print"]);
    assert_eq!((p.peek, p.view, p.status.as_str()), (None, 7, "Snapshot 1 removed"));
    // What a click said outlasts the hover it ended.
    peek(&mut p, Some(2), "Print", &Vec::new());
    snapshot_restored(&mut p.status_kept, 1, 0, false, true);
    p.status = "Print restored".into();
    peek(&mut p, None, "", &Vec::new());
    assert_eq!(p.status, "Print restored");
}
