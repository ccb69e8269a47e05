use greycard_ui::panel::export::{ExportPreset, Sheet, SheetWindow};
use greycard_ui::panel::launch::{
    also_rows, display_at_start, display_key, first_row, keep, keep_presets, monitors_at_start, proof_at_start,
    remember, Choices, FirstRow, Named, Settings,
};
use greycard_ui::panel::prefs::Placement;
use greycard_ui::panel::startup::{
    begin, check_also, export_folder, filter_word, monitor_note, monitor_settings, no_pictures,
    opening,
    opening_scope, opening_sheet, preset_at_start, quarters_of, remember_last_file, size_text,
    sync_rows, Begin, Filtering, Flags, Monitor, Profile, Remembered, Table, Target,
};

#[test]
fn size_text_reads_as_a_camera_is_named() {
    assert_eq!(size_text(6000, 4000), "6000 \u{d7} 4000 \u{b7} 24 MP");
    assert_eq!(size_text(8192, 5464), "8192 \u{d7} 5464 \u{b7} 45 MP");
    assert_eq!(size_text(3000, 2000), "3000 \u{d7} 2000 \u{b7} 6.0 MP");
    assert_eq!(size_text(1, 1), "1 \u{d7} 1 \u{b7} 0.0 MP");
}

/// The megapixels below ten are the nearest tenth of the double nearest
/// to them, halves with them.
#[test]
fn the_megapixels_round_as_their_double_does() {
    for half in 0..100u32 {
        // An odd number of twentieths: halfway between two tenths.
        let (w, h) = ((2 * half + 1) * 50, 1000);
        let mp = w as f64 * h as f64 / 1e6;
        let want = format!("{w} \u{d7} {h} \u{b7} {mp:.1} MP");
        assert_eq!(size_text(w, h), want);
    }
    for w in [1u32, 99, 3000, 3161, 3162, 4096, 9999] {
        let mp = w as f64 * w as f64 / 1e6;
        let mp = if mp < 10.0 {
            format!("{mp:.1}")
        } else {
            format!("{}", mp.round() as u64)
        };
        assert_eq!(size_text(w, w), format!("{w} \u{d7} {w} \u{b7} {mp} MP"));
    }
}

/// A set with an export is into a folder, or an error, never a quiet
/// export of one frame.
#[test]
fn also_with_export_names_a_set_or_says_why_not() {
    // A file to write: one frame, so a set is an error.
    let file = Target {
        is_dir: false,
        ends_open: false,
        exists: false,
        names_format: true,
    };
    assert!(!export_folder(file, true));
    let e = check_also(Some("out.jpg"), &vec![1], false, 3).unwrap_err();
    assert!(e.contains("one frame's file"), "{e}");
    // A path that is not there and names no format: a folder with
    // a set, and the file it always was without.
    let new = Target {
        names_format: false,
        ..file
    };
    assert!(export_folder(new, true));
    assert!(!export_folder(new, false));
    // A row the folder has not got: an error naming it.
    let e = check_also(Some("out/"), &vec![0, 1, 2], true, 1).unwrap_err();
    assert!(e.starts_with("--also 1: there is 1 frame"), "{e}");
    assert!(check_also(Some("out/"), &vec![0, 1, 2], true, 3).is_ok());
    // Without an export, the rows are the snapshot's and not checked.
    assert!(check_also(None, &vec![5], false, 1).is_ok());
    // A folder that is there, and a path that asks for one.
    assert!(export_folder(Target { is_dir: true, ..file }, false));
    assert!(export_folder(Target { ends_open: true, ..file }, false));
}

fn sheet(size: &str) -> Sheet<u32> {
    Sheet {
        format: "JPEG".into(),
        quality: 90,
        size: size.into(),
        custom: String::new(),
        space: "sRGB".into(),
        embed: true,
        sharpen: "Off".into(),
        on_exists: "Ask".into(),
        metadata: "All".into(),
        mark: "Off".into(),
        mark_text: String::new(),
        mark_image: String::new(),
        mark_color: String::new(),
        mark_position: "Bottom right".into(),
        mark_size: 10,
        mark_margin: 2,
        mark_opacity: 50,
    }
}

#[test]
fn export_preset_fills_the_sheet_for_a_batch_run() {
    let presets = vec![
        ExportPreset {
            name: "Web 2048".into(),
            sheet: Sheet {
                mark: "Image".into(),
                mark_position: "Top left".into(),
                ..sheet("2048")
            },
        },
        ExportPreset {
            name: "Print".into(),
            sheet: sheet("Full"),
        },
    ];
    let left = sheet("Full");
    let open = |named: Option<&str>, edge: Option<u32>, exists: Option<&str>| {
        opening_sheet(named, &presets, &left, "Print", edge, "Custom", exists)
    };
    let (s, preset) = open(Some("web 2048"), None, None).unwrap();
    assert_eq!(preset.as_deref(), Some("Web 2048"));
    assert_eq!(s.size, "2048");
    assert_eq!(s.mark_position, "Top left");
    // A flag's size still wins over the preset's.
    let (s, _) = open(Some("Web 2048"), Some(800), Some("Overwrite")).unwrap();
    assert_eq!((s.size.as_str(), s.custom.as_str()), ("Custom", "800"));
    assert_eq!(s.on_exists, "Overwrite");
    assert_eq!(s.mark, "Image");
    // Without the flag: the sheet as left, and the preset last on.
    let (s, preset) = open(None, None, None).unwrap();
    assert_eq!(s.size, left.size);
    assert_eq!(preset.as_deref(), Some("Print"));
    // A name the settings do not have is an error that lists them.
    let err = open(Some("Nope"), None, None).unwrap_err();
    assert!(
        err.contains("Nope") && err.contains("Web 2048, Print"),
        "{err}"
    );
    let (_, none) = opening_sheet(None, &presets, &left, "", None, "Custom", None).unwrap();
    assert_eq!(none, None);
}

#[test]
fn a_preset_at_start_is_written_with_its_name() {
    let mut seed = false;
    let l = preset_at_start(true, &mut seed, false, false, true, false);
    assert!(l.recorded && !l.written, "no sidecars: none written");
    let l = preset_at_start(true, &mut seed, false, false, true, true);
    assert!(l.recorded && l.written, "the step was written");
    // Again: on already, so no step and no write.
    let l = preset_at_start(false, &mut seed, false, true, true, true);
    assert!(!l.recorded && !l.written);
    // A file that will not say its ISO keeps waiting for its
    // blend rather than being given one made up.
    let mut waiting = true;
    preset_at_start(true, &mut waiting, false, false, true, false);
    assert!(waiting);
    let l = preset_at_start(true, &mut waiting, false, true, true, false);
    assert!(l.seeded && !waiting);
}

#[test]
fn rows_are_written_only_where_they_differ() {
    let mut model = vec![1, 2, 3, 4];
    let written = sync_rows(&mut model, vec![1, 5, 3]);
    assert_eq!(model, vec![1, 5, 3]);
    assert_eq!(written, vec![1]);
    let written = sync_rows(&mut model, vec![1, 5, 3, 7]);
    assert_eq!(model, vec![1, 5, 3, 7]);
    assert_eq!(written, vec![3]);
}

#[test]
fn a_flag_says_more_than_the_settings() {
    let flags = Flags {
        snapshot: false,
        screenshot: false,
        export: false,
        no_sidecars: false,
        xmp_sidecars: false,
        sidecar_folder: false,
        cull: false,
        cull_compare: None,
        time_cull: false,
        cull_develop: false,
        ask_rejects: false,
        move_rejects: true,
        show_mask: Some(2),
        patch: Some(0),
        turn: Some(-4),
    };
    let remembered = Remembered {
        xmp_sidecars: true,
        sidecars_in_folder: true,
    };
    let o = opening(&flags, &remembered);
    assert!(!o.batch && o.write_sidecars && o.xmp_sidecars);
    assert_eq!(o.placement, Placement::Folder);
    assert_eq!(o.cull_at_start, Some(1));
    assert!(o.ask_rejects);
    assert_eq!((o.show_mask, o.show_patch), (Some(1), None));
    assert_eq!(o.turn_at_start, None);
    assert_eq!(quarters_of(-1), 3);
    assert_eq!(opening_scope(None, Some(2), 0), 2);
    assert_eq!(opening_scope(Some(1), Some(2), 0), 1);
    assert!(matches!(begin(Some(true), 0, 0), Begin::NoPictures));
    assert!(matches!(begin(Some(false), 1, 3), Begin::At(0)));
    assert!(matches!(begin(None, 5, 3), Begin::At(3)));
    assert!(matches!(begin(None, 0, 0), Begin::Choose));
    assert!(matches!(filter_word(true, false, true), Filtering::Mistyped));
    assert!(matches!(filter_word(true, false, false), Filtering::Typed));
    assert!(remember_last_file(false, false, Some("/a"), "/b"));
    assert!(!remember_last_file(false, false, Some("/a"), "/a"));
    assert!(!remember_last_file(true, false, Some("/a"), "/b"));
}

#[test]
fn the_monitor_s_profile_is_the_named_one_or_the_first() {
    let monitors = vec![
        Monitor {
            model: "bare".into(),
            profile: None,
        },
        Monitor {
            model: "one".into(),
            profile: Some("/1.icc".into()),
        },
        Monitor {
            model: "two".into(),
            profile: Some("/2.icc".into()),
        },
    ];
    let standards = vec!["sRGB".to_string(), "Display P3".to_string()];
    let (p, from) = monitor_settings("System", "two", &monitors, "", None, &standards);
    assert!(matches!(p, Profile::File(f) if f == "/2.icc"));
    assert_eq!(from, "two's profile from colord");
    let (p, _) = monitor_settings("System", "bare", &monitors, "", None, &standards);
    assert!(matches!(p, Profile::File(f) if f == "/1.icc"));
    let (p, from) = monitor_settings("System", "x", &Vec::new(), "", None, &standards);
    assert!(matches!(p, Profile::Srgb));
    assert_eq!(from, "colord knows no display profile");
    let (p, from) = monitor_settings("File", "", &monitors, "/d/a.icc", Some("a.icc"), &standards);
    assert!(matches!(p, Profile::File(f) if f == "/d/a.icc"));
    assert_eq!(from, "a.icc");
    let (_, from) = monitor_settings("File", "", &monitors, "", None, &standards);
    assert_eq!(from, "No profile chosen");
    let (p, _) = monitor_settings("Display P3", "", &monitors, "", None, &standards);
    assert!(matches!(p, Profile::Standard(1)));
    let (_, from) = monitor_settings("Nope", "", &monitors, "", None, &standards);
    assert_eq!(from, "sRGB");
    assert_eq!(
        monitor_note("two", &Table::Built("3".into())),
        "two: up to 3 of 255 from sRGB"
    );
    assert_eq!(
        monitor_note("two", &Table::Failed),
        "two: cannot be read; nothing changed on the way to the screen"
    );
    let o = monitors_at_start(&monitors, "two");
    assert_eq!(o.known, vec!["one".to_string(), "two".to_string()]);
    assert_eq!(o.picked, "two");
    assert_eq!(monitors_at_start(&monitors, "bare").picked, "one");
    assert_eq!(monitors_at_start(&Vec::new(), "two").picked, "");
}

#[test]
fn a_profile_s_key_picks_it_on_the_panel() {
    let p = proof_at_start(Named::File("/p.icc".into()), "sRGB");
    assert_eq!((p.choice.as_str(), p.file.as_str()), ("File", "/p.icc"));
    let p = proof_at_start(Named::Nothing, "sRGB");
    assert_eq!((p.choice.as_str(), p.file.as_str()), ("sRGB", ""));
    assert_eq!(display_key(true, "srgb", Some("/a"), "b"), "srgb");
    assert_eq!(display_key(false, "srgb", Some("/a"), "b"), "/a");
    assert_eq!(display_key(false, "srgb", None, "b"), "b");
    let p = display_at_start("System", Named::Space("x".into()));
    assert_eq!(p.choice, "System");
    let p = display_at_start("x", Named::Nothing);
    assert_eq!(p.choice, "System");
    let p = display_at_start("p3", Named::Space("Display P3".into()));
    assert_eq!(p.choice, "Display P3");
}

#[test]
fn a_run_starts_on_the_row_of_its_file() {
    let shown = vec![1, 4];
    assert!(matches!(first_row(&shown, Some(4), false, true), FirstRow::Select(1)));
    assert!(matches!(first_row(&shown, Some(2), false, true), FirstRow::Select(1)));
    assert!(matches!(first_row(&shown, Some(4), true, true), FirstRow::Nothing));
    assert!(matches!(
        first_row(&Vec::new(), Some(4), false, true),
        FirstRow::NothingShown { fails: true }
    ));
    assert!(matches!(first_row(&shown, None, false, true), FirstRow::Nothing));
    let (clicked, said) = also_rows(&vec![5, 0, 1, 7], 2);
    assert_eq!(clicked, vec![0, 1]);
    assert_eq!(said, vec![5, 7]);
}

#[test]
fn the_settings_keep_what_the_panel_does_not_own() {
    let choices = Choices {
        scope: "Parade".into(),
        curve_mode: String::new(),
        warn_shadows: true,
        warn_highlights: false,
        proof_profile: None,
        proof_intent: "Relative".into(),
        gamut_warning: false,
        display_profile: "System".into(),
        display_monitor: "one".into(),
        canvas_color: "Gray".into(),
        grid_cell: 176,
    };
    let w = SheetWindow {
        sheet: sheet("2048"),
        mark_image_name: String::new(),
        presets: Vec::new(),
        preset: "None".into(),
        edited: false,
        open: false,
        status: String::new(),
    };
    let folds = vec![false; greycard_ui::panel::edit::fold_names().len()];
    let s = remember(&choices, &w, &folds);
    assert_eq!(s.export_preset, "");
    assert_eq!(s.scope, "Parade");
    assert_eq!(s.export.size, "2048");
    assert!(s.collapsed.is_empty());
    let kept = Settings {
        last_file: "/a.CR3".into(),
        xmp_sidecars: true,
        sidecars_in_folder: true,
        lenses_declined: true,
        thumb_cache_mb: 512,
        ..remember(&choices, &w, &folds)
    };
    let left = keep(false, s, Vec::new(), &kept).unwrap();
    assert_eq!(left.last_file, "/a.CR3");
    assert!(left.xmp_sidecars && left.sidecars_in_folder && left.lenses_declined);
    assert_eq!(left.thumb_cache_mb, 512);
    assert_eq!(left.scope, "Parade");
    let s = remember(&choices, &w, &folds);
    assert!(keep(true, s, Vec::new(), &kept).is_none());
    // A preset kept at once, and the rest of the file left as it is.
    let web = ExportPreset {
        name: "Web".to_string(),
        sheet: sheet("2048"),
    };
    let picked = SheetWindow {
        preset: "Web".into(),
        ..w
    };
    let loaded = Settings {
        scope: "Waveform".into(),
        ..kept
    };
    let now = keep_presets(true, loaded, vec![web], &picked).unwrap();
    assert_eq!(now.export_presets.len(), 1);
    assert_eq!(now.export_preset, "Web");
    assert_eq!(now.export.size, "2048");
    assert_eq!(now.scope, "Waveform");
    assert_eq!(now.thumb_cache_mb, 512);
    assert!(keep_presets(false, now, Vec::new(), &picked).is_none());
}

#[test]
fn a_path_with_no_pictures_is_named() {
    assert!(matches!(begin(Some(true), 0, 0), Begin::NoPictures));
    assert_eq!(no_pictures("/shoot"), "no RAW files at /shoot");
}
