use greycard_ui::panel::export::{
    batch_format, chosen_preset, copy_sheet, export, export_path, export_to, find, mark_check,
    preset_chosen, preset_deleted, preset_name, preset_saved, read_sheet, save_as, show_edited,
    show_presets_picker, show_sheet, Answer, ExportPreset, Exports, Mark, Sheet, SheetWindow,
    Where, NO_PRESET,
};

fn plain() -> Sheet<f32> {
    Sheet {
        format: "JPEG".into(),
        quality: 90.0,
        size: "Full".into(),
        custom: String::new(),
        space: "sRGB".into(),
        embed: true,
        sharpen: "Off".into(),
        on_exists: "Ask".into(),
        metadata: "All".into(),
        mark: "Off".into(),
        mark_text: String::new(),
        mark_image: String::new(),
        mark_color: String::new(),
        mark_position: "Bottom right".into(),
        mark_size: 10.0,
        mark_margin: 2.0,
        mark_opacity: 50.0,
    }
}

fn window() -> SheetWindow<f32> {
    SheetWindow {
        sheet: plain(),
        mark_image_name: String::new(),
        presets: Vec::new(),
        preset: String::new(),
        edited: false,
        open: false,
        status: String::new(),
    }
}

/// Whether two sheets write the same file.
fn same(a: &Sheet<f32>, b: &Sheet<f32>) -> bool {
    format!("{a:?}") == format!("{b:?}")
}

/// Of each preset, whether it writes the file the sheet does.
fn sames(w: &SheetWindow<f32>, presets: &Vec<ExportPreset<f32>>) -> Vec<bool> {
    presets.iter().map(|p| same(&p.sheet, &w.sheet)).collect()
}

/// Any choice on the sheet: is it still the preset?
fn changed(w: &mut SheetWindow<f32>, presets: &Vec<ExportPreset<f32>>) {
    let s = sames(w, presets);
    show_edited(w, presets, &s);
}

#[test]
fn the_sheet_picks_saves_marks_and_deletes_presets() {
    let mut w = window();
    let web = Sheet {
        size: "2048".into(),
        quality: 85.0,
        mark: "Text".into(),
        mark_text: "© me".into(),
        ..plain()
    };
    let mut presets = vec![ExportPreset {
        name: "Web".into(),
        sheet: copy_sheet(&web),
    }];
    let s = sames(&w, &presets);
    show_presets_picker(&mut w, &presets, None, &s);
    assert_eq!(w.preset, NO_PRESET);
    assert_eq!(w.presets.len(), 2);
    assert!(!w.edited);

    // Chosen: the sheet is the preset's, and not edited.
    preset_chosen(&mut w, &presets, "Web", "", &vec![true]);
    assert_eq!(w.preset, "Web");
    assert!(same(&read_sheet(&w), &web));
    assert!(!w.edited);
    assert_eq!(w.status, "export preset Web");
    // A field moved: edited; moved back: not.
    w.sheet.mark_position = "Top left".into();
    changed(&mut w, &presets);
    assert!(w.edited);
    w.sheet.mark_position = web.mark_position.clone();
    changed(&mut w, &presets);
    assert!(!w.edited);

    // Saved as a new name: a second preset, chosen, not edited.
    w.sheet.quality = 70.0;
    changed(&mut w, &presets);
    assert!(w.edited);
    let name = preset_name(" Small ").unwrap();
    assert!(find(&presets, &name).is_none());
    presets.push(ExportPreset {
        name: name.clone(),
        sheet: read_sheet(&w),
    });
    let s = sames(&w, &presets);
    preset_saved(&mut w, &presets, &name, &s);
    assert_eq!(w.preset, "Small");
    assert!(!w.edited);
    assert_eq!(presets.len(), 2);
    assert_eq!(presets[1].sheet.quality, 70.0);
    assert_eq!(w.status, "export preset Small saved");
    // "None" is the picker's, not a name, in any case.
    assert!(preset_name(NO_PRESET).is_err());
    assert_eq!(
        preset_name("none"),
        Err("None is the picker's; choose another name".into())
    );
    assert!(preset_name("  ").is_err());

    // Deleted: gone, nothing chosen, the sheet as it was.
    assert!(preset_deleted(&mut w, &mut presets, &vec![false]));
    assert_eq!(presets.len(), 1);
    assert_eq!(w.preset, NO_PRESET);
    assert_eq!(w.sheet.quality, 70.0);
    assert_eq!(w.status, "export preset Small deleted");
    assert_eq!(chosen_preset(&w), None);
    assert!(!preset_deleted(&mut w, &mut presets, &vec![]));
    assert_eq!(presets.len(), 1);
}

#[test]
fn a_sheet_shown_reads_back() {
    let mut w = window();
    let s = Sheet {
        format: "PNG".into(),
        mark_image: "/m/mark.png".into(),
        ..plain()
    };
    show_sheet(&mut w, &s, "mark.png");
    assert!(same(&read_sheet(&w), &s));
    assert_eq!(w.mark_image_name, "mark.png");
    // A name is found in any case, and nothing else is.
    let presets = vec![
        ExportPreset {
            name: "Web 2048".into(),
            sheet: plain(),
        },
        ExportPreset {
            name: "web 2048".into(),
            sheet: plain(),
        },
    ];
    assert_eq!(find(&presets, "WEB 2048"), Some(0));
    assert_eq!(find(&presets, "WEB"), None);
}

#[test]
fn an_empty_mark_keeps_the_sheet_up_and_says_why() {
    let mut w = window();
    w.open = false;
    let e = export(&mut w, Some(0), &Mark::Image("".into()));
    assert!(matches!(e, Exports::Refused));
    assert!(w.open);
    assert!(w.status.contains("no PNG"), "{}", w.status);

    w.open = false;
    export(&mut w, Some(0), &Mark::Text("  ".into()));
    assert!(w.open);
    assert!(w.status.contains("text is empty"), "{}", w.status);

    // A mark with something to draw, or none: where to is asked.
    w.open = false;
    let e = export(&mut w, Some(0), &Mark::Text("me".into()));
    assert!(matches!(e, Exports::Chooses));
    assert!(!w.open);
    assert_eq!(w.status, "choosing where to export...");
    assert!(mark_check(&Mark::Off).is_ok());
    assert!(matches!(export(&mut w, None, &Mark::Off), Exports::Nothing));
}

#[test]
fn an_export_goes_where_it_was_sent() {
    assert_eq!(
        export_path("/d/", Some("IMG_1"), "jpg"),
        "/d/IMG_1.greycard.jpg"
    );
    assert_eq!(export_path("", None, "png"), "export.greycard.png");
    let (to, said) = export_to(Answer::Path("/x/a.jpg".into()), "a.jpg", "/d/", None, "jpg");
    assert!(matches!(to, Where::Chosen(p) if p == "/x/a.jpg"));
    assert_eq!(said, "exporting a.jpg...");
    let (to, said) = export_to(Answer::Canceled, "", "/d/", None, "jpg");
    assert!(matches!(to, Where::Canceled));
    assert_eq!(said, "export canceled");
    let (to, said) = export_to(Answer::Failed, "", "/d/", Some("a"), "jpg");
    assert!(matches!(to, Where::Beside(p) if p == "/d/a.greycard.jpg"));
    assert_eq!(said, "exporting a.greycard.jpg...");
    assert_eq!(batch_format(Some(1), 2), 1);
    assert_eq!(batch_format(None, 2), 2);
}

#[test]
fn a_preset_saved_is_found() {
    let mut presets: Vec<ExportPreset<f32>> = Vec::new();
    assert!(!save_as(&mut presets, "", &plain()));
    assert!(!save_as(&mut presets, "none", &plain()), "the picker's word");
    assert!(save_as(&mut presets, "Web", &plain()));
    assert!(save_as(&mut presets, "Print", &plain()));
    let small = Sheet {
        size: "2048".into(),
        ..plain()
    };
    assert!(save_as(&mut presets, "WEB", &small), "over the one of that name");
    assert_eq!(presets.len(), 2);
    let i = find(&presets, "web").unwrap();
    assert_eq!(presets[i].name, "WEB");
    assert_eq!(presets[i].sheet.size, "2048");
    let p = find(&presets, "Print").unwrap();
    assert_eq!(presets[p].sheet.size, "Full");
}
