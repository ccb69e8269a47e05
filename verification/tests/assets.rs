use greycard_ui::panel::assets::{
    fetch_answered, fetch_lenses, host_of, import_preset, looks_note, mb, model_note, offer_lenses,
    offer_lenses_once, offer_lenses_unprompted, offer_model, preset_applied, preset_saved, presets_missing_words,
    refresh_presets, removed_said, restored_said, saved_said, sections_offered, show_lens,
    show_profiles, About, Answered, Fetch, FetchSheet, Imported, LensReport, Offers, Presets,
    ProfileEntry, Saving, Source, LENSES_WHY,
};
use greycard_ui::panel::learned::Model;

fn offers() -> Offers {
    Offers {
        fetch: None,
        fetching: false,
        declined: Vec::new(),
        lenses_declined: false,
        lenses_asked: false,
        batch: false,
    }
}

fn sheet() -> FetchSheet {
    FetchSheet {
        open: false,
        title: String::new(),
        text: String::new(),
        note: String::new(),
    }
}

fn source() -> Source {
    Source {
        bytes: 1_234_567,
        url: "https://example.org/a/b".into(),
        license: "CC BY-SA 3.0".into(),
        license_url: "https://license.example".into(),
        root: Some("/cache".into()),
    }
}

fn names(n: &[&str]) -> Vec<String> {
    n.iter().map(|s| s.to_string()).collect()
}

#[test]
fn the_lens_profiles_are_offered_once_and_only_without_them() {
    // Every combination: only no database, never declined and
    // not asked yet this launch offers.
    for database in [false, true] {
        for declined in [false, true] {
            for asked in [false, true] {
                assert_eq!(
                    offer_lenses_unprompted(database, declined, asked),
                    !database && !declined && !asked,
                    "database {database}, declined {declined}, asked {asked}"
                );
            }
        }
    }
}

#[test]
fn the_first_launch_offer_opens_the_sheet_once() {
    let (mut st, mut w, s) = (offers(), sheet(), source());
    // Something else on screen: not now, and not spent either.
    assert!(!offer_lenses_once(&mut st, &mut w, &s, true));
    assert!(!w.open, "not under the settings");
    assert!(!st.lenses_declined, "Escape closed the settings only");
    assert!(!st.lenses_asked);

    assert!(offer_lenses_once(&mut st, &mut w, &s, false));
    assert!(w.open, "offered");
    assert_eq!(st.fetch, Some(Fetch::Lenses));
    assert!(w.text.starts_with(LENSES_WHY));

    // Not now: remembered, and the next picture asks nothing.
    let mut status = String::new();
    fetch_answered(&mut st, &mut w, false, &mut status);
    assert!(!w.open);
    assert!(st.lenses_declined);
    assert!(!offer_lenses_once(&mut st, &mut w, &s, false));
    assert!(!w.open, "asked once");

    // A launch that was never declined still asks only once.
    st.lenses_declined = false;
    st.lenses_asked = true;
    assert!(!offer_lenses_once(&mut st, &mut w, &s, false));
    assert!(!w.open, "once a launch");

    // The LENS section's own button is not the offer, and asks
    // whatever was answered before.
    assert!(fetch_lenses(&mut st, &mut w, &s));
    assert!(w.open);
    assert!(!w.text.contains(LENSES_WHY));
}

#[test]
fn a_batch_run_is_never_offered_the_lens_profiles() {
    let (mut st, mut w) = (offers(), sheet());
    st.batch = true;
    offer_lenses_once(&mut st, &mut w, &source(), false);
    assert!(!w.open);
}

#[test]
fn the_missing_presets_are_named() {
    assert_eq!(
        presets_missing_words(true, &names(&[])),
        "Every default preset is in the list."
    );
    assert_eq!(
        presets_missing_words(true, &names(&["Muted Slide"])),
        "Muted Slide is not in the list."
    );
    assert_eq!(
        presets_missing_words(true, &names(&["A", "B", "C"])),
        "A, B and C are not in the list."
    );
    assert!(presets_missing_words(false, &names(&[])).starts_with("No configuration"));
}

#[test]
fn a_preset_is_removed_only_when_confirmed_and_restored_on_asking() {
    let mut w = Presets {
        names: Vec::new(),
        confirm_remove: -1,
        missing: -1,
        missing_words: String::new(),
    };
    refresh_presets(&mut w, names(&["Muted Slide", "Warm"]), true, &names(&[]));
    assert_eq!(w.missing, 0);
    assert_eq!(w.names.len(), 2);
    // The question is dropped by a list shown again.
    w.confirm_remove = 0;
    refresh_presets(&mut w, names(&["Muted Slide", "Warm"]), true, &names(&[]));
    assert_eq!(w.confirm_remove, -1);
    // So it is by a preset laid over the edit instead.
    w.confirm_remove = 0;
    assert_eq!(preset_applied(&mut w, 1), Some(1));
    assert_eq!(w.confirm_remove, -1);
    assert_eq!(preset_applied(&mut w, 2), None);
    assert_eq!(preset_applied(&mut w, -1), None);
    assert_eq!(
        removed_said("Muted Slide", &names(&["muted slide"]), None),
        "Muted Slide removed; Settings can restore the default one"
    );
    refresh_presets(&mut w, names(&["Warm"]), true, &names(&["Muted Slide"]));
    assert_eq!(w.missing, 1);
    assert_eq!(w.missing_words, "Muted Slide is not in the list.");
    assert_eq!(
        restored_said(Some(Ok(&names(&["Muted Slide"])))),
        "restored Muted Slide"
    );
    assert_eq!(removed_said("Mine", &names(&["Muted Slide"]), None), "Mine removed");
    assert_eq!(
        removed_said("warm negative", &names(&["Warm"]), None),
        "warm negative removed"
    );
}

#[test]
fn the_offer_tells_of_its_source() {
    let (mut st, mut w) = (offers(), sheet());
    offer_lenses(&mut st, &mut w, &source(), false);
    assert_eq!(
        w.text,
        "The lensfun database, about 1234 KB from example.org.\nLicense: CC BY-SA 3.0 (https://license.example).\nKept in /cache."
    );
    assert_eq!(host_of("nowhere", "its site"), "its site");
    assert_eq!(host_of("https://a.b", "its site"), "a.b");
}

#[test]
fn a_model_is_declined_once_and_says_what_is_lost() {
    assert_eq!(mb(113_778_088), 114);
    let (mut st, mut w) = (offers(), sheet());
    let about = About {
        id: Model::SubjectWebGpu,
        name: "Subject".into(),
        source: source(),
        modified: true,
    };
    offer_model(&mut st, &mut w, &about, false);
    assert!(w.open);
    let mut status = String::new();
    let a = fetch_answered(&mut st, &mut w, false, &mut status);
    assert!(matches!(a, Answered::Declined { redraw: true }));
    assert_eq!(st.declined, vec![Model::SubjectWebGpu]);
    assert_eq!(
        status,
        "without the GPU model the original Subject model is offered"
    );
    // With nothing offered there is nothing to answer.
    let a = fetch_answered(&mut st, &mut w, true, &mut status);
    assert!(matches!(a, Answered::Nothing));
    // A yes starts the download.
    st.fetch = Some(Fetch::Model(Model::Fill));
    let a = fetch_answered(&mut st, &mut w, true, &mut status);
    assert!(matches!(a, Answered::Fetches(Fetch::Model(Model::Fill))));
    assert!(st.fetching && st.fetch.is_none());
}

#[test]
fn the_offer_says_who_publishes_the_model() {
    let mut about = About {
        id: Model::SubjectWebGpu,
        name: "Subject".into(),
        source: source(),
        modified: true,
    };
    about.source.license = "MIT".into();
    let ours = model_note(&about);
    assert!(ours.contains("greycard publishes this copy"), "{ours}");
    assert!(ours.contains("MIT"), "{ours}");
    about.modified = false;
    let theirs = model_note(&about);
    assert!(theirs.contains("does not ship"), "{theirs}");
}

#[test]
fn a_preset_needs_a_name_and_something_to_carry() {
    assert!(matches!(
        preset_saved("  ", &vec![true]),
        Saving::Says("a preset needs a name")
    ));
    assert!(matches!(
        preset_saved("Mine", &vec![false, false]),
        Saving::Says("choose what the preset carries")
    ));
    match preset_saved(" Mine ", &vec![false, true, true]) {
        Saving::Preset { name, sections } => {
            assert_eq!(name, "Mine");
            assert_eq!(sections, vec![1, 2]);
        }
        other => panic!("{other:?}"),
    }
    assert_eq!(
        sections_offered(&vec![(true, false), (true, true), (false, false)]),
        vec![true, false, false]
    );
    assert_eq!(
        saved_said("Mine", 1, Some(Ok("/p"))),
        "saved Mine (1 section) to /p"
    );
    assert_eq!(saved_said("Mine", 2, Some(Err("full"))), "saving Mine: full");
    assert_eq!(
        saved_said("Mine", 2, None),
        "no configuration directory to save into"
    );
}

#[test]
fn an_import_says_what_came_of_it() {
    assert_eq!(
        import_preset(&Imported::Saved {
            name: "Warm".into(),
            sections: 3,
            unmapped: names(&["Dehaze", "Texture"]),
        }),
        "imported Warm (3 sections); no place here for Dehaze, Texture"
    );
    assert_eq!(
        import_preset(&Imported::Refused {
            file: "a.xmp".into(),
            why: "no preset".into(),
        }),
        "a.xmp: no preset"
    );
    assert_eq!(
        import_preset(&Imported::Unsaved {
            name: "Warm".into(),
            why: "full".into(),
        }),
        "saving Warm: full"
    );
    assert_eq!(
        import_preset(&Imported::NoStore),
        "no configuration directory to save into"
    );
    assert_eq!(
        restored_said(Some(Ok(&names(&[])))),
        "every default preset is in the list"
    );
    assert_eq!(
        restored_said(Some(Err("full"))),
        "restoring the default presets: full"
    );
    assert_eq!(
        restored_said(None),
        "no configuration directory to restore into"
    );
}

#[test]
fn the_lens_panel_says_what_was_found() {
    let p = show_lens(&LensReport::Found {
        lens: "EF 50".into(),
        camera: true,
        smaller_sensor: true,
    });
    assert!(p.available && p.database);
    assert_eq!(p.profile, "EF 50 (measured on a smaller sensor)");
    let p = show_lens(&LensReport::NoDatabase);
    assert!(!p.available && !p.database);
    assert_eq!(p.profile, "no lens profiles on this machine");
    assert_eq!(
        show_lens(&LensReport::Unknown("X".into())).profile,
        "no profile for X"
    );
    assert_eq!(
        show_lens(&LensReport::NoLensName).profile,
        "the file names no lens"
    );
}

#[test]
fn a_profile_that_is_gone_is_still_named() {
    let entry = |name: &str, fits: bool| ProfileEntry {
        name: name.into(),
        label: format!("{name}!"),
        fits,
    };
    let entries = vec![entry("a", true), entry("b", false), entry("c", false)];
    let l = show_profiles(&entries, "embedded", "b", false, Some("/d"));
    assert_eq!(l.names, names(&["embedded", "a", "b"]));
    assert_eq!(l.labels, names(&["Embedded", "a!", "b!"]));
    assert_eq!(l.note, "1 more there, for other cameras.");
    let l = show_profiles(&entries, "embedded", "gone", false, Some("/d"));
    assert_eq!(l.names, names(&["embedded", "a", "gone"]));
    assert_eq!(l.labels, names(&["Embedded", "a!", "gone (missing)"]));
    let l = show_profiles(&Vec::new(), "embedded", "embedded", true, Some("/d"));
    assert_eq!(l.note, "No profiles yet: put DCP files in /d.");
    assert_eq!(
        looks_note(None, 0, Some("/l")),
        "No looks yet: put .cube or HaldCLUT .png files in /l."
    );
    assert_eq!(looks_note(None, 2, None), "");
    assert_eq!(looks_note(Some("a cube"), 0, None), "a cube");
}
