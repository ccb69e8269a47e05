use greycard_ui::panel::browser::{new_folder, Browser, Stand};
use greycard_ui::panel::deliver::{
    deliver, developed_words, listed, said, source_note, white_opened, Act, Detail, Fills, Floor, LearnedReport,
    Outcome, Report, Run, SourceKind, Thumbs, Uses,
};
use greycard_ui::panel::color::WhiteKey;
use greycard_ui::panel::edit::Work;
use greycard_ui::panel::learned::{Key, Model};
use greycard_ui::panel::meta::{Flag, Label, Meta};
use greycard_ui::panel::model::{
    Adjustment, Component, Edit, Kind, Look, Mask, Method, Mode, Patch, Shape,
};
use greycard_ui::panel::placeholder::{Desk, Hands, Screen, Shot};

fn desk(n: usize) -> Desk {
    let mut browser = Browser {
        paths: Vec::new(),
        separator: '/',
        names: Vec::new(),
        metas: Vec::new(),
        pictured: Vec::new(),
        stood: Vec::new(),
        shown: Vec::new(),
        current: None,
        picked: Vec::new(),
        menu_file: None,
        thumbs: Vec::new(),
        selected: -1,
        set_count: 1,
        reject_count: 0,
    };
    let meta = Meta {
        rating: 0,
        flag: Flag::Unflagged,
        label: Label::Plain,
    };
    let names = (0..n).map(|i| format!("IMG_{i:04}.CR3")).collect();
    new_folder(&mut browser, names, vec![meta; n], &vec![true; n], 0);
    browser.current = Some(0);
    Desk {
        browser,
        cull: None,
        hold: None,
        placeholder: None,
        work: Work {
            generation: 3,
            busy: true,
            status: "developing...".into(),
            status_after_develop: None,
        },
        screen: Screen {
            culling: false,
            compare: 1,
            placeholder: false,
            placeholder_status: String::new(),
            navigator: true,
            nav_partial: false,
            scopes: true,
            bins: true,
            clip_shadows: false,
            clip_highlights: false,
            file_name: String::new(),
            shot: Shot {
                camera: String::new(),
                exposure: String::new(),
                size: String::new(),
            },
        },
        hands: Hands::empty(),
        fitted: true,
        image_size: (0, 0),
        source_size: (0, 0),
        developed: false,
        cull_at_start: None,
    }
}

fn floor(n: usize) -> Floor {
    Floor {
        desk: desk(n),
        thumbs: Thumbs {
            made: vec![0; n],
            asked: vec![0; n],
            want: 160,
            grid_shown: None,
        },
        seed: vec![false; n],
        run: Run {
            batch: false,
            failed: false,
            turn_at_start: None,
            awaiting_turn: false,
            export_waits: false,
            ends_after_export: false,
        },
        fetching: false,
        offered: false,
        declined: Vec::new(),
        asked: Vec::new(),
        shown_size: (0, 0),
        pending: None,
        show_mask: false,
        raw_input: false,
        source_note: String::new(),
    }
}

/// An edit with one adjustment, of a subject, and one fill.
fn edit(enabled: bool) -> Edit<f32, u32, u32> {
    let look = Look { tone: true, sliders: 0 };
    Edit {
        look,
        adjustments: vec![Adjustment {
            id: 7,
            name: "Subject 7".into(),
            enabled: true,
            mask: Mask {
                components: vec![Component {
                    shape: Shape::Subject,
                    mode: Mode { code: 0, sign: '+' },
                    invert: false,
                    enabled,
                }],
                invert: false,
            },
            look,
        }],
        patches: vec![Patch {
            id: 1,
            method: Method::Fill,
            points: Vec::new(),
            radius: 0,
            feather: 0,
            opacity: 0,
            source: None,
        }],
        picture: 0,
    }
}

const USES: Uses = Uses {
    denoiser: Some(Model::Denoiser(1)),
    repairs_on: true,
};

fn hear(f: &mut Floor, o: &Outcome) -> Act {
    deliver(f, &edit(true), USES, o)
}

fn report() -> Report {
    Report {
        seconds: "1.2".into(),
        detail: None,
        dehaze: None,
        sharpen: None,
        learned: LearnedReport::Off,
        fills: Fills {
            made: Vec::new(),
            seconds: "0".into(),
            missing: Vec::new(),
            failed: Vec::new(),
        },
    }
}

fn developed(generation: u64) -> Outcome {
    Outcome::Developed {
        generation,
        width: 6000,
        height: 4000,
        sources: true,
        report: report(),
        hint: None,
    }
}

fn names(n: &[&str]) -> Vec<String> {
    n.iter().map(|s| s.to_string()).collect()
}

#[test]
fn a_develop_says_its_size_and_what_was_done() {
    assert_eq!(
        developed_words(6000, 4000, &report()),
        "6000x4000, developed in 1.2 s"
    );
    let mut r = report();
    r.detail = Some(Detail {
        texture_radius: 3,
        clarity_radius: 40,
        seconds: None,
    });
    r.fills.missing = names(&["Fill 1", "Fill 2"]);
    let words = developed_words(6000, 4000, &r);
    assert!(words.starts_with("6000x4000, developed in 1.2 s"));
    assert!(
        words.ends_with("left as they were until the fill model is fetched"),
        "{words}"
    );
    assert_eq!(listed(&names(&["A"])), "A");
    assert_eq!(listed(&names(&["A", "B", "C"])), "A, B and C");
}

#[test]
fn an_older_result_is_not_heard() {
    let mut f = floor(2);
    assert!(matches!(hear(&mut f, &developed(2)), Act::Stale));
    assert_eq!(f.desk.source_size, (0, 0));
    let old = Outcome::Failed {
        generation: 2,
        message: "late".into(),
    };
    assert!(matches!(hear(&mut f, &old), Act::Stale));
    assert_eq!(f.desk.work.status, "developing...");
    let act = hear(&mut f, &developed(3));
    assert!(matches!(act, Act::Developed { save: true, .. }));
    assert_eq!(f.shown_size, (6000, 4000));
    assert_eq!(f.pending, Some(3));
    assert!(!f.desk.work.busy);
    assert_eq!(f.desk.work.status, "6000x4000, developed in 1.2 s");
}

#[test]
fn a_batch_run_ends_on_a_failure() {
    let mut f = floor(1);
    f.run.batch = true;
    let failed = Outcome::Failed {
        generation: 3,
        message: "no".into(),
    };
    assert!(matches!(hear(&mut f, &failed), Act::Quit));
    assert!(f.run.failed);
    let mut f = floor(1);
    assert!(!matches!(hear(&mut f, &failed), Act::Quit));
    assert!(!f.run.failed);
    f.run.batch = true;
    f.run.ends_after_export = true;
    let done = Outcome::Exported {
        name: "a.jpg".into(),
        seconds: "0.5".into(),
        note: None,
    };
    assert!(matches!(hear(&mut f, &done), Act::Quit));
    assert!(!f.run.failed);
    let full = Outcome::ExportFailed {
        message: "full".into(),
    };
    assert!(matches!(hear(&mut f, &full), Act::Quit));
    assert!(f.run.failed);
}

#[test]
fn a_thumbnail_is_of_the_file_it_was_asked_for() {
    let mut f = floor(2);
    let stand = Stand {
        turns: 1,
        flip: false,
    };
    let thumb = |index: usize, path: &str, bigger: bool| Outcome::Thumbnail {
        index,
        path: path.into(),
        size: 160,
        bigger,
        stand,
    };
    assert!(matches!(hear(&mut f, &thumb(1, "/other/IMG_0001.CR3", false)), Act::Stale));
    assert!(matches!(hear(&mut f, &thumb(5, "IMG_0001.CR3", false)), Act::Stale));
    assert!(matches!(hear(&mut f, &thumb(1, "IMG_0001.CR3", false)), Act::Nothing));
    assert_eq!(f.thumbs.made[1], 160);
    assert_eq!(f.desk.browser.thumbs[1].picture, Some(stand));
}

#[test]
fn what_was_opened_is_told() {
    let mut f = floor(1);
    let opened = Outcome::Opened {
        generation: 3,
        blend: true,
        kind: SourceKind::Picture {
            space: "sRGB".into(),
            bits: 8,
            extension: Some("jpg".into()),
        },
        camera: "R6".into(),
        exposure: "1/100".into(),
        no_lenses: true,
    };
    let act = hear(&mut f, &opened);
    assert!(matches!(
        act,
        Act::Opened {
            blend: true,
            offer_lenses: true
        }
    ));
    assert_eq!(f.desk.screen.shot.camera, "R6");
    assert!(!f.raw_input);
    assert_eq!(
        f.source_note,
        "8-bit JPG taken as sRGB; its white balance, demosaic and noise are as rendered"
    );
    assert_eq!(source_note(&SourceKind::Raw), "");
}

#[test]
fn a_fetch_ends_in_a_develop_of_what_wanted_it() {
    let mut f = floor(1);
    f.fetching = true;
    f.asked = vec![Key { id: 7, component: 0 }];
    let fetched = |model: Model| Outcome::Fetched {
        model,
        name: "Fill".into(),
    };
    // Not the edit's: a fill with the repairs off, or another denoiser.
    let off = Uses { repairs_on: false, ..USES };
    let act = deliver(&mut f, &edit(true), off, &fetched(Model::Fill));
    assert!(matches!(act, Act::Redraw) && f.asked.is_empty());
    assert!(matches!(hear(&mut f, &fetched(Model::Denoiser(2))), Act::Redraw));
    assert_eq!(f.desk.work.generation, 3);
    assert!(matches!(hear(&mut f, &fetched(Model::Fill)), Act::Develop(4)));
    assert_eq!(f.desk.work.generation, 4);
    let act = hear(&mut f, &Outcome::LensesFetched);
    assert!(matches!(
        act,
        Act::Open {
            file: 0,
            generation: 5
        }
    ));
    f.fetching = true;
    let failed = Outcome::FetchFailed {
        name: "Fill".into(),
        message: "offline".into(),
    };
    assert!(matches!(hear(&mut f, &failed), Act::Nothing));
    assert!(!f.fetching);
    assert!(said(&failed).unwrap().contains("offline"));
}

#[test]
fn a_missing_model_is_offered_with_the_develop() {
    let mut f = floor(1);
    let mut r = report();
    r.learned = LearnedReport::Missing(Model::Denoiser(1));
    let o = Outcome::Developed {
        generation: 3,
        width: 6000,
        height: 4000,
        sources: false,
        report: r,
        hint: None,
    };
    match hear(&mut f, &o) {
        Act::Developed { offer, .. } => assert_eq!(offer, Some(Model::Denoiser(1))),
        other => panic!("{other:?}"),
    }
    let (key, other) = (Key { id: 7, component: 0 }, Key { id: 7, component: 1 });
    f.asked = vec![other, key];
    let mask = Outcome::Mask {
        key,
        kind: Kind::Subject,
        provider: Some("WebGPU".into()),
        seconds: "0.3".into(),
    };
    // Switched off while the model ran: found, and not shown.
    let act = deliver(&mut f, &edit(false), USES, &mask);
    assert!(matches!(act, Act::Redraw) && !f.show_mask);
    assert_eq!(f.asked, [other]);
    assert!(matches!(hear(&mut f, &mask), Act::Redraw));
    assert!(f.show_mask);
    assert_eq!(f.desk.work.status, "subject found on WebGPU in 0.3 s");
    // One that could not be is said while it is still asked for.
    let failed = |key: Key| Outcome::MaskFailed {
        key,
        message: "no memory".into(),
    };
    hear(&mut f, &failed(key));
    assert_eq!(f.desk.work.status, "subject found on WebGPU in 0.3 s");
    hear(&mut f, &failed(other));
    assert_eq!(f.desk.work.status, "mask: no memory");
}

#[test]
fn a_file_opened_shows_its_white_balance() {
    let shown = WhiteKey {
        as_shot: true,
        temperature: 1,
        tint: 2,
    };
    let k = white_opened(shown, true, 5200, 7, None);
    assert!(k.as_shot && k.temperature == 5200 && k.tint == 7);
    let k = white_opened(shown, false, 5200, 7, None);
    assert!(k.temperature == 1 && k.tint == 2, "the edit has its own");
    let k = white_opened(shown, true, 5200, 7, Some(3000));
    assert!(!k.as_shot && k.temperature == 3000 && k.tint == 7);
}
