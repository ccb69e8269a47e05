use greycard_ui::panel::color::{
    band_values, bw_changed, bw_filter_changed, bw_reset, grade_changed, grade_double,
    grade_point, grade_reset, grade_values, mixer_reset, panel_white, show_bw_band,
    preview_white, show_grade_range, show_mixer_band, store_mixer_band, white_key, white_profile,
    white_resolved, BlackWhite, Grading, Mixer, Preview, Through, WhiteBalance, WhiteProfile, BANDS, WHEELS,
};
use greycard_ui::panel::crop::{
    crop_dragged, crop_pressed, crop_released, geometry_changed, geometry_reset, geometry_turned,
    guide_dropped, guide_said, guide_set, guide_stroke, level_end,
    plane_size, ratio, read_geometry, refit_crop, refit_level, set_crop, show_geometry, Part, Shape,
    Controls, Crop, Geometry, Guided, Refit,
};
use greycard_ui::panel::mask::Next;

#[test]
fn a_band_stored_comes_back() {
    let mut m = Mixer {
        band: 2,
        hues: vec![0.0; BANDS],
        saturations: vec![0.0; BANDS],
        luminances: vec![0.0; BANDS],
        hue: 10.0,
        saturation: 20.0,
        luminance: 30.0,
    };
    store_mixer_band(&mut m, 0.0);
    assert_eq!((m.hues[2], m.saturations[2], m.luminances[2]), (10.0, 20.0, 30.0));
    m.band = 0;
    show_mixer_band(&mut m, 0.0);
    assert_eq!((m.hue, m.saturation, m.luminance), (0.0, 0.0, 0.0));
    m.band = 2;
    show_mixer_band(&mut m, 0.0);
    assert_eq!((m.hue, m.saturation, m.luminance), (10.0, 20.0, 30.0));
    mixer_reset(&mut m, 0.0);
    assert!(m.hues.iter().all(|h| *h == 0.0));
    assert_eq!(m.hue, 0.0);
    // A list too short reads as nothing where it ends.
    assert_eq!(band_values(&vec![1, 2], 0).len(), BANDS);
    assert_eq!(band_values(&vec![1, 2], 0)[..3], [1, 2, 0]);
    assert_eq!(grade_values(&vec![5], 0), vec![5, 0, 0]);
}

#[test]
fn black_and_white_keeps_its_weights() {
    let mut bw = BlackWhite {
        enabled: true,
        band: 1,
        weights: vec![0; BANDS],
        weight: 7,
        strength: 1,
        filter: "Red".into(),
    };
    bw_changed(&mut bw, 0, None);
    assert_eq!(bw.weights[1], 7);
    assert_eq!((bw.weight, bw.filter.as_str()), (7, ""), "a weight moved is no filter's");
    bw.enabled = false;
    bw_filter_changed(&mut bw, vec![3; BANDS], 0, Some("Blue"));
    assert_eq!(bw.weights, vec![3; BANDS]);
    assert_eq!((bw.enabled, bw.weight, bw.filter.as_str()), (true, 3, "Blue"));
    show_bw_band(&mut bw, 0, Some("Green"));
    assert_eq!((bw.weight, bw.filter.as_str()), (3, "Green"));
    bw_reset(&mut bw, 0, 1, None);
    assert!(bw.weights.iter().all(|w| *w == 0));
    assert_eq!((bw.weight, bw.strength, bw.filter.as_str()), (0, 1, ""));
}

#[test]
fn a_wheel_is_moved_and_put_back() {
    let mut g = Grading {
        range: 0,
        hues: vec![0; WHEELS],
        saturations: vec![0; WHEELS],
        hue: 0,
        saturation: 0,
        balance: 0,
    };
    grade_point(&mut g, 0, 1, Some(40), 9);
    assert_eq!((g.hues[1], g.saturations[1]), (40, 9));
    // A point at the middle keeps the hue there was.
    grade_point(&mut g, 0, 1, None, 0);
    assert_eq!((g.hues[1], g.saturations[1]), (40, 0));
    g.range = 1;
    show_grade_range(&mut g, 0);
    assert_eq!((g.hue, g.saturation), (40, 0));
    let level = |v: f32| v.to_bits() as i32;
    (g.hue, g.saturation) = (level(50.0), level(0.5));
    grade_changed(&mut g, 0);
    assert_eq!((g.hues[1], g.saturations[1]), (level(50.0), level(0.5)));
    // Off the circle it comes round it, and past its ends it is held.
    (g.hue, g.saturation) = (level(-10.0), level(1.5));
    grade_changed(&mut g, level(350.0));
    assert_eq!((g.hues[1], g.saturations[1]), (level(350.0), level(1.0)));
    grade_double(&mut g, 0, 1);
    assert_eq!(g.saturations[1], 0);
    grade_reset(&mut g, 0);
    assert!(g.hues.iter().all(|h| *h == 0));
}

#[test]
fn a_white_balance_is_its_key_s() {
    let custom = WhiteBalance::Custom {
        temperature: 5200.0,
        tint: 3.0,
    };
    let key = white_key(custom, 0.0);
    assert!(!key.as_shot);
    match panel_white(key) {
        WhiteBalance::Custom { temperature, tint } => {
            assert_eq!((temperature, tint), (5200.0, 3.0));
        }
        WhiteBalance::AsShot => panic!(),
    }
    assert!(white_key(WhiteBalance::AsShot, 0.0).as_shot);
}

#[test]
fn a_profile_is_resolved_once_a_choice() {
    let mut st: WhiteProfile<u32> = WhiteProfile {
        resolved: None,
        cache: Some(7),
    };
    let t = white_profile(&mut st, "a.dcp", true, true);
    assert!(matches!(t, Some(Through::Named)));
    assert_eq!(st.cache, None);
    st.cache = Some(8);
    let t = white_profile(&mut st, "a.dcp", true, true);
    assert!(matches!(t, Some(Through::Named)));
    assert_eq!(st.cache, Some(8), "the same choice keeps what was made");
    let t = white_profile(&mut st, "b.dcp", false, true);
    assert!(matches!(t, Some(Through::Embedded)));
    assert!(white_profile(&mut st, "c.dcp", false, false).is_none());
}

fn controls() -> Controls<f32> {
    Controls {
        turns: 0,
        flip: false,
        angle: 0.0,
        vertical: 0.0,
        horizontal: 0.0,
        has_crop: false,
        crop: Crop {
            x: 0.0,
            y: 0.0,
            w: 1.0,
            h: 1.0,
        },
        aspect_name: "Original".into(),
        aspect_custom: String::new(),
        portrait: false,
        level_mode: true,
        guide_mode: "Vertical".into(),
    }
}

#[test]
fn a_geometry_shown_reads_back() {
    let level = |v: f32| v.to_bits() as i32;
    let mut w = Controls {
        turns: 0,
        flip: false,
        angle: 0,
        vertical: 0,
        horizontal: 0,
        has_crop: false,
        crop: Crop { x: 0, y: 0, w: level(1.0), h: level(1.0) },
        aspect_name: "Original".into(),
        aspect_custom: String::new(),
        portrait: false,
        level_mode: true,
        guide_mode: "Vertical".into(),
    };
    let g = Geometry {
        turns: 3,
        flip: true,
        angle: level(1.5),
        vertical: level(2.0),
        horizontal: level(-2.0),
        crop: Some(Crop {
            x: level(0.1),
            y: level(0.2),
            w: level(0.5),
            h: level(0.6),
        }),
        aspect: "1:1".into(),
        custom: None,
        portrait: true,
    };
    show_geometry(&g, &mut w);
    let r = read_geometry(&w, level(15.0), level(20.0));
    assert_eq!((r.turns, r.flip, r.portrait), (3, true, true));
    assert_eq!((r.angle, r.vertical, r.horizontal), (level(1.5), level(2.0), level(-2.0)));
    assert_eq!(r.crop.unwrap().w, level(0.5));
    assert_eq!(r.aspect, "1:1");
    // Further than they go, they are held.
    w.angle = level(-40.0);
    w.vertical = level(33.0);
    let r = read_geometry(&w, level(15.0), level(20.0));
    assert_eq!((r.angle, r.vertical), (level(-15.0), level(20.0)));
    set_crop(&mut w, None);
    assert!(read_geometry(&w, level(15.0), level(20.0)).crop.is_none());
    let mut strokes = vec![1];
    assert_eq!(geometry_reset(&mut w, &mut strokes, 0), Next::ViewChanged);
    assert!(strokes.is_empty());
    assert_eq!(w.angle, 0);
    assert!(!w.level_mode && w.guide_mode.is_empty());
}

#[test]
fn a_crop_is_refitted_only_where_it_must_be() {
    // An edit still waiting on its frame is never refitted.
    assert!(matches!(refit_crop(false, false, true, true), Refit::Leave));
    assert!(matches!(refit_crop(true, true, true, true), Refit::Leave));
    assert!(matches!(refit_crop(true, true, false, true), Refit::Shrink));
    assert!(matches!(refit_crop(true, true, true, false), Refit::Largest));
    let g: Guided<f32> = guide_stroke(None, (6000, 4000), false, None);
    assert!(matches!(g, Guided::Nothing));
    let g: Guided<f32> = guide_stroke(Some(true), (6000, 4000), false, None);
    assert!(matches!(g, Guided::First));
    let g: Guided<f32> = guide_stroke(Some(true), (6000, 4000), true, None);
    assert!(matches!(g, Guided::Refused));
    assert_eq!(guide_said(g), Some("the guide needs two different lines"));
    let g = guide_stroke(Some(false), (6000, 4000), true, Some((1.0, 2.0)));
    assert!(matches!(
        g,
        Guided::Found { upright: false, angle, tilt } if angle == 1.0 && tilt == 2.0
    ));
    let mut w = controls();
    let mut strokes = vec![1, 2];
    guide_set(&mut w, &mut strokes, true, 1.0, 5.0);
    assert!(strokes.is_empty());
    strokes.push(3);
    assert_eq!(guide_dropped(&mut strokes), Next::Redraw);
    assert!(strokes.is_empty());
    assert_eq!((w.angle, w.vertical, w.horizontal), (1.0, 5.0, 0.0));
    assert!(w.guide_mode.is_empty());
    // A line too short levels nothing, and the tool goes down.
    assert!(!level_end(&mut w, None));
    assert!(!w.level_mode && w.angle == 1.0);
    assert!(level_end(&mut w, Some(2.0)));
    assert_eq!(w.angle, 2.0);
}

#[test]
fn a_white_balance_is_resolved_once() {
    let mut st: WhiteProfile<u32> = WhiteProfile {
        resolved: None,
        cache: None,
    };
    let p = preview_white(&mut st, "a.dcp", false, false, false, true);
    assert!(matches!(p, Preview::Identity), "no profile to go through");
    let p = preview_white(&mut st, "a.dcp", true, false, false, false);
    assert!(matches!(p, Preview::Identity), "no base to go from");
    let p = preview_white(&mut st, "a.dcp", true, false, false, true);
    assert!(matches!(p, Preview::Resolve));
    assert_eq!(white_resolved(&mut st, 1, Some(5)), 5);
    let p = preview_white(&mut st, "a.dcp", true, false, true, true);
    assert!(matches!(p, Preview::Kept(5)));
    let p = preview_white(&mut st, "a.dcp", true, false, false, true);
    assert!(matches!(p, Preview::Resolve), "another white balance");
    assert_eq!(white_resolved(&mut st, 1, None), 1, "no inverse");
    assert_eq!(st.cache, Some(1));
    let p = preview_white(&mut st, "b.dcp", true, false, true, true);
    assert!(matches!(p, Preview::Resolve), "another profile");
}

/// A crop about the middle, in the plane's own pixels.
fn pixels(p: Part, plane: (u32, u32)) -> (f64, f64) {
    let part = |f: (u64, u64)| f.0 as f64 / f.1 as f64;
    (
        part(p.wide) * f64::from(plane.0),
        part(p.tall) * f64::from(plane.1),
    )
}

#[test]
fn original_on_an_upright_frame_crops_it_upright() {
    let (sw, sh) = (5464, 8192);
    let p = refit_level((sw, sh), 0, Shape::Original, false, true, false).unwrap();
    let (w, h) = pixels(p, (sw, sh));
    assert!(h > w, "{w} by {h} is not upright");
    // "Original" is the whole frame, so it is the whole frame.
    assert!(
        (w - f64::from(sw)).abs() < 1.0 && (h - f64::from(sh)).abs() < 1.0,
        "{w} by {h}"
    );
    // And the Portrait toggle still turns it, as it does a named ratio.
    let p = refit_level((sw, sh), 0, Shape::Original, true, true, true).unwrap();
    let (w, h) = pixels(p, (sw, sh));
    assert!(w > h, "{w} by {h} is not on its side");
    let p = refit_level((sw, sh), 0, Shape::Ratio(3, 2), false, true, true).unwrap();
    let (w, h) = pixels(p, (sw, sh));
    assert!((w / h - 1.5).abs() < 1e-9, "{w} by {h}");
}

#[test]
fn an_edit_still_waiting_on_its_frame_is_never_refitted() {
    // The whole plane of an upright frame, under an aspect the flag
    // reads as landscape.
    let whole = Crop { x: 0.0, y: 0.0, w: 1.0, h: 1.0 };
    let stored = |portrait: bool| Geometry {
        turns: 0,
        flip: false,
        angle: 0.0,
        vertical: 0.0,
        horizontal: 0.0,
        crop: Some(whole),
        aspect: "Original".into(),
        custom: None,
        portrait,
    };
    // One move of the panel: the geometry on the controls, then whatever
    // was touched, then the crop fitted again to `fitted`.
    let moved = |settled: bool, angle: f32, aspect: &str, fits: bool, fitted: Crop<f32>| {
        let mut w = controls();
        show_geometry(&stored(!settled), &mut w);
        w.angle = angle;
        w.aspect_name = aspect.into();
        assert_eq!(
            geometry_changed(&mut w, settled, fits, false, fitted),
            Next::ViewChanged
        );
        (w.crop.w, w.crop.h)
    };
    // A square asked for is the change that bites: on a settled edit it
    // takes the crop down to the plane's width.
    let square = Shape::Ratio(1, 1);
    assert!(refit_level((4000, 6000), 0, square, true, false, true).is_none());
    let smaller = Crop { x: 0.0, y: 0.2, w: 1.0, h: 0.5 };
    assert_eq!(
        moved(false, 0.0, "1:1", true, smaller),
        (1.0, 1.0),
        "the aspect list re-cropped it"
    );
    // And the angle leaves it alone too.
    assert!(refit_level((4000, 6000), 0, Shape::Original, true, false, true).is_none());
    assert_eq!(
        moved(false, 3.0, "Original", false, smaller),
        (1.0, 1.0),
        "the angle re-cropped it"
    );
    // The same edit once the frame has been measured.
    let p = refit_level((4000, 6000), 0, square, false, true, true).unwrap();
    assert_eq!(p.wide, (1, 1));
    assert_eq!(p.tall.0 * 6000, p.tall.1 * 4000);
    let (pw, ph) = pixels(p, (4000, 6000));
    let fitted = Crop { x: 0.0, y: 0.0, w: pw as f32 / 4000.0, h: ph as f32 / 6000.0 };
    let (w, h) = moved(true, 0.0, "1:1", true, fitted);
    assert!(
        (w - 1.0).abs() < 1e-3 && (h - 4000.0 / 6000.0).abs() < 1e-3,
        "a square of an upright plane is {w} by {h} of it"
    );
}

#[test]
fn a_handle_of_the_crop_moves_what_it_was_pressed_on() {
    let mut w = controls();
    let start = Crop { x: 0.0, y: 0.0, w: 1.0, h: 1.0 };
    let less = Crop { x: 0.1, y: 0.1, w: 0.5, h: 0.5 };
    let mut drag = None;
    assert_eq!(crop_dragged(&mut w, drag, true, less), Next::Nothing);
    assert_eq!(crop_released(&mut drag), Next::Nothing);
    crop_pressed(&mut drag, start);
    assert_eq!(drag.map(|c| (c.w, c.h)), Some((1.0, 1.0)));
    assert_eq!(crop_dragged(&mut w, drag, false, less), Next::Nothing);
    assert!(!w.has_crop);
    assert_eq!(crop_dragged(&mut w, drag, true, less), Next::Redraw);
    assert_eq!((w.has_crop, w.crop.w), (true, 0.5));
    assert_eq!(crop_released(&mut drag), Next::ViewChanged);
    assert!(drag.is_none());
    // A quarter turn puts the geometry it leads to on the controls, and
    // the crop is fitted to it.
    let turned = Geometry {
        turns: 1,
        flip: false,
        angle: 0.0,
        vertical: 0.0,
        horizontal: 0.0,
        crop: Some(less),
        aspect: "1:1".into(),
        custom: None,
        portrait: false,
    };
    geometry_turned(&mut w, &turned, true, true, false, start);
    assert_eq!((w.turns, w.crop.w), (1, 1.0));
}

#[test]
fn a_turned_original_from_an_older_sidecar_is_not_re_cropped() {
    // The frame is landscape; its plane, turned once, is upright.
    assert_eq!(plane_size((6000, 4000), 1), (4000, 6000));
    assert!(refit_level((6000, 4000), 1, Shape::Original, false, true, true).is_none());
    // And it is still the plane's own shape, on end.
    assert_eq!(
        ratio(Shape::Original, (4000, 6000), false),
        Some((4000, 6000))
    );
    assert_eq!(ratio(Shape::Free, (4000, 6000), true), None);
}
