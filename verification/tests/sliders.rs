use greycard_ui::panel::color::{BlackWhite, Grading, Mixer, WhiteBalance, WhiteKey};
use greycard_ui::panel::crop::{Controls, Crop, Geometry};
use greycard_ui::panel::curve::CurvePoint;
use greycard_ui::panel::level::{hold_about, ONE};
use greycard_ui::panel::model::{
    Adjustment, Blank, ColorRange, Edit, Look, LuminanceRange, Mask, Window,
};
use greycard_ui::panel::mask::Next;
use greycard_ui::panel::sliders::{
    choose_named, panel_tint, read_look, read_picture, read_splits, read_whole, show_look,
    show_whole, tint_point, tint_reset, Bands, Choices, Color, Curves, Detail, Fresh, Grain, Lens, Light, LookPanel,
    LookValues, Noise, Panel, Parts, PicturePanel, PictureValues, Sharpen, Splits, Terms, Tint,
    Vignette, Weights, Wheels, Whole,
};

fn level(v: f32) -> i32 {
    v.to_bits() as i32
}

fn levels(v: &[f32]) -> Vec<i32> {
    v.iter().map(|&v| level(v)).collect()
}

fn line(y0: f32, y1: f32) -> Vec<CurvePoint<i32>> {
    vec![
        CurvePoint {
            x: level(0.0),
            y: level(y0),
        },
        CurvePoint {
            x: level(1.0),
            y: level(y1),
        },
    ]
}

fn flat(points: &[CurvePoint<i32>]) -> Vec<i32> {
    points.iter().flat_map(|p| [p.x, p.y]).collect()
}

fn fresh() -> Fresh {
    Fresh {
        splits: Splits {
            low: level(0.25),
            middle: level(0.5),
            high: level(0.75),
        },
        diagonal: line(0.0, 1.0),
        level: line(0.5, 0.5),
    }
}

fn light(exposure: f32) -> Light {
    Light {
        enabled: true,
        exposure: level(exposure),
        contrast: level(0.1),
        highlights: level(-0.2),
        shadows: level(0.3),
        whites: level(0.4),
        blacks: level(-0.5),
    }
}

const PARTS: Parts = Parts {
    highlights: 1,
    lights: 2,
    darks: 3,
    shadows: 4,
};

fn look(exposure: f32) -> LookValues {
    LookValues {
        light: light(exposure),
        curves: Curves {
            enabled: true,
            parts: PARTS,
            splits: fresh().splits,
            rgb: line(0.1, 0.9),
            red: line(0.0, 1.0),
            green: line(0.0, 1.0),
            blue: line(0.0, 0.8),
            red_green: line(0.5, 0.5),
            blue_yellow: line(0.4, 0.6),
        },
        mixer: Bands {
            enabled: true,
            hues: levels(&[0.1; 8]),
            saturations: levels(&[0.2; 8]),
            luminances: levels(&[0.3; 8]),
        },
        color: Color {
            enabled: false,
            saturation: level(0.5),
            vibrance: level(0.25),
        },
        grading: Wheels {
            enabled: true,
            hues: levels(&[10.0, 20.0, 30.0]),
            saturations: levels(&[0.1, 0.2, 0.3]),
            balance: level(-0.5),
        },
        tint: Tint {
            hue: level(40.0),
            amount: level(0.5),
        },
    }
}

fn look_panel() -> LookPanel {
    LookPanel {
        light: light(0.0),
        curves_enabled: false,
        parts: PARTS,
        splits: Vec::new(),
        rgb: Vec::new(),
        red: Vec::new(),
        green: Vec::new(),
        blue: Vec::new(),
        red_green: Vec::new(),
        blue_yellow: Vec::new(),
        mixer_enabled: false,
        mixer: Mixer {
            band: 2,
            hues: Vec::new(),
            saturations: Vec::new(),
            luminances: Vec::new(),
            hue: 0,
            saturation: 0,
            luminance: 0,
        },
        color: Color {
            enabled: true,
            saturation: 0,
            vibrance: 0,
        },
        grading_enabled: false,
        grading: Grading {
            range: 1,
            hues: Vec::new(),
            saturations: Vec::new(),
            hue: 0,
            saturation: 0,
            balance: level(3.0),
        },
        tint: Tint {
            hue: level(400.0),
            amount: level(2.0),
        },
    }
}

fn choices(names: &[&str]) -> Choices {
    Choices {
        names: names.iter().map(|s| s.to_string()).collect(),
        usual: 0,
    }
}

fn terms() -> Terms {
    Terms {
        learned: choices(&["Off", "Fast", "Best"]),
        grains: choices(&["Fine", "Coarse"]),
        demosaics: choices(&["Auto", "Menon"]),
        most_strength: level(2.0),
        most_angle: level(45.0),
        most_tilt: level(1.0),
    }
}

const LENS: Lens = Lens {
    enabled: true,
    profile: true,
    distortion: true,
    chromatic_aberration: false,
    vignetting: true,
    manual: 1,
    ca_red: 2,
    ca_blue: 3,
    auto_scale: true,
    scale: 4,
    defringe: true,
    defringe_radius: 5,
    defringe_threshold: 6,
    defringe_purple_center: 7,
    defringe_purple_width: 8,
    defringe_purple_amount: 9,
    defringe_green_center: 10,
    defringe_green_width: 11,
    defringe_green_amount: 12,
};

fn picture() -> PictureValues {
    PictureValues {
        bw: Weights {
            enabled: true,
            weights: levels(&[0.5; 8]),
            strength: level(1.5),
        },
        white: WhiteBalance::Custom {
            temperature: level(5200.0),
            tint: level(4.0),
        },
        noise: Noise {
            enabled: true,
            profiled: true,
            strength: level(0.5),
            learned_strength: level(0.7),
        },
        learned: 2,
        lens: LENS,
        geometry: Geometry {
            turns: 3,
            flip: true,
            angle: level(-3.5),
            vertical: level(0.25),
            horizontal: level(0.0),
            crop: Some(Crop {
                x: level(0.1),
                y: level(0.1),
                w: level(0.5),
                h: level(0.5),
            }),
            aspect: "1:1".into(),
            custom: None,
            portrait: true,
        },
        vignette: Vignette {
            enabled: true,
            amount: level(-0.5),
            midpoint: level(0.5),
            feather: level(0.5),
            roundness: level(0.0),
        },
        grain: Grain {
            enabled: true,
            amount: level(0.25),
            size: level(1.0),
        },
        grain_kind: 1,
        detail: Detail {
            enabled: true,
            texture: level(0.1),
            clarity: level(0.2),
            dehaze: level(0.3),
        },
        sharpen: Sharpen {
            enabled: true,
            auto_radius: false,
            radius: level(0.8),
            iterations: 12,
            auto_threshold: true,
            threshold: level(0.1),
        },
        demosaic: 1,
        camera_profile: "Standard".into(),
        look_name: "Portra".into(),
        look_strength: level(0.75),
        retouch: true,
    }
}

fn picture_panel() -> PicturePanel {
    PicturePanel {
        bw: BlackWhite {
            enabled: false,
            band: 7,
            weights: Vec::new(),
            weight: 0,
            strength: level(9.0),
            filter: "Red".into(),
        },
        white: WhiteKey {
            as_shot: true,
            temperature: level(4000.0),
            tint: level(1.0),
        },
        noise: picture().noise,
        learned: "Unheard of".into(),
        lens: LENS,
        geometry: Controls {
            turns: -1,
            flip: false,
            angle: level(-90.0),
            vertical: level(5.0),
            horizontal: level(-5.0),
            has_crop: false,
            crop: Crop {
                x: 0,
                y: 0,
                w: 0,
                h: 0,
            },
            aspect_name: "Free".into(),
            aspect_custom: "4:5".into(),
            portrait: false,
            level_mode: false,
            guide_mode: String::new(),
        },
        vignette: picture().vignette,
        grain: picture().grain,
        grain_kind: "Coarse".into(),
        detail: picture().detail,
        sharpen: Sharpen {
            iterations: 0,
            ..picture().sharpen
        },
        demosaic: "Menon".into(),
        camera_profile: "Embedded".into(),
        look_name: String::new(),
        look_strength: level(-1.0),
        retouch: false,
    }
}

fn window() -> Window<i32, (), ()> {
    let luminance = LuminanceRange {
        low: level(0.0),
        high: level(1.0),
        low_feather: level(0.1),
        high_feather: level(0.1),
    };
    let color = ColorRange {
        hue: 0,
        width: level(30.0),
        hue_feather: level(10.0),
        chroma: level(0.0),
        chroma_feather: level(0.1),
    };
    Window {
        status: String::new(),
        panel_tab: "Light".into(),
        placing: String::new(),
        placing_into: false,
        picking: String::new(),
        retouch_mode: String::new(),
        show_mask: false,
        shapes_open: false,
        target: 0,
        target_name: String::new(),
        adjustment_names: Vec::new(),
        adjustment_on: Vec::new(),
        adjustment_enabled: true,
        adjustment_name: String::new(),
        mask_invert: false,
        component: 0,
        component_names: Vec::new(),
        component_on: Vec::new(),
        component_invert: false,
        component_kind: String::new(),
        has_feather: false,
        mask_feather: level(0.0),
        luminance,
        color,
        hue_round: level(0.0),
        look: Look {
            tone: true,
            sliders: (),
        },
        picture: (),
        patch_names: Vec::new(),
        patch: -1,
        patch_size: 0,
        patch_feather: 0,
        patch_opacity: 0,
        blank: Blank {
            zero: 0,
            feather: level(0.5),
            luminance,
            color,
        },
    }
}

fn whole() -> Whole {
    Whole {
        edit: Edit {
            look: Look {
                tone: false,
                sliders: (),
            },
            adjustments: vec![Adjustment {
                id: 1,
                name: "Sky".into(),
                enabled: true,
                mask: Mask {
                    components: Vec::new(),
                    invert: true,
                },
                look: Look {
                    tone: true,
                    sliders: (),
                },
            }],
            patches: Vec::new(),
            picture: (),
        },
        look: look(0.5),
        looks: vec![look(-1.0)],
        picture: picture(),
    }
}

fn panel() -> Panel {
    Panel {
        window: window(),
        look: look_panel(),
        picture: picture_panel(),
    }
}

#[test]
fn a_look_is_read_slider_by_slider() {
    let mut p = look_panel();
    p.splits = levels(&[0.9, 0.2, 0.4]);
    p.rgb = flat(&line(0.2, 0.7));
    p.red = levels(&[0.5, 0.5, 0.6]);
    p.mixer.hues = levels(&[1.0, 2.0]);
    let v = read_look(&p, &fresh(), level(40.0));
    assert_eq!(v.light, light(0.0));
    assert_eq!(
        v.curves.splits,
        Splits {
            low: level(0.2),
            middle: level(0.4),
            high: level(0.9)
        }
    );
    assert_eq!(flat(&v.curves.rgb), flat(&line(0.2, 0.7)));
    // Fewer than two points is the line that does nothing.
    assert_eq!(flat(&v.curves.red), flat(&line(0.0, 1.0)));
    assert_eq!(flat(&v.curves.red_green), flat(&line(0.5, 0.5)));
    assert_eq!(
        v.mixer.hues,
        levels(&[1.0, 2.0, 0.0, 0.0, 0.0, 0.0, 0.0, 0.0])
    );
    assert_eq!(v.grading.hues, levels(&[0.0; 3]));
    assert_eq!(v.grading.balance, level(1.0));
    assert_eq!(v.tint.hue, level(40.0));
    assert_eq!(v.tint.amount, level(1.0));
    // Any other number of splits is the fresh ones.
    assert_eq!(read_splits(&levels(&[0.3]), fresh().splits), fresh().splits);
}

#[test]
fn the_picture_is_read_within_its_ends() {
    let v = read_picture(&picture_panel(), &terms());
    assert_eq!(v.learned, 0, "an unheard of name is the usual one");
    assert_eq!((v.grain_kind, v.demosaic), (1, 1));
    assert_eq!(v.bw.strength, level(2.0));
    assert_eq!(v.bw.weights, levels(&[0.0; 8]));
    assert!(matches!(v.white, WhiteBalance::AsShot));
    assert_eq!(v.geometry.turns, 3);
    assert_eq!(v.geometry.angle, level(-45.0));
    assert_eq!(v.geometry.vertical, level(1.0));
    assert_eq!(v.geometry.horizontal, level(-1.0));
    assert!(v.geometry.crop.is_none());
    assert_eq!(v.sharpen.iterations, 1);
    assert_eq!(v.look_strength, level(0.0));
    assert_eq!(v.lens, LENS);
    assert_eq!(choose_named(&terms().learned, "Best"), 2);
}

#[test]
fn a_value_is_held_as_far_below_zero_as_above() {
    assert_eq!(hold_about(level(-0.5), ONE), level(-0.5));
    assert_eq!(hold_about(level(-1.5), ONE), level(-1.0));
    assert_eq!(hold_about(level(1.5), ONE), level(1.0));
    assert_eq!(hold_about(level(0.25), ONE), level(0.25));
    let t = Tint {
        hue: level(359.0),
        amount: level(-1.0),
    };
    assert_eq!(
        panel_tint(t, 0),
        Tint {
            hue: level(359.0),
            amount: level(0.0)
        }
    );
}

#[test]
fn a_look_shown_is_on_its_sliders() {
    let mut p = look_panel();
    show_look(&look(2.0), &mut p);
    assert_eq!(p.light.exposure, level(2.0));
    assert_eq!(p.splits, levels(&[0.25, 0.5, 0.75]));
    assert_eq!(p.blue, levels(&[0.0, 0.0, 1.0, 0.8]));
    // The chosen band's and the chosen wheel's own.
    assert_eq!(p.mixer.luminance, level(0.3));
    assert_eq!(p.grading.hue, level(20.0));
    assert_eq!(p.grading.saturation, level(0.2));
    assert_eq!(p.grading.balance, level(-0.5));
}

#[test]
fn an_edit_shown_reads_back_slider_for_slider() {
    for target in [None, Some(0)] {
        let (mut p, mut e) = (panel(), whole());
        show_whole(&e, &mut p, target, &terms(), Some("Green"));
        let want = if target.is_some() { -1.0 } else { 0.5 };
        assert_eq!(p.look.light.exposure, level(want));
        assert_eq!(p.picture.learned, "Best");
        assert_eq!(p.picture.bw.filter, "Green");
        assert_eq!(p.picture.bw.weight, level(0.5));
        assert_eq!(p.picture.geometry.turns, 3);
        assert_eq!(p.picture.geometry.aspect_custom, "4:5");
        assert!(!p.picture.white.as_shot);
        assert!(!p.window.look.tone, "the tone switch is the picture's");
        read_whole(&p, &mut e, target, &fresh(), 0, &terms());
        assert_eq!(format!("{:?}", e.look), format!("{:?}", look(0.5)));
        assert_eq!(format!("{:?}", e.looks), format!("{:?}", [look(-1.0)]));
        assert_eq!(e.edit.adjustments[0].name, "Sky");
        assert!(e.edit.adjustments[0].look.tone && !e.edit.look.tone);
        assert_eq!(e.picture.learned, 2);
        assert_eq!(e.picture.geometry.angle, level(-3.5));
        assert_eq!(e.picture.sharpen, picture().sharpen);
        assert_eq!(e.picture.look_strength, level(0.75));
        // A slider moved goes to the target's look alone.
        p.look.light.exposure = level(3.0);
        read_whole(&p, &mut e, target, &fresh(), 0, &terms());
        let (global, own) = (e.look.light.exposure, e.looks[0].light.exposure);
        if target.is_some() {
            assert_eq!((global, own), (level(0.5), level(3.0)));
        } else {
            assert_eq!((global, own), (level(3.0), level(-1.0)));
        }
    }
}

#[test]
fn the_ring_sets_the_tint() {
    let mut t = Tint {
        hue: level(40.0),
        amount: level(0.5),
    };
    assert_eq!(tint_point(&mut t, Some(level(90.0)), level(0.75)), Next::Redraw);
    assert_eq!((t.hue, t.amount), (level(90.0), level(0.75)));
    // The middle has no angle: the hue stays.
    tint_point(&mut t, None, level(0.0));
    assert_eq!((t.hue, t.amount), (level(90.0), level(0.0)));
    assert_eq!(tint_reset(&mut t), Next::ViewChanged);
    assert_eq!((t.hue, t.amount), (level(0.0), level(0.0)));
}
