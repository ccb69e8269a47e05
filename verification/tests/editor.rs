use greycard_ui::panel::color::{Grading, Mixer};
use greycard_ui::panel::curve::{Channel, CurvePoint, PARAMETRIC};
use greycard_ui::panel::editor::{
    curve_doubled, curve_dragged, curve_pressed, curve_released, curve_reset, points_shown,
    Toward, Under,
};
use greycard_ui::panel::mask::Next;
use greycard_ui::panel::sliders::{Color, Fresh, Light, LookPanel, Parts, Splits, Tint};

/// A slider's value, by its bits.
fn level(v: f32) -> i32 {
    v.to_bits() as i32
}

fn at(x: f32, y: f32) -> CurvePoint<i32> {
    CurvePoint {
        x: level(x),
        y: level(y),
    }
}

fn flat(v: &[f32]) -> Vec<i32> {
    v.iter().map(|&v| level(v)).collect()
}

const STILL: Parts = Parts {
    highlights: 0,
    lights: 0,
    darks: 0,
    shadows: 0,
};

fn splits(low: f32, middle: f32, high: f32) -> Splits {
    Splits {
        low: level(low),
        middle: level(middle),
        high: level(high),
    }
}

fn fresh() -> Fresh {
    Fresh {
        splits: splits(0.25, 0.5, 0.75),
        diagonal: vec![at(0.0, 0.0), at(1.0, 1.0)],
        level: vec![at(0.0, 0.5), at(1.0, 0.5)],
    }
}

fn panel() -> LookPanel {
    LookPanel {
        light: Light {
            enabled: true,
            exposure: 0,
            contrast: 0,
            highlights: 0,
            shadows: 0,
            whites: 0,
            blacks: 0,
        },
        curves_enabled: true,
        parts: Parts {
            lights: level(0.5),
            ..STILL
        },
        splits: flat(&[0.25, 0.5, 0.75]),
        rgb: Vec::new(),
        red: Vec::new(),
        green: Vec::new(),
        blue: Vec::new(),
        red_green: Vec::new(),
        blue_yellow: Vec::new(),
        mixer_enabled: true,
        mixer: Mixer {
            band: 0,
            hues: Vec::new(),
            saturations: Vec::new(),
            luminances: Vec::new(),
            hue: 0,
            saturation: 0,
            luminance: 0,
        },
        color: Color {
            enabled: true,
            saturation: 0,
            vibrance: 0,
        },
        grading_enabled: true,
        grading: Grading {
            range: 0,
            hues: Vec::new(),
            saturations: Vec::new(),
            hue: 0,
            saturation: 0,
            balance: 0,
        },
        tint: Tint { hue: 0, amount: 0 },
    }
}

fn under(split: Option<usize>, near: Option<usize>, before: &[bool], crowded: bool) -> Under {
    Under {
        split,
        near,
        before: before.to_vec(),
        crowded,
        at: at(0.4, 0.6),
    }
}

const TO: Toward = Toward {
    set: Splits {
        low: 0x3e4c_cccd,
        middle: 0x3f00_0000,
        high: 0x3f40_0000,
    },
    held: 0x3e80_0000,
    y: 0x3f40_0000,
};

#[test]
fn a_point_is_pressed_dragged_and_taken_off() {
    let (mut p, f) = (panel(), fresh());
    let mut drag = None;
    let c = Channel::Red;
    // On top of another's x nothing is taken in hand.
    let u = under(None, None, &[true, false], true);
    assert_eq!(curve_pressed(&mut p, &mut drag, &f, "Point", c, &u), Next::Nothing);
    assert!(drag.is_none() && p.red.is_empty());
    assert_eq!(curve_released(&mut drag), Next::Nothing);
    let u = under(None, None, &[true, false], false);
    assert_eq!(curve_pressed(&mut p, &mut drag, &f, "Point", c, &u), Next::Redraw);
    assert_eq!(drag, Some(1));
    assert_eq!(p.red, flat(&[0.0, 0.0, 0.4, 0.6, 1.0, 1.0]));
    assert!(p.rgb.is_empty());
    assert_eq!(curve_dragged(&mut p, drag, &f, "Point", c, TO), Next::Redraw);
    assert_eq!(p.red, flat(&[0.0, 0.0, 0.25, 0.75, 1.0, 1.0]));
    // The ends stay at the ends.
    curve_dragged(&mut p, Some(0), &f, "Point", c, TO);
    assert_eq!(p.red[..2], flat(&[0.0, 0.75]));
    assert_eq!(curve_dragged(&mut p, Some(9), &f, "Point", c, TO), Next::Nothing);
    assert_eq!(curve_dragged(&mut p, None, &f, "Point", c, TO), Next::Nothing);
    assert_eq!(curve_released(&mut drag), Next::ViewChanged);
    assert_eq!(drag, None);
    // A double-click on an end, or on nothing, takes none.
    for near in [None, Some(0), Some(2)] {
        let u = under(None, near, &[true; 3], false);
        let n = curve_doubled(&mut p, &mut drag, &f, "Point", c, &u, f.splits);
        assert_eq!(n, Next::Nothing);
        assert_eq!(points_shown(&p, &f, c).len(), 3);
    }
    drag = Some(1);
    let u = under(None, Some(1), &[true; 3], false);
    let n = curve_doubled(&mut p, &mut drag, &f, "Point", c, &u, f.splits);
    assert_eq!((n, drag), (Next::ViewChanged, None));
    assert_eq!(p.red, flat(&[0.0, 0.75, 1.0, 1.0]));
    assert_eq!(curve_reset(&mut p, &f, "Point", c, STILL), Next::ViewChanged);
    assert_eq!(p.red, flat(&[0.0, 0.0, 1.0, 1.0]));
    curve_reset(&mut p, &f, "Point", Channel::RedGreen, STILL);
    assert_eq!(p.red_green, flat(&[0.0, 0.5, 1.0, 0.5]));
}

#[test]
fn a_split_is_taken_moved_and_put_back() {
    let (mut p, f) = (panel(), fresh());
    let mut drag = None;
    let c = Channel::Rgb;
    let u = under(Some(0), Some(1), &[true, false], false);
    assert_eq!(curve_pressed(&mut p, &mut drag, &f, PARAMETRIC, c, &u), Next::Nothing);
    assert_eq!(drag, Some(0));
    assert!(p.rgb.is_empty(), "the points are not touched");
    assert_eq!(curve_dragged(&mut p, drag, &f, PARAMETRIC, c, TO), Next::Redraw);
    assert_eq!(p.splits, flat(&[0.2, 0.5, 0.75]));
    assert_eq!(curve_dragged(&mut p, Some(3), &f, PARAMETRIC, c, TO), Next::Nothing);
    // Those that came out of order are put in it.
    let crossed = Toward {
        set: splits(0.6, 0.5, 0.75),
        ..TO
    };
    curve_dragged(&mut p, drag, &f, PARAMETRIC, c, crossed);
    assert_eq!(p.splits, flat(&[0.5, 0.6, 0.75]));
    let none = under(None, Some(1), &[true, false], false);
    let n = curve_doubled(&mut p, &mut drag, &f, PARAMETRIC, c, &none, f.splits);
    assert_eq!((n, drag), (Next::Nothing, Some(0)));
    let n = curve_doubled(&mut p, &mut drag, &f, PARAMETRIC, c, &u, f.splits);
    assert_eq!((n, drag), (Next::ViewChanged, None));
    assert_eq!(p.splits, flat(&[0.25, 0.5, 0.75]));
    p.splits = flat(&[0.1, 0.2, 0.3]);
    assert_eq!(curve_reset(&mut p, &f, PARAMETRIC, c, STILL), Next::ViewChanged);
    assert_eq!((p.parts, p.splits), (STILL, flat(&[0.25, 0.5, 0.75])));
}
