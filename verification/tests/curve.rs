use greycard_ui::outline::{commands, join, rings, trace, Field, NOWHERE};
use greycard_ui::panel::curve::{
    channels_behind, curve_double, curve_move, curve_points, curve_press, draw_curve,
    drawn_channel, mode_changed, parametric_mode, peak, pixel, set_curve_points, Channel, Columns, CurvePoint, Histogram, Rgb, Scene, Spot, PARAMETRIC, SIDE,
};

fn gray(n: u8) -> Rgb {
    Rgb { r: n, g: n, b: n }
}

fn scene(channel: Channel) -> Scene {
    Scene {
        channel,
        histogram: Histogram::Off,
        heights: vec![200; SIDE],
        splits: None,
        points: Vec::new(),
    }
}

#[test]
fn the_curve_is_drawn_over_its_grid() {
    let s = scene(Channel::Rgb);
    let px = draw_curve(&s);
    assert_eq!(px.len(), SIDE * SIDE);
    // Rows go down the picture; a height goes up it.
    let at = |x: usize, y: usize| px[(SIDE - 1 - y) * SIDE + x];
    assert_eq!(at(10, 200), gray(0xd8));
    assert_eq!(at(10, 201), gray(0xd8));
    assert_eq!(at(10, 202), gray(0x14));
    assert_eq!(at(64, 3), gray(0x24));
    assert_eq!(at(30, 30), gray(0x2c));
    assert_eq!(pixel(&s, 30, 30), gray(0x2c));
    let mut red = scene(Channel::Red);
    red.heights[5] = 10;
    assert_eq!(
        pixel(&red, 5, 100),
        Rgb {
            r: 0xe8,
            g: 0x60,
            b: 0x60
        },
        "joined between columns"
    );
}

#[test]
fn the_marks_are_over_the_curve() {
    let mut s = scene(Channel::Rgb);
    s.points = vec![Spot { x: 100, y: 200 }];
    assert_eq!(pixel(&s, 100, 200), gray(0xff));
    assert_eq!(pixel(&s, 104, 200), gray(0x14));
    assert_eq!(pixel(&s, 105, 200), gray(0xd8));
    s.splits = Some(vec![50]);
    assert_eq!(pixel(&s, 50, 4), gray(0xff));
    assert_eq!(pixel(&s, 50, 0), gray(0x14));
    assert_eq!(pixel(&s, 50, 100), gray(0x44));
    assert_eq!(pixel(&s, 100, 196), gray(0x14), "no points with splits");
}

#[test]
fn the_histogram_is_behind_it_all() {
    let mut s = scene(Channel::Rgb);
    let color = Rgb {
        r: 0x40,
        g: 0x10,
        b: 0x10,
    };
    let mut heights = vec![0; SIDE];
    heights[20] = 50;
    s.histogram = Histogram::Channels(vec![Columns { color, heights }]);
    assert_eq!(
        pixel(&s, 20, 49),
        Rgb {
            r: 0x40,
            g: 0x14,
            b: 0x14
        }
    );
    assert_eq!(pixel(&s, 20, 50), gray(0x14));
    let mut s = scene(Channel::RedGreen);
    s.histogram = Histogram::Lightness(vec![256; SIDE]);
    assert_eq!(pixel(&s, 3, 3), Rgb {
            r: 0x14 + 28,
            g: 0x14 + 35 + 28,
            b: 0x14 + 7 + 28,
        });
    assert_eq!(pixel(&s, 3, 128), gray(0x3a));
    assert_eq!(pixel(&s, 64, 128), gray(0x24));
}

/// The ground of a color curve is its tint in single precision, cut to
/// whole levels.
#[test]
fn the_ground_is_tinted_toward_what_each_way_gives() {
    let s = scene(Channel::BlueYellow);
    for y in (0..SIDE).filter(|y| !(199..=202).contains(y) && ![64, 128, 192].contains(y)) {
        let t = (y as f32 - 127.5) / 127.5;
        let tint: [f32; 3] = if t > 0.0 {
            [0x2a as f32 * t, 0x22 as f32 * t, 0.0]
        } else {
            [0x04 as f32 * -t, 0x0e as f32 * -t, 0x34 as f32 * -t]
        };
        let want = Rgb {
            r: 0x14 + tint[0] as u8,
            g: 0x14 + tint[1] as u8,
            b: 0x14 + tint[2] as u8,
        };
        assert_eq!(pixel(&s, 7, y), want, "{y}");
    }
}

#[test]
fn the_histograms_are_measured_without_their_ends() {
    let master = channels_behind(drawn_channel(true, Channel::RedGreen));
    assert_eq!(master.len(), 3);
    let red = channels_behind(Channel::Red);
    let mut bins = vec![0u32; 768];
    assert_eq!(peak(&bins, &master), 1);
    bins[0] = 900;
    bins[255] = 800;
    bins[100] = 50;
    bins[256 + 9] = 70;
    assert_eq!(peak(&bins, &red), 50);
    assert_eq!(peak(&bins, &master), 70);
}

#[test]
fn points_set_read_back() {
    let identity = vec![
        CurvePoint { x: 0.0, y: 0.0 },
        CurvePoint { x: 1.0, y: 1.0 },
    ];
    let points = vec![
        CurvePoint { x: 0.0, y: 0.1 },
        CurvePoint { x: 0.5, y: 0.6 },
        CurvePoint { x: 1.0, y: 1.0 },
    ];
    let flat = set_curve_points(&points);
    assert_eq!(flat, vec![0.0, 0.1, 0.5, 0.6, 1.0, 1.0]);
    let back = curve_points(&flat, &identity);
    assert_eq!(back.len(), 3);
    assert_eq!((back[1].x, back[1].y), (0.5, 0.6));
    assert_eq!(curve_points(&Vec::new(), &identity).len(), 2);
    assert!(parametric_mode(PARAMETRIC) && !parametric_mode("Point"));
}

#[test]
fn the_ends_stay_the_ends() {
    let mut p = vec![
        CurvePoint { x: 0.0, y: 0.0 },
        CurvePoint { x: 1.0, y: 1.0 },
    ];
    let at = CurvePoint { x: 0.4, y: 0.7 };
    assert_eq!(
        curve_press(&mut p, None, &vec![true, false], false, at),
        Some(1)
    );
    assert_eq!(p.len(), 3);
    assert_eq!(curve_press(&mut p, Some(1), &vec![true; 3], false, at), Some(1));
    assert_eq!(curve_press(&mut p, None, &vec![true; 3], true, at), None);
    assert_eq!(p.len(), 3);
    assert!(curve_move(&mut p, 0, 0.0, 1.0, 0.3, 0.2));
    assert_eq!((p[0].x, p[0].y), (0.0, 0.2));
    assert!(curve_move(&mut p, 1, 0.0, 1.0, 0.3, 0.2));
    assert_eq!(p[1].x, 0.3);
    assert!(!curve_move(&mut p, 3, 0.0, 1.0, 0.3, 0.2));
    assert!(!curve_double(&mut p, Some(0)));
    assert!(!curve_double(&mut p, Some(2)));
    assert!(curve_double(&mut p, Some(1)));
    assert_eq!(p.len(), 2);
}

/// A field of nodes inside a shape, from a picture of it.
fn field(rows: &[&str]) -> Field {
    let (ny, nx) = (rows.len() - 1, rows[0].len() - 1);
    Field {
        nx,
        ny,
        inside: rows
            .iter()
            .map(|r| r.chars().map(|c| c == '#').collect())
            .collect(),
        middle: vec![vec![false; nx]; ny],
    }
}

#[test]
fn a_blob_has_one_ring_and_a_loop_a_hole() {
    let blob = field(&["....", ".##.", ".##.", "...."]);
    let r = rings(&blob);
    assert_eq!(r.len(), 1);
    assert_eq!(r[0].len(), 8, "every crossing is on the ring");
    let hoop = field(&[
        ".......", ".#####.", ".#####.", ".##.##.", ".#####.", ".#####.", ".......",
    ]);
    let mut lengths: Vec<usize> = rings(&hoop).iter().map(|r| r.len()).collect();
    lengths.sort();
    assert_eq!(lengths, vec![4, 20], "an outer ring and the hole");
    assert!(rings(&field(&["...", "...", "..."])).is_empty());
}

#[test]
fn a_saddle_goes_by_its_middle() {
    let mut cross = field(&["....", ".#..", "..#.", "...."]);
    assert_eq!(rings(&cross).len(), 2, "two apart");
    cross.middle[1][1] = true;
    assert_eq!(rings(&cross).len(), 1, "one joined");
    let links = join(&cross);
    let r = trace(&links);
    assert_eq!(r.len(), 1);
    assert_eq!(
        links.iter().filter(|l| l.0 != NOWHERE).count(),
        r[0].len()
    );
}

#[test]
fn rings_are_written_as_a_path() {
    let ring = |p: &[&str]| p.iter().map(|s| s.to_string()).collect::<Vec<String>>();
    assert_eq!(commands(&Vec::new()), "");
    let s = commands(&vec![ring(&["0 0", "1 0", "1 1"]), ring(&["5 5", "6 5"])]);
    assert!(s.starts_with("M0 0 L1 0 L1 1 Z"), "{s}");
    assert!(s.contains("M5 5 L6 5 Z"), "{s}");
}

#[test]
fn the_curve_dropper_goes_down_with_its_points() {
    assert!(mode_changed(PARAMETRIC, "Curve"));
    assert!(!mode_changed(PARAMETRIC, "White"));
    assert!(!mode_changed("Point", "Curve"));
}
