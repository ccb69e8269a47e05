use greycard_ui::outline::{commands, rings, Field};
use std::f32::consts::PI;

fn distance_to_polyline(p: (f32, f32), points: &[(f32, f32)]) -> f32 {
    let to_segment = |a: (f32, f32), b: (f32, f32)| {
        let (dx, dy) = (b.0 - a.0, b.1 - a.1);
        let len = dx * dx + dy * dy;
        let t = if len > 0.0 {
            (((p.0 - a.0) * dx + (p.1 - a.1) * dy) / len).clamp(0.0, 1.0)
        } else {
            0.0
        };
        (p.0 - a.0 - dx * t).hypot(p.1 - a.1 - dy * t)
    };
    if points.len() == 1 {
        return to_segment(points[0], points[0]);
    }
    points
        .windows(2)
        .map(|w| to_segment(w[0], w[1]))
        .fold(f32::INFINITY, f32::min)
}

/// The edge of everything within `radius` of the polyline: the distance
/// sampled over a grid of `cell`, the rings of the samples, and where on
/// each edge the contour crosses it.
fn contours(points: &[(f32, f32)], radius: f32, cell: f32) -> Vec<Vec<(f32, f32)>> {
    if points.is_empty() || radius <= 0.0 {
        return Vec::new();
    }
    let (mut lo, mut hi) = ((f32::MAX, f32::MAX), (f32::MIN, f32::MIN));
    for p in points {
        lo = (lo.0.min(p.0), lo.1.min(p.1));
        hi = (hi.0.max(p.0), hi.1.max(p.1));
    }
    let extent = (hi.0 - lo.0 + 2.0 * radius).max(hi.1 - lo.1 + 2.0 * radius);
    let cell = cell.max(extent / 128.0).max(1e-6);
    let origin = (lo.0 - radius - cell, lo.1 - radius - cell);
    let cells = |span: f32| ((span + 2.0 * (radius + cell)) / cell).ceil() as usize + 1;
    let (nx, ny) = (cells(hi.0 - lo.0), cells(hi.1 - lo.1));
    let node = |i: usize, j: usize| (origin.0 + i as f32 * cell, origin.1 + j as f32 * cell);
    let at = |i: usize, j: usize| distance_to_polyline(node(i, j), points) - radius;
    let field = Field {
        nx,
        ny,
        inside: (0..=ny)
            .map(|j| (0..=nx).map(|i| at(i, j) < 0.0).collect())
            .collect(),
        middle: (0..ny)
            .map(|j| {
                (0..nx)
                    .map(|i| {
                        (at(i, j) + at(i + 1, j) + at(i + 1, j + 1) + at(i, j + 1)) / 4.0 < 0.0
                    })
                    .collect()
            })
            .collect(),
    };
    let crossing = |edge: usize| {
        let (i, j) = (edge / 2 % (nx + 1), edge / 2 / (nx + 1));
        let (k, l) = if edge % 2 == 1 { (i, j + 1) } else { (i + 1, j) };
        let (f0, f1) = (at(i, j), at(k, l));
        let t = (f0 / (f0 - f1)).clamp(0.0, 1.0);
        let (p0, p1) = (node(i, j), node(k, l));
        (p0.0 + (p1.0 - p0.0) * t, p0.1 + (p1.1 - p0.1) * t)
    };
    rings(&field)
        .iter()
        .map(|ring| ring.iter().map(|&e| crossing(e)).collect())
        .collect()
}

fn path(rings: &[Vec<(f32, f32)>]) -> String {
    let points: Vec<Vec<String>> = rings
        .iter()
        .map(|r| r.iter().map(|(x, y)| format!("{x:.1} {y:.1}")).collect())
        .collect();
    commands(&points)
}

fn area(poly: &[(f32, f32)]) -> f32 {
    let n = poly.len();
    (0..n)
        .map(|i| {
            let (a, b) = (poly[i], poly[(i + 1) % n]);
            a.0 * b.1 - b.0 * a.1
        })
        .sum::<f32>()
        .abs()
        / 2.0
}

type Segment = ((f32, f32), (f32, f32));

/// Whether the segments `a` and `b` properly cross.
fn crosses(a: Segment, b: Segment) -> bool {
    let side = |p: (f32, f32), q: (f32, f32), r: (f32, f32)| {
        (q.0 - p.0) * (r.1 - p.1) - (q.1 - p.1) * (r.0 - p.0)
    };
    let (s1, s2) = (side(a.0, a.1, b.0), side(a.0, a.1, b.1));
    let (s3, s4) = (side(b.0, b.1, a.0), side(b.0, b.1, a.1));
    s1 * s2 < 0.0 && s3 * s4 < 0.0
}

/// Every pair of segments, of one ring or of two, that cross.
fn crossings(rings: &[Vec<(f32, f32)>]) -> usize {
    let segments: Vec<(usize, Segment)> = rings
        .iter()
        .enumerate()
        .flat_map(|(k, r)| (0..r.len()).map(move |i| (k, (r[i], r[(i + 1) % r.len()]))))
        .collect();
    let mut n = 0;
    for (i, (ka, a)) in segments.iter().enumerate() {
        for (kb, b) in &segments[i + 1..] {
            // Neighbors on a ring share an end and do not count.
            if ka == kb && (a.1 == b.0 || a.0 == b.1) {
                continue;
            }
            if crosses(*a, *b) {
                n += 1;
            }
        }
    }
    n
}

fn all_at_radius(rings: &[Vec<(f32, f32)>], pts: &[(f32, f32)], r: f32, tolerance: f32) {
    for ring in rings {
        for p in ring {
            let d = distance_to_polyline(*p, pts);
            assert!((d - r).abs() < tolerance, "{p:?} at {d}, wanted {r}");
        }
    }
}

#[test]
fn a_spot_is_a_circle() {
    let rings = contours(&[(0.5, 0.5)], 0.1, 0.025);
    assert_eq!(rings.len(), 1);
    assert!(rings[0].len() >= 24, "{}", rings[0].len());
    // Between nodes the field is smooth, so the crossings sit close to
    // the true circle.
    all_at_radius(&rings, &[(0.5, 0.5)], 0.1, 0.025 / 16.0);
    let want = PI * 0.01;
    assert!((area(&rings[0]) - want).abs() < 0.03 * want);
    assert!(contours(&[], 0.1, 0.025).is_empty());
    assert!(contours(&[(0.5, 0.5)], 0.0, 0.025).is_empty());
    assert!(path(&[]).is_empty());
}

#[test]
fn a_straight_stroke_is_a_stadium() {
    let pts = [(0.2, 0.5), (0.8, 0.5)];
    let rings = contours(&pts, 0.05, 0.0125);
    assert_eq!(rings.len(), 1);
    all_at_radius(&rings, &pts, 0.05, 0.0125 / 2.0);
    let want = PI * 0.05 * 0.05 + 2.0 * 0.05 * 0.6;
    assert!(
        (area(&rings[0]) - want).abs() < 0.03 * want,
        "{}",
        area(&rings[0])
    );
    assert_eq!(crossings(&rings), 0);
    let s = path(&rings);
    assert!(s.starts_with('M') && s.ends_with(" Z "), "{s}");
    assert_eq!(s.matches('M').count(), 1);
}

#[test]
fn a_zigzag_and_a_hairpin_never_cross_themselves() {
    // A stroke scribbled back and forth over a blemish, rows a radius
    // apart; and one that doubles straight back. An offset walk would
    // draw chords across both.
    let zigzag = [(0.3, 0.65), (0.5, 0.66), (0.31, 0.68), (0.5, 0.7)];
    let rings = contours(&zigzag, 0.02, 0.005);
    assert!(!rings.is_empty());
    assert_eq!(crossings(&rings), 0, "the zigzag's outline crosses itself");
    all_at_radius(&rings, &zigzag, 0.02, 0.005 / 2.0);
    let hairpin = [(0.2, 0.5), (0.5, 0.5), (0.21, 0.52)];
    let rings = contours(&hairpin, 0.05, 0.0125);
    assert_eq!(rings.len(), 1);
    assert_eq!(crossings(&rings), 0, "the hairpin's outline crosses itself");
    all_at_radius(&rings, &hairpin, 0.05, 0.0125 / 2.0);
    // Its inner feather line, a tenth of the radius, too.
    let rings = contours(&hairpin, 0.005, 0.00125);
    assert!(!rings.is_empty());
    assert_eq!(crossings(&rings), 0);
}

#[test]
fn a_loop_has_a_hole() {
    let loop_: Vec<(f32, f32)> = (0..=48)
        .map(|k| {
            let a = 2.0 * PI * k as f32 / 48.0;
            (0.5 + 0.2 * a.cos(), 0.5 + 0.2 * a.sin())
        })
        .collect();
    let rings = contours(&loop_, 0.03, 0.0075);
    assert_eq!(rings.len(), 2, "an outer ring and the hole");
    let mut radii: Vec<f32> = rings
        .iter()
        .map(|r| (r[0].0 - 0.5).hypot(r[0].1 - 0.5))
        .collect();
    radii.sort_by(f32::total_cmp);
    assert!(
        (radii[0] - 0.17).abs() < 0.004 && (radii[1] - 0.23).abs() < 0.004,
        "{radii:?}"
    );
    assert_eq!(crossings(&rings), 0);
    assert_eq!(path(&rings).matches('M').count(), 2);
}
