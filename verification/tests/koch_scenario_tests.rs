use fractal_curves::collinear::condense_collinear;
use fractal_curves::koch::Koch;
use fractal_curves::l_system::LSystem;
use fractal_curves::point::Point2;

/// The fixed-point scale used by these tests: enough fractional bits that
/// rounding noise stays far below the asserted tolerances.
const SCALE: f64 = 65536.0;

/// A six-slot step table (60 degrees per slot) of the given segment
/// length, in fixed-point coordinates.
fn koch_dirs(segment_length: f64) -> Vec<Point2> {
    (0..6)
        .map(|k| {
            let angle = (k as f64) * std::f64::consts::FRAC_PI_3;
            Point2 {
                x: (segment_length * SCALE * angle.cos()).round() as i64,
                y: (segment_length * SCALE * angle.sin()).round() as i64,
            }
        })
        .collect()
}

fn dist(a: Point2, b: Point2) -> f64 {
    let dx = (a.x - b.x) as f64;
    let dy = (a.y - b.y) as f64;
    (dx * dx + dy * dy).sqrt() / SCALE
}

/// Building the snowflake seed through one generation at nominal segment
/// length 100 must grow the drawn length by the classic 4/3 ratio: each
/// of the three sides becomes four segments of a third the length, for a
/// total drawn length of `3 * 100 * (4/3)`.
#[test]
fn koch_first_generation_path_length() {
    let seed = vec![
        Koch::F,
        Koch::Minus,
        Koch::Minus,
        Koch::F,
        Koch::Minus,
        Koch::Minus,
        Koch::F,
    ];
    let sys = LSystem::new(seed).iterate_n(1);
    let segment = 100.0 / 3.0;
    let dirs = koch_dirs(segment);
    let pts = sys.reify(&dirs, Point2 { x: 0, y: 0 });

    // One emitted point per drawing symbol: 3 sides of 4 segments each.
    assert_eq!(pts.len(), 12);

    // Consecutive emitted points are one segment apart; the final
    // segment ends at a point that is not emitted, so its nominal length
    // closes the sum.
    let mut total: f64 = segment;
    for w in pts.windows(2) {
        total += dist(w[0], w[1]);
    }
    let expected = 3.0 * 100.0 * (4.0 / 3.0);
    assert!((total - expected).abs() < 0.01, "total was {total}");
}

/// The reified snowflake outline keeps its corners under condensation:
/// after one generation no three consecutive points are collinear, so
/// the condenser leaves the curve unchanged.
#[test]
fn koch_first_generation_has_no_redundant_points() {
    let seed = vec![
        Koch::F,
        Koch::Minus,
        Koch::Minus,
        Koch::F,
        Koch::Minus,
        Koch::Minus,
        Koch::F,
    ];
    let sys = LSystem::new(seed).iterate_n(1);
    let dirs = koch_dirs(100.0 / 3.0);
    let pts = sys.reify(&dirs, Point2 { x: 0, y: 0 });
    let condensed = condense_collinear(pts.clone(), 16);
    assert_eq!(condensed, pts);
}

/// A straight run of forward symbols condenses to its two endpoints.
#[test]
fn straight_run_condenses_to_endpoints() {
    let sys = LSystem::new(vec![Koch::F, Koch::F, Koch::F, Koch::F]);
    let dirs = koch_dirs(10.0);
    let pts = sys.reify(&dirs, Point2 { x: 0, y: 0 });
    assert_eq!(pts.len(), 4);
    let condensed = condense_collinear(pts.clone(), 0);
    assert_eq!(condensed, vec![pts[0], pts[3]]);
}
