use fractal_curves::collinear::{are_collinear, condense_collinear};
use fractal_curves::point::Point2;

fn p(x: i64, y: i64) -> Point2 {
    Point2 { x, y }
}

#[test]
fn collinear_on_a_line() {
    assert!(are_collinear(p(0, 0), p(1, 0), p(2, 0), 0));
    assert!(are_collinear(p(0, 0), p(1, 1), p(2, 2), 0));
    assert!(!are_collinear(p(0, 0), p(1, 0), p(1, 1), 0));
}

#[test]
fn collinear_within_tolerance() {
    // The triangle (0,0), (100, 1), (200, 0) has doubled area 200.
    assert!(!are_collinear(p(0, 0), p(100, 1), p(200, 0), 199));
    assert!(are_collinear(p(0, 0), p(100, 1), p(200, 0), 200));
}

#[test]
fn condense_drops_middle_of_three() {
    let pts = vec![p(0, 0), p(1, 0), p(2, 0)];
    assert_eq!(condense_collinear(pts, 0), vec![p(0, 0), p(2, 0)]);
}

#[test]
fn condense_keeps_genuine_corner() {
    let pts = vec![p(0, 0), p(1, 0), p(1, 1)];
    assert_eq!(condense_collinear(pts, 0), vec![p(0, 0), p(1, 0), p(1, 1)]);
}

#[test]
fn condense_five_point_line() {
    let pts = vec![p(0, 0), p(1, 0), p(2, 0), p(3, 0), p(4, 0)];
    assert_eq!(condense_collinear(pts, 0), vec![p(0, 0), p(4, 0)]);
}

#[test]
fn condense_short_inputs_unchanged() {
    let empty: Vec<Point2> = vec![];
    assert_eq!(condense_collinear(empty, 0), vec![]);
    assert_eq!(condense_collinear(vec![p(3, 4)], 0), vec![p(3, 4)]);
    assert_eq!(
        condense_collinear(vec![p(3, 4), p(5, 6)], 0),
        vec![p(3, 4), p(5, 6)]
    );
}

#[test]
fn condense_end_of_sequence() {
    // The final point is collinear with the last two retained ones: the
    // stale retained point goes, the true final point stays.
    let pts = vec![p(0, 0), p(0, 1), p(1, 1), p(2, 1), p(3, 1)];
    assert_eq!(
        condense_collinear(pts, 0),
        vec![p(0, 0), p(0, 1), p(3, 1)]
    );
}

#[test]
fn condense_end_fixup_drops_stale_point() {
    // The scan retains (1,0), later drops everything up to a revisit of
    // (1,0): the closing check then finds the stale retained point
    // collinear with its predecessor and the true final point.
    let pts = vec![p(0, 0), p(1, 0), p(1, 1), p(1, 0)];
    assert_eq!(condense_collinear(pts, 0), vec![p(0, 0), p(1, 0)]);
}

#[test]
fn condense_twice_equals_once() {
    let zigzag = vec![
        p(0, 0),
        p(1, 0),
        p(2, 0),
        p(3, 2),
        p(4, 2),
        p(5, 2),
        p(6, 0),
    ];
    let once = condense_collinear(zigzag.clone(), 0);
    let twice = condense_collinear(once.clone(), 0);
    assert_eq!(once, twice);
    assert_eq!(once, vec![p(0, 0), p(2, 0), p(3, 2), p(5, 2), p(6, 0)]);
}

#[test]
fn condense_with_tolerance_smooths_shallow_bend() {
    let pts = vec![p(0, 0), p(100, 1), p(200, 0), p(200, 100)];
    // Exact arithmetic keeps the shallow bend ...
    assert_eq!(condense_collinear(pts.clone(), 0).len(), 4);
    // ... a loosened tolerance treats it as a straight run.
    assert_eq!(
        condense_collinear(pts, 200),
        vec![p(0, 0), p(200, 0), p(200, 100)]
    );
}
