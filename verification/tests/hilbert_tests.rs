use fractal_curves::hilbert::{d2xy, HilbertIterator, Point};

#[test]
fn hilbert_n_2() {
    assert_eq!(d2xy(2, 0), Point { x: 0, y: 0 });

    assert_eq!(d2xy(2, 1), Point { x: 0, y: 1 });

    assert_eq!(d2xy(2, 2), Point { x: 1, y: 1 });

    assert_eq!(d2xy(2, 3), Point { x: 1, y: 0 });
}

#[test]
fn iteration_limit_2() {
    let iter = HilbertIterator::new_with_iteration(2);
    assert_eq!(iter.d_max(), 15);
}

#[test]
fn iteration_limit_3() {
    let iter = HilbertIterator::new_with_iteration(3);
    assert_eq!(iter.d_max(), 63);
}

#[test]
fn hilbert_walk_depth_1() {
    let mut iter = HilbertIterator::new_with_iteration(1);
    assert_eq!(iter.n(), 2);
    assert_eq!(iter.d_max(), 3);
    assert_eq!(
        iter.next(),
        Some((Point { x: 0, y: 0 }, Point { x: 0, y: 1 }))
    );
    assert_eq!(
        iter.next(),
        Some((Point { x: 0, y: 1 }, Point { x: 1, y: 1 }))
    );
    assert_eq!(
        iter.next(),
        Some((Point { x: 1, y: 1 }, Point { x: 1, y: 0 }))
    );
    assert_eq!(iter.next(), None);
}

#[test]
fn hilbert_cells_cover_grid() {
    // Depth 2: the sixteen distances visit each cell of the 4 by 4 grid
    // exactly once, each step moving to an adjacent cell.
    let mut seen = [[false; 4]; 4];
    for d in 0..16 {
        let pt = d2xy(4, d);
        assert!(pt.x() < 4 && pt.y() < 4);
        assert!(!seen[pt.x()][pt.y()]);
        seen[pt.x()][pt.y()] = true;
        if d > 0 {
            let prev = d2xy(4, d - 1);
            let dx = pt.x() as i64 - prev.x() as i64;
            let dy = pt.y() as i64 - prev.y() as i64;
            assert_eq!(dx.abs() + dy.abs(), 1);
        }
    }
}
