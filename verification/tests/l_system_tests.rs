use fractal_curves::dragon::Dragon;
use fractal_curves::gosper::Gosper;
use fractal_curves::koch::Koch;
use fractal_curves::l_system::{Grammar, LSystem, ReificationIterator};
use fractal_curves::peano::Peano;
use fractal_curves::point::Point2;
use fractal_curves::sierpinski::Sierpinski;
use fractal_curves::terdragon::TerDragon;

fn p(x: i64, y: i64) -> Point2 {
    Point2 { x, y }
}

/// A four-slot step table for 90 degree alphabets, 100 units per step.
fn square_dirs() -> Vec<Point2> {
    vec![p(100, 0), p(0, 100), p(-100, 0), p(0, -100)]
}

#[test]
fn dragon_rule_table() {
    assert_eq!(Dragon::F.production_rules(), vec![Dragon::F]);
    assert_eq!(
        Dragon::X.production_rules(),
        vec![Dragon::X, Dragon::Plus, Dragon::Y, Dragon::F, Dragon::Plus]
    );
    assert_eq!(
        Dragon::Y.production_rules(),
        vec![Dragon::Minus, Dragon::F, Dragon::X, Dragon::Minus, Dragon::Y]
    );
    assert_eq!(Dragon::Plus.production_rules(), vec![Dragon::Plus]);
    assert_eq!(Dragon::Minus.production_rules(), vec![Dragon::Minus]);
}

#[test]
fn terdragon_rule_table() {
    assert_eq!(
        TerDragon::F.production_rules(),
        vec![
            TerDragon::F,
            TerDragon::Plus,
            TerDragon::F,
            TerDragon::Minus,
            TerDragon::F
        ]
    );
    assert_eq!(TerDragon::Plus.production_rules(), vec![TerDragon::Plus]);
    assert_eq!(TerDragon::Minus.production_rules(), vec![TerDragon::Minus]);
}

#[test]
fn koch_rule_table() {
    assert_eq!(
        Koch::F.production_rules(),
        vec![
            Koch::F,
            Koch::Plus,
            Koch::F,
            Koch::Minus,
            Koch::Minus,
            Koch::F,
            Koch::Plus,
            Koch::F
        ]
    );
    assert_eq!(Koch::Plus.production_rules(), vec![Koch::Plus]);
    assert_eq!(Koch::Minus.production_rules(), vec![Koch::Minus]);
}

#[test]
fn gosper_rule_table() {
    assert_eq!(
        Gosper::A.production_rules(),
        vec![
            Gosper::A,
            Gosper::Minus,
            Gosper::B,
            Gosper::Minus,
            Gosper::Minus,
            Gosper::B,
            Gosper::Plus,
            Gosper::A,
            Gosper::Plus,
            Gosper::Plus,
            Gosper::A,
            Gosper::A,
            Gosper::Plus,
            Gosper::B,
            Gosper::Minus
        ]
    );
    assert_eq!(
        Gosper::B.production_rules(),
        vec![
            Gosper::Plus,
            Gosper::A,
            Gosper::Minus,
            Gosper::B,
            Gosper::B,
            Gosper::Minus,
            Gosper::Minus,
            Gosper::B,
            Gosper::Minus,
            Gosper::A,
            Gosper::Plus,
            Gosper::Plus,
            Gosper::A,
            Gosper::Plus,
            Gosper::B
        ]
    );
    assert_eq!(Gosper::Plus.production_rules(), vec![Gosper::Plus]);
    assert_eq!(Gosper::Minus.production_rules(), vec![Gosper::Minus]);
}

#[test]
fn peano_rule_table() {
    assert_eq!(Peano::F.production_rules(), vec![Peano::F]);
    assert_eq!(
        Peano::L.production_rules(),
        vec![
            Peano::L,
            Peano::F,
            Peano::R,
            Peano::F,
            Peano::L,
            Peano::Minus,
            Peano::F,
            Peano::Minus,
            Peano::R,
            Peano::F,
            Peano::L,
            Peano::F,
            Peano::R,
            Peano::Plus,
            Peano::F,
            Peano::Plus,
            Peano::L,
            Peano::F,
            Peano::R,
            Peano::F,
            Peano::L
        ]
    );
    assert_eq!(
        Peano::R.production_rules(),
        vec![
            Peano::R,
            Peano::F,
            Peano::L,
            Peano::F,
            Peano::R,
            Peano::Plus,
            Peano::F,
            Peano::Plus,
            Peano::L,
            Peano::F,
            Peano::R,
            Peano::F,
            Peano::L,
            Peano::Minus,
            Peano::F,
            Peano::Minus,
            Peano::R,
            Peano::F,
            Peano::L,
            Peano::F,
            Peano::R
        ]
    );
    assert_eq!(Peano::Plus.production_rules(), vec![Peano::Plus]);
    assert_eq!(Peano::Minus.production_rules(), vec![Peano::Minus]);
}

#[test]
fn sierpinski_rule_table() {
    assert_eq!(
        Sierpinski::F.production_rules(),
        vec![
            Sierpinski::F,
            Sierpinski::Minus,
            Sierpinski::G,
            Sierpinski::Plus,
            Sierpinski::F,
            Sierpinski::Plus,
            Sierpinski::G,
            Sierpinski::Minus,
            Sierpinski::F
        ]
    );
    assert_eq!(
        Sierpinski::G.production_rules(),
        vec![Sierpinski::G, Sierpinski::G]
    );
    assert_eq!(Sierpinski::Plus.production_rules(), vec![Sierpinski::Plus]);
    assert_eq!(Sierpinski::Minus.production_rules(), vec![Sierpinski::Minus]);
}

#[test]
fn koch_expansion_lengths() {
    // The snowflake seed: seven symbols, three of them forward.
    let seed = vec![
        Koch::F,
        Koch::Minus,
        Koch::Minus,
        Koch::F,
        Koch::Minus,
        Koch::Minus,
        Koch::F,
    ];
    assert_eq!(LSystem::new(seed.clone()).iterate_n(0).len(), 7);
    assert_eq!(LSystem::new(seed.clone()).iterate_n(1).len(), 28);
    assert_eq!(LSystem::new(seed.clone()).iterate_n(2).len(), 112);
    assert_eq!(LSystem::new(seed).iterate_n(3).len(), 448);
}

#[test]
fn peano_expansion_lengths() {
    // One placeholder symbol expands into twenty-one symbols.
    assert_eq!(LSystem::new(vec![Peano::L]).iterate_n(1).len(), 21);
}

#[test]
fn iterate_n_matches_repeated_iterate() {
    let seed = vec![Koch::F, Koch::Minus, Koch::Minus, Koch::F];
    let fused = LSystem::new(seed.clone()).iterate_n(3);
    let stepped = LSystem::new(seed).iterate().iterate().iterate();
    assert_eq!(fused.iter(), stepped.iter());
    assert_eq!(fused.len(), stepped.len());
}

#[test]
fn reify_emits_one_point_per_drawing_symbol() {
    let sys = LSystem::new(vec![
        Dragon::F,
        Dragon::X,
        Dragon::Plus,
        Dragon::F,
        Dragon::Y,
        Dragon::Minus,
        Dragon::F,
    ]);
    let pts = sys.reify(&square_dirs(), p(0, 0));
    // Three `F` symbols, three points, in traversal order.
    assert_eq!(pts, vec![p(0, 0), p(100, 0), p(100, 100)]);
}

#[test]
fn reify_turns_are_additive() {
    // Three-slot table: left turns cycle forward, right turns cycle back.
    let dirs = vec![p(100, 0), p(-50, 87), p(-50, -87)];
    let sys = LSystem::new(vec![
        TerDragon::F,
        TerDragon::Plus,
        TerDragon::F,
        TerDragon::Minus,
        TerDragon::F,
    ]);
    let pts = sys.reify(&dirs, p(0, 0));
    assert_eq!(pts, vec![p(0, 0), p(100, 0), p(50, 87)]);
}

#[test]
fn sierpinski_turn_convention_is_inverted() {
    let dirs = vec![p(100, 0), p(-50, 87), p(-50, -87)];
    // `Plus` turns right here: the second step uses the last table slot.
    let sys = LSystem::new(vec![Sierpinski::F, Sierpinski::Plus, Sierpinski::F]);
    let pts = sys.reify(&dirs, p(0, 0));
    assert_eq!(pts, vec![p(0, 0), p(100, 0)]);
    // The third point bends downwards — the mirror image of the
    // terdragon's `Plus`, which bends up.
    let sys = LSystem::new(vec![
        Sierpinski::F,
        Sierpinski::Plus,
        Sierpinski::F,
        Sierpinski::F,
    ]);
    let pts = sys.reify(&dirs, p(0, 0));
    assert_eq!(pts, vec![p(0, 0), p(100, 0), p(50, -87)]);
}

#[test]
fn reification_iterator_yields_prefix_lazily() {
    let sys = LSystem::new(vec![
        Dragon::X,
        Dragon::F,
        Dragon::Plus,
        Dragon::F,
        Dragon::Y,
    ]);
    let dirs = square_dirs();
    let mut iter = ReificationIterator::new(p(0, 0));
    assert_eq!(iter.next(&sys, &dirs), Some(p(0, 0)));
    assert_eq!(iter.next(&sys, &dirs), Some(p(100, 0)));
    assert_eq!(iter.next(&sys, &dirs), None);
    assert_eq!(iter.next(&sys, &dirs), None);
}

#[test]
fn reification_iterator_matches_full_pass() {
    let seed = vec![
        Koch::F,
        Koch::Minus,
        Koch::Minus,
        Koch::F,
        Koch::Minus,
        Koch::Minus,
        Koch::F,
    ];
    let sys = LSystem::new(seed).iterate();
    let dirs = vec![
        p(100, 0),
        p(50, 87),
        p(-50, 87),
        p(-100, 0),
        p(-50, -87),
        p(50, -87),
    ];
    let full = sys.reify(&dirs, p(0, 0));
    let mut lazy = Vec::new();
    let mut iter = ReificationIterator::new(p(0, 0));
    while let Some(pt) = iter.next(&sys, &dirs) {
        lazy.push(pt);
    }
    assert_eq!(full, lazy);
}
