//! The Sierpinski arrowhead alphabet.
//!
//! Nominal turn angle 120°, realised as a three-slot step table. Both `F`
//! and `G` draw. This alphabet deliberately inverts the sign convention of
//! the other curves: `Plus` turns right and `Minus` turns left. That is
//! part of the curve's geometry and must be preserved.

use vstd::prelude::*;

use crate::l_system::{Grammar, TurtleAction};

verus! {

/// Alphabet for the Sierpinski arrowhead grammar.
#[derive(Clone, Copy, Debug, PartialEq, Eq, Structural)]
pub enum Sierpinski {
    F,
    G,
    Plus,
    Minus,
}

impl Grammar for Sierpinski {
    open spec fn production_spec(self) -> Seq<Sierpinski> {
        match self {
            Sierpinski::F => seq![
                Sierpinski::F, Sierpinski::Minus, Sierpinski::G, Sierpinski::Plus,
                Sierpinski::F, Sierpinski::Plus, Sierpinski::G, Sierpinski::Minus,
                Sierpinski::F,
            ],
            Sierpinski::G => seq![Sierpinski::G, Sierpinski::G],
            Sierpinski::Plus => seq![Sierpinski::Plus],
            Sierpinski::Minus => seq![Sierpinski::Minus],
        }
    }

    open spec fn action_spec(self) -> TurtleAction {
        match self {
            Sierpinski::F => TurtleAction::Draw,
            Sierpinski::G => TurtleAction::Draw,
            Sierpinski::Plus => TurtleAction::TurnRight,
            Sierpinski::Minus => TurtleAction::TurnLeft,
        }
    }

    fn production_rules(self) -> (r: Vec<Sierpinski>) {
        let mut r: Vec<Sierpinski> = Vec::new();
        match self {
            Sierpinski::F => {
                r.push(Sierpinski::F);
                r.push(Sierpinski::Minus);
                r.push(Sierpinski::G);
                r.push(Sierpinski::Plus);
                r.push(Sierpinski::F);
                r.push(Sierpinski::Plus);
                r.push(Sierpinski::G);
                r.push(Sierpinski::Minus);
                r.push(Sierpinski::F);
            }
            Sierpinski::G => {
                r.push(Sierpinski::G);
                r.push(Sierpinski::G);
            }
            Sierpinski::Plus => {
                r.push(Sierpinski::Plus);
            }
            Sierpinski::Minus => {
                r.push(Sierpinski::Minus);
            }
        }
        assert(r@ =~= self.production_spec());
        r
    }

    fn action(self) -> (a: TurtleAction) {
        match self {
            Sierpinski::F => TurtleAction::Draw,
            Sierpinski::G => TurtleAction::Draw,
            Sierpinski::Plus => TurtleAction::TurnRight,
            Sierpinski::Minus => TurtleAction::TurnLeft,
        }
    }
}

/// Fixed-point law: the turn symbols expand to themselves.
pub proof fn lemma_sierpinski_turns_fixed()
    ensures
        Sierpinski::Plus.production_spec() == seq![Sierpinski::Plus],
        Sierpinski::Minus.production_spec() == seq![Sierpinski::Minus],
{
}

} // verus!
