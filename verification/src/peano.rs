//! The Peano curve alphabet.
//!
//! Nominal turn angle 90°, realised as a four-slot step table. `L` and
//! `R` are placeholder symbols; each expands into twenty-one symbols, the
//! fastest growth of the alphabets here.

use vstd::prelude::*;

use crate::l_system::{Grammar, TurtleAction};

verus! {

/// Alphabet for the Peano curve grammar.
#[derive(Clone, Copy, Debug, PartialEq, Eq, Structural)]
pub enum Peano {
    F,
    L,
    R,
    Plus,
    Minus,
}

impl Grammar for Peano {
    open spec fn production_spec(self) -> Seq<Peano> {
        match self {
            Peano::F => seq![Peano::F],
            Peano::L => seq![
                Peano::L, Peano::F, Peano::R, Peano::F, Peano::L, Peano::Minus,
                Peano::F, Peano::Minus, Peano::R, Peano::F, Peano::L, Peano::F,
                Peano::R, Peano::Plus, Peano::F, Peano::Plus, Peano::L, Peano::F,
                Peano::R, Peano::F, Peano::L,
            ],
            Peano::R => seq![
                Peano::R, Peano::F, Peano::L, Peano::F, Peano::R, Peano::Plus,
                Peano::F, Peano::Plus, Peano::L, Peano::F, Peano::R, Peano::F,
                Peano::L, Peano::Minus, Peano::F, Peano::Minus, Peano::R, Peano::F,
                Peano::L, Peano::F, Peano::R,
            ],
            Peano::Plus => seq![Peano::Plus],
            Peano::Minus => seq![Peano::Minus],
        }
    }

    open spec fn action_spec(self) -> TurtleAction {
        match self {
            Peano::F => TurtleAction::Draw,
            Peano::L => TurtleAction::Stay,
            Peano::R => TurtleAction::Stay,
            Peano::Plus => TurtleAction::TurnLeft,
            Peano::Minus => TurtleAction::TurnRight,
        }
    }

    fn production_rules(self) -> (r: Vec<Peano>) {
        let mut r: Vec<Peano> = Vec::new();
        match self {
            Peano::F => {
                r.push(Peano::F);
            }
            Peano::L => {
                r.push(Peano::L);
                r.push(Peano::F);
                r.push(Peano::R);
                r.push(Peano::F);
                r.push(Peano::L);
                r.push(Peano::Minus);
                r.push(Peano::F);
                r.push(Peano::Minus);
                r.push(Peano::R);
                r.push(Peano::F);
                r.push(Peano::L);
                r.push(Peano::F);
                r.push(Peano::R);
                r.push(Peano::Plus);
                r.push(Peano::F);
                r.push(Peano::Plus);
                r.push(Peano::L);
                r.push(Peano::F);
                r.push(Peano::R);
                r.push(Peano::F);
                r.push(Peano::L);
            }
            Peano::R => {
                r.push(Peano::R);
                r.push(Peano::F);
                r.push(Peano::L);
                r.push(Peano::F);
                r.push(Peano::R);
                r.push(Peano::Plus);
                r.push(Peano::F);
                r.push(Peano::Plus);
                r.push(Peano::L);
                r.push(Peano::F);
                r.push(Peano::R);
                r.push(Peano::F);
                r.push(Peano::L);
                r.push(Peano::Minus);
                r.push(Peano::F);
                r.push(Peano::Minus);
                r.push(Peano::R);
                r.push(Peano::F);
                r.push(Peano::L);
                r.push(Peano::F);
                r.push(Peano::R);
            }
            Peano::Plus => {
                r.push(Peano::Plus);
            }
            Peano::Minus => {
                r.push(Peano::Minus);
            }
        }
        assert(r@ =~= self.production_spec());
        r
    }

    fn action(self) -> (a: TurtleAction) {
        match self {
            Peano::F => TurtleAction::Draw,
            Peano::L => TurtleAction::Stay,
            Peano::R => TurtleAction::Stay,
            Peano::Plus => TurtleAction::TurnLeft,
            Peano::Minus => TurtleAction::TurnRight,
        }
    }
}

/// Fixed-point law: the turn symbols expand to themselves.
pub proof fn lemma_peano_turns_fixed()
    ensures
        Peano::Plus.production_spec() == seq![Peano::Plus],
        Peano::Minus.production_spec() == seq![Peano::Minus],
{
}

} // verus!
