//! The dragon curve alphabet.
//!
//! Nominal turn angle 90°, realised as a four-slot step table. `X` and `Y`
//! are placeholder symbols that steer the rewriting but draw nothing.

use vstd::prelude::*;

use crate::l_system::{Grammar, TurtleAction};

verus! {

/// Alphabet for the dragon curve grammar.
#[derive(Clone, Copy, Debug, PartialEq, Eq, Structural)]
pub enum Dragon {
    F,
    X,
    Y,
    Plus,
    Minus,
}

impl Grammar for Dragon {
    open spec fn production_spec(self) -> Seq<Dragon> {
        match self {
            Dragon::F => seq![Dragon::F],
            Dragon::X => seq![Dragon::X, Dragon::Plus, Dragon::Y, Dragon::F, Dragon::Plus],
            Dragon::Y => seq![Dragon::Minus, Dragon::F, Dragon::X, Dragon::Minus, Dragon::Y],
            Dragon::Plus => seq![Dragon::Plus],
            Dragon::Minus => seq![Dragon::Minus],
        }
    }

    open spec fn action_spec(self) -> TurtleAction {
        match self {
            Dragon::F => TurtleAction::Draw,
            Dragon::X => TurtleAction::Stay,
            Dragon::Y => TurtleAction::Stay,
            Dragon::Plus => TurtleAction::TurnLeft,
            Dragon::Minus => TurtleAction::TurnRight,
        }
    }

    fn production_rules(self) -> (r: Vec<Dragon>) {
        let mut r: Vec<Dragon> = Vec::new();
        match self {
            Dragon::F => {
                r.push(Dragon::F);
            }
            Dragon::X => {
                r.push(Dragon::X);
                r.push(Dragon::Plus);
                r.push(Dragon::Y);
                r.push(Dragon::F);
                r.push(Dragon::Plus);
            }
            Dragon::Y => {
                r.push(Dragon::Minus);
                r.push(Dragon::F);
                r.push(Dragon::X);
                r.push(Dragon::Minus);
                r.push(Dragon::Y);
            }
            Dragon::Plus => {
                r.push(Dragon::Plus);
            }
            Dragon::Minus => {
                r.push(Dragon::Minus);
            }
        }
        assert(r@ =~= self.production_spec());
        r
    }

    fn action(self) -> (a: TurtleAction) {
        match self {
            Dragon::F => TurtleAction::Draw,
            Dragon::X => TurtleAction::Stay,
            Dragon::Y => TurtleAction::Stay,
            Dragon::Plus => TurtleAction::TurnLeft,
            Dragon::Minus => TurtleAction::TurnRight,
        }
    }
}

/// Fixed-point law: the turn symbols expand to themselves.
pub proof fn lemma_dragon_turns_fixed()
    ensures
        Dragon::Plus.production_spec() == seq![Dragon::Plus],
        Dragon::Minus.production_spec() == seq![Dragon::Minus],
{
}

} // verus!
