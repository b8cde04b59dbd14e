//! The terdragon curve alphabet.
//!
//! Nominal turn angle 120°, realised as a three-slot step table.

use vstd::prelude::*;

use crate::l_system::{Grammar, TurtleAction};

verus! {

/// Alphabet for the terdragon curve grammar.
#[derive(Clone, Copy, Debug, PartialEq, Eq, Structural)]
pub enum TerDragon {
    F,
    Plus,
    Minus,
}

impl Grammar for TerDragon {
    open spec fn production_spec(self) -> Seq<TerDragon> {
        match self {
            TerDragon::F => seq![
                TerDragon::F, TerDragon::Plus, TerDragon::F, TerDragon::Minus, TerDragon::F,
            ],
            TerDragon::Plus => seq![TerDragon::Plus],
            TerDragon::Minus => seq![TerDragon::Minus],
        }
    }

    open spec fn action_spec(self) -> TurtleAction {
        match self {
            TerDragon::F => TurtleAction::Draw,
            TerDragon::Plus => TurtleAction::TurnLeft,
            TerDragon::Minus => TurtleAction::TurnRight,
        }
    }

    fn production_rules(self) -> (r: Vec<TerDragon>) {
        let mut r: Vec<TerDragon> = Vec::new();
        match self {
            TerDragon::F => {
                r.push(TerDragon::F);
                r.push(TerDragon::Plus);
                r.push(TerDragon::F);
                r.push(TerDragon::Minus);
                r.push(TerDragon::F);
            }
            TerDragon::Plus => {
                r.push(TerDragon::Plus);
            }
            TerDragon::Minus => {
                r.push(TerDragon::Minus);
            }
        }
        assert(r@ =~= self.production_spec());
        r
    }

    fn action(self) -> (a: TurtleAction) {
        match self {
            TerDragon::F => TurtleAction::Draw,
            TerDragon::Plus => TurtleAction::TurnLeft,
            TerDragon::Minus => TurtleAction::TurnRight,
        }
    }
}

/// Fixed-point law: the turn symbols expand to themselves.
pub proof fn lemma_terdragon_turns_fixed()
    ensures
        TerDragon::Plus.production_spec() == seq![TerDragon::Plus],
        TerDragon::Minus.production_spec() == seq![TerDragon::Minus],
{
}

} // verus!
