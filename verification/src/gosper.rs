//! The Gosper curve alphabet.
//!
//! Nominal turn angle 60°, realised as a six-slot step table. Both `A`
//! and `B` draw; they differ only in their production rules.

use vstd::prelude::*;

use crate::l_system::{Grammar, TurtleAction};

verus! {

/// Alphabet for the Gosper curve grammar.
#[derive(Clone, Copy, Debug, PartialEq, Eq, Structural)]
pub enum Gosper {
    A,
    B,
    Plus,
    Minus,
}

impl Grammar for Gosper {
    open spec fn production_spec(self) -> Seq<Gosper> {
        match self {
            Gosper::A => seq![
                Gosper::A, Gosper::Minus, Gosper::B, Gosper::Minus, Gosper::Minus,
                Gosper::B, Gosper::Plus, Gosper::A, Gosper::Plus, Gosper::Plus,
                Gosper::A, Gosper::A, Gosper::Plus, Gosper::B, Gosper::Minus,
            ],
            Gosper::B => seq![
                Gosper::Plus, Gosper::A, Gosper::Minus, Gosper::B, Gosper::B,
                Gosper::Minus, Gosper::Minus, Gosper::B, Gosper::Minus, Gosper::A,
                Gosper::Plus, Gosper::Plus, Gosper::A, Gosper::Plus, Gosper::B,
            ],
            Gosper::Plus => seq![Gosper::Plus],
            Gosper::Minus => seq![Gosper::Minus],
        }
    }

    open spec fn action_spec(self) -> TurtleAction {
        match self {
            Gosper::A => TurtleAction::Draw,
            Gosper::B => TurtleAction::Draw,
            Gosper::Plus => TurtleAction::TurnLeft,
            Gosper::Minus => TurtleAction::TurnRight,
        }
    }

    fn production_rules(self) -> (r: Vec<Gosper>) {
        let mut r: Vec<Gosper> = Vec::new();
        match self {
            Gosper::A => {
                r.push(Gosper::A);
                r.push(Gosper::Minus);
                r.push(Gosper::B);
                r.push(Gosper::Minus);
                r.push(Gosper::Minus);
                r.push(Gosper::B);
                r.push(Gosper::Plus);
                r.push(Gosper::A);
                r.push(Gosper::Plus);
                r.push(Gosper::Plus);
                r.push(Gosper::A);
                r.push(Gosper::A);
                r.push(Gosper::Plus);
                r.push(Gosper::B);
                r.push(Gosper::Minus);
            }
            Gosper::B => {
                r.push(Gosper::Plus);
                r.push(Gosper::A);
                r.push(Gosper::Minus);
                r.push(Gosper::B);
                r.push(Gosper::B);
                r.push(Gosper::Minus);
                r.push(Gosper::Minus);
                r.push(Gosper::B);
                r.push(Gosper::Minus);
                r.push(Gosper::A);
                r.push(Gosper::Plus);
                r.push(Gosper::Plus);
                r.push(Gosper::A);
                r.push(Gosper::Plus);
                r.push(Gosper::B);
            }
            Gosper::Plus => {
                r.push(Gosper::Plus);
            }
            Gosper::Minus => {
                r.push(Gosper::Minus);
            }
        }
        assert(r@ =~= self.production_spec());
        r
    }

    fn action(self) -> (a: TurtleAction) {
        match self {
            Gosper::A => TurtleAction::Draw,
            Gosper::B => TurtleAction::Draw,
            Gosper::Plus => TurtleAction::TurnLeft,
            Gosper::Minus => TurtleAction::TurnRight,
        }
    }
}

/// Fixed-point law: the turn symbols expand to themselves.
pub proof fn lemma_gosper_turns_fixed()
    ensures
        Gosper::Plus.production_spec() == seq![Gosper::Plus],
        Gosper::Minus.production_spec() == seq![Gosper::Minus],
{
}

} // verus!
