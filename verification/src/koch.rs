//! The Koch curve alphabet.
//!
//! Nominal corner angle 120°, realised as a six-slot step table (60° per
//! turn slot). Every generation replaces each `F` by eight symbols, four
//! of which draw, so the drawn length grows by the classic 4/3 ratio when
//! the segment length is divided by three.

use vstd::prelude::*;

use crate::l_system::{Grammar, TurtleAction, expand_seq, expand_n};

verus! {

/// Alphabet for the Koch curve grammar.
#[derive(Clone, Copy, Debug, PartialEq, Eq, Structural)]
pub enum Koch {
    F,
    Plus,
    Minus,
}

impl Grammar for Koch {
    open spec fn production_spec(self) -> Seq<Koch> {
        match self {
            Koch::F => seq![
                Koch::F, Koch::Plus, Koch::F, Koch::Minus,
                Koch::Minus, Koch::F, Koch::Plus, Koch::F,
            ],
            Koch::Plus => seq![Koch::Plus],
            Koch::Minus => seq![Koch::Minus],
        }
    }

    open spec fn action_spec(self) -> TurtleAction {
        match self {
            Koch::F => TurtleAction::Draw,
            Koch::Plus => TurtleAction::TurnLeft,
            Koch::Minus => TurtleAction::TurnRight,
        }
    }

    fn production_rules(self) -> (r: Vec<Koch>) {
        let mut r: Vec<Koch> = Vec::new();
        match self {
            Koch::F => {
                r.push(Koch::F);
                r.push(Koch::Plus);
                r.push(Koch::F);
                r.push(Koch::Minus);
                r.push(Koch::Minus);
                r.push(Koch::F);
                r.push(Koch::Plus);
                r.push(Koch::F);
            }
            Koch::Plus => {
                r.push(Koch::Plus);
            }
            Koch::Minus => {
                r.push(Koch::Minus);
            }
        }
        assert(r@ =~= self.production_spec());
        r
    }

    fn action(self) -> (a: TurtleAction) {
        match self {
            Koch::F => TurtleAction::Draw,
            Koch::Plus => TurtleAction::TurnLeft,
            Koch::Minus => TurtleAction::TurnRight,
        }
    }
}

/// Fixed-point law: the turn symbols expand to themselves, so repeated
/// expansion leaves them untouched.
pub proof fn lemma_koch_turns_fixed()
    ensures
        Koch::Plus.production_spec() == seq![Koch::Plus],
        Koch::Minus.production_spec() == seq![Koch::Minus],
{
}

/// The number of `F` symbols in `s`.
pub open spec fn koch_forward_count(s: Seq<Koch>) -> int
    decreases s.len(),
{
    if s.len() == 0 {
        0
    } else {
        (if s[0] == Koch::F { 1int } else { 0int }) + koch_forward_count(s.drop_first())
    }
}

/// Forward counting distributes over concatenation.
pub proof fn lemma_koch_count_concat(a: Seq<Koch>, b: Seq<Koch>)
    ensures
        koch_forward_count(a + b) == koch_forward_count(a) + koch_forward_count(b),
    decreases a.len(),
{
    if a.len() == 0 {
        assert(a + b =~= b);
    } else {
        assert((a + b).drop_first() =~= a.drop_first() + b);
        lemma_koch_count_concat(a.drop_first(), b);
    }
}

/// Expansion length law, one generation: each `F` becomes eight symbols
/// and every other symbol stays a single symbol, so the length grows by
/// seven per `F`; and each `F` becomes four `F`s.
pub proof fn lemma_koch_expand_counts(s: Seq<Koch>)
    ensures
        expand_seq(s).len() == s.len() + 7 * koch_forward_count(s),
        koch_forward_count(expand_seq(s)) == 4 * koch_forward_count(s),
    decreases s.len(),
{
    if s.len() == 0 {
    } else {
        lemma_koch_expand_counts(s.drop_first());
        lemma_koch_count_concat(s[0].production_spec(), expand_seq(s.drop_first()));
        assert(koch_forward_count(s[0].production_spec())
            == if s[0] == Koch::F { 4int } else { 0int }) by {
            reveal_with_fuel(koch_forward_count, 9);
        }
    }
}

/// The geometric sum `1 + 4 + ... + 4^(n-1)`; the Koch length recurrence
/// telescopes through it.
pub open spec fn koch_geometric(n: nat) -> int
    decreases n,
{
    if n == 0 {
        0
    } else {
        koch_geometric((n - 1) as nat) + koch_power((n - 1) as nat)
    }
}

/// `4^n`, the factor by which the `F` count grows over `n` generations.
pub open spec fn koch_power(n: nat) -> int
    decreases n,
{
    if n == 0 {
        1
    } else {
        4 * koch_power((n - 1) as nat)
    }
}

/// Expansion length law, `n` generations: the `F` count grows by a factor
/// `4^n`, and the length follows the telescoped recurrence.
pub proof fn lemma_koch_expand_n_counts(s: Seq<Koch>, n: nat)
    ensures
        koch_forward_count(expand_n(s, n)) == koch_power(n) * koch_forward_count(s),
        expand_n(s, n).len() == s.len() + 7 * koch_geometric(n) * koch_forward_count(s),
    decreases n,
{
    if n == 0 {
        assert(expand_n(s, n) == s);
        assert(koch_geometric(n) == 0);
        assert(koch_power(n) == 1);
        assert(7 * koch_geometric(n) * koch_forward_count(s) == 0) by (nonlinear_arith)
            requires koch_geometric(n) == 0;
        assert(koch_power(n) * koch_forward_count(s) == koch_forward_count(s)) by (nonlinear_arith)
            requires koch_power(n) == 1;
    } else {
        let m = (n - 1) as nat;
        lemma_koch_expand_n_counts(s, m);
        lemma_koch_expand_counts(expand_n(s, m));
        let f = koch_forward_count(s);
        assert(koch_geometric(n) == koch_geometric(m) + koch_power(m));
        assert(koch_power(n) == 4 * koch_power(m));
        assert(koch_forward_count(expand_n(s, n)) == 4 * (koch_power(m) * f));
        assert(4 * (koch_power(m) * f) == (4 * koch_power(m)) * f) by (nonlinear_arith);
        assert(expand_n(s, n).len()
            == s.len() + 7 * koch_geometric(m) * f + 7 * (koch_power(m) * f));
        assert(7 * koch_geometric(m) * f + 7 * (koch_power(m) * f)
            == 7 * (koch_geometric(m) + koch_power(m)) * f) by (nonlinear_arith);
        assert(7 * (koch_geometric(m) + koch_power(m)) * f == 7 * koch_geometric(n) * f) by (nonlinear_arith)
            requires koch_geometric(n) == koch_geometric(m) + koch_power(m);
    }
}

} // verus!
