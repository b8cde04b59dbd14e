//! The Lindenmayer rewriting engine and the turtle interpreter.
//!
//! An `LSystem` owns the current working sequence of grammar symbols and
//! expands it one generation at a time: each symbol is replaced, in place
//! and in order, by its production rule. Reification then walks the final
//! sequence once with a turtle state — a fixed-point position and a
//! heading index into a caller-supplied table of step vectors — and emits
//! the pre-step position of every drawing symbol.

use vstd::prelude::*;

use crate::point::{Point2, PointModel, pm_add, pm_in_range, all_in_range, MAX_COORD};

verus! {

/// What one symbol does to the turtle state.
#[derive(Clone, Copy, Debug, PartialEq, Eq, Structural)]
pub enum TurtleAction {
    /// Step forward one table entry along the current heading and emit the
    /// position the step started from.
    Draw,
    /// Advance the heading by one table slot.
    TurnLeft,
    /// Retreat the heading by one table slot.
    TurnRight,
    /// A placeholder symbol: no movement, no point.
    Stay,
}

/// The capability every curve alphabet supplies: a production rule and a
/// turtle interpretation per symbol.
pub trait Grammar: Sized + Copy {
    /// The symbols that replace this one in the next generation.
    spec fn production_spec(self) -> Seq<Self>;

    /// How the turtle reacts to this symbol.
    spec fn action_spec(self) -> TurtleAction;

    /// Rules used to expand a symbol to many other symbols.
    fn production_rules(self) -> (r: Vec<Self>)
        ensures
            r@ == self.production_spec(),
    ;

    /// The turtle interpretation of this symbol.
    fn action(self) -> (a: TurtleAction)
        ensures
            a == self.action_spec(),
    ;
}

/// One full generation: every symbol of `s` replaced, in order, by its
/// production rule.
pub open spec fn expand_seq<T: Grammar>(s: Seq<T>) -> Seq<T>
    decreases s.len(),
{
    if s.len() == 0 {
        Seq::empty()
    } else {
        s[0].production_spec() + expand_seq(s.drop_first())
    }
}

/// `n` full generations applied to `s`.
pub open spec fn expand_n<T: Grammar>(s: Seq<T>, n: nat) -> Seq<T>
    decreases n,
{
    if n == 0 {
        s
    } else {
        expand_seq(expand_n(s, (n - 1) as nat))
    }
}

/// The combined length of the production rules of the symbols of `s`.
pub open spec fn rule_len_sum<T: Grammar>(s: Seq<T>) -> int
    decreases s.len(),
{
    if s.len() == 0 {
        0
    } else {
        s[0].production_spec().len() + rule_len_sum(s.drop_first())
    }
}

/// Expansion acts independently on the two halves of a concatenation.
pub proof fn lemma_expand_concat<T: Grammar>(a: Seq<T>, b: Seq<T>)
    ensures
        expand_seq(a + b) == expand_seq(a) + expand_seq(b),
    decreases a.len(),
{
    if a.len() == 0 {
        assert(a + b =~= b);
        assert(expand_seq(a) + expand_seq(b) =~= expand_seq(b));
    } else {
        assert((a + b).drop_first() =~= a.drop_first() + b);
        lemma_expand_concat(a.drop_first(), b);
        assert(a[0].production_spec() + (expand_seq(a.drop_first()) + expand_seq(b))
            =~= (a[0].production_spec() + expand_seq(a.drop_first())) + expand_seq(b));
    }
}

/// Extending a prefix by one symbol appends that symbol's production rule
/// to the expansion of the prefix.
pub proof fn lemma_expand_take_snoc<T: Grammar>(s: Seq<T>, i: int)
    requires
        0 <= i < s.len(),
    ensures
        expand_seq(s.take(i + 1)) == expand_seq(s.take(i)) + s[i].production_spec(),
{
    assert(s.take(i + 1) =~= s.take(i) + seq![s[i]]);
    lemma_expand_concat(s.take(i), seq![s[i]]);
    let single = seq![s[i]];
    assert(single.drop_first() =~= Seq::<T>::empty());
    assert(expand_seq(single) == single[0].production_spec() + expand_seq(single.drop_first()));
    assert(expand_seq(Seq::<T>::empty()) =~= Seq::<T>::empty());
    assert(expand_seq(single) =~= s[i].production_spec());
}

/// Expansion length law: the length of one generation is the sum of the
/// lengths of the production rules of the symbols of the previous one.
pub proof fn lemma_expand_len<T: Grammar>(s: Seq<T>)
    ensures
        expand_seq(s).len() == rule_len_sum(s),
    decreases s.len(),
{
    if s.len() == 0 {
    } else {
        lemma_expand_len(s.drop_first());
    }
}

/// A Lindenmayer system: the working sequence of the current generation.
#[derive(Clone, Debug)]
pub struct LSystem<T> {
    working_set: Vec<T>,
}

impl<T> View for LSystem<T> {
    type V = Seq<T>;

    closed spec fn view(&self) -> Seq<T> {
        self.working_set@
    }
}

impl<T> LSystem<T> {
    /// Starts a system from its seed.
    pub fn new(seed: Vec<T>) -> (s: Self)
        ensures
            s@ == seed@,
    {
        LSystem { working_set: seed }
    }

    /// The number of symbols in the working sequence.
    pub fn len(&self) -> (n: usize)
        ensures
            n == self@.len(),
    {
        self.working_set.len()
    }

    /// A read-only view of the symbols, in order.
    pub fn iter(&self) -> (r: &Vec<T>)
        ensures
            r@ == self@,
    {
        &self.working_set
    }
}

impl<T: Grammar> LSystem<T> {
    /// Advances the system to the next generation by expanding every
    /// symbol through its production rule, preserving relative order
    /// across the substitution groups.
    pub fn iterate(self) -> (s: Self)
        ensures
            s@ == expand_seq(self@),
    {
        let ghost ws = self.working_set@;
        let mut out: Vec<T> = Vec::new();
        assert(out@ =~= expand_seq(ws.take(0)));
        let n = self.working_set.len();
        for idx in 0..n
            invariant
                n == self.working_set.len(),
                self.working_set@ == ws,
                out@ == expand_seq(ws.take(idx as int)),
        {
            let mut piece = self.working_set[idx].production_rules();
            out.append(&mut piece);
            proof {
                lemma_expand_take_snoc(ws, idx as int);
            }
        }
        assert(ws.take(n as int) =~= ws);
        LSystem { working_set: out }
    }

    /// Advances the system by `n` generations; equivalent to calling
    /// `iterate` that many times.
    pub fn iterate_n(self, n: usize) -> (s: Self)
        ensures
            s@ == expand_n(self@, n as nat),
    {
        let ghost seed = self@;
        let mut sys = self;
        for k in 0..n
            invariant
                sys@ == expand_n(seed, k as nat),
        {
            sys = sys.iterate();
        }
        sys
    }
}

/// Each step vector handed to the interpreter must stay within this bound.
pub const STEP_LIMIT: i64 = 0x1_0000_0000;

/// The interpreter accepts at most this many symbols in one pass.
pub const SEQ_LIMIT: usize = 0x100_0000;

/// The turtle's starting position must stay within this bound.
pub const ORIGIN_LIMIT: i64 = 0x100_0000_0000_0000;

/// The turtle state threaded through one reification pass: the current
/// position and the current heading, an index into the step table.
#[derive(Clone, Copy, Debug, PartialEq, Eq, Structural)]
pub struct Turtle {
    pub position: Point2,
    pub heading: usize,
}

/// The mathematical shadow of a `Turtle`.
pub ghost struct TurtleModel {
    pub position: PointModel,
    pub heading: int,
}

impl View for Turtle {
    type V = TurtleModel;

    open spec fn view(&self) -> TurtleModel {
        TurtleModel { position: self.position@, heading: self.heading as int }
    }
}

/// The turtle state after one symbol: a drawing symbol steps the position
/// by the table entry of the current heading, a turn moves the heading one
/// slot around the table, a placeholder changes nothing.
pub open spec fn step_turtle<T: Grammar>(sym: T, t: TurtleModel, dirs: Seq<PointModel>) -> TurtleModel {
    match sym.action_spec() {
        TurtleAction::Draw => TurtleModel {
            position: pm_add(t.position, dirs[t.heading]),
            heading: t.heading,
        },
        TurtleAction::TurnLeft => TurtleModel {
            position: t.position,
            heading: if t.heading + 1 == dirs.len() { 0 } else { t.heading + 1 },
        },
        TurtleAction::TurnRight => TurtleModel {
            position: t.position,
            heading: if t.heading == 0 { dirs.len() - 1 } else { t.heading - 1 },
        },
        TurtleAction::Stay => t,
    }
}

/// The turtle state after a whole symbol sequence.
pub open spec fn turtle_after<T: Grammar>(syms: Seq<T>, dirs: Seq<PointModel>, t: TurtleModel) -> TurtleModel
    decreases syms.len(),
{
    if syms.len() == 0 {
        t
    } else {
        turtle_after(syms.drop_first(), dirs, step_turtle(syms[0], t, dirs))
    }
}

/// The points a reification pass emits: the pre-step position of every
/// drawing symbol, in traversal order.
pub open spec fn reify_model<T: Grammar>(syms: Seq<T>, dirs: Seq<PointModel>, t: TurtleModel) -> Seq<PointModel>
    decreases syms.len(),
{
    if syms.len() == 0 {
        Seq::empty()
    } else {
        let rest = reify_model(syms.drop_first(), dirs, step_turtle(syms[0], t, dirs));
        if syms[0].action_spec() == TurtleAction::Draw {
            seq![t.position] + rest
        } else {
            rest
        }
    }
}

/// The number of drawing symbols in `s`.
pub open spec fn count_draws<T: Grammar>(s: Seq<T>) -> int
    decreases s.len(),
{
    if s.len() == 0 {
        0
    } else {
        (if s[0].action_spec() == TurtleAction::Draw { 1int } else { 0int }) + count_draws(s.drop_first())
    }
}

/// Walking a concatenation leaves the turtle where walking the two halves
/// in turn leaves it.
pub proof fn lemma_turtle_after_concat<T: Grammar>(a: Seq<T>, b: Seq<T>, dirs: Seq<PointModel>, t: TurtleModel)
    ensures
        turtle_after(a + b, dirs, t) == turtle_after(b, dirs, turtle_after(a, dirs, t)),
    decreases a.len(),
{
    if a.len() == 0 {
        assert(a + b =~= b);
    } else {
        assert((a + b).drop_first() =~= a.drop_first() + b);
        lemma_turtle_after_concat(a.drop_first(), b, dirs, step_turtle(a[0], t, dirs));
    }
}

/// Order preservation under splitting: the points of a concatenation are
/// the points of the first half followed by the points of the second half,
/// the latter reified from the turtle state the first half ends in. In
/// particular, a prefix of the symbols contributes exactly a prefix of the
/// emitted points.
pub proof fn lemma_reify_concat<T: Grammar>(a: Seq<T>, b: Seq<T>, dirs: Seq<PointModel>, t: TurtleModel)
    ensures
        reify_model(a + b, dirs, t)
            == reify_model(a, dirs, t) + reify_model(b, dirs, turtle_after(a, dirs, t)),
    decreases a.len(),
{
    if a.len() == 0 {
        assert(a + b =~= b);
        assert(reify_model(a, dirs, t) + reify_model(b, dirs, t) =~= reify_model(b, dirs, t));
    } else {
        assert((a + b).drop_first() =~= a.drop_first() + b);
        let t1 = step_turtle(a[0], t, dirs);
        lemma_reify_concat(a.drop_first(), b, dirs, t1);
        if a[0].action_spec() == TurtleAction::Draw {
            assert(seq![t.position] + (reify_model(a.drop_first(), dirs, t1) + reify_model(b, dirs, turtle_after(a, dirs, t)))
                =~= (seq![t.position] + reify_model(a.drop_first(), dirs, t1)) + reify_model(b, dirs, turtle_after(a, dirs, t)));
        }
    }
}

/// Order preservation, counted: a reification pass emits exactly one point
/// per drawing symbol.
pub proof fn lemma_reify_count<T: Grammar>(syms: Seq<T>, dirs: Seq<PointModel>, t: TurtleModel)
    ensures
        reify_model(syms, dirs, t).len() == count_draws(syms),
    decreases syms.len(),
{
    if syms.len() == 0 {
    } else {
        lemma_reify_count(syms.drop_first(), dirs, step_turtle(syms[0], t, dirs));
    }
}

/// One symbol walks the turtle one step and emits its pre-step position
/// exactly when it draws.
pub proof fn lemma_reify_single<T: Grammar>(sym: T, dirs: Seq<PointModel>, t: TurtleModel)
    ensures
        turtle_after(seq![sym], dirs, t) == step_turtle(sym, t, dirs),
        reify_model(seq![sym], dirs, t) == if sym.action_spec() == TurtleAction::Draw {
            seq![t.position]
        } else {
            Seq::<PointModel>::empty()
        },
{
    let single = seq![sym];
    let t1 = step_turtle(sym, t, dirs);
    assert(single.drop_first() =~= Seq::<T>::empty());
    assert(turtle_after(single, dirs, t) == turtle_after(single.drop_first(), dirs, t1));
    assert(turtle_after(single.drop_first(), dirs, t1) == t1);
    assert(reify_model(single.drop_first(), dirs, t1) == Seq::<PointModel>::empty());
    if sym.action_spec() == TurtleAction::Draw {
        assert(reify_model(single, dirs, t) == seq![t.position] + Seq::<PointModel>::empty());
        assert(seq![t.position] + Seq::<PointModel>::empty() =~= seq![t.position]);
    } else {
        assert(reify_model(single, dirs, t) == Seq::<PointModel>::empty());
    }
}

/// Interprets one symbol: mutates the turtle according to the symbol's
/// action and hands back the pre-step position exactly when the symbol
/// draws.
pub fn interpret<T: Grammar>(symbol: &T, turtle: &mut Turtle, dirs: &Vec<Point2>) -> (pt: Option<Point2>)
    requires
        dirs@.len() >= 1,
        old(turtle).heading < dirs@.len(),
        all_in_range(dirs.deep_view(), STEP_LIMIT as int),
        pm_in_range(old(turtle)@.position, MAX_COORD as int),
    ensures
        final(turtle)@ == step_turtle(*symbol, old(turtle)@, dirs.deep_view()),
        final(turtle).heading < dirs@.len(),
        pt == if symbol.action_spec() == TurtleAction::Draw {
            Some(old(turtle).position)
        } else {
            Option::<Point2>::None
        },
{
    match symbol.action() {
        TurtleAction::Draw => {
            let cpy = turtle.position;
            let d = dirs[turtle.heading];
            proof {
                assert(pm_in_range(dirs.deep_view()[old(turtle).heading as int], STEP_LIMIT as int));
            }
            turtle.position = Point2 { x: turtle.position.x + d.x, y: turtle.position.y + d.y };
            Some(cpy)
        }
        TurtleAction::TurnLeft => {
            let dlen = dirs.len();
            turtle.heading = if turtle.heading + 1 == dlen { 0 } else { turtle.heading + 1 };
            None
        }
        TurtleAction::TurnRight => {
            let dlen = dirs.len();
            turtle.heading = if turtle.heading == 0 { dlen - 1 } else { turtle.heading - 1 };
            None
        }
        TurtleAction::Stay => None,
    }
}

impl<T: Grammar> LSystem<T> {
    /// Turns the working sequence into a series of points: a single
    /// forward pass from `origin` with heading slot 0, stepping by the
    /// table entry of the current heading for every drawing symbol and
    /// emitting the position each step started from.
    ///
    /// `dirs` holds one step vector per heading, in turn order; turning
    /// left moves one slot forward (wrapping), turning right one slot
    /// back. A table built from angle steps of `360 / dirs.len()` degrees
    /// at a fixed segment length reproduces classic turtle graphics.
    pub fn reify(&self, dirs: &Vec<Point2>, origin: Point2) -> (pts: Vec<Point2>)
        requires
            dirs@.len() >= 1,
            all_in_range(dirs.deep_view(), STEP_LIMIT as int),
            pm_in_range(origin@, ORIGIN_LIMIT as int),
            self@.len() <= SEQ_LIMIT,
        ensures
            pts.deep_view() == reify_model(
                self@,
                dirs.deep_view(),
                TurtleModel { position: origin@, heading: 0 },
            ),
            all_in_range(pts.deep_view(), MAX_COORD as int),
    {
        let ghost ws = self@;
        let ghost dv = dirs.deep_view();
        let ghost t0 = TurtleModel { position: origin@, heading: 0 };
        let mut turtle = Turtle { position: origin, heading: 0 };
        let mut pts: Vec<Point2> = Vec::new();
        assert(ws.take(0) =~= Seq::<T>::empty());
        let n = self.working_set.len();
        for i in 0..n
            invariant
                n == self.working_set.len(),
                self.working_set@ == ws,
                n <= SEQ_LIMIT,
                dirs@.len() >= 1,
                dirs.deep_view() == dv,
                all_in_range(dv, STEP_LIMIT as int),
                turtle.heading < dirs@.len(),
                turtle@ == turtle_after(ws.take(i as int), dv, t0),
                pm_in_range(turtle@.position, ORIGIN_LIMIT as int + i * STEP_LIMIT as int),
                pts.deep_view() == reify_model(ws.take(i as int), dv, t0),
                all_in_range(pts.deep_view(), MAX_COORD as int),
        {
            let ghost old_pts = pts.deep_view();
            let ghost old_t = turtle@;
            proof {
                assert(pm_in_range(turtle@.position, MAX_COORD as int));
            }
            let sym = self.working_set[i];
            if let Some(pt) = interpret(&sym, &mut turtle, dirs) {
                pts.push(pt);
                assert(pts.deep_view() =~= old_pts.push(pt@));
            }
            proof {
                let iv = i as int;
                assert(ws.take(iv + 1) =~= ws.take(iv) + seq![ws[iv]]);
                lemma_turtle_after_concat(ws.take(iv), seq![ws[iv]], dv, t0);
                lemma_reify_concat(ws.take(iv), seq![ws[iv]], dv, t0);
                let single = seq![ws[iv]];
                lemma_reify_single(ws[iv], dv, old_t);
                assert(pts.deep_view() =~= old_pts + reify_model(single, dv, old_t));
            }
        }
        assert(ws.take(n as int) =~= ws);
        pts
    }
}

/// A restartable, pull-based reification pass: each call to `next`
/// consumes symbols up to and including the next drawing symbol and hands
/// back the point it emits, so consumers may take a prefix of the curve
/// without forcing the remainder.
#[derive(Clone, Copy, Debug, PartialEq, Eq, Structural)]
pub struct ReificationIterator {
    pub turtle: Turtle,
    pub index: usize,
}

impl ReificationIterator {
    /// The cursor is in step with the pass over `sys` and `dirs`: it sits
    /// at a symbol boundary, its heading indexes the table, and its
    /// position cannot have wandered further than one step per symbol
    /// consumed.
    pub open spec fn in_step<T: Grammar>(self, sys: Seq<T>, dirs: Seq<PointModel>) -> bool {
        &&& self.index <= sys.len()
        &&& sys.len() <= SEQ_LIMIT
        &&& (self.turtle.heading as int) < dirs.len()
        &&& pm_in_range(
            self.turtle@.position,
            ORIGIN_LIMIT as int + self.index * STEP_LIMIT as int,
        )
    }

    /// Starts a fresh pass from `origin` with heading slot 0.
    pub fn new(origin: Point2) -> (r: Self)
        ensures
            r.turtle@ == (TurtleModel { position: origin@, heading: 0 }),
            r.index == 0,
    {
        ReificationIterator { turtle: Turtle { position: origin, heading: 0 }, index: 0 }
    }

    /// The next emitted point of the pass, or `None` once no drawing
    /// symbol remains; the turtle state advances past the emitting
    /// symbol either way.
    pub fn next<T: Grammar>(&mut self, system: &LSystem<T>, dirs: &Vec<Point2>) -> (r: Option<
        Point2,
    >)
        requires
            dirs@.len() >= 1,
            all_in_range(dirs.deep_view(), STEP_LIMIT as int),
            old(self).in_step(system@, dirs.deep_view()),
        ensures
            final(self).in_step(system@, dirs.deep_view()),
            old(self).index <= final(self).index,
            ({
                let dv = dirs.deep_view();
                let rem = reify_model(system@.skip(old(self).index as int), dv, old(self).turtle@);
                let rem2 = reify_model(
                    system@.skip(final(self).index as int),
                    dv,
                    final(self).turtle@,
                );
                match r {
                    Some(p) => rem.len() > 0 && p@ == rem[0] && rem2 == rem.drop_first(),
                    None => rem.len() == 0 && final(self).index == system@.len(),
                }
            }),
    {
        let ghost ws = system@;
        let ghost dv = dirs.deep_view();
        let ghost rem0 = reify_model(ws.skip(old(self).index as int), dv, old(self).turtle@);
        let symbols = system.iter();
        let n = symbols.len();
        while self.index < n
            invariant
                n == ws.len(),
                symbols@ == ws,
                ws == system@,
                dirs@.len() >= 1,
                dirs.deep_view() == dv,
                all_in_range(dv, STEP_LIMIT as int),
                self.in_step(ws, dv),
                old(self).index <= self.index,
                reify_model(ws.skip(self.index as int), dv, self.turtle@) == rem0,
                rem0 == reify_model(ws.skip(old(self).index as int), dv, old(self).turtle@),
            decreases n - self.index,
        {
            let ghost iv = self.index as int;
            let ghost t_old = self.turtle@;
            let sym = symbols[self.index];
            proof {
                assert(pm_in_range(self.turtle@.position, MAX_COORD as int));
                assert(ws.skip(iv).drop_first() =~= ws.skip(iv + 1));
                assert(ws.skip(iv)[0] == ws[iv]);
            }
            let emitted = interpret(&sym, &mut self.turtle, dirs);
            self.index = self.index + 1;
            if let Some(pt) = emitted {
                proof {
                    let rest = reify_model(ws.skip(iv + 1), dv, self.turtle@);
                    assert(reify_model(ws.skip(iv), dv, t_old) == seq![t_old.position] + rest);
                    assert((seq![t_old.position] + rest).drop_first() =~= rest);
                    assert(pm_in_range(dv[t_old.heading], STEP_LIMIT as int));
                    assert(pm_in_range(
                        self.turtle@.position,
                        ORIGIN_LIMIT as int + (iv + 1) * STEP_LIMIT as int,
                    ));
                    assert(self.in_step(ws, dv));
                }
                return Some(pt);
            }
            proof {
                assert(reify_model(ws.skip(iv), dv, t_old)
                    == reify_model(ws.skip(iv + 1), dv, self.turtle@));
            }
        }
        proof {
            assert(ws.skip(ws.len() as int) =~= Seq::<T>::empty());
        }
        None
    }
}

} // verus!
