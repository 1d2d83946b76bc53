use vstd::prelude::*;

verus! {

use crate::vel::{Vel, flags};
use crate::grid::Universe;
use crate::engine::{collide_spec, is_step_of};

/// Wall invariance: a step never rewrites a wall cell, so a universe whose
/// walls hold no particles keeps that property across every step, and hence
/// after any number of steps.
pub proof fn lemma_wall_invariance(u: Universe, r: Universe, coins: Seq<bool>)
    requires
        u.walls_clear(),
        is_step_of(r, u, coins),
    ensures
        r.walls_clear(),
        forall|i: int|
            0 <= i < u.cells@.len() && (#[trigger] u.cells@[i]).kind is Wall ==> r.cells@[i]
                == u.cells@[i],
{
}

/// `trace` is a run of the automaton: successive snapshots, each the step of
/// the one before it under the matching tie-break choices.
pub open spec fn is_run_of(trace: Seq<Universe>, choices: Seq<Seq<bool>>) -> bool {
    &&& trace.len() == choices.len() + 1
    &&& forall|t: int|
        0 <= t < choices.len() ==> #[trigger] is_step_of(trace[t + 1], trace[t], choices[t])
}

/// Wall invariance over a whole run: when the walls start clear, they stay
/// clear at every later snapshot, however many steps are taken.
pub proof fn lemma_wall_invariance_run(trace: Seq<Universe>, choices: Seq<Seq<bool>>, t: int)
    requires
        is_run_of(trace, choices),
        trace[0].walls_clear(),
        0 <= t < trace.len(),
    ensures
        trace[t].walls_clear(),
    decreases t,
{
    if t > 0 {
        lemma_wall_invariance_run(trace, choices, t - 1);
        assert(is_step_of(trace[(t - 1) + 1], trace[t - 1], choices[t - 1]));
        lemma_wall_invariance(trace[t - 1], trace[t], choices[t - 1]);
    }
}

/// Inflow pinning: immediately after a step, every cell with a fixed inflow
/// holds exactly that inflow, whatever its neighbors held.
pub proof fn lemma_inflow_pinned(u: Universe, r: Universe, coins: Seq<bool>)
    requires
        u.wf(),
        is_step_of(r, u, coins),
    ensures
        forall|i: int|
            0 <= i < u.cells@.len() && (#[trigger] u.cells@[i]).fixed_inflow is Some
                ==> r.cells@[i].vel == u.cells@[i].fixed_inflow->Some_0,
{
}

/// Particle conservation under collision: each table entry scatters to a
/// pattern of the same particle count, and untabled patterns pass through,
/// so the count never changes; both momentum components are conserved too.
pub proof fn lemma_collision_conserves(v: Vel, coin: bool)
    ensures
        collide_spec(v, coin).count() == v.count(),
        collide_spec(v, coin).h_doubled() == v.h_doubled(),
        collide_spec(v, coin).v_units() == v.v_units(),
{
}

/// Determinism modulo randomness: with the tie-break choices fixed, the step
/// outcome is a function of the input snapshot alone — two step results on
/// the same universe and choices agree cell for cell.
pub proof fn lemma_step_deterministic(u: Universe, coins: Seq<bool>, r1: Universe, r2: Universe)
    requires
        is_step_of(r1, u, coins),
        is_step_of(r2, u, coins),
    ensures
        r1.rows == r2.rows,
        r1.cols == r2.cols,
        r1.cells@ =~= r2.cells@,
{
}

/// Ordering invariant: a step's output stays indexed by ascending id with no
/// gaps or duplicates — the cell at position `i` has id `i`, for all
/// `rows * cols` positions.
pub proof fn lemma_step_ordered(u: Universe, r: Universe, coins: Seq<bool>)
    requires
        u.wf(),
        is_step_of(r, u, coins),
    ensures
        r.cells@.len() == u.rows * u.cols,
        forall|i: int| 0 <= i < r.cells@.len() ==> (#[trigger] r.cells@[i]).id == i,
{
}

/// Collision exhaustiveness: each of the eight tabled patterns always
/// scatters to one of its listed alternatives — never to itself, never to a
/// pattern outside its class.
pub proof fn lemma_collision_exhaustive(coin: bool)
    ensures
        collide_spec(flags(0, 0, 1, 0, 0, 1), coin) == flags(0, 1, 0, 0, 1, 0) || collide_spec(
            flags(0, 0, 1, 0, 0, 1),
            coin,
        ) == flags(1, 0, 0, 1, 0, 0),
        collide_spec(flags(0, 1, 0, 0, 1, 0), coin) == flags(0, 0, 1, 0, 0, 1) || collide_spec(
            flags(0, 1, 0, 0, 1, 0),
            coin,
        ) == flags(1, 0, 0, 1, 0, 0),
        collide_spec(flags(1, 0, 0, 1, 0, 0), coin) == flags(0, 0, 1, 0, 0, 1) || collide_spec(
            flags(1, 0, 0, 1, 0, 0),
            coin,
        ) == flags(0, 1, 0, 0, 1, 0),
        collide_spec(flags(0, 1, 0, 1, 0, 1), coin) == flags(1, 0, 1, 0, 1, 0),
        collide_spec(flags(1, 0, 1, 0, 1, 0), coin) == flags(0, 1, 0, 1, 0, 1),
        collide_spec(flags(0, 1, 1, 0, 1, 1), coin) == flags(1, 0, 1, 1, 0, 1) || collide_spec(
            flags(0, 1, 1, 0, 1, 1),
            coin,
        ) == flags(1, 1, 0, 1, 1, 0),
        collide_spec(flags(1, 0, 1, 1, 0, 1), coin) == flags(0, 1, 1, 0, 1, 1) || collide_spec(
            flags(1, 0, 1, 1, 0, 1),
            coin,
        ) == flags(1, 1, 0, 1, 1, 0),
        collide_spec(flags(1, 1, 0, 1, 1, 0), coin) == flags(0, 1, 1, 0, 1, 1) || collide_spec(
            flags(1, 1, 0, 1, 1, 0),
            coin,
        ) == flags(1, 0, 1, 1, 0, 1),
{
}

} // verus!
