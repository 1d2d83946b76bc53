use vstd::prelude::*;

verus! {

use crate::dir::Dir;
use crate::vel::{Vel, flags};
use crate::grid::{Cell, CellKind, Universe, opt_match, nbr_id, lemma_nbr_in_range};

/// The occupation bit that cell `i` receives from heading `d` during
/// streaming: nothing from a grid edge, its own bit bounced back from a wall,
/// and otherwise the bit the neighbor emitted toward it (the neighbor's bit
/// in the opposite heading).
pub open spec fn incoming(u: Universe, i: int, d: Dir) -> bool {
    match u.cells@[i].adj.get(d) {
        None => false,
        Some(n) => if u.cells@[n as int].kind is Wall {
            u.cells@[i].vel.get(d)
        } else {
            u.cells@[n as int].vel.get(d.opp())
        },
    }
}

/// The pre-collision state of cell `i`: for each heading `d`, the incoming
/// bit lands in the opposite slot `opp(d)`.
pub open spec fn streamed(u: Universe, i: int) -> Vel {
    Vel {
        r: incoming(u, i, Dir::L),
        tr: incoming(u, i, Dir::BL),
        tl: incoming(u, i, Dir::BR),
        l: incoming(u, i, Dir::R),
        bl: incoming(u, i, Dir::TR),
        br: incoming(u, i, Dir::TL),
    }
}

/// The collision table. The three head-on two-particle pairs and the three
/// four-particle complements scatter to one of the two other patterns of
/// their class, picked by `coin` (`true` takes the first listed alternative);
/// the two alternating three-particle patterns swap deterministically; every
/// other pattern passes through unchanged.
pub open spec fn collide_spec(v: Vel, coin: bool) -> Vel {
    if v == flags(0, 0, 1, 0, 0, 1) {
        if coin {
            flags(0, 1, 0, 0, 1, 0)
        } else {
            flags(1, 0, 0, 1, 0, 0)
        }
    } else if v == flags(0, 1, 0, 0, 1, 0) {
        if coin {
            flags(0, 0, 1, 0, 0, 1)
        } else {
            flags(1, 0, 0, 1, 0, 0)
        }
    } else if v == flags(1, 0, 0, 1, 0, 0) {
        if coin {
            flags(0, 0, 1, 0, 0, 1)
        } else {
            flags(0, 1, 0, 0, 1, 0)
        }
    } else if v == flags(0, 1, 0, 1, 0, 1) {
        flags(1, 0, 1, 0, 1, 0)
    } else if v == flags(1, 0, 1, 0, 1, 0) {
        flags(0, 1, 0, 1, 0, 1)
    } else if v == flags(0, 1, 1, 0, 1, 1) {
        if coin {
            flags(1, 0, 1, 1, 0, 1)
        } else {
            flags(1, 1, 0, 1, 1, 0)
        }
    } else if v == flags(1, 0, 1, 1, 0, 1) {
        if coin {
            flags(0, 1, 1, 0, 1, 1)
        } else {
            flags(1, 1, 0, 1, 1, 0)
        }
    } else if v == flags(1, 1, 0, 1, 1, 0) {
        if coin {
            flags(0, 1, 1, 0, 1, 1)
        } else {
            flags(1, 0, 1, 1, 0, 1)
        }
    } else {
        v
    }
}

/// The new occupancy of cell `i` after one synchronous step, all bits read
/// from the previous snapshot `u`: walls keep their state, inlets re-assert
/// their fixed inflow, and every other air cell streams then collides.
pub open spec fn next_vel(u: Universe, i: int, coin: bool) -> Vel {
    let c = u.cells@[i];
    if c.kind is Wall {
        c.vel
    } else if c.fixed_inflow is Some {
        c.fixed_inflow->Some_0
    } else {
        collide_spec(streamed(u, i), coin)
    }
}

/// Cell `i` after one step: the same topology, with the recomputed occupancy.
pub open spec fn stepped_cell(u: Universe, i: int, coin: bool) -> Cell {
    Cell { vel: next_vel(u, i, coin), ..u.cells@[i] }
}

/// `r` is the outcome of one synchronous step on `u` with tie-breaks `coins`:
/// the same dimensions, and every slot holding its recomputed cell.
pub open spec fn is_step_of(r: Universe, u: Universe, coins: Seq<bool>) -> bool {
    &&& r.rows == u.rows
    &&& r.cols == u.cols
    &&& r.cells@.len() == u.cells@.len()
    &&& forall|i: int|
        0 <= i < u.cells@.len() ==> #[trigger] r.cells@[i] == stepped_cell(u, i, coins[i])
}

/// Applies the collision table to a pre-collision pattern; `coin` breaks the
/// tie where the table offers two alternatives.
pub fn collide(v: Vel, coin: bool) -> (r: Vel)
    ensures
        r == collide_spec(v, coin),
{
    match (v.r, v.tr, v.tl, v.l, v.bl, v.br) {
        (false, false, true, false, false, true) => if coin {
            Vel::new(false, true, false, false, true, false)
        } else {
            Vel::new(true, false, false, true, false, false)
        },
        (false, true, false, false, true, false) => if coin {
            Vel::new(false, false, true, false, false, true)
        } else {
            Vel::new(true, false, false, true, false, false)
        },
        (true, false, false, true, false, false) => if coin {
            Vel::new(false, false, true, false, false, true)
        } else {
            Vel::new(false, true, false, false, true, false)
        },
        (false, true, false, true, false, true) => Vel::new(true, false, true, false, true, false),
        (true, false, true, false, true, false) => Vel::new(false, true, false, true, false, true),
        (false, true, true, false, true, true) => if coin {
            Vel::new(true, false, true, true, false, true)
        } else {
            Vel::new(true, true, false, true, true, false)
        },
        (true, false, true, true, false, true) => if coin {
            Vel::new(false, true, true, false, true, true)
        } else {
            Vel::new(true, true, false, true, true, false)
        },
        (true, true, false, true, true, false) => if coin {
            Vel::new(false, true, true, false, true, true)
        } else {
            Vel::new(true, false, true, true, false, true)
        },
        _ => v,
    }
}

/// The streaming read for one heading, from the previous snapshot.
fn incoming_bit(u: &Universe, i: usize, d: Dir) -> (b: bool)
    requires
        u.wf(),
        i < u.cells@.len(),
    ensures
        b == incoming(*u, i as int, d),
{
    let cell = &u.cells[i];
    match cell.adj.neighbor(d) {
        None => false,
        Some(n) => {
            proof {
                assert(opt_match(
                    cell.adj.get(d),
                    nbr_id(u.rows as int, u.cols as int, cell.row as int, cell.col as int, d),
                ));
                lemma_nbr_in_range(u.rows as int, u.cols as int, cell.row as int, cell.col as int, d);
            }
            let nb = &u.cells[n];
            if nb.kind == CellKind::Wall {
                cell.vel.bit(d)
            } else {
                nb.vel.bit(d.opposite())
            }
        },
    }
}

/// Phase 1 for one air cell: gather the six incoming bits from the previous
/// snapshot, each landing in the slot opposite to where it was read.
pub fn streamed_vel(u: &Universe, i: usize) -> (v: Vel)
    requires
        u.wf(),
        i < u.cells@.len(),
    ensures
        v == streamed(*u, i as int),
{
    let r = incoming_bit(u, i, Dir::L);
    let tr = incoming_bit(u, i, Dir::BL);
    let tl = incoming_bit(u, i, Dir::BR);
    let l = incoming_bit(u, i, Dir::R);
    let bl = incoming_bit(u, i, Dir::TR);
    let br = incoming_bit(u, i, Dir::TL);
    Vel::new(r, tr, tl, l, bl, br)
}

/// One cell's full update for a step, reading only the previous snapshot:
/// the unit of work a data-parallel driver may hand out per cell, as long as
/// it places each result back at its id.
pub fn step_cell(u: &Universe, i: usize, coin: bool) -> (c: Cell)
    requires
        u.wf(),
        i < u.cells@.len(),
    ensures
        c == stepped_cell(*u, i as int, coin),
{
    let cell = &u.cells[i];
    if cell.kind == CellKind::Wall {
        *cell
    } else if let Some(f) = cell.fixed_inflow {
        Cell { vel: f, ..*cell }
    } else {
        Cell { vel: collide(streamed_vel(u, i), coin), ..*cell }
    }
}

/// One synchronous step: a new universe with identical topology whose cell
/// `i` holds `next_vel` computed from the previous snapshot, with the cell
/// sequence kept ordered by ascending id. `coins` injects the tie-break
/// choice for each cell, so the step is a pure function of its inputs.
pub fn step(u: &Universe, coins: &Vec<bool>) -> (r: Universe)
    requires
        u.wf(),
        coins@.len() >= u.cells@.len(),
    ensures
        is_step_of(r, *u, coins@),
        forall|i: int| 0 <= i < r.cells@.len() ==> (#[trigger] r.cells@[i]).id == i,
        r.wf(),
{
    let n = u.cells.len();
    let mut cells: Vec<Cell> = Vec::new();
    let mut i: usize = 0;
    while i < n
        invariant
            u.wf(),
            coins@.len() >= u.cells@.len(),
            n == u.cells@.len(),
            i <= n,
            cells@.len() == i,
            forall|j: int| 0 <= j < i as int ==> cells@[j] == stepped_cell(*u, j, coins@[j]),
        decreases n - i,
    {
        cells.push(step_cell(u, i, coins[i]));
        i = i + 1;
    }
    let r = Universe { rows: u.rows, cols: u.cols, cells };
    proof {
        assert forall|i: int| 0 <= i < r.cells@.len() implies (#[trigger] r.cells@[i]).ok(
            r.rows as int,
            r.cols as int,
            i,
        ) by {
            assert(u.cells@[i].ok(u.rows as int, u.cols as int, i));
            assert(r.cells@[i].adj == u.cells@[i].adj);
        }
    }
    r
}

/// One step with the tie-breaks drawn from the process-wide random
/// generator. Whatever the draws, the result is some outcome of `step`: the
/// topology is kept and every cell is a `stepped_cell` for one of the two
/// possible coins.
pub fn step_random(u: &Universe) -> (r: Universe)
    requires
        u.wf(),
    ensures
        r.rows == u.rows,
        r.cols == u.cols,
        r.cells@.len() == u.cells@.len(),
        r.wf(),
        forall|i: int|
            #![trigger r.cells@[i]]
            0 <= i < u.cells@.len() ==> (r.cells@[i] == stepped_cell(*u, i, true) || r.cells@[i]
                == stepped_cell(*u, i, false)),
{
    let coins = crate::rng::random_flags(u.cells.len());
    let r = step(u, &coins);
    proof {
        assert forall|i: int| #![trigger r.cells@[i]] 0 <= i < u.cells@.len() implies (r.cells@[i]
            == stepped_cell(*u, i, true) || r.cells@[i] == stepped_cell(*u, i, false)) by {
            assert(r.cells@[i] == stepped_cell(*u, i, coins@[i]));
        }
    }
    r
}

} // verus!
