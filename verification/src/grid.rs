use vstd::prelude::*;

verus! {

use crate::dir::Dir;
use crate::vel::{Vel, flags};
use vstd::arithmetic::div_mod::{
    lemma_fundamental_div_mod,
    lemma_fundamental_div_mod_converse,
    lemma_mod_division_less_than_divisor,
    lemma_multiply_divide_lt,
    lemma_add_mod_noop,
};

/// What a cell is: `Wall` cells are immutable obstacles, `Air` cells hold and
/// evolve particle state.
#[derive(Clone, Copy, PartialEq, Eq, Structural, Debug)]
pub enum CellKind {
    Air,
    Wall,
}

impl Default for CellKind {
    fn default() -> (k: Self)
        ensures
            k is Air,
    {
        CellKind::Air
    }
}

/// Neighbor ids by heading; `None` marks a grid edge with no neighbor in that
/// heading.
#[derive(Clone, Copy, PartialEq, Eq, Debug)]
pub struct Adjacency {
    pub r: Option<usize>,
    pub tr: Option<usize>,
    pub tl: Option<usize>,
    pub l: Option<usize>,
    pub bl: Option<usize>,
    pub br: Option<usize>,
}

impl Adjacency {
    /// The stored neighbor id for heading `d`.
    pub open spec fn get(self, d: Dir) -> Option<usize> {
        match d {
            Dir::R => self.r,
            Dir::TR => self.tr,
            Dir::TL => self.tl,
            Dir::L => self.l,
            Dir::BL => self.bl,
            Dir::BR => self.br,
        }
    }

    /// The stored neighbor id for heading `d`.
    pub fn neighbor(&self, d: Dir) -> (n: Option<usize>)
        ensures
            n == self.get(d),
    {
        match d {
            Dir::R => self.r,
            Dir::TR => self.tr,
            Dir::TL => self.tl,
            Dir::L => self.l,
            Dir::BL => self.bl,
            Dir::BR => self.br,
        }
    }
}

/// Row and column of the neighbor of `(r, c)` in heading `d` on the offset
/// (brick-wall) hexagonal layout: odd rows are indented half a cell, so the
/// oblique neighbors depend on the row's parity. `None` marks a grid edge.
pub open spec fn nbr_coord(rows: int, cols: int, r: int, c: int, d: Dir) -> Option<(int, int)> {
    match d {
        Dir::R => if c != cols - 1 {
            Some((r, c + 1))
        } else {
            None
        },
        Dir::L => if c != 0 {
            Some((r, c - 1))
        } else {
            None
        },
        Dir::BR => if r != rows - 1 {
            if r % 2 == 0 {
                Some((r + 1, c))
            } else if c != cols - 1 {
                Some((r + 1, c + 1))
            } else {
                None
            }
        } else {
            None
        },
        Dir::BL => if r != rows - 1 {
            if r % 2 == 0 {
                if c != 0 {
                    Some((r + 1, c - 1))
                } else {
                    None
                }
            } else {
                Some((r + 1, c))
            }
        } else {
            None
        },
        Dir::TR => if r != 0 {
            if r % 2 == 0 {
                Some((r - 1, c))
            } else if c != cols - 1 {
                Some((r - 1, c + 1))
            } else {
                None
            }
        } else {
            None
        },
        Dir::TL => if r != 0 {
            if r % 2 == 0 {
                if c != 0 {
                    Some((r - 1, c - 1))
                } else {
                    None
                }
            } else {
                Some((r - 1, c))
            }
        } else {
            None
        },
    }
}

/// The neighbor of `(r, c)` in heading `d`, as a row-major cell id.
pub open spec fn nbr_id(rows: int, cols: int, r: int, c: int, d: Dir) -> Option<int> {
    match nbr_coord(rows, cols, r, c, d) {
        None => None,
        Some(rc) => Some(rc.0 * cols + rc.1),
    }
}

/// The stored entry `a` holds exactly the mathematical id `b`, if any.
pub open spec fn opt_match(a: Option<usize>, b: Option<int>) -> bool {
    match (a, b) {
        (None, None) => true,
        (Some(x), Some(y)) => x as int == y,
        _ => false,
    }
}

/// For `r >= 0`, `r % 2` is 0 or 1 and flips between neighboring rows.
proof fn lemma_parity_adjacent(r: int)
    requires
        0 <= r,
    ensures
        r % 2 == 0 || r % 2 == 1,
        (r + 1) % 2 == (if r % 2 == 0 { 1int } else { 0int }),
        r >= 1 ==> (r - 1) % 2 == (if r % 2 == 0 { 1int } else { 0int }),
{
    lemma_mod_division_less_than_divisor(r, 2);
    lemma_add_mod_noop(r, 1, 2);
    if r >= 1 {
        lemma_mod_division_less_than_divisor(r - 1, 2);
        lemma_add_mod_noop(r - 1, 1, 2);
    }
}

/// Adjacency is a symmetric relation: the neighbor of a cell in heading `d`
/// has that cell back as its neighbor in the opposite heading.
pub proof fn lemma_nbr_coord_symmetric(rows: int, cols: int, r: int, c: int, d: Dir)
    requires
        1 <= rows,
        1 <= cols,
        0 <= r < rows,
        0 <= c < cols,
        nbr_coord(rows, cols, r, c, d) is Some,
    ensures
        ({
            let rc = nbr_coord(rows, cols, r, c, d)->Some_0;
            &&& 0 <= rc.0 < rows
            &&& 0 <= rc.1 < cols
            &&& nbr_coord(rows, cols, rc.0, rc.1, d.opp()) == Some((r, c))
        }),
{
    lemma_parity_adjacent(r);
}

/// Every neighbor id lies inside the grid, in `[0, rows*cols)`.
pub proof fn lemma_nbr_in_range(rows: int, cols: int, r: int, c: int, d: Dir)
    requires
        1 <= rows,
        1 <= cols,
        0 <= r < rows,
        0 <= c < cols,
        nbr_id(rows, cols, r, c, d) is Some,
    ensures
        0 <= nbr_id(rows, cols, r, c, d)->Some_0 < rows * cols,
{
    lemma_nbr_coord_symmetric(rows, cols, r, c, d);
    let rc = nbr_coord(rows, cols, r, c, d)->Some_0;
    assert(rc.0 * cols + rc.1 < rows * cols) by (nonlinear_arith)
        requires
            0 <= rc.0 < rows,
            0 <= rc.1 < cols,
    ;
    assert(0 <= rc.0 * cols + rc.1) by (nonlinear_arith)
        requires
            0 <= rc.0,
            0 <= rc.1,
            1 <= cols,
    ;
}

/// One lattice site. `id`, `kind`, `adj`, `fixed_inflow`, `row` and `col`
/// are fixed at construction; only `vel` evolves.
#[derive(Clone, Copy, PartialEq, Debug)]
pub struct Cell {
    pub id: usize,
    pub kind: CellKind,
    pub adj: Adjacency,
    pub fixed_inflow: Option<Vel>,
    pub vel: Vel,
    pub row: usize,
    pub col: usize,
}

impl Cell {
    /// The cell is internally consistent for slot `i` of a `rows` by `cols`
    /// grid: id equals position, coordinates are in range and row-major
    /// consistent, adjacency follows the offset-layout rule, and only air
    /// cells carry an inflow condition.
    pub open spec fn ok(self, rows: int, cols: int, i: int) -> bool {
        &&& self.id == i
        &&& 0 <= self.row < rows
        &&& 0 <= self.col < cols
        &&& self.row * cols + self.col == i
        &&& (forall|d: Dir| #![trigger self.adj.get(d)]
            opt_match(self.adj.get(d), nbr_id(rows, cols, self.row as int, self.col as int, d)))
        &&& self.fixed_inflow is Some ==> self.kind is Air
    }

    /// Number of particles present, 0 through 6.
    pub fn total_vel(&self) -> (n: u8)
        ensures
            n as int == self.vel.count(),
    {
        self.vel.total()
    }

    /// Twice the horizontal velocity component.
    pub fn vel_h_doubled(&self) -> (m: i8)
        ensures
            m as int == self.vel.h_doubled(),
    {
        self.vel.h_times_two()
    }

    /// Vertical velocity component in units of sin(60 degrees).
    pub fn vel_v_units(&self) -> (m: i8)
        ensures
            m as int == self.vel.v_units(),
    {
        self.vel.v_in_units()
    }
}

/// The whole grid: `rows * cols` cells in row-major order, indexed by id.
#[derive(Clone, PartialEq, Debug)]
pub struct Universe {
    pub rows: usize,
    pub cols: usize,
    pub cells: Vec<Cell>,
}

impl Universe {
    /// Well-formedness: positive dimensions and every slot holding a
    /// consistent cell.
    pub open spec fn wf(self) -> bool {
        &&& 1 <= self.rows
        &&& 1 <= self.cols
        &&& self.cells@.len() == self.rows * self.cols
        &&& forall|i: int|
            0 <= i < self.cells@.len() ==> (#[trigger] self.cells@[i]).ok(
                self.rows as int,
                self.cols as int,
                i,
            )
    }

    /// Every wall cell holds no particle.
    pub open spec fn walls_clear(self) -> bool {
        forall|i: int|
            0 <= i < self.cells@.len() && (#[trigger] self.cells@[i]).kind is Wall
                ==> self.cells@[i].vel == Vel::zero_spec()
    }

    /// Runtime guard against an internally inconsistent universe, for a
    /// driver that assembles or receives snapshots outside the library:
    /// decides well-formedness exactly — dimensions, ids, coordinates, the
    /// adjacency rule, and that only air cells carry an inflow condition.
    pub fn is_wf(&self) -> (b: bool)
        ensures
            b == self.wf(),
    {
        if self.rows == 0 || self.cols == 0 {
            return false;
        }
        let n = self.cells.len();
        let total = match self.rows.checked_mul(self.cols) {
            None => {
                return false;
            },
            Some(t) => t,
        };
        if n != total {
            return false;
        }
        let mut i: usize = 0;
        while i < n
            invariant
                1 <= self.rows,
                1 <= self.cols,
                n == self.cells@.len(),
                n == self.rows * self.cols,
                i <= n,
                forall|j: int|
                    0 <= j < i as int ==> (#[trigger] self.cells@[j]).ok(
                        self.rows as int,
                        self.cols as int,
                        j,
                    ),
            decreases n - i,
        {
            let cell = &self.cells[i];
            let r = i / self.cols;
            let c = i % self.cols;
            proof {
                lemma_fundamental_div_mod(i as int, self.cols as int);
                assert(self.cols as int * self.rows as int == self.rows as int * self.cols as int)
                    by (nonlinear_arith);
                lemma_multiply_divide_lt(i as int, self.cols as int, self.rows as int);
                lemma_mod_division_less_than_divisor(i as int, self.cols as int);
            }
            if cell.id != i || cell.row != r || cell.col != c {
                proof {
                    if self.wf() {
                        assert(self.cells@[i as int].ok(
                            self.rows as int,
                            self.cols as int,
                            i as int,
                        ));
                        lemma_rowcol_unique(
                            self.cols as int,
                            cell.row as int,
                            cell.col as int,
                            r as int,
                            c as int,
                        );
                    }
                }
                return false;
            }
            if cell.fixed_inflow.is_some() && cell.kind == CellKind::Wall {
                proof {
                    if self.wf() {
                        assert(self.cells@[i as int].ok(
                            self.rows as int,
                            self.cols as int,
                            i as int,
                        ));
                    }
                }
                return false;
            }
            let a = adjacency_at(self.rows, self.cols, r, c);
            let adj_same = opt_eq(cell.adj.r, a.r) && opt_eq(cell.adj.tr, a.tr) && opt_eq(
                cell.adj.tl,
                a.tl,
            ) && opt_eq(cell.adj.l, a.l) && opt_eq(cell.adj.bl, a.bl) && opt_eq(cell.adj.br, a.br);
            proof {
                if self.wf() {
                    assert(self.cells@[i as int].ok(self.rows as int, self.cols as int, i as int));
                    assert forall|d: Dir| cell.adj.get(d) == a.get(d) by {
                        assert(opt_match(
                            cell.adj.get(d),
                            nbr_id(
                                self.rows as int,
                                self.cols as int,
                                cell.row as int,
                                cell.col as int,
                                d,
                            ),
                        ));
                        assert(opt_match(
                            a.get(d),
                            nbr_id(self.rows as int, self.cols as int, r as int, c as int, d),
                        ));
                        match d {
                            Dir::R => {},
                            Dir::TR => {},
                            Dir::TL => {},
                            Dir::L => {},
                            Dir::BL => {},
                            Dir::BR => {},
                        }
                    }
                    assert(cell.adj.get(Dir::R) == a.get(Dir::R));
                    assert(cell.adj.get(Dir::TR) == a.get(Dir::TR));
                    assert(cell.adj.get(Dir::TL) == a.get(Dir::TL));
                    assert(cell.adj.get(Dir::L) == a.get(Dir::L));
                    assert(cell.adj.get(Dir::BL) == a.get(Dir::BL));
                    assert(cell.adj.get(Dir::BR) == a.get(Dir::BR));
                }
            }
            if !adj_same {
                return false;
            }
            proof {
                assert forall|d: Dir| #![trigger cell.adj.get(d)]
                    opt_match(
                        cell.adj.get(d),
                        nbr_id(
                            self.rows as int,
                            self.cols as int,
                            cell.row as int,
                            cell.col as int,
                            d,
                        ),
                    ) by {
                    assert(opt_match(
                        a.get(d),
                        nbr_id(self.rows as int, self.cols as int, r as int, c as int, d),
                    ));
                    match d {
                        Dir::R => {},
                        Dir::TR => {},
                        Dir::TL => {},
                        Dir::L => {},
                        Dir::BL => {},
                        Dir::BR => {},
                    }
                }
                assert(self.cells@[i as int].ok(self.rows as int, self.cols as int, i as int));
            }
            i = i + 1;
        }
        true
    }
}

/// The two entries hold the same neighbor id, if any.
fn opt_eq(a: Option<usize>, b: Option<usize>) -> (e: bool)
    ensures
        e == (a == b),
{
    match (a, b) {
        (None, None) => true,
        (Some(x), Some(y)) => x == y,
        _ => false,
    }
}

/// Two row-major positions with in-range columns and the same id have the
/// same coordinates.
proof fn lemma_rowcol_unique(cols: int, r1: int, c1: int, r2: int, c2: int)
    requires
        1 <= cols,
        0 <= c1 < cols,
        0 <= c2 < cols,
        r1 * cols + c1 == r2 * cols + c2,
    ensures
        r1 == r2,
        c1 == c2,
{
    lemma_fundamental_div_mod_converse(r1 * cols + c1, cols, r1, c1);
    lemma_fundamental_div_mod_converse(r2 * cols + c2, cols, r2, c2);
}

/// Topology symmetry over a well-formed universe: if cell `i` has neighbor
/// `n` in heading `d`, then cell `n` has cell `i` back as its neighbor in the
/// opposite heading.
pub proof fn lemma_topology_symmetric(u: Universe, i: int, d: Dir)
    requires
        u.wf(),
        0 <= i < u.cells@.len(),
        u.cells@[i].adj.get(d) is Some,
    ensures
        ({
            let n = u.cells@[i].adj.get(d)->Some_0 as int;
            &&& 0 <= n < u.cells@.len()
            &&& u.cells@[n].adj.get(d.opp()) == Some(i as usize)
        }),
{
    let rows = u.rows as int;
    let cols = u.cols as int;
    let c = u.cells@[i];
    let r0 = c.row as int;
    let c0 = c.col as int;
    assert(c.ok(rows, cols, i));
    assert(opt_match(c.adj.get(d), nbr_id(rows, cols, r0, c0, d)));
    lemma_nbr_coord_symmetric(rows, cols, r0, c0, d);
    lemma_nbr_in_range(rows, cols, r0, c0, d);
    let rc = nbr_coord(rows, cols, r0, c0, d)->Some_0;
    let n = rc.0 * cols + rc.1;
    let cn = u.cells@[n];
    assert(cn.ok(rows, cols, n));
    lemma_rowcol_unique(cols, cn.row as int, cn.col as int, rc.0, rc.1);
    assert(opt_match(cn.adj.get(d.opp()), nbr_id(rows, cols, rc.0, rc.1, d.opp())));
}

/// The fixed inlet occupancy: particles moving rightward and obliquely
/// rightward.
pub open spec fn inflow_vel_spec() -> Vel {
    flags(1, 1, 0, 0, 0, 1)
}

pub fn inflow_vel() -> (v: Vel)
    ensures
        v == inflow_vel_spec(),
{
    Vel::new(true, true, false, false, false, true)
}

/// The kind the builder assigns: the first and last rows are solid walls,
/// everything between is air.
pub open spec fn built_kind(rows: int, r: int) -> CellKind {
    if r == 0 || r == rows - 1 {
        CellKind::Wall
    } else {
        CellKind::Air
    }
}

/// The inflow the builder assigns: every air cell of the first column is an
/// inlet pinned to the inflow vector.
pub open spec fn built_inflow(rows: int, r: int, c: int) -> Option<Vel> {
    if built_kind(rows, r) is Air && c == 0 {
        Some(inflow_vel_spec())
    } else {
        None
    }
}

/// The six seed flags for cell `i`, read from the Bernoulli seed sequence.
pub open spec fn seeded_vel(seed: Seq<bool>, i: int) -> Vel {
    Vel {
        r: seed[6 * i],
        tr: seed[6 * i + 1],
        tl: seed[6 * i + 2],
        l: seed[6 * i + 3],
        bl: seed[6 * i + 4],
        br: seed[6 * i + 5],
    }
}

/// The initial occupancy the builder assigns: walls empty, inlets pinned to
/// the inflow vector, every other air cell seeded from `seed`.
pub open spec fn built_vel(rows: int, r: int, c: int, seed: Seq<bool>, i: int) -> Vel {
    if built_kind(rows, r) is Wall {
        Vel::zero_spec()
    } else if c == 0 {
        inflow_vel_spec()
    } else {
        seeded_vel(seed, i)
    }
}

/// The adjacency entries of cell `(r, c)`, by the offset-layout rule.
pub fn adjacency_at(rows: usize, cols: usize, r: usize, c: usize) -> (a: Adjacency)
    requires
        1 <= rows,
        1 <= cols,
        r < rows,
        c < cols,
        rows * cols <= usize::MAX,
    ensures
        forall|d: Dir| #![trigger a.get(d)]
            opt_match(a.get(d), nbr_id(rows as int, cols as int, r as int, c as int, d)),
{
    proof {
        let ri = r as int;
        let ci = c as int;
        let rsi = rows as int;
        let csi = cols as int;
        assert(ri * csi + ci < rsi * csi) by (nonlinear_arith)
            requires
                ri < rsi,
                ci < csi,
                1 <= csi,
        ;
        if ri + 1 < rsi {
            assert(ri * csi + csi + ci < rsi * csi) by (nonlinear_arith)
                requires
                    ri + 1 < rsi,
                    ci < csi,
                    1 <= csi,
            ;
            if ci + 1 < csi {
                assert(ri * csi + csi + ci + 1 < rsi * csi) by (nonlinear_arith)
                    requires
                        ri + 1 < rsi,
                        ci + 1 < csi,
                        1 <= csi,
                ;
            }
        }
        if ri >= 1 {
            assert(ri * csi >= csi) by (nonlinear_arith)
                requires
                    ri >= 1,
                    csi >= 0,
            ;
            assert(2 * csi <= rsi * csi) by (nonlinear_arith)
                requires
                    rsi >= 2,
                    csi >= 0,
            ;
        }
        assert((ri + 1) * csi == ri * csi + csi) by (nonlinear_arith);
        assert((ri - 1) * csi == ri * csi - csi) by (nonlinear_arith);
    }
    let idx = r * cols + c;
    let last_col = cols - 1;
    let last_row = rows - 1;
    let even = r % 2 == 0;
    let right = if c != last_col {
        Some(idx + 1)
    } else {
        None
    };
    let left = if c != 0 {
        Some(idx - 1)
    } else {
        None
    };
    let mut br: Option<usize> = None;
    let mut bl: Option<usize> = None;
    if r != last_row {
        if even {
            br = Some(idx + cols);
            if c != 0 {
                bl = Some(idx + cols - 1);
            }
        } else {
            bl = Some(idx + cols);
            if c != last_col {
                br = Some(idx + cols + 1);
            }
        }
    }
    let mut tr: Option<usize> = None;
    let mut tl: Option<usize> = None;
    if r != 0 {
        if even {
            tr = Some(idx - cols);
            if c != 0 {
                tl = Some(idx - (cols + 1));
            }
        } else {
            tl = Some(idx - cols);
            if c != last_col {
                tr = Some(idx - (cols - 1));
            }
        }
    }
    let a = Adjacency { r: right, tr, tl, l: left, bl, br };
    proof {
        assert forall|d: Dir|
            opt_match(
                a.get(d),
                nbr_id(rows as int, cols as int, r as int, c as int, d),
            ) by {
            match d {
                Dir::R => {
                    assert(opt_match(a.r, nbr_id(rows as int, cols as int, r as int, c as int, Dir::R)));
                },
                Dir::TR => {
                    assert(opt_match(a.tr, nbr_id(rows as int, cols as int, r as int, c as int, Dir::TR)));
                },
                Dir::TL => {
                    assert(opt_match(a.tl, nbr_id(rows as int, cols as int, r as int, c as int, Dir::TL)));
                },
                Dir::L => {
                    assert(opt_match(a.l, nbr_id(rows as int, cols as int, r as int, c as int, Dir::L)));
                },
                Dir::BL => {
                    assert(opt_match(a.bl, nbr_id(rows as int, cols as int, r as int, c as int, Dir::BL)));
                },
                Dir::BR => {
                    assert(opt_match(a.br, nbr_id(rows as int, cols as int, r as int, c as int, Dir::BR)));
                },
            }
        }
    }
    a
}

/// Builds the `rows` by `cols` universe: adjacency by the offset-layout
/// rule, walls on the first and last rows, an inlet on every air cell of the
/// first column, and every other air cell seeded from `seed` (six flags per
/// cell, read at `6*id .. 6*id+6`).
pub fn build_universe_with(rows: usize, cols: usize, seed: &Vec<bool>) -> (u: Universe)
    requires
        1 <= rows,
        1 <= cols,
        seed@.len() >= 6 * (rows * cols),
    ensures
        u.wf(),
        u.rows == rows,
        u.cols == cols,
        u.cells@.len() == rows * cols,
        forall|i: int|
            0 <= i < u.cells@.len() ==> {
                let c = #[trigger] u.cells@[i];
                &&& c.kind == built_kind(rows as int, c.row as int)
                &&& c.fixed_inflow == built_inflow(rows as int, c.row as int, c.col as int)
                &&& c.vel == built_vel(rows as int, c.row as int, c.col as int, seed@, i)
            },
        u.walls_clear(),
{
    let seed_len = seed.len();
    proof {
        assert(0 <= rows as int * cols as int) by (nonlinear_arith)
            requires
                0 <= rows as int,
                0 <= cols as int,
        ;
        assert(seed_len == seed@.len());
    }
    let total = rows * cols;
    let mut cells: Vec<Cell> = Vec::new();
    let mut i: usize = 0;
    while i < total
        invariant
            1 <= rows,
            1 <= cols,
            total == rows * cols,
            rows * cols <= usize::MAX,
            seed@.len() >= 6 * (rows * cols),
            seed@.len() <= usize::MAX,
            i <= total,
            cells@.len() == i,
            forall|j: int|
                0 <= j < i as int ==> {
                    let c = #[trigger] cells@[j];
                    &&& c.ok(rows as int, cols as int, j)
                    &&& c.kind == built_kind(rows as int, c.row as int)
                    &&& c.fixed_inflow == built_inflow(rows as int, c.row as int, c.col as int)
                    &&& c.vel == built_vel(rows as int, c.row as int, c.col as int, seed@, j)
                },
        decreases total - i,
    {
        let r = i / cols;
        let c = i % cols;
        proof {
            lemma_fundamental_div_mod(i as int, cols as int);
            assert(cols as int * rows as int == rows as int * cols as int) by (nonlinear_arith);
            lemma_multiply_divide_lt(i as int, cols as int, rows as int);
            lemma_mod_division_less_than_divisor(i as int, cols as int);
        }
        let adj = adjacency_at(rows, cols, r, c);
        let is_wall = r == 0 || r == rows - 1;
        let kind = if is_wall {
            CellKind::Wall
        } else {
            CellKind::Air
        };
        let fixed_inflow = if !is_wall && c == 0 {
            Some(inflow_vel())
        } else {
            None
        };
        let vel = if is_wall {
            Vel::zero()
        } else if c == 0 {
            inflow_vel()
        } else {
            Vel::new(
                seed[6 * i],
                seed[6 * i + 1],
                seed[6 * i + 2],
                seed[6 * i + 3],
                seed[6 * i + 4],
                seed[6 * i + 5],
            )
        };
        let cell = Cell { id: i, kind, adj, fixed_inflow, vel, row: r, col: c };
        cells.push(cell);
        i = i + 1;
    }
    Universe { rows, cols, cells }
}

/// Builds the universe with the unconstrained air cells seeded at random,
/// one uniform Bernoulli flag per heading, from the process-wide generator.
pub fn build_universe(rows: usize, cols: usize) -> (u: Universe)
    requires
        1 <= rows,
        1 <= cols,
        6 * (rows * cols) <= usize::MAX,
    ensures
        u.wf(),
        u.rows == rows,
        u.cols == cols,
        u.cells@.len() == rows * cols,
        u.walls_clear(),
        forall|i: int|
            0 <= i < u.cells@.len() ==> {
                let c = #[trigger] u.cells@[i];
                &&& c.kind == built_kind(rows as int, c.row as int)
                &&& c.fixed_inflow == built_inflow(rows as int, c.row as int, c.col as int)
                &&& (c.fixed_inflow matches Some(f) ==> c.vel == f)
            },
{
    proof {
        assert(0 <= rows as int * cols as int) by (nonlinear_arith)
            requires
                0 <= rows as int,
                0 <= cols as int,
        ;
    }
    let seed = crate::rng::random_flags(6 * (rows * cols));
    build_universe_with(rows, cols, &seed)
}

/// Construction guarded as a total function: `None` exactly when a dimension
/// is zero or the grid would overflow the machine's index range.
pub fn try_build_universe(rows: usize, cols: usize) -> (r: Option<Universe>)
    ensures
        r is Some <==> (1 <= rows && 1 <= cols && 6 * (rows * cols) <= usize::MAX),
        r matches Some(u) ==> {
            &&& u.wf()
            &&& u.rows == rows
            &&& u.cols == cols
            &&& u.walls_clear()
        },
{
    if rows == 0 || cols == 0 {
        return None;
    }
    match rows.checked_mul(cols) {
        None => None,
        Some(n) => match n.checked_mul(6) {
            None => None,
            Some(_) => Some(build_universe(rows, cols)),
        },
    }
}

} // verus!
