use hexgas::engine::{step, step_cell, step_random, streamed_vel};
use hexgas::grid::{build_universe, build_universe_with, CellKind, Universe};
use hexgas::vel::Vel;

fn zero() -> Vel {
    Vel::new(false, false, false, false, false, false)
}

fn inflow() -> Vel {
    Vel::new(true, true, false, false, false, true)
}

#[test]
fn three_by_three_one_step() {
    // row 0 and row 2 are walls; row 1 is air; (1,0) is the inlet
    let seed = vec![false; 6 * 9];
    let u = build_universe_with(3, 3, &seed);
    assert_eq!(u.cells[3].fixed_inflow, Some(inflow()));
    assert_eq!(u.cells[3].kind, CellKind::Air);
    let coins = vec![false; 9];
    let next = step(&u, &coins);
    assert_eq!(next.cells[3].vel, inflow());
    for i in [0, 1, 2, 6, 7, 8] {
        assert_eq!(next.cells[i].kind, CellKind::Wall);
        assert_eq!(next.cells[i].vel, zero());
        assert_eq!(next.cells[i].total_vel(), 0);
    }
}

#[test]
fn streaming_pulls_the_emitted_bit() {
    // cell (1,1) of a 3 x 3 grid emits a particle rightward; (1,2) receives
    // it in its R slot on the next step
    let mut seed = vec![false; 6 * 9];
    seed[6 * 4] = true; // R flag of cell id 4
    let u = build_universe_with(3, 3, &seed);
    assert!(u.cells[4].vel.bit(hexgas::dir::Dir::R));
    let got = streamed_vel(&u, 5);
    assert!(got.bit(hexgas::dir::Dir::R));
    assert_eq!(got.total(), 1);
}

#[test]
fn wall_neighbors_bounce_particles_back() {
    // cell (1,1) of a 3 x 3 grid sends a particle toward the top wall (its
    // TR neighbor, id 2); after streaming the particle returns reversed,
    // landing in the BL slot
    let mut seed = vec![false; 6 * 9];
    seed[6 * 4 + 1] = true; // TR flag of cell id 4
    let u = build_universe_with(3, 3, &seed);
    assert_eq!(u.cells[4].adj.neighbor(hexgas::dir::Dir::TR), Some(2));
    assert_eq!(u.cells[2].kind, CellKind::Wall);
    let got = streamed_vel(&u, 4);
    assert!(got.bit(hexgas::dir::Dir::BL));
    // besides the bounced particle, the inlet neighbor (1,0) emits its R bit
    assert!(got.bit(hexgas::dir::Dir::R));
    assert_eq!(got.total(), 2);
}

#[test]
fn unconstrained_air_cells_take_their_seed_flags() {
    // cell id 5 = (1,1) of a 3 x 4 grid reads its six flags at 30..36
    let mut seed = vec![false; 6 * 12];
    seed[30] = true;
    seed[32] = true;
    seed[35] = true;
    let u = build_universe_with(3, 4, &seed);
    assert_eq!(u.cells[5].kind, CellKind::Air);
    assert_eq!(u.cells[5].fixed_inflow, None);
    assert_eq!(u.cells[5].vel, Vel::new(true, false, true, false, false, true));
}

#[test]
fn walls_stay_clear_over_many_steps() {
    let seed: Vec<bool> = (0..6 * 4 * 5).map(|k| k % 3 == 0).collect();
    let mut u = build_universe_with(4, 5, &seed);
    let coins: Vec<bool> = (0..20).map(|k| k % 2 == 0).collect();
    for _ in 0..6 {
        u = step(&u, &coins);
        for cell in &u.cells {
            if cell.kind == CellKind::Wall {
                assert_eq!(cell.vel, zero());
            }
        }
    }
}

#[test]
fn inflow_cells_stay_pinned_over_many_steps() {
    let seed: Vec<bool> = (0..6 * 5 * 4).map(|k| k % 5 == 1).collect();
    let mut u = build_universe_with(5, 4, &seed);
    let coins: Vec<bool> = (0..20).map(|k| k % 3 == 0).collect();
    for _ in 0..6 {
        u = step(&u, &coins);
        for cell in &u.cells {
            if let Some(f) = cell.fixed_inflow {
                assert_eq!(cell.vel, f);
                assert_eq!(f, inflow());
                assert_eq!(cell.col, 0);
            }
        }
    }
}

#[test]
fn step_is_deterministic_given_the_choices() {
    let seed: Vec<bool> = (0..6 * 4 * 6).map(|k| k % 7 < 3).collect();
    let u1 = build_universe_with(4, 6, &seed);
    let u2 = build_universe_with(4, 6, &seed);
    assert_eq!(u1, u2);
    let coins: Vec<bool> = (0..24).map(|k| k % 2 == 1).collect();
    let r1 = step(&u1, &coins);
    let r2 = step(&u2, &coins);
    assert_eq!(r1, r2);
    // and per-cell updates agree with the whole-grid step
    for i in 0..u1.cells.len() {
        assert_eq!(step_cell(&u1, i, coins[i]), r1.cells[i]);
    }
}

#[test]
fn output_is_ordered_by_ascending_id() {
    let seed: Vec<bool> = (0..6 * 5 * 5).map(|k| k % 2 == 0).collect();
    let u = build_universe_with(5, 5, &seed);
    let coins = vec![true; 25];
    let next = step(&u, &coins);
    assert_eq!(next.cells.len(), 25);
    for (i, cell) in next.cells.iter().enumerate() {
        assert_eq!(cell.id, i);
        assert_eq!(cell.adj, u.cells[i].adj);
        assert_eq!(cell.kind, u.cells[i].kind);
    }
}

fn check_invariants(u: &Universe) {
    for (i, cell) in u.cells.iter().enumerate() {
        assert_eq!(cell.id, i);
        if cell.kind == CellKind::Wall {
            assert_eq!(cell.vel, zero());
        }
        if let Some(f) = cell.fixed_inflow {
            assert_eq!(cell.vel, f);
        }
    }
}

#[test]
fn random_build_and_steps_keep_the_invariants() {
    let mut u = build_universe(6, 8);
    assert_eq!(u.rows, 6);
    assert_eq!(u.cols, 8);
    assert_eq!(u.cells.len(), 48);
    check_invariants(&u);
    for _ in 0..4 {
        u = step_random(&u);
        check_invariants(&u);
    }
}
