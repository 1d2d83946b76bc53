use hexgas::dir::Dir;
use hexgas::grid::{build_universe_with, try_build_universe};

fn dirs() -> [Dir; 6] {
    [Dir::R, Dir::TR, Dir::TL, Dir::L, Dir::BL, Dir::BR]
}

#[test]
fn opposite_pairs() {
    assert_eq!(Dir::R.opposite(), Dir::L);
    assert_eq!(Dir::TR.opposite(), Dir::BL);
    assert_eq!(Dir::TL.opposite(), Dir::BR);
    assert_eq!(Dir::L.opposite(), Dir::R);
    assert_eq!(Dir::BL.opposite(), Dir::TR);
    assert_eq!(Dir::BR.opposite(), Dir::TL);
    for d in dirs() {
        assert_eq!(d.opposite().opposite(), d);
        assert_ne!(d.opposite(), d);
    }
}

#[test]
fn adjacency_of_exemplary_grid() {
    // 4 x 4 offset layout:
    // 00  01  02  03
    //   04  05  06  07
    // 08  09  10  11
    //   12  13  14  15
    let seed = vec![false; 6 * 16];
    let u = build_universe_with(4, 4, &seed);
    let c5 = &u.cells[5];
    assert_eq!(c5.adj.neighbor(Dir::R), Some(6));
    assert_eq!(c5.adj.neighbor(Dir::L), Some(4));
    assert_eq!(c5.adj.neighbor(Dir::TL), Some(1));
    assert_eq!(c5.adj.neighbor(Dir::TR), Some(2));
    assert_eq!(c5.adj.neighbor(Dir::BL), Some(9));
    assert_eq!(c5.adj.neighbor(Dir::BR), Some(10));
    // corner of an even row
    let c0 = &u.cells[0];
    assert_eq!(c0.adj.neighbor(Dir::L), None);
    assert_eq!(c0.adj.neighbor(Dir::TL), None);
    assert_eq!(c0.adj.neighbor(Dir::TR), None);
    assert_eq!(c0.adj.neighbor(Dir::BL), None);
    assert_eq!(c0.adj.neighbor(Dir::R), Some(1));
    assert_eq!(c0.adj.neighbor(Dir::BR), Some(4));
    // right edge of an odd row
    let c7 = &u.cells[7];
    assert_eq!(c7.adj.neighbor(Dir::R), None);
    assert_eq!(c7.adj.neighbor(Dir::TR), None);
    assert_eq!(c7.adj.neighbor(Dir::BR), None);
    assert_eq!(c7.adj.neighbor(Dir::L), Some(6));
    assert_eq!(c7.adj.neighbor(Dir::TL), Some(3));
    assert_eq!(c7.adj.neighbor(Dir::BL), Some(11));
}

#[test]
fn topology_is_symmetric() {
    for (rows, cols) in [(3, 3), (3, 4), (4, 3), (5, 7), (6, 6)] {
        let seed = vec![true; 6 * rows * cols];
        let u = build_universe_with(rows, cols, &seed);
        for cell in &u.cells {
            for d in dirs() {
                if let Some(n) = cell.adj.neighbor(d) {
                    assert!(n < u.cells.len());
                    assert_eq!(u.cells[n].adj.neighbor(d.opposite()), Some(cell.id));
                }
            }
        }
    }
}

#[test]
fn row_major_ids_and_coords() {
    let seed = vec![false; 6 * 15];
    let u = build_universe_with(5, 3, &seed);
    assert_eq!(u.cells.len(), 15);
    for (i, cell) in u.cells.iter().enumerate() {
        assert_eq!(cell.id, i);
        assert_eq!(cell.row, i / 3);
        assert_eq!(cell.col, i % 3);
    }
}

#[test]
fn well_formedness_check_accepts_and_rejects() {
    let seed = vec![false; 6 * 12];
    let u = build_universe_with(3, 4, &seed);
    assert!(u.is_wf());
    let mut wrong_id = u.clone();
    wrong_id.cells[5].id = 7;
    assert!(!wrong_id.is_wf());
    let mut short = u.clone();
    short.cells.pop();
    assert!(!short.is_wf());
    let mut bad_neighbor = u.clone();
    bad_neighbor.cells[6].adj.r = Some(99);
    assert!(!bad_neighbor.is_wf());
    let mut wrong_rows = u.clone();
    wrong_rows.rows = 4;
    assert!(!wrong_rows.is_wf());
}

#[test]
fn build_rejects_degenerate_dimensions() {
    assert!(try_build_universe(0, 5).is_none());
    assert!(try_build_universe(5, 0).is_none());
    assert!(try_build_universe(0, 0).is_none());
    assert!(try_build_universe(usize::MAX, usize::MAX).is_none());
    assert!(try_build_universe(3, 3).is_some());
}
