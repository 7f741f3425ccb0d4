use cosmos_raiders::grid::Grid;
use cosmos_raiders::outline::reduce_to_outline;

fn filled_rect(width: usize, height: usize, r0: usize, c0: usize, h: usize, w: usize) -> Grid {
    let mut g = Grid::new(width, height);
    for r in r0..r0 + h {
        for c in c0..c0 + w {
            g.set(r, c, true);
        }
    }
    g
}

fn cells(g: &Grid) -> Vec<Vec<bool>> {
    (0..g.height()).map(|r| (0..g.width()).map(|c| g.get(r, c)).collect()).collect()
}

#[test]
fn filled_square_reduces_to_ring() {
    let g = filled_rect(8, 8, 2, 2, 4, 4);
    let o = reduce_to_outline(&g);
    for r in 0..8 {
        for c in 0..8 {
            let inside = (2..6).contains(&r) && (2..6).contains(&c);
            let border = inside && (r == 2 || r == 5 || c == 2 || c == 5);
            assert_eq!(o.get(r, c), border, "cell ({}, {})", r, c);
        }
    }
    assert!(!o.get(3, 3) && !o.get(3, 4) && !o.get(4, 3) && !o.get(4, 4));
}

#[test]
fn outline_reduction_is_idempotent() {
    let g = filled_rect(8, 8, 2, 2, 4, 4);
    let once = reduce_to_outline(&g);
    let twice = reduce_to_outline(&once);
    assert_eq!(cells(&once), cells(&twice));
    assert_eq!(once, twice);
}

#[test]
fn idempotent_on_irregular_shape() {
    let mut g = filled_rect(7, 6, 1, 1, 4, 5);
    g.set(0, 3, true);
    g.set(2, 3, false);
    let once = reduce_to_outline(&g);
    let twice = reduce_to_outline(&once);
    assert_eq!(once, twice);
}

#[test]
fn shape_filling_the_grid_keeps_nothing() {
    // Neighbours beyond the edge do not count against a pixel, so a grid
    // that is on everywhere has every pixel surrounded.
    let g = filled_rect(4, 4, 0, 0, 4, 4);
    let o = reduce_to_outline(&g);
    assert_eq!(cells(&o), vec![vec![false; 4]; 4]);
}

#[test]
fn shape_touching_one_edge_keeps_inner_sides() {
    // A 3x3 block in the top-left corner of a 5x5 grid: the pixels on the
    // grid's edge that only border the edge are dropped.
    let g = filled_rect(5, 5, 0, 0, 3, 3);
    let o = reduce_to_outline(&g);
    let expected = vec![
        vec![false, false, true, false, false],
        vec![false, false, true, false, false],
        vec![true, true, true, false, false],
        vec![false; 5],
        vec![false; 5],
    ];
    assert_eq!(cells(&o), expected);
}

#[test]
fn lone_pixel_is_kept() {
    let g = filled_rect(3, 3, 1, 1, 1, 1);
    let o = reduce_to_outline(&g);
    assert!(o.get(1, 1));
    assert_eq!(o.width(), 3);
    assert_eq!(o.height(), 3);
}

#[test]
fn empty_grid_stays_empty() {
    let g = Grid::new(0, 0);
    let o = reduce_to_outline(&g);
    assert_eq!(o.height(), 0);
    assert_eq!(o.width(), 0);
}

#[test]
fn from_rows_checks_row_lengths() {
    assert!(Grid::from_rows(2, vec![vec![true, false], vec![false]]).is_none());
    let g = Grid::from_rows(2, vec![vec![true, false], vec![false, true]]).unwrap();
    assert!(g.get(0, 0) && !g.get(0, 1) && !g.get(1, 0) && g.get(1, 1));
}
