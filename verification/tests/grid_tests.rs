use game_of_life::Grid;

#[test]
fn new_grid_is_all_dead() {
    let g = Grid::new(3, 4);
    assert_eq!(g.rows(), 3);
    assert_eq!(g.cols(), 4);
    for r in 0..3 {
        for c in 0..4 {
            assert!(!g.get(r, c));
        }
    }
}

#[test]
fn new_accepts_zero_dimensions() {
    let g = Grid::new(0, 0);
    assert_eq!(g.rows(), 0);
    assert_eq!(g.cols(), 0);

    let h = Grid::new(3, 0);
    assert_eq!(h.rows(), 3);
    assert_eq!(h.cols(), 0);

    let k = Grid::new(0, 5);
    assert_eq!(k.rows(), 0);
    assert_eq!(k.cols(), 0);
}

#[test]
fn default_is_empty() {
    let g = Grid::default();
    assert_eq!(g.rows(), 0);
    assert_eq!(g.cols(), 0);
    assert!(!g.get(0, 0));
}

#[test]
fn get_out_of_bounds_is_dead() {
    let empty = Grid::new(0, 0);
    assert!(!empty.get(0, 0));
    assert!(!empty.get(7, 7));

    let mut g = Grid::new(2, 2);
    g.set(0, 0, true);
    g.set(1, 1, true);
    assert!(!g.get(2, 0));
    assert!(!g.get(0, 2));
    assert!(!g.get(2, 2));
    assert!(!g.get(usize::MAX, 0));
    assert!(!g.get(0, usize::MAX));
}

#[test]
fn set_then_get_reads_back() {
    let mut g = Grid::new(3, 3);
    g.set(1, 2, true);
    assert!(g.get(1, 2));
    g.set(1, 2, false);
    assert!(!g.get(1, 2));
    g.set(0, 0, true);
    g.set(2, 1, true);
    assert!(g.get(0, 0));
    assert!(g.get(2, 1));
    // every untouched cell is still dead
    for r in 0..3 {
        for c in 0..3 {
            if (r, c) != (0, 0) && (r, c) != (2, 1) {
                assert!(!g.get(r, c));
            }
        }
    }
}

#[test]
fn clear_keeps_dimensions_and_kills_everything() {
    let mut g = Grid::new(4, 2);
    g.set(0, 0, true);
    g.set(3, 1, true);
    g.clear();
    assert_eq!(g.rows(), 4);
    assert_eq!(g.cols(), 2);
    for r in 0..4 {
        for c in 0..2 {
            assert!(!g.get(r, c));
        }
    }
}

#[test]
fn resize_reports_new_dimensions() {
    let mut g = Grid::new(2, 3);
    g.resize(5, 7);
    assert_eq!(g.rows(), 5);
    assert_eq!(g.cols(), 7);
    g.resize(1, 1);
    assert_eq!(g.rows(), 1);
    assert_eq!(g.cols(), 1);
    g.resize(0, 9);
    assert_eq!(g.rows(), 0);
    assert_eq!(g.cols(), 0);
}

#[test]
fn resize_growth_keeps_content_and_pads_dead() {
    let mut g = Grid::new(2, 2);
    g.set(0, 1, true);
    g.set(1, 0, true);
    g.resize(4, 3);
    assert!(g.get(0, 1));
    assert!(g.get(1, 0));
    for r in 0..4 {
        for c in 0..3 {
            if (r, c) != (0, 1) && (r, c) != (1, 0) {
                assert!(!g.get(r, c));
            }
        }
    }
}

#[test]
fn resize_shrinkage_discards_outside_cells() {
    let mut g = Grid::new(3, 3);
    g.set(0, 0, true);
    g.set(2, 2, true);
    g.resize(2, 2);
    assert!(g.get(0, 0));
    assert!(!g.get(2, 2));
    // growing back does not resurrect the discarded cell
    g.resize(3, 3);
    assert!(g.get(0, 0));
    assert!(!g.get(2, 2));
}
