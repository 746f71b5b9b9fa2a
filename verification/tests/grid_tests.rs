use strong_lines::grid::GameGrid;
use strong_lines::GRID_SIZE;

/// A fresh grid holds exactly the border ring claimed and nothing else,
/// with an empty path.
#[test]
fn fresh_grid_is_border_only() {
    let g = GameGrid::new(GRID_SIZE);
    assert_eq!(g.n, 80);
    assert!(g.drawing_path.is_empty());
    for i in 0..80 {
        assert!(g.is_claimed(i, 0));
        assert!(g.is_claimed(i, 79));
        assert!(g.is_claimed(0, i));
        assert!(g.is_claimed(79, i));
    }
    assert!(!g.is_claimed(1, 1));
    assert!(!g.is_claimed(40, 40));
    assert!(!g.is_claimed(78, 78));
    // 4 * 80 - 4 border cells
    assert_eq!(g.claimed_count(), 316);
}

#[test]
fn reset_restores_border_only() {
    let mut g = GameGrid::new(GRID_SIZE);
    g.mark_claimed(10, 10);
    g.mark_claimed(11, 10);
    g.push_path_cell(20, 20);
    assert_eq!(g.claimed_count(), 318);
    g.reset();
    assert_eq!(g.claimed_count(), 316);
    assert!(g.drawing_path.is_empty());
    assert!(!g.is_claimed(10, 10));
    assert!(g.is_claimed(0, 0));
}

#[test]
fn mark_claimed_sets_one_cell() {
    let mut g = GameGrid::new(GRID_SIZE);
    assert!(!g.is_claimed(30, 40));
    g.mark_claimed(30, 40);
    assert!(g.is_claimed(30, 40));
    assert!(!g.is_claimed(40, 30));
    assert_eq!(g.claimed_count(), 317);
    // marking again changes nothing
    g.mark_claimed(30, 40);
    assert_eq!(g.claimed_count(), 317);
}

#[test]
fn is_border_matches_ring() {
    let g = GameGrid::new(GRID_SIZE);
    assert!(g.is_border(0, 5));
    assert!(g.is_border(79, 5));
    assert!(g.is_border(5, 0));
    assert!(g.is_border(5, 79));
    assert!(!g.is_border(1, 1));
    assert!(!g.is_border(40, 40));
}

/// Closing a three-cell path claims the path and its unclaimed 4-neighbors,
/// and empties the path.
#[test]
fn close_area_claims_path_and_ring() {
    let mut g = GameGrid::new(GRID_SIZE);
    g.push_path_cell(5, 5);
    g.push_path_cell(5, 6);
    g.push_path_cell(5, 7);
    let before = g.claimed_count();
    g.complete_area();
    assert!(g.drawing_path.is_empty());
    for &(x, y) in &[(5, 5), (5, 6), (5, 7)] {
        assert!(g.is_claimed(x, y));
    }
    for &(x, y) in &[(4, 5), (6, 5), (5, 4), (4, 6), (6, 6), (4, 7), (6, 7), (5, 8)] {
        assert!(g.is_claimed(x, y));
    }
    // nothing beyond the one-ring expansion
    assert!(!g.is_claimed(3, 5));
    assert!(!g.is_claimed(5, 9));
    assert!(!g.is_claimed(7, 6));
    // claims only grew: 3 path cells and 8 distinct neighbors
    assert_eq!(g.claimed_count(), before + 11);
    assert!(g.claimed_count() >= before);
}

/// Closing never unclaims: every previously claimed cell stays claimed.
#[test]
fn close_area_is_monotonic() {
    let mut g = GameGrid::new(GRID_SIZE);
    g.mark_claimed(50, 50);
    g.push_path_cell(10, 10);
    g.push_path_cell(11, 10);
    let before = g.claimed_count();
    g.complete_area();
    assert!(g.is_claimed(50, 50));
    assert!(g.is_claimed(0, 0));
    assert!(g.claimed_count() >= before);
}

#[test]
fn path_contains_cell_finds_cells() {
    let mut g = GameGrid::new(GRID_SIZE);
    g.push_path_cell(7, 7);
    g.push_path_cell(8, 7);
    assert!(g.path_contains_cell(7, 7));
    assert!(g.path_contains_cell(8, 7));
    assert!(!g.path_contains_cell(9, 7));
    assert!(!g.path_contains_cell(-1, 7));
    g.clear_path();
    assert!(!g.path_contains_cell(7, 7));
}
