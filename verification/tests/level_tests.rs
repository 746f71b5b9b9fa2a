use strong_lines::grid::GameGrid;
use strong_lines::level::{
    calculate_revealed_percentage, check_level_completion, reveal_tick, speed_multiplier_tenths,
    threshold_for_level, BackgroundState, GameState,
};
use strong_lines::{GRID_SIZE, LEVEL_DISPLAY_MS};

#[test]
fn threshold_grows_two_points_per_level() {
    assert_eq!(threshold_for_level(1), 10);
    assert_eq!(threshold_for_level(2), 12);
    assert_eq!(threshold_for_level(5), 18);
    assert_eq!(threshold_for_level(46), 100);
}

#[test]
fn speed_multiplier_grows_tenth_per_level() {
    assert_eq!(speed_multiplier_tenths(1), 10);
    assert_eq!(speed_multiplier_tenths(2), 11);
    assert_eq!(speed_multiplier_tenths(11), 20);
}

/// The percentage in hundredths is exact, stays within [0, 10000], and is
/// 10000 only when everything is revealed.
#[test]
fn revealed_percentage_exact_values() {
    assert_eq!(calculate_revealed_percentage(0, 6400), 0);
    assert_eq!(calculate_revealed_percentage(6400, 6400), 10000);
    assert_eq!(calculate_revealed_percentage(3200, 6400), 5000);
    assert_eq!(calculate_revealed_percentage(1, 6400), 1);
    assert_eq!(calculate_revealed_percentage(633, 6400), 989);
    assert_eq!(calculate_revealed_percentage(647, 6400), 1010);
    assert_eq!(calculate_revealed_percentage(6399, 6400), 9998);
    assert_eq!(calculate_revealed_percentage(0, 0), 0);
    // a zero total yields zero whatever the count
    assert_eq!(calculate_revealed_percentage(7, 0), 0);
}

/// The threshold latch flips once on crossing and never reverts.
#[test]
fn threshold_latch_fires_once() {
    let mut grid = GameGrid::new(GRID_SIZE);
    let state = GameState::new();
    let mut bg = BackgroundState::new(Vec::new());

    // fresh grid: 316 of 6400 cells, 4.93%, below the 10% threshold
    let crossed = reveal_tick(&mut bg, &state, &grid);
    assert!(!crossed);
    assert!(!bg.threshold_reached);
    assert_eq!(bg.revealed_hundredths, 493);

    // claim interior cells until 640 of 6400 (10%)
    let mut added = 0;
    'outer: for y in 1..79 {
        for x in 1..79 {
            if added == 324 {
                break 'outer;
            }
            grid.mark_claimed(x, y);
            added += 1;
        }
    }
    assert_eq!(grid.claimed_count(), 640);
    let crossed = reveal_tick(&mut bg, &state, &grid);
    assert!(crossed);
    assert!(bg.threshold_reached);

    // a second crossing is not reported; the latch stays
    let crossed = reveal_tick(&mut bg, &state, &grid);
    assert!(!crossed);
    assert!(bg.threshold_reached);
}

/// The completion countdown arms on the reached threshold, counts down by
/// the elapsed time, and sets the ready flag when it runs out.
#[test]
fn completion_countdown_runs_out() {
    let mut state = GameState::new();
    assert!(state.level_complete_timer.is_none());

    // nothing happens without the threshold
    check_level_completion(&mut state, false, 50);
    assert!(state.level_complete_timer.is_none());
    assert!(!state.ready_to_advance);

    // arming and first countdown happen in the same tick
    check_level_completion(&mut state, true, 50);
    assert_eq!(state.level_complete_timer, Some(LEVEL_DISPLAY_MS - 50));
    assert!(!state.ready_to_advance);

    check_level_completion(&mut state, true, 50);
    assert_eq!(state.level_complete_timer, Some(LEVEL_DISPLAY_MS - 100));

    // a huge final tick finishes the countdown
    check_level_completion(&mut state, true, LEVEL_DISPLAY_MS);
    assert!(state.level_complete_timer.is_none());
    assert!(state.ready_to_advance);
}
