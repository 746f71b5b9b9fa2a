use strong_lines::collision::check_collisions;
use strong_lines::enemy::Enemy;
use strong_lines::grid::GameGrid;
use strong_lines::level::GameState;
use strong_lines::player::Player;
use strong_lines::world::GameWorld;
use strong_lines::GRID_SIZE;

fn no_images() -> Vec<Vec<u8>> {
    Vec::new()
}

#[test]
fn new_world_initial_state() {
    let w = GameWorld::new(&no_images());
    assert_eq!(w.state.level, 1);
    assert_eq!(w.state.reveal_threshold, 10);
    assert_eq!(w.state.lives, 3);
    assert_eq!(w.state.score, 0);
    assert!(w.state.level_complete_timer.is_none());
    assert!(!w.state.ready_to_advance);
    assert!(!w.state.game_over);
    assert!(!w.bg.threshold_reached);
    assert_eq!(w.bg.revealed_hundredths, 0);
    assert_eq!(w.enemies.len(), 3);
    // the player starts centered on the bottom claimed row
    assert_eq!(w.player.x, 0);
    assert_eq!(w.player.y, -290_000);
    assert!(!w.player.is_drawing);
    assert!(w.grid.drawing_path.is_empty());
    assert_eq!(w.grid.claimed_count(), 316);
    assert_eq!(w.bg.current_image, b"images/placeholder.png".to_vec());
    for e in &w.enemies {
        assert!(e.x >= -200_000 && e.x < 200_000);
        assert!(e.y >= -150_000 && e.y < 150_000);
        assert!(e.vx.abs() <= 150_000 && e.vy.abs() <= 150_000);
        assert!(e.vx != 0 || e.vy != 0);
        assert_eq!(e.bounce_timer_ms, 0);
    }
}

/// While the completion display runs, the player, the grid and every enemy
/// stand exactly still.
#[test]
fn completion_display_freezes_play() {
    let mut w = GameWorld::new(&no_images());
    w.state.level_complete_timer = Some(5000);
    let player_before = (w.player.x, w.player.y, w.player.is_drawing);
    let enemies_before: Vec<(i64, i64, i64, i64)> =
        w.enemies.iter().map(|e| (e.x, e.y, e.vx, e.vy)).collect();
    let claimed_before = w.grid.claimed_count();
    w.tick(1, 1, 50);
    assert_eq!((w.player.x, w.player.y, w.player.is_drawing), player_before);
    let enemies_after: Vec<(i64, i64, i64, i64)> =
        w.enemies.iter().map(|e| (e.x, e.y, e.vx, e.vy)).collect();
    assert_eq!(enemies_after, enemies_before);
    assert_eq!(w.grid.claimed_count(), claimed_before);
    assert!(w.grid.drawing_path.is_empty());
    // the countdown still advanced
    assert_eq!(w.state.level_complete_timer, Some(4950));
}

/// One tick of directional input from unclaimed ground starts drawing with
/// the current cell as the whole path.
#[test]
fn directional_input_starts_drawing() {
    let mut w = GameWorld::new(&no_images());
    // keep enemies far away so no collision interferes
    for e in w.enemies.iter_mut() {
        e.x = 300_000;
        e.y = 200_000;
        e.vx = 1000;
        e.vy = 1000;
    }
    // the player starts at (0, -290000): cell (40, 1), interior, unclaimed
    assert!(!w.player.is_drawing);
    w.tick(1, 0, 16);
    assert!(w.player.is_drawing);
    assert_eq!(w.grid.drawing_path.len(), 1);
    assert_eq!(w.grid.drawing_path[0], (40, 1));
}

/// With several enemies in range at once, exactly one life is lost in the
/// tick and the half-drawn line is gone.
#[test]
fn collision_costs_exactly_one_life() {
    let mut grid = GameGrid::new(GRID_SIZE);
    grid.push_path_cell(40, 30);
    let player = Player { x: 5_000, y: 5_000, is_drawing: true };
    let enemies = vec![
        Enemy { x: 5_000, y: 6_000, vx: 1000, vy: 0, bounce_timer_ms: 0 },
        Enemy { x: 6_000, y: 5_000, vx: 1000, vy: 0, bounce_timer_ms: 0 },
        Enemy { x: 4_000, y: 5_000, vx: 1000, vy: 0, bounce_timer_ms: 0 },
    ];
    let mut state = GameState::new();
    check_collisions(&player, &enemies, &mut state, &mut grid);
    assert_eq!(state.lives, 2);
    assert!(!state.game_over);
    assert!(grid.drawing_path.is_empty());
}

/// Without drawing, enemies pass through the player.
#[test]
fn no_collision_while_idle() {
    let mut grid = GameGrid::new(GRID_SIZE);
    let player = Player { x: 5_000, y: 5_000, is_drawing: false };
    let enemies = vec![Enemy { x: 5_000, y: 6_000, vx: 1000, vy: 0, bounce_timer_ms: 0 }];
    let mut state = GameState::new();
    check_collisions(&player, &enemies, &mut state, &mut grid);
    assert_eq!(state.lives, 3);
}

/// An enemy outside the collision radius costs nothing.
#[test]
fn no_collision_out_of_range() {
    let mut grid = GameGrid::new(GRID_SIZE);
    let player = Player { x: 0, y: 0, is_drawing: true };
    let enemies = vec![Enemy { x: 30_000, y: 0, vx: 1000, vy: 0, bounce_timer_ms: 0 }];
    let mut state = GameState::new();
    check_collisions(&player, &enemies, &mut state, &mut grid);
    assert_eq!(state.lives, 3);
}

/// Losing the last life while drawing ends the game, clears the line, and
/// leaves the terminal state.
#[test]
fn last_life_ends_the_game() {
    let mut w = GameWorld::new(&no_images());
    w.state.lives = 1;
    w.player = Player { x: 5_000, y: 5_000, is_drawing: true };
    w.grid.push_path_cell(40, 30);
    w.enemies = vec![Enemy { x: 5_000, y: 6_000, vx: 0, vy: 0, bounce_timer_ms: 0 }];
    w.tick(0, 0, 16);
    assert_eq!(w.state.lives, 0);
    assert!(w.state.game_over);
    assert!(w.grid.drawing_path.is_empty());
    // terminal: further ticks change nothing about lives or the flag, and
    // directional input no longer moves the player
    let pos = (w.player.x, w.player.y);
    w.tick(1, 0, 16);
    assert_eq!(w.state.lives, 0);
    assert!(w.state.game_over);
    assert_eq!((w.player.x, w.player.y), pos);
    assert!(w.grid.drawing_path.is_empty());
}

/// Crossing the reveal threshold latches once, freezes play for the
/// completion display, and then advances the level with a fresh grid and a
/// recomputed threshold.
#[test]
fn threshold_crossing_advances_level() {
    let files = no_images();
    let mut w = GameWorld::new(&files);
    for e in w.enemies.iter_mut() {
        e.x = 300_000;
        e.y = 200_000;
        e.vx = 1000;
        e.vy = 1000;
    }

    // claim interior cells up to 633 of 6400: 9.89%, below the threshold
    let mut added = 0;
    'outer: for y in 1..79u32 {
        for x in 1..79u32 {
            if added == 317 {
                break 'outer;
            }
            w.grid.mark_claimed(x as usize, y as usize);
            added += 1;
        }
    }
    assert_eq!(w.grid.claimed_count(), 633);
    w.tick(0, 0, 50);
    assert!(!w.bg.threshold_reached);
    assert_eq!(w.bg.revealed_hundredths, 989);

    // 14 more cells: 647 of 6400, 10.10%, above the threshold
    let mut added = 0;
    for x in 1..79u32 {
        if added == 14 {
            break;
        }
        if !w.grid.is_claimed(x as usize, 50) {
            w.grid.mark_claimed(x as usize, 50);
            added += 1;
        }
    }
    assert_eq!(w.grid.claimed_count(), 647);
    w.tick(0, 0, 50);
    assert!(w.bg.threshold_reached);
    assert_eq!(w.bg.revealed_hundredths, 1010);
    assert!(w.state.level_complete_timer.is_some());

    // the latch never reverts while the display runs
    w.tick(0, 0, 50);
    assert!(w.bg.threshold_reached);

    // let the completion display run out
    let mut guard = 0;
    while !w.state.ready_to_advance && guard < 300 {
        w.tick(0, 0, 50);
        guard += 1;
    }
    assert!(w.state.ready_to_advance);

    w.advance_level(&files);
    assert_eq!(w.state.level, 2);
    assert_eq!(w.state.reveal_threshold, 12);
    assert!(!w.state.ready_to_advance);
    assert!(!w.bg.threshold_reached);
    assert_eq!(w.bg.revealed_hundredths, 0);
    assert_eq!(w.grid.claimed_count(), 316);
    assert!(w.grid.drawing_path.is_empty());
}

/// Claims never shrink across a tick.
#[test]
fn ticks_keep_claims() {
    let mut w = GameWorld::new(&no_images());
    w.grid.mark_claimed(10, 10);
    let before = w.grid.claimed_count();
    for _ in 0..20 {
        w.tick(1, 1, 16);
        assert!(w.grid.claimed_count() >= before);
    }
    assert!(w.grid.is_claimed(10, 10));
}

/// Every enemy keeps its squared speed across ticks, bounces included.
#[test]
fn enemy_speed_invariant_across_ticks() {
    let mut w = GameWorld::new(&no_images());
    let speeds: Vec<i64> =
        w.enemies.iter().map(|e| e.vx * e.vx + e.vy * e.vy).collect();
    for _ in 0..200 {
        w.tick(0, 0, 50);
    }
    for (e, s) in w.enemies.iter().zip(speeds.iter()) {
        assert_eq!(e.vx * e.vx + e.vy * e.vy, *s);
    }
}
