use strong_lines::enemy::{enemy_tick, int_sqrt, velocity_from_raw, Enemy};
use strong_lines::grid::GameGrid;
use strong_lines::{BASE_ENEMY_SPEED_MPX, GRID_SIZE, HALF_HEIGHT_MPX, HALF_WIDTH_MPX};

fn speed_sq(e: &Enemy) -> i64 {
    e.vx * e.vx + e.vy * e.vy
}

/// A wall bounce flips the axis velocity and preserves the speed.
#[test]
fn wall_bounce_flips_velocity() {
    let grid = GameGrid::new(GRID_SIZE);
    let mut e = Enemy { x: 385_000, y: 0, vx: 1_000_000, vy: 0, bounce_timer_ms: 0 };
    let before = speed_sq(&e);
    enemy_tick(&mut e, &grid, 10, 100);
    assert_eq!(e.vx, -1_000_000);
    assert_eq!(e.vy, 0);
    // moved with the flipped velocity: 100000 milli-pixels back
    assert_eq!(e.x, 285_000);
    assert_eq!(e.y, 0);
    assert_eq!(speed_sq(&e), before);
    // the flash timer was armed (200 ms) and counted down by the tick
    assert_eq!(e.bounce_timer_ms, 100);
}

/// Entering a claimed cell bounces the axis that crosses into it.
#[test]
fn claimed_cell_bounce() {
    let mut grid = GameGrid::new(GRID_SIZE);
    grid.mark_claimed(10, 10);
    // cell (10, 11), heading down into the claimed cell (10, 10)
    let mut e = Enemy { x: -295_000, y: -185_000, vx: 0, vy: -1_000_000, bounce_timer_ms: 0 };
    let before = speed_sq(&e);
    enemy_tick(&mut e, &grid, 10, 10);
    assert_eq!(e.vy, 1_000_000);
    assert_eq!(e.vx, 0);
    assert_eq!(e.y, -175_000);
    assert_eq!(speed_sq(&e), before);
}

/// The active path blocks enemies like claimed ground.
#[test]
fn path_cell_bounce() {
    let mut grid = GameGrid::new(GRID_SIZE);
    grid.push_path_cell(20, 20);
    // cell (20, 21), heading down into the path cell (20, 20)
    let mut e = Enemy { x: -195_000, y: -85_000, vx: 0, vy: -1_000_000, bounce_timer_ms: 0 };
    enemy_tick(&mut e, &grid, 10, 10);
    assert_eq!(e.vy, 1_000_000);
    assert_eq!(e.y, -75_000);
}

/// Free flight: no bounce, no flash, plain integration.
#[test]
fn free_flight_keeps_velocity() {
    let grid = GameGrid::new(GRID_SIZE);
    let mut e = Enemy { x: 0, y: 0, vx: 100_000, vy: -50_000, bounce_timer_ms: 0 };
    enemy_tick(&mut e, &grid, 10, 100);
    assert_eq!(e.vx, 100_000);
    assert_eq!(e.vy, -50_000);
    assert_eq!(e.x, 10_000);
    assert_eq!(e.y, -5_000);
    assert_eq!(e.bounce_timer_ms, 0);
}

/// The level multiplier scales the displacement, not the stored velocity.
#[test]
fn multiplier_scales_displacement_only() {
    let grid = GameGrid::new(GRID_SIZE);
    let mut e = Enemy { x: 0, y: 0, vx: 100_000, vy: 0, bounce_timer_ms: 0 };
    enemy_tick(&mut e, &grid, 15, 100);
    assert_eq!(e.x, 15_000);
    assert_eq!(e.vx, 100_000);
}

#[test]
fn int_sqrt_exact_values() {
    assert_eq!(int_sqrt(0), 0);
    assert_eq!(int_sqrt(1), 1);
    assert_eq!(int_sqrt(8), 2);
    assert_eq!(int_sqrt(9), 3);
    assert_eq!(int_sqrt(998_001), 999);
    assert_eq!(int_sqrt(4_000_000), 2000);
}

#[test]
fn velocity_from_raw_scales_to_base_speed() {
    // a 3-4-5 triangle scales exactly
    let (vx, vy) = velocity_from_raw(3, 4);
    assert_eq!(vx, 3 * BASE_ENEMY_SPEED_MPX / 5);
    assert_eq!(vy, 4 * BASE_ENEMY_SPEED_MPX / 5);
    // an axis draw keeps the full base speed
    let (vx, vy) = velocity_from_raw(999, 0);
    assert_eq!(vx, BASE_ENEMY_SPEED_MPX);
    assert_eq!(vy, 0);
    // the zero draw falls back to a moving enemy
    let (vx, vy) = velocity_from_raw(0, 0);
    assert!(vx != 0 || vy != 0);
    // negative draws keep the bound and the sign
    let (vx, vy) = velocity_from_raw(-999, 0);
    assert_eq!(vx, -BASE_ENEMY_SPEED_MPX);
    assert_eq!(vy, 0);
}

/// Random spawns stay inside the central quarter of the field and move.
#[test]
fn random_enemies_spawn_in_bounds() {
    for _ in 0..50 {
        let e = Enemy::random();
        assert!(e.x >= -HALF_WIDTH_MPX / 2 && e.x < HALF_WIDTH_MPX / 2);
        assert!(e.y >= -HALF_HEIGHT_MPX / 2 && e.y < HALF_HEIGHT_MPX / 2);
        assert!(e.vx != 0 || e.vy != 0);
        assert!(e.vx.abs() <= BASE_ENEMY_SPEED_MPX);
        assert!(e.vy.abs() <= BASE_ENEMY_SPEED_MPX);
        assert_eq!(e.bounce_timer_ms, 0);
    }
}
