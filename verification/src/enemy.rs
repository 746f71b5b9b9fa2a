//! Enemy motion: velocity integration scaled by the level speed multiplier,
//! and bounce detection against the outer walls, claimed cells, and the
//! active path. A bounce flips the velocity on the hit axis and arms a short
//! visual flash timer; the tick then moves the enemy with the updated
//! velocity, kept inside the field.

use vstd::prelude::*;
use crate::{BASE_ENEMY_SPEED_MPX, BOUNCE_FLASH_MS, CELL_MPX, HALF_HEIGHT_MPX, HALF_WIDTH_MPX};
use crate::geom::{clamp_i64, grid_coord_raw, spec_clamp, spec_grid_coord_raw};
use crate::grid::{GameGrid, path_contains_upto};
use crate::rng::rand_i64_between;
use vstd::arithmetic::div_mod::{lemma_div_is_ordered, lemma_div_non_zero, lemma_div_by_multiple};

verus! {

/// Largest velocity component an enemy can carry, in milli-pixels per
/// second.
pub const ENEMY_SPEED_LIMIT_MPX: i64 = 1_000_000;

/// Largest speed multiplier the motion is specified for, in tenths.
pub const MAX_MULTIPLIER_TENTHS: u64 = 200_000;

/// An enemy: continuous position, velocity, and the visual bounce-flash
/// timer. The timer is cosmetic: the motion never reads it.
#[derive(Clone, Copy)]
pub struct Enemy {
    /// Horizontal position in milli-pixels, kept inside the field.
    pub x: i64,
    /// Vertical position in milli-pixels, kept inside the field.
    pub y: i64,
    /// Horizontal velocity in milli-pixels per second.
    pub vx: i64,
    /// Vertical velocity in milli-pixels per second.
    pub vy: i64,
    /// Remaining visual flash time after a bounce, in milliseconds.
    pub bounce_timer_ms: u64,
}

/// Truncating division by 10000, as `/` rounds in executable code.
pub open spec fn spec_trunc_div_10000(a: int) -> int {
    if a >= 0 {
        a / 10000
    } else {
        -((-a) / 10000)
    }
}

/// Displacement of one tick, in milli-pixels: velocity times the speed
/// multiplier (in tenths) times the elapsed milliseconds, scaled down.
pub open spec fn spec_enemy_disp(v: int, mult_tenths: int, dt: int) -> int {
    spec_trunc_div_10000(v * mult_tenths * dt)
}

/// Whether the prospective horizontal position crosses the outer walls.
pub open spec fn spec_wall_hit_x(nx: int) -> bool {
    nx <= -HALF_WIDTH_MPX + CELL_MPX || nx >= HALF_WIDTH_MPX - CELL_MPX
}

/// Whether the prospective vertical position crosses the outer walls.
pub open spec fn spec_wall_hit_y(ny: int) -> bool {
    ny <= -HALF_HEIGHT_MPX + CELL_MPX || ny >= HALF_HEIGHT_MPX - CELL_MPX
}

impl Enemy {
    /// Well-formedness: the position inside the field and the velocity
    /// bounded.
    pub open spec fn wf(self) -> bool {
        &&& -HALF_WIDTH_MPX <= self.x <= HALF_WIDTH_MPX
        &&& -HALF_HEIGHT_MPX <= self.y <= HALF_HEIGHT_MPX
        &&& -ENEMY_SPEED_LIMIT_MPX <= self.vx <= ENEMY_SPEED_LIMIT_MPX
        &&& -ENEMY_SPEED_LIMIT_MPX <= self.vy <= ENEMY_SPEED_LIMIT_MPX
    }

    /// The grid column of the prospective position after one tick.
    pub open spec fn next_cell_x(self, mult_tenths: int, dt: int) -> int {
        spec_grid_coord_raw(
            self.x + spec_enemy_disp(self.vx as int, mult_tenths, dt),
            HALF_WIDTH_MPX as int,
        )
    }

    /// The grid row of the prospective position after one tick.
    pub open spec fn next_cell_y(self, mult_tenths: int, dt: int) -> int {
        spec_grid_coord_raw(
            self.y + spec_enemy_disp(self.vy as int, mult_tenths, dt),
            HALF_HEIGHT_MPX as int,
        )
    }

    /// The grid column under the enemy.
    pub open spec fn cell_x(self) -> int {
        spec_grid_coord_raw(self.x as int, HALF_WIDTH_MPX as int)
    }

    /// The grid row under the enemy.
    pub open spec fn cell_y(self) -> int {
        spec_grid_coord_raw(self.y as int, HALF_HEIGHT_MPX as int)
    }

    /// Whether this tick bounces the horizontal velocity: the prospective
    /// position crosses a wall, or the prospective cell is claimed or on the
    /// active path while differing from the current cell on this axis.
    pub open spec fn spec_bounce_x(self, grid: GameGrid, mult_tenths: int, dt: int) -> bool {
        let nx = self.x + spec_enemy_disp(self.vx as int, mult_tenths, dt);
        let gx = self.next_cell_x(mult_tenths, dt);
        let gy = self.next_cell_y(mult_tenths, dt);
        ||| spec_wall_hit_x(nx)
        ||| (grid.in_bounds(gx, gy) && grid.cell(gx, gy) && gx != self.cell_x())
        ||| (path_contains_upto(grid.drawing_path@, grid.drawing_path@.len() as int, gx, gy)
            && gx != self.cell_x())
    }

    /// Whether this tick bounces the vertical velocity.
    pub open spec fn spec_bounce_y(self, grid: GameGrid, mult_tenths: int, dt: int) -> bool {
        let ny = self.y + spec_enemy_disp(self.vy as int, mult_tenths, dt);
        let gx = self.next_cell_x(mult_tenths, dt);
        let gy = self.next_cell_y(mult_tenths, dt);
        ||| spec_wall_hit_y(ny)
        ||| (grid.in_bounds(gx, gy) && grid.cell(gx, gy) && gy != self.cell_y())
        ||| (path_contains_upto(grid.drawing_path@, grid.drawing_path@.len() as int, gx, gy)
            && gy != self.cell_y())
    }
}

/// Flipping the sign of either velocity component preserves the squared
/// velocity magnitude: a bounce never scales the speed.
pub proof fn lemma_flip_preserves_speed(vx: int, vy: int, fx: bool, fy: bool)
    ensures
        ({
            let wx = if fx {
                -vx
            } else {
                vx
            };
            let wy = if fy {
                -vy
            } else {
                vy
            };
            wx * wx + wy * wy == vx * vx + vy * vy
        }),
{
    assert((-vx) * (-vx) == vx * vx) by (nonlinear_arith);
    assert((-vy) * (-vy) == vy * vy) by (nonlinear_arith);
}

/// The exact step relation of one enemy tick: how the enemy after the tick
/// (`e1`) follows from the one before it (`e0`), the grid, the level speed
/// multiplier and the elapsed time. The bounce decision comes from the
/// prospective position under the old velocity; the move uses the possibly
/// just-flipped velocity, kept inside the field; the flash timer is rearmed
/// on a bounce and counted down in the same tick.
pub open spec fn enemy_step_rel(
    e0: Enemy,
    grid: GameGrid,
    mult_tenths: int,
    dt: int,
    e1: Enemy,
) -> bool {
    let bx = e0.spec_bounce_x(grid, mult_tenths, dt);
    let by = e0.spec_bounce_y(grid, mult_tenths, dt);
    let wx: int = if bx {
        -(e0.vx as int)
    } else {
        e0.vx as int
    };
    let wy: int = if by {
        -(e0.vy as int)
    } else {
        e0.vy as int
    };
    let armed = if bx || by {
        BOUNCE_FLASH_MS
    } else {
        e0.bounce_timer_ms
    };
    &&& e1.vx == wx
    &&& e1.vy == wy
    &&& e1.x == spec_clamp(
        e0.x + spec_enemy_disp(wx, mult_tenths, dt),
        -HALF_WIDTH_MPX as int,
        HALF_WIDTH_MPX as int,
    )
    &&& e1.y == spec_clamp(
        e0.y + spec_enemy_disp(wy, mult_tenths, dt),
        -HALF_HEIGHT_MPX as int,
        HALF_HEIGHT_MPX as int,
    )
    &&& e1.bounce_timer_ms == (if armed > 0 {
        if dt >= armed {
            0u64
        } else {
            (armed - dt) as u64
        }
    } else {
        armed
    })
}

/// One tick of enemy motion against the current grid: decide the bounces
/// from the prospective position, flip the velocity accordingly, rearm or
/// count down the flash timer, and move with the updated velocity, kept
/// inside the field. The squared velocity magnitude is preserved.
pub fn enemy_tick(e: &mut Enemy, grid: &GameGrid, mult_tenths: u64, dt: u64)
    requires
        old(e).wf(),
        grid.wf(),
        10 <= mult_tenths <= MAX_MULTIPLIER_TENTHS,
        dt <= 1000,
    ensures
        final(e).wf(),
        enemy_step_rel(*old(e), *grid, mult_tenths as int, dt as int, *final(e)),
        final(e).vx * final(e).vx + final(e).vy * final(e).vy == old(e).vx * old(e).vx + old(e).vy
            * old(e).vy,
{
    let mult = mult_tenths as i64;
    let dti = dt as i64;
    proof {
        lemma_disp_bounded(e.vx as int, mult as int, dti as int);
        lemma_disp_bounded(e.vy as int, mult as int, dti as int);
    }
    let dx = e.vx * mult * dti / 10000;
    let dy = e.vy * mult * dti / 10000;
    let nx = e.x + dx;
    let ny = e.y + dy;
    let ngx = grid_coord_raw(nx, HALF_WIDTH_MPX);
    let ngy = grid_coord_raw(ny, HALF_HEIGHT_MPX);
    let cgx = grid_coord_raw(e.x, HALF_WIDTH_MPX);
    let cgy = grid_coord_raw(e.y, HALF_HEIGHT_MPX);
    let mut bx = nx <= -HALF_WIDTH_MPX + CELL_MPX || nx >= HALF_WIDTH_MPX - CELL_MPX;
    let mut by = ny <= -HALF_HEIGHT_MPX + CELL_MPX || ny >= HALF_HEIGHT_MPX - CELL_MPX;
    let n64 = grid.n as i64;
    if 0 <= ngx && ngx < n64 && 0 <= ngy && ngy < n64 {
        if grid.is_claimed(ngx as usize, ngy as usize) {
            if ngx != cgx {
                bx = true;
            }
            if ngy != cgy {
                by = true;
            }
        }
    }
    if grid.path_contains_cell(ngx, ngy) {
        if ngx != cgx {
            bx = true;
        }
        if ngy != cgy {
            by = true;
        }
    }
    let ghost e0 = *e;
    if bx {
        e.vx = -e.vx;
    }
    if by {
        e.vy = -e.vy;
    }
    if bx || by {
        e.bounce_timer_ms = BOUNCE_FLASH_MS;
    }
    if e.bounce_timer_ms > 0 {
        if dt >= e.bounce_timer_ms {
            e.bounce_timer_ms = 0;
        } else {
            e.bounce_timer_ms = e.bounce_timer_ms - dt;
        }
    }
    proof {
        lemma_disp_bounded(e.vx as int, mult as int, dti as int);
        lemma_disp_bounded(e.vy as int, mult as int, dti as int);
    }
    let dx2 = e.vx * mult * dti / 10000;
    let dy2 = e.vy * mult * dti / 10000;
    e.x = clamp_i64(e.x + dx2, -HALF_WIDTH_MPX, HALF_WIDTH_MPX);
    e.y = clamp_i64(e.y + dy2, -HALF_HEIGHT_MPX, HALF_HEIGHT_MPX);
    proof {
        lemma_flip_preserves_speed(e0.vx as int, e0.vy as int, bx, by);
    }
}

/// The scaled product of a bounded velocity, multiplier and tick fits well
/// inside the 64-bit range.
proof fn lemma_disp_bounded(v: int, mult: int, dt: int)
    requires
        -ENEMY_SPEED_LIMIT_MPX <= v <= ENEMY_SPEED_LIMIT_MPX,
        0 <= mult <= MAX_MULTIPLIER_TENTHS,
        0 <= dt <= 1000,
    ensures
        -200_000_000_000 <= v * mult <= 200_000_000_000,
        -200_000_000_000_000 <= v * mult * dt <= 200_000_000_000_000,
        -20_000_000_000 <= spec_trunc_div_10000(v * mult * dt) <= 20_000_000_000,
{
    assert(-200_000_000_000 <= v * mult <= 200_000_000_000 && -200_000_000_000_000 <= v * mult
        * dt <= 200_000_000_000_000) by (nonlinear_arith)
        requires
            -1_000_000 <= v <= 1_000_000,
            0 <= mult <= 200_000,
            0 <= dt <= 1000,
    ;
    let p = v * mult * dt;
    if p >= 0 {
        lemma_div_is_ordered(p, 200_000_000_000_000, 10000);
        lemma_div_is_ordered(0, p, 10000);
    } else {
        lemma_div_is_ordered(-p, 200_000_000_000_000, 10000);
        lemma_div_is_ordered(0, -p, 10000);
    }
}

/// Whether `m` is the integer square root of `n`, rounded down.
pub open spec fn spec_is_isqrt(m: int, n: int) -> bool {
    m * m <= n < (m + 1) * (m + 1)
}

/// Builds an enemy velocity of roughly the base speed from two raw random
/// components, scaling them against their integer magnitude; a zero draw
/// falls back to a horizontal velocity of exactly the base speed.
pub fn velocity_from_raw(rx: i64, ry: i64) -> (v: (i64, i64))
    requires
        -1000 <= rx < 1000,
        -1000 <= ry < 1000,
    ensures
        -BASE_ENEMY_SPEED_MPX <= v.0 <= BASE_ENEMY_SPEED_MPX,
        -BASE_ENEMY_SPEED_MPX <= v.1 <= BASE_ENEMY_SPEED_MPX,
        !(v.0 == 0 && v.1 == 0),
        rx == 0 && ry == 0 ==> v.0 == BASE_ENEMY_SPEED_MPX && v.1 == 0,
        !(rx == 0 && ry == 0) ==> exists|m: int|
            1 <= m && #[trigger] spec_is_isqrt(m, rx * rx + ry * ry) && v.0
                == spec_scaled_component(rx as int, m) && v.1 == spec_scaled_component(
                ry as int,
                m,
            ),
{
    if rx == 0 && ry == 0 {
        return (BASE_ENEMY_SPEED_MPX, 0);
    }
    proof {
        assert(0 <= rx * rx <= 1_000_000 && 0 <= ry * ry <= 1_000_000) by (nonlinear_arith)
            requires
                -1000 <= rx <= 1000,
                -1000 <= ry <= 1000,
        ;
    }
    let m2 = (rx * rx + ry * ry) as u64;
    let mag = int_sqrt(m2) as i64;
    proof {
        assert(rx * rx >= 1 || ry * ry >= 1) by (nonlinear_arith)
            requires
                !(rx == 0 && ry == 0),
        ;
        assert(1 <= m2);
        assert(mag >= 1) by (nonlinear_arith)
            requires
                m2 < (mag + 1) * (mag + 1),
                m2 >= 1,
                mag >= 0,
        ;
        assert(mag <= 1414) by {
            assert(m2 <= 2_000_000);
            assert(mag * mag <= 2_000_000);
            assert(mag <= 1414) by (nonlinear_arith)
                requires
                    mag * mag <= 2_000_000,
                    mag >= 0,
            ;
        }
        lemma_scaled_component_bounded(rx as int, mag as int, m2 as int);
        lemma_scaled_component_bounded(ry as int, mag as int, m2 as int);
    }
    let vx = rx * BASE_ENEMY_SPEED_MPX / mag;
    let vy = ry * BASE_ENEMY_SPEED_MPX / mag;
    proof {
        if rx != 0 {
            lemma_scaled_component_nonzero(rx as int, mag as int);
        } else {
            lemma_scaled_component_nonzero(ry as int, mag as int);
        }
        assert(spec_is_isqrt(mag as int, rx * rx + ry * ry));
        assert(vx == spec_scaled_component(rx as int, mag as int));
        assert(vy == spec_scaled_component(ry as int, mag as int));
    }
    (vx, vy)
}

/// A raw component scaled by the base speed and divided by a magnitude it
/// does not exceed stays within the base speed.
proof fn lemma_scaled_component_bounded(r: int, mag: int, m2: int)
    requires
        1 <= mag,
        r * r <= m2,
        m2 < (mag + 1) * (mag + 1),
        -1000 <= r <= 1000,
    ensures
        -BASE_ENEMY_SPEED_MPX <= spec_scaled_component(r, mag) <= BASE_ENEMY_SPEED_MPX,
{
    assert(-mag <= r <= mag) by (nonlinear_arith)
        requires
            r * r <= m2,
            m2 < (mag + 1) * (mag + 1),
            mag >= 1,
    ;
    let b = BASE_ENEMY_SPEED_MPX as int;
    if r >= 0 {
        assert(r * b <= mag * b) by (nonlinear_arith)
            requires
                r <= mag,
                b > 0,
        ;
        lemma_div_is_ordered(r * b, mag * b, mag);
        lemma_div_by_multiple(b, mag);
        assert(mag * b == b * mag) by (nonlinear_arith);
        lemma_div_is_ordered(0, r * b, mag);
        assert(r * b >= 0) by (nonlinear_arith)
            requires
                r >= 0,
                b > 0,
        ;
    } else {
        assert((-r) * b <= mag * b) by (nonlinear_arith)
            requires
                -r <= mag,
                b > 0,
        ;
        lemma_div_is_ordered((-r) * b, mag * b, mag);
        lemma_div_by_multiple(b, mag);
        assert(mag * b == b * mag) by (nonlinear_arith);
        lemma_div_is_ordered(0, (-r) * b, mag);
        assert((-r) * b >= 0) by (nonlinear_arith)
            requires
                r < 0,
                b > 0,
        ;
        assert(r * b == -((-r) * b)) by (nonlinear_arith);
    }
}

/// The scaled component of a velocity draw, with the truncating division of
/// executable code.
pub open spec fn spec_scaled_component(r: int, mag: int) -> int {
    let p = r * BASE_ENEMY_SPEED_MPX;
    if p >= 0 {
        p / mag
    } else {
        -((-p) / mag)
    }
}

/// A nonzero raw component keeps a nonzero scaled component: the base speed
/// dwarfs any magnitude a draw can have.
proof fn lemma_scaled_component_nonzero(r: int, mag: int)
    requires
        r != 0,
        1 <= mag <= 1414,
        -1000 <= r <= 1000,
    ensures
        spec_scaled_component(r, mag) != 0,
{
    let b = BASE_ENEMY_SPEED_MPX as int;
    if r > 0 {
        assert(r * b >= b) by (nonlinear_arith)
            requires
                r >= 1,
                b > 0,
        ;
        lemma_div_non_zero(r * b, mag);
    } else {
        assert((-r) * b >= b) by (nonlinear_arith)
            requires
                -r >= 1,
                b > 0,
        ;
        lemma_div_non_zero((-r) * b, mag);
        assert(r * b == -((-r) * b)) by (nonlinear_arith);
    }
}

/// Integer square root by linear search: the greatest `r` with `r * r <= n`.
pub fn int_sqrt(n: u64) -> (r: u64)
    requires
        n <= 4_000_000,
    ensures
        r * r <= n,
        n < (r + 1) * (r + 1),
        r <= 2000,
{
    let mut r: u64 = 0;
    while r < 2000
        invariant
            r * r <= n,
            n <= 4_000_000,
            r <= 2000,
        decreases 2000 - r,
    {
        let next = r + 1;
        proof {
            assert(next * next <= 4_008_004) by (nonlinear_arith)
                requires
                    0 < next <= 2001,
            ;
        }
        if next * next > n {
            return r;
        }
        r = next;
    }
    proof {
        assert((r + 1) * (r + 1) == 2001 * 2001) by (nonlinear_arith)
            requires
                r == 2000,
        ;
    }
    r
}

impl Enemy {
    /// Spawns an enemy at a random spot of the central quarter of the field
    /// with a random direction of roughly the base speed.
    pub fn random() -> (e: Enemy)
        ensures
            e.wf(),
            -HALF_WIDTH_MPX / 2 <= e.x < HALF_WIDTH_MPX / 2,
            -HALF_HEIGHT_MPX / 2 <= e.y < HALF_HEIGHT_MPX / 2,
            -BASE_ENEMY_SPEED_MPX <= e.vx <= BASE_ENEMY_SPEED_MPX,
            -BASE_ENEMY_SPEED_MPX <= e.vy <= BASE_ENEMY_SPEED_MPX,
            !(e.vx == 0 && e.vy == 0),
            e.bounce_timer_ms == 0,
    {
        let x = rand_i64_between(-(HALF_WIDTH_MPX / 2), HALF_WIDTH_MPX / 2);
        let y = rand_i64_between(-(HALF_HEIGHT_MPX / 2), HALF_HEIGHT_MPX / 2);
        let rx = rand_i64_between(-1000, 1000);
        let ry = rand_i64_between(-1000, 1000);
        let v = velocity_from_raw(rx, ry);
        Enemy { x, y, vx: v.0, vy: v.1, bounce_timer_ms: 0 }
    }
}

} // verus!
