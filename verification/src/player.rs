//! Player movement and border detection: a tick moves the player by its
//! speed along the held direction, clamps the position to the play field,
//! quantizes it to a grid cell, and drives the drawing-state transitions:
//! closing the line on claimed ground, starting a line off it, and extending
//! the line cell by cell.
//!
//! Border detection is by grid index (a cell on the outermost ring), the
//! policy of the two that keeps the border test and the claim grid in one
//! coordinate space.

use vstd::prelude::*;
use crate::{CELL_MPX, GRID_SIZE, HALF_HEIGHT_MPX, HALF_WIDTH_MPX, MAX_TICK_MS, PLAYER_SPEED_MPX};
use crate::geom::{clamp_i64, grid_coord_clamped, spec_clamp, spec_grid_coord_clamped};
use crate::grid::GameGrid;
use vstd::arithmetic::div_mod::{lemma_div_is_ordered, lemma_div_plus_one};

verus! {

/// The player: a continuous position in milli-pixels and the drawing flag.
#[derive(Clone, Copy)]
pub struct Player {
    /// Horizontal position, clamped to the play field.
    pub x: i64,
    /// Vertical position, clamped to the play field.
    pub y: i64,
    /// Whether an uncommitted line is being drawn.
    pub is_drawing: bool,
}

/// Largest horizontal position the player can take: half a cell short of the
/// field edge.
pub open spec fn spec_player_max_x() -> int {
    HALF_WIDTH_MPX - CELL_MPX / 2
}

/// Largest vertical position the player can take.
pub open spec fn spec_player_max_y() -> int {
    HALF_HEIGHT_MPX - CELL_MPX / 2
}

/// Per-axis displacement of a straight move, in milli-pixels.
pub open spec fn spec_step_straight(dt: int) -> int {
    PLAYER_SPEED_MPX * dt / 1000
}

/// Per-axis displacement of a diagonal move: the straight step scaled by
/// 707/1000, the fixed-point unit normalization of a diagonal.
pub open spec fn spec_step_diag(dt: int) -> int {
    PLAYER_SPEED_MPX * 707 * dt / 1000000
}

/// The per-axis step of a tick: diagonal input moves less on each axis.
pub open spec fn spec_step(ix: int, iy: int, dt: int) -> int {
    if ix != 0 && iy != 0 {
        spec_step_diag(dt)
    } else {
        spec_step_straight(dt)
    }
}

impl Player {
    /// Well-formedness: the position lies within the clamped play field.
    pub open spec fn wf(self) -> bool {
        &&& -spec_player_max_x() <= self.x <= spec_player_max_x()
        &&& -spec_player_max_y() <= self.y <= spec_player_max_y()
    }

    /// The grid column under the player.
    pub open spec fn cell_x(self) -> int {
        spec_grid_coord_clamped(self.x as int, HALF_WIDTH_MPX as int, GRID_SIZE as int)
    }

    /// The grid row under the player.
    pub open spec fn cell_y(self) -> int {
        spec_grid_coord_clamped(self.y as int, HALF_HEIGHT_MPX as int, GRID_SIZE as int)
    }

    /// The player's starting state: centered on the bottom claimed row, not
    /// drawing.
    pub fn new() -> (p: Player)
        ensures
            p.wf(),
            p.x == 0,
            p.y == -HALF_HEIGHT_MPX + CELL_MPX,
            !p.is_drawing,
    {
        Player { x: 0, y: -HALF_HEIGHT_MPX + CELL_MPX, is_drawing: false }
    }
}

/// Quantization moves by at most one cell when the position moves by at most
/// one cell side.
proof fn lemma_cell_step(w1: int, w2: int, half: int, n: int)
    requires
        w1 + half >= 0,
        w2 + half >= 0,
        -CELL_MPX <= w2 - w1 <= CELL_MPX,
        2 <= n,
    ensures
        -1 <= spec_grid_coord_clamped(w2, half, n) - spec_grid_coord_clamped(w1, half, n) <= 1,
{
    let c = CELL_MPX as int;
    let a = w1 + half;
    let b = w2 + half;
    assert(b <= a + c && a <= b + c);
    lemma_div_is_ordered(b, a + c, c);
    lemma_div_plus_one(a, c);
    lemma_div_is_ordered(a, b + c, c);
    lemma_div_plus_one(b, c);
    if a <= b {
        lemma_div_is_ordered(a, b, c);
    } else {
        lemma_div_is_ordered(b, a, c);
    }
}

/// The exact step relation of one player tick: how the player and the grid
/// after the tick (`p1`, `g1`) follow from those before it (`p0`, `g0`) and
/// the movement intent. With no input nothing changes; with input the
/// player takes one clamped step, and the drawing state advances: on a
/// border or claimed cell a drawn line is closed, off claimed ground a line
/// starts at the current cell or is extended by it when it differs from the
/// last cell.
pub open spec fn player_step_rel(
    p0: Player,
    g0: GameGrid,
    ix: int,
    iy: int,
    dt: int,
    p1: Player,
    g1: GameGrid,
) -> bool {
    &&& g1.n == g0.n
    &&& (ix == 0 && iy == 0 ==> p1 == p0 && g1 == g0)
    &&& (ix != 0 || iy != 0 ==> {
        let step = spec_step(ix, iy, dt);
        let nx = spec_clamp(p0.x + ix * step, -spec_player_max_x(), spec_player_max_x());
        let ny = spec_clamp(p0.y + iy * step, -spec_player_max_y(), spec_player_max_y());
        let gx = spec_grid_coord_clamped(nx, HALF_WIDTH_MPX as int, GRID_SIZE as int);
        let gy = spec_grid_coord_clamped(ny, HALF_HEIGHT_MPX as int, GRID_SIZE as int);
        let hit = g0.on_border(gx, gy) || g0.cell(gx, gy);
        &&& p1.x == nx
        &&& p1.y == ny
        &&& (hit ==> {
            &&& !p1.is_drawing
            &&& (p0.is_drawing ==> g1.drawing_path@.len() == 0 && forall|a: int, b: int|
                g0.in_bounds(a, b) ==> (#[trigger] g1.cell(a, b) <==> g0.cell(a, b)
                    || g0.path_contains(a, b) || g0.path_adjacent(a, b)))
            &&& (!p0.is_drawing ==> g1.claimed@ == g0.claimed@ && g1.drawing_path@
                == g0.drawing_path@)
        })
        &&& (!hit ==> {
            &&& p1.is_drawing
            &&& g1.claimed@ == g0.claimed@
            &&& (!p0.is_drawing ==> g1.drawing_path@ =~= seq![((gx as usize), (gy as usize))])
            &&& (p0.is_drawing ==> g1.drawing_path@ == (if g0.drawing_path@.len() > 0
                && g0.drawing_path@.last().0 == gx && g0.drawing_path@.last().1 == gy {
                g0.drawing_path@
            } else {
                g0.drawing_path@.push(((gx as usize), (gy as usize)))
            }))
        })
    })
}

/// One tick of player simulation. With no directional input nothing changes.
/// With input, the player moves one step, clamped to the field, and the
/// drawing state advances: on a border or claimed cell a drawn line is
/// closed through the area-closer; off claimed ground a line starts at the
/// current cell or is extended by it when it differs from the last cell.
pub fn player_tick(player: &mut Player, grid: &mut GameGrid, ix: i64, iy: i64, dt: u64)
    requires
        old(player).wf(),
        old(grid).wf(),
        old(grid).n == GRID_SIZE,
        -1 <= ix <= 1,
        -1 <= iy <= 1,
        dt <= MAX_TICK_MS,
        old(player).is_drawing && old(grid).drawing_path@.len() > 0
            ==> old(grid).drawing_path@.last().0 == old(player).cell_x()
            && old(grid).drawing_path@.last().1 == old(player).cell_y(),
        !old(player).is_drawing ==> old(grid).drawing_path@.len() == 0,
    ensures
        final(player).wf(),
        final(grid).wf(),
        final(grid).n == old(grid).n,
        forall|x: int, y: int|
            old(grid).in_bounds(x, y) && old(grid).cell(x, y) ==> #[trigger] final(grid).cell(x, y),
        final(player).is_drawing && final(grid).drawing_path@.len() > 0
            ==> final(grid).drawing_path@.last().0 == final(player).cell_x()
            && final(grid).drawing_path@.last().1 == final(player).cell_y(),
        !final(player).is_drawing ==> final(grid).drawing_path@.len() == 0,
        player_step_rel(
            *old(player),
            *old(grid),
            ix as int,
            iy as int,
            dt as int,
            *final(player),
            *final(grid),
        ),
{
    if ix == 0 && iy == 0 {
        return ;
    }
    let diag = ix != 0 && iy != 0;
    let dti = dt as i64;
    let step: i64 = if diag {
        PLAYER_SPEED_MPX * 707 * dti / 1000000
    } else {
        PLAYER_SPEED_MPX * dti / 1000
    };
    proof {
        assert(0 <= spec_step_straight(dti as int) <= CELL_MPX) by {
            lemma_div_is_ordered(0, PLAYER_SPEED_MPX * dti, 1000);
            lemma_div_is_ordered(PLAYER_SPEED_MPX * dti, 10_000_000, 1000);
            assert(PLAYER_SPEED_MPX * dti <= 10_000_000) by (nonlinear_arith)
                requires
                    0 <= dti <= 50,
            ;
            assert(PLAYER_SPEED_MPX * dti >= 0) by (nonlinear_arith)
                requires
                    0 <= dti,
            ;
        }
        assert(0 <= spec_step_diag(dti as int) <= CELL_MPX) by {
            lemma_div_is_ordered(0, PLAYER_SPEED_MPX * 707 * dti, 1000000);
            lemma_div_is_ordered(PLAYER_SPEED_MPX * 707 * dti, 10_000_000_000, 1000000);
            assert(PLAYER_SPEED_MPX * 707 * dti <= 10_000_000_000) by (nonlinear_arith)
                requires
                    0 <= dti <= 50,
            ;
            assert(PLAYER_SPEED_MPX * 707 * dti >= 0) by (nonlinear_arith)
                requires
                    0 <= dti,
            ;
        }
        assert(0 <= step <= CELL_MPX);
        assert(-CELL_MPX <= ix * step <= CELL_MPX && -CELL_MPX <= iy * step <= CELL_MPX)
            by (nonlinear_arith)
            requires
                -1 <= ix <= 1,
                -1 <= iy <= 1,
                0 <= step <= CELL_MPX,
        ;
    }
    let ghost p0 = *player;
    let nx = clamp_i64(player.x + ix * step, -(HALF_WIDTH_MPX - CELL_MPX / 2), HALF_WIDTH_MPX
        - CELL_MPX / 2);
    let ny = clamp_i64(player.y + iy * step, -(HALF_HEIGHT_MPX - CELL_MPX / 2), HALF_HEIGHT_MPX
        - CELL_MPX / 2);
    player.x = nx;
    player.y = ny;
    proof {
        assert(-CELL_MPX <= nx - p0.x <= CELL_MPX);
        assert(-CELL_MPX <= ny - p0.y <= CELL_MPX);
        lemma_cell_step(p0.x as int, nx as int, HALF_WIDTH_MPX as int, GRID_SIZE as int);
        lemma_cell_step(p0.y as int, ny as int, HALF_HEIGHT_MPX as int, GRID_SIZE as int);
    }
    let gx = grid_coord_clamped(nx, HALF_WIDTH_MPX, grid.n);
    let gy = grid_coord_clamped(ny, HALF_HEIGHT_MPX, grid.n);
    let on_edge = grid.is_border(gx, gy);
    let claimed = grid.is_claimed(gx, gy);
    if on_edge || claimed {
        if player.is_drawing {
            grid.complete_area();
            player.is_drawing = false;
        }
    } else {
        if !player.is_drawing {
            player.is_drawing = true;
            grid.clear_path();
            grid.push_path_cell(gx, gy);
        } else {
            let plen = grid.drawing_path.len();
            if plen == 0 {
                grid.push_path_cell(gx, gy);
            } else {
                let last = grid.drawing_path[plen - 1];
                if last.0 != gx || last.1 != gy {
                    grid.push_path_cell(gx, gy);
                }
            }
        }
    }
}

} // verus!
