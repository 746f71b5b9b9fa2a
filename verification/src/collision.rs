//! Player-versus-enemy collision: while the player is drawing, an enemy
//! within the collision radius costs exactly one life per tick, however many
//! enemies are in range, clears the half-drawn line, and ends the game when
//! no life is left. Enemies are unaffected.

use vstd::prelude::*;
use crate::COLLISION_RADIUS_MPX;
use crate::enemy::Enemy;
use crate::geom::{dist_sq, spec_dist_sq};
use crate::grid::GameGrid;
use crate::level::GameState;
use crate::player::Player;

verus! {

/// Whether the enemy stands within the collision radius of the player.
pub open spec fn spec_enemy_hits(p: Player, e: Enemy) -> bool {
    spec_dist_sq(p.x as int, p.y as int, e.x as int, e.y as int) < COLLISION_RADIUS_MPX
        * COLLISION_RADIUS_MPX
}

/// Whether this tick costs a life: the game still runs, the player is
/// drawing, and some enemy is within the collision radius.
pub open spec fn spec_collision_hit(
    p: Player,
    enemies: Seq<Enemy>,
    state: GameState,
) -> bool {
    &&& !state.game_over
    &&& p.is_drawing
    &&& exists|i: int| 0 <= i < enemies.len() && spec_enemy_hits(p, #[trigger] enemies[i])
}

/// Checks the player against every enemy. On a hit exactly one life is
/// lost, whatever the number of enemies in range, the active path is
/// cleared, and the game ends when the last life is gone; otherwise nothing
/// changes. Claims are never touched.
pub fn check_collisions(
    player: &Player,
    enemies: &Vec<Enemy>,
    state: &mut GameState,
    grid: &mut GameGrid,
)
    requires
        player.wf(),
        old(grid).wf(),
        old(state).wf(),
        forall|i: int| 0 <= i < enemies@.len() ==> (#[trigger] enemies@[i]).wf(),
    ensures
        final(state).wf(),
        final(grid).wf(),
        final(grid).n == old(grid).n,
        final(grid).claimed@ == old(grid).claimed@,
        spec_collision_hit(*player, enemies@, *old(state)) ==> {
            &&& final(state).lives == old(state).lives - 1
            &&& final(grid).drawing_path@.len() == 0
            &&& final(state).game_over == (final(state).lives == 0)
            &&& final(state).score == old(state).score
            &&& final(state).level == old(state).level
            &&& final(state).reveal_threshold == old(state).reveal_threshold
            &&& final(state).level_complete_timer == old(state).level_complete_timer
            &&& final(state).ready_to_advance == old(state).ready_to_advance
        },
        !spec_collision_hit(*player, enemies@, *old(state)) ==> *final(state) == *old(state)
            && *final(grid) == *old(grid),
{
    if state.game_over {
        return ;
    }
    if !player.is_drawing {
        return ;
    }
    let mut hit = false;
    let mut i: usize = 0;
    while i < enemies.len()
        invariant
            player.wf(),
            forall|j: int| 0 <= j < enemies@.len() ==> (#[trigger] enemies@[j]).wf(),
            i <= enemies@.len(),
            hit == exists|j: int|
                0 <= j < i && spec_enemy_hits(*player, #[trigger] enemies@[j]),
        decreases enemies@.len() - i,
    {
        let e = &enemies[i];
        let d2 = dist_sq(player.x, player.y, e.x, e.y);
        if !hit && d2 < COLLISION_RADIUS_MPX * COLLISION_RADIUS_MPX {
            hit = true;
            proof {
                assert(spec_enemy_hits(*player, enemies@[i as int]));
            }
        }
        i = i + 1;
    }
    if hit {
        state.lives = state.lives - 1;
        grid.clear_path();
        if state.lives <= 0 {
            state.game_over = true;
        }
    }
}

} // verus!
