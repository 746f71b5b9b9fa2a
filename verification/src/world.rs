//! The simulation world: grid, player, enemies, level state and background,
//! advanced one tick at a time. A tick runs the phases in order: player
//! movement with area closing, enemy motion with bounces, collision
//! detection, reveal accounting with the threshold latch, and the
//! completion countdown. The level advance is a separate step, taken when
//! the countdown has run out.

use vstd::prelude::*;
use crate::{GRID_SIZE, MAX_TICK_MS, NUM_ENEMIES};
use crate::collision::{check_collisions, spec_collision_hit};
use crate::count::count_true;
use crate::enemy::{enemy_step_rel, enemy_tick, Enemy};
use crate::grid::GameGrid;
use crate::images::{choose_image, spec_fallback_image};
use crate::level::{
    advance_level,
    check_level_completion,
    reveal_tick,
    speed_multiplier_tenths,
    spec_armed_timer,
    spec_ready_after,
    spec_revealed_hundredths,
    spec_speed_multiplier_tenths,
    spec_threshold_crossed,
    spec_threshold_pct,
    spec_timer_after,
    BackgroundState,
    GameState,
    MAX_LEVEL,
};
use crate::player::{player_step_rel, player_tick, Player};

verus! {

/// The whole simulation state, owned by the core and read by the host
/// between ticks.
pub struct GameWorld {
    /// The claim grid and active path.
    pub grid: GameGrid,
    /// The player.
    pub player: Player,
    /// The roaming enemies.
    pub enemies: Vec<Enemy>,
    /// Score, lives and level progression.
    pub state: GameState,
    /// The background image and reveal accounting.
    pub bg: BackgroundState,
}

/// The exact relation of one whole tick, given the intermediate player and
/// grid after the movement phase (`p1`, `g1`): in normal play the player
/// and grid step as the player relation states; during game over or the
/// completion display they stand still. Enemies step one by one against
/// the moved grid, or stand still during the completion display. A
/// collision while drawing then costs one life and the path; the revealed
/// share and the threshold latch are recomputed from the final grid; and
/// the completion countdown advances last.
pub open spec fn tick_phase_rel(
    w0: GameWorld,
    ix: int,
    iy: int,
    dt: int,
    p1: Player,
    g1: GameGrid,
    w1: GameWorld,
) -> bool {
    let frozen = w0.state.level_complete_timer is Some;
    let run_player = !w0.state.game_over && !frozen;
    let mult = spec_speed_multiplier_tenths(w0.state.level as int);
    let hit = !frozen && spec_collision_hit(p1, w1.enemies@, w0.state);
    let claimed_cnt = count_true(w1.grid.claimed@);
    let total = w1.grid.n as int * w1.grid.n as int;
    let crossed = spec_threshold_crossed(claimed_cnt, total, w0.state.reveal_threshold as int);
    let reached = w0.bg.threshold_reached || crossed;
    let armed = spec_armed_timer(w0.state.level_complete_timer, reached);
    &&& (run_player ==> player_step_rel(w0.player, w0.grid, ix, iy, dt, p1, g1))
    &&& (!run_player ==> p1 == w0.player && g1 == w0.grid)
    &&& w1.player == p1
    &&& w1.enemies@.len() == w0.enemies@.len()
    &&& (!frozen ==> forall|i: int|
        0 <= i < w0.enemies@.len() ==> enemy_step_rel(
            w0.enemies@[i],
            g1,
            mult,
            dt,
            #[trigger] w1.enemies@[i],
        ))
    &&& (frozen ==> w1.enemies@ == w0.enemies@)
    &&& w1.grid.n == g1.n
    &&& w1.grid.claimed@ == g1.claimed@
    &&& w1.grid.drawing_path@ == (if hit {
        Seq::<(usize, usize)>::empty()
    } else {
        g1.drawing_path@
    })
    &&& w1.state.lives as int == (if hit {
        w0.state.lives - 1
    } else {
        w0.state.lives as int
    })
    &&& w1.state.game_over == (if hit {
        w0.state.lives == 1
    } else {
        w0.state.game_over
    })
    &&& w1.state.score == w0.state.score
    &&& w1.state.level == w0.state.level
    &&& w1.state.reveal_threshold == w0.state.reveal_threshold
    &&& w1.bg.current_image@ == w0.bg.current_image@
    &&& w1.bg.revealed_hundredths == spec_revealed_hundredths(claimed_cnt, total)
    &&& w1.bg.threshold_reached == reached
    &&& w1.state.level_complete_timer == spec_timer_after(armed, dt)
    &&& w1.state.ready_to_advance == spec_ready_after(w0.state.ready_to_advance, armed, dt)
}

/// The exact relation of one whole tick: some intermediate player and grid
/// witness the movement phase, and everything else follows from them as
/// `tick_phase_rel` states. The witness is unique, since the phase
/// relations are deterministic.
pub open spec fn tick_rel(w0: GameWorld, ix: int, iy: int, dt: int, w1: GameWorld) -> bool {
    exists|p1: Player, g1: GameGrid| #[trigger] tick_phase_rel(w0, ix, iy, dt, p1, g1, w1)
}

impl GameWorld {
    /// Well-formedness of the world: each part well-formed on the fixed
    /// grid size, and the active path consistent with the player: while
    /// drawing, the path ends at the player's cell, and without drawing
    /// there is no path.
    pub open spec fn wf(self) -> bool {
        &&& self.grid.wf()
        &&& self.grid.n == GRID_SIZE
        &&& self.player.wf()
        &&& self.state.wf()
        &&& forall|i: int| 0 <= i < self.enemies@.len() ==> (#[trigger] self.enemies@[i]).wf()
        &&& self.player.is_drawing && self.grid.drawing_path@.len() > 0
            ==> self.grid.drawing_path@.last().0 == self.player.cell_x()
            && self.grid.drawing_path@.last().1 == self.player.cell_y()
        &&& !self.player.is_drawing ==> self.grid.drawing_path@.len() == 0
    }

    /// Builds a fresh game: the grid with only its border claimed, the
    /// player on the bottom row, randomly placed enemies, level 1, and a
    /// background image picked from the given files.
    pub fn new(files: &Vec<Vec<u8>>) -> (w: GameWorld)
        ensures
            w.wf(),
            w.enemies@.len() == NUM_ENEMIES,
            w.state.level == 1,
            w.state.lives == crate::STARTING_LIVES,
            w.state.score == 0,
            w.state.reveal_threshold == 10,
            w.state.level_complete_timer is None,
            !w.state.ready_to_advance,
            !w.state.game_over,
            !w.bg.threshold_reached,
            w.bg.revealed_hundredths == 0,
            w.grid.drawing_path@.len() == 0,
            !w.player.is_drawing,
            w.player.x == 0,
            w.player.y == -crate::HALF_HEIGHT_MPX + crate::CELL_MPX,
            forall|i: int|
                0 <= i < w.enemies@.len() ==> {
                    let e = #[trigger] w.enemies@[i];
                    &&& -crate::HALF_WIDTH_MPX / 2 <= e.x < crate::HALF_WIDTH_MPX / 2
                    &&& -crate::HALF_HEIGHT_MPX / 2 <= e.y < crate::HALF_HEIGHT_MPX / 2
                    &&& -crate::BASE_ENEMY_SPEED_MPX <= e.vx <= crate::BASE_ENEMY_SPEED_MPX
                    &&& -crate::BASE_ENEMY_SPEED_MPX <= e.vy <= crate::BASE_ENEMY_SPEED_MPX
                    &&& !(e.vx == 0 && e.vy == 0)
                    &&& e.bounce_timer_ms == 0
                },
            forall|x: int, y: int|
                w.grid.in_bounds(x, y) ==> (#[trigger] w.grid.cell(x, y) <==> w.grid.on_border(
                    x,
                    y,
                )),
            files@.len() == 0 ==> w.bg.current_image@ == spec_fallback_image(),
            files@.len() > 0 ==> exists|i: int|
                0 <= i < files@.len() && w.bg.current_image@ == #[trigger] files@[i]@,
    {
        let grid = GameGrid::new(GRID_SIZE);
        let player = Player::new();
        let mut enemies: Vec<Enemy> = Vec::new();
        let mut k: usize = 0;
        while k < NUM_ENEMIES
            invariant
                k <= NUM_ENEMIES,
                enemies@.len() == k,
                forall|i: int| 0 <= i < enemies@.len() ==> (#[trigger] enemies@[i]).wf(),
                forall|i: int|
                    0 <= i < enemies@.len() ==> {
                        let e = #[trigger] enemies@[i];
                        &&& -crate::HALF_WIDTH_MPX / 2 <= e.x < crate::HALF_WIDTH_MPX / 2
                        &&& -crate::HALF_HEIGHT_MPX / 2 <= e.y < crate::HALF_HEIGHT_MPX / 2
                        &&& -crate::BASE_ENEMY_SPEED_MPX <= e.vx <= crate::BASE_ENEMY_SPEED_MPX
                        &&& -crate::BASE_ENEMY_SPEED_MPX <= e.vy <= crate::BASE_ENEMY_SPEED_MPX
                        &&& !(e.vx == 0 && e.vy == 0)
                        &&& e.bounce_timer_ms == 0
                    },
            decreases NUM_ENEMIES - k,
        {
            enemies.push(Enemy::random());
            k = k + 1;
        }
        let state = GameState::new();
        let bg = BackgroundState::new(choose_image(files, None));
        GameWorld { grid, player, enemies, state, bg }
    }

    /// One simulation tick, fed the movement intent (`ix`, `iy`, each `-1`,
    /// `0` or `1`) and the elapsed milliseconds. While the game is over or
    /// the completion display runs, the player freezes; enemies freeze only
    /// for the completion display; collisions are processed only in normal
    /// play. Claims only grow within a tick, the threshold latch never
    /// reverts, at most one life is lost, and every enemy keeps its squared
    /// velocity magnitude.
    pub fn tick(&mut self, ix: i64, iy: i64, dt: u64)
        requires
            old(self).wf(),
            -1 <= ix <= 1,
            -1 <= iy <= 1,
            dt <= MAX_TICK_MS,
        ensures
            final(self).wf(),
            final(self).enemies@.len() == old(self).enemies@.len(),
            forall|x: int, y: int|
                old(self).grid.in_bounds(x, y) && old(self).grid.cell(x, y)
                    ==> #[trigger] final(self).grid.cell(x, y),
            old(self).bg.threshold_reached ==> final(self).bg.threshold_reached,
            final(self).state.lives == old(self).state.lives
                || final(self).state.lives == old(self).state.lives - 1,
            old(self).state.game_over ==> final(self).state.game_over && final(self).state.lives
                == old(self).state.lives,
            forall|i: int|
                0 <= i < old(self).enemies@.len() ==> (#[trigger] final(self).enemies@[i]).vx
                    * final(self).enemies@[i].vx + final(self).enemies@[i].vy
                    * final(self).enemies@[i].vy == old(self).enemies@[i].vx
                    * old(self).enemies@[i].vx + old(self).enemies@[i].vy
                    * old(self).enemies@[i].vy,
            final(self).state.level == old(self).state.level,
            final(self).state.score == old(self).state.score,
            tick_rel(*old(self), ix as int, iy as int, dt as int, *final(self)),
            old(self).state.level_complete_timer is Some ==> final(self).player
                == old(self).player && final(self).grid.n == old(self).grid.n
                && final(self).grid.claimed@ == old(self).grid.claimed@
                && final(self).grid.drawing_path@ == old(self).grid.drawing_path@
                && final(self).enemies@ == old(self).enemies@,
            old(self).state.game_over ==> final(self).player == old(self).player
                && final(self).grid.claimed@ == old(self).grid.claimed@
                && final(self).grid.drawing_path@ == old(self).grid.drawing_path@,
    {
        let ghost w0 = *self;
        let frozen = self.state.level_complete_timer.is_some();
        if !self.state.game_over && !frozen {
            player_tick(&mut self.player, &mut self.grid, ix, iy, dt);
        }
        let ghost p1 = self.player;
        let ghost g1 = self.grid;
        if !frozen {
            let mult = speed_multiplier_tenths(self.state.level);
            let ghost pre = self.enemies@;
            let ghost mid = *self;
            let mut k: usize = 0;
            while k < self.enemies.len()
                invariant
                    self.grid == mid.grid,
                    self.player == mid.player,
                    self.state == mid.state,
                    self.bg == mid.bg,
                    mid.grid == g1,
                    self.grid.wf(),
                    self.enemies@.len() == pre.len(),
                    k <= pre.len(),
                    10 <= mult <= crate::enemy::MAX_MULTIPLIER_TENTHS,
                    dt <= 1000,
                    forall|i: int| 0 <= i < pre.len() ==> (#[trigger] pre[i]).wf(),
                    forall|i: int|
                        0 <= i < self.enemies@.len() ==> (#[trigger] self.enemies@[i]).wf(),
                    forall|i: int| k <= i < pre.len() ==> #[trigger] self.enemies@[i] == pre[i],
                    forall|i: int|
                        0 <= i < k ==> enemy_step_rel(
                            pre[i],
                            g1,
                            mult as int,
                            dt as int,
                            #[trigger] self.enemies@[i],
                        ),
                    forall|i: int|
                        0 <= i < k ==> (#[trigger] self.enemies@[i]).vx * self.enemies@[i].vx
                            + self.enemies@[i].vy * self.enemies@[i].vy == pre[i].vx * pre[i].vx
                            + pre[i].vy * pre[i].vy,
                decreases pre.len() - k,
            {
                let mut e = self.enemies[k];
                enemy_tick(&mut e, &self.grid, mult, dt);
                self.enemies.set(k, e);
                k = k + 1;
            }
        }
        if !frozen {
            check_collisions(&self.player, &self.enemies, &mut self.state, &mut self.grid);
        }
        reveal_tick(&mut self.bg, &self.state, &self.grid);
        check_level_completion(&mut self.state, self.bg.threshold_reached, dt);
        proof {
            if self.grid.drawing_path@.len() == 0 {
                assert(self.grid.drawing_path@ =~= Seq::<(usize, usize)>::empty());
            }
            assert(tick_phase_rel(w0, ix as int, iy as int, dt as int, p1, g1, *self));
        }
    }

    /// Takes the pending level advance, picking the next background image
    /// from the given files; without the ready flag nothing changes.
    pub fn advance_level(&mut self, files: &Vec<Vec<u8>>)
        requires
            old(self).wf(),
            old(self).state.level < MAX_LEVEL,
        ensures
            final(self).wf(),
            final(self).enemies@ == old(self).enemies@,
            final(self).player == old(self).player,
            !old(self).state.ready_to_advance ==> final(self).state == old(self).state
                && final(self).grid == old(self).grid && final(self).bg == old(self).bg,
            old(self).state.ready_to_advance ==> {
                &&& final(self).state.level == old(self).state.level + 1
                &&& final(self).state.reveal_threshold == spec_threshold_pct(
                    final(self).state.level as int,
                )
                &&& !final(self).state.ready_to_advance
                &&& final(self).state.lives == old(self).state.lives
                &&& final(self).state.score == old(self).state.score
                &&& final(self).state.game_over == old(self).state.game_over
                &&& final(self).bg.revealed_hundredths == 0
                &&& !final(self).bg.threshold_reached
                &&& final(self).grid.drawing_path@.len() == 0
                &&& forall|x: int, y: int|
                    final(self).grid.in_bounds(x, y) ==> (#[trigger] final(self).grid.cell(x, y)
                        <==> final(self).grid.on_border(x, y))
                &&& (files@.len() == 0 ==> final(self).bg.current_image@ == spec_fallback_image())
                &&& (files@.len() > 0 ==> exists|i: int|
                    0 <= i < files@.len() && final(self).bg.current_image@
                        == #[trigger] files@[i]@)
                &&& ((exists|i: int|
                    0 <= i < files@.len() && #[trigger] files@[i]@ != old(self).bg.current_image@)
                    ==> final(self).bg.current_image@ != old(self).bg.current_image@)
            },
    {
        advance_level(&mut self.state, &mut self.grid, &mut self.bg, files);
    }
}

} // verus!
