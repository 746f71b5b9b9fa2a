//! Level progression: the revealed percentage derived from the grid, the
//! one-shot threshold latch, the completion-display countdown, and the
//! advance to the next level with its grid reset and new background image.

use vstd::prelude::*;
use crate::LEVEL_DISPLAY_MS;
use crate::STARTING_LIVES;
use crate::count::count_true;
use crate::grid::GameGrid;
use crate::images::{choose_image, copy_bytes, spec_fallback_image};
use crate::count::{lemma_count_bounds, lemma_count_full};
use crate::grid::{lemma_rm_bounds, rm};
use vstd::arithmetic::div_mod::{
    lemma_div_by_multiple,
    lemma_div_is_ordered,
    lemma_fundamental_div_mod,
    lemma_multiply_divide_le,
    lemma_multiply_divide_lt,
};

verus! {

/// Highest level the progression state machine is specified for; keeps the
/// derived threshold and speed values within their integer ranges.
pub const MAX_LEVEL: u32 = 100_000;

/// The reveal threshold of a level, in percent: 10% on the first level, two
/// points more for each level after it.
pub open spec fn spec_threshold_pct(level: int) -> int {
    10 + 2 * (level - 1)
}

/// The enemy speed multiplier of a level, in tenths: ten tenths on the first
/// level, one tenth more for each level after it.
pub open spec fn spec_speed_multiplier_tenths(level: int) -> int {
    10 + (level - 1)
}

/// Computes the reveal threshold of a level, in percent.
pub fn threshold_for_level(level: u32) -> (r: u32)
    requires
        1 <= level <= MAX_LEVEL,
    ensures
        r == spec_threshold_pct(level as int),
{
    10 + 2 * (level - 1)
}

/// Computes the enemy speed multiplier of a level, in tenths.
pub fn speed_multiplier_tenths(level: u32) -> (r: u64)
    requires
        1 <= level <= MAX_LEVEL,
    ensures
        r == spec_speed_multiplier_tenths(level as int),
{
    10 + (level - 1) as u64
}

/// The revealed share of the grid in hundredths of a percent: zero for an
/// empty grid, else the claimed share of all cells, rounded down.
pub open spec fn spec_revealed_hundredths(claimed: int, total: int) -> int {
    if total == 0 {
        0
    } else {
        claimed * 10000 / total
    }
}

/// Computes the revealed percentage in hundredths of a percent. A zero
/// total yields zero whatever the count; otherwise the result lies in
/// `[0, 10000]` and reaches 10000 exactly when every cell is claimed.
pub fn calculate_revealed_percentage(revealed: usize, total: usize) -> (r: u64)
    requires
        total == 0 || revealed <= total,
        total <= 100_000_000,
    ensures
        r == spec_revealed_hundredths(revealed as int, total as int),
        r <= 10000,
        total > 0 ==> ((r == 10000) <==> revealed == total),
{
    if total == 0 {
        return 0;
    }
    let r = (revealed as u64) * 10000 / (total as u64);
    proof {
        let c = revealed as int;
        let t = total as int;
        assert(c * 10000 <= t * 10000) by (nonlinear_arith)
            requires
                c <= t,
        ;
        assert(t * 10000 == 10000 * t) by (nonlinear_arith);
        lemma_multiply_divide_le(c * 10000, t, 10000);
        if c == t {
            lemma_div_by_multiple(10000, t);
            assert(c * 10000 == 10000 * t) by (nonlinear_arith)
                requires
                    c == t,
            ;
        } else {
            assert(c * 10000 < t * 10000) by (nonlinear_arith)
                requires
                    c < t,
            ;
            lemma_multiply_divide_lt(c * 10000, t, 10000);
        }
    }
    r
}

/// The revealed percentage of a grid lies between 0 and 100, and reaches
/// 100 exactly when every cell of the grid is claimed.
pub proof fn lemma_revealed_percentage_full(g: GameGrid)
    requires
        g.wf(),
    ensures
        0 <= spec_revealed_hundredths(count_true(g.claimed@), g.n as int * g.n as int) <= 10000,
        spec_revealed_hundredths(count_true(g.claimed@), g.n as int * g.n as int) == 10000
            <==> (forall|x: int, y: int| g.in_bounds(x, y) ==> #[trigger] g.cell(x, y)),
{
    let n = g.n as int;
    let t = n * n;
    let c = count_true(g.claimed@);
    assert(n * n >= 4) by (nonlinear_arith)
        requires
            n >= 2,
    ;
    lemma_count_bounds(g.claimed@);
    lemma_count_full(g.claimed@);
    assert(c * 10000 <= t * 10000) by (nonlinear_arith)
        requires
            c <= t,
    ;
    assert(t * 10000 == 10000 * t) by (nonlinear_arith);
    lemma_multiply_divide_le(c * 10000, t, 10000);
    assert(c * 10000 >= 0) by (nonlinear_arith)
        requires
            c >= 0,
    ;
    lemma_div_is_ordered(0, c * 10000, t);
    if c == t {
        lemma_div_by_multiple(10000, t);
        assert(c * 10000 == 10000 * t) by (nonlinear_arith)
            requires
                c == t,
        ;
    } else {
        assert(c * 10000 < t * 10000) by (nonlinear_arith)
            requires
                c < t,
        ;
        lemma_multiply_divide_lt(c * 10000, t, 10000);
    }
    if c == g.claimed@.len() {
        assert forall|x: int, y: int| g.in_bounds(x, y) implies #[trigger] g.cell(x, y) by {
            lemma_rm_bounds(n, x, y);
        }
    }
    if forall|x: int, y: int| g.in_bounds(x, y) ==> #[trigger] g.cell(x, y) {
        assert forall|i: int| 0 <= i < g.claimed@.len() implies g.claimed@[i] by {
            lemma_fundamental_div_mod(i, n);
            let x = i % n;
            let y = i / n;
            assert(n * (i / n) == (i / n) * n) by (nonlinear_arith);
            assert(rm(n, x, y) == i);
            assert(y < n) by (nonlinear_arith)
                requires
                    i < n * n,
                    0 < n,
                    i == y * n + x,
                    0 <= x < n,
            ;
            assert(g.cell(x, y));
        }
    }
}

/// Score, lives, terminal flag, and the level state machine: current level,
/// its reveal threshold, the completion-display countdown, and the flag that
/// triggers the advance to the next level.
pub struct GameState {
    /// Score counter.
    pub score: u32,
    /// Lives left; the run ends when they reach zero.
    pub lives: i32,
    /// Terminal once lives reach zero; only an explicit restart leaves it.
    pub game_over: bool,
    /// Current level, starting at 1.
    pub level: u32,
    /// Percentage of claimed cells needed to complete the level.
    pub reveal_threshold: u32,
    /// Completion-display countdown in milliseconds; `None` outside the
    /// completion phase.
    pub level_complete_timer: Option<u64>,
    /// Set when the countdown has elapsed; consumed by the level advance.
    pub ready_to_advance: bool,
}

impl GameState {
    /// Well-formedness: the level in range with its derived threshold, and
    /// lives consistent with the terminal flag.
    pub open spec fn wf(self) -> bool {
        &&& 1 <= self.level <= MAX_LEVEL
        &&& self.reveal_threshold == spec_threshold_pct(self.level as int)
        &&& 0 <= self.lives
        &&& self.game_over ==> self.lives == 0
        &&& !self.game_over ==> self.lives >= 1
        &&& self.level_complete_timer matches Some(t) ==> t <= LEVEL_DISPLAY_MS
    }

    /// The starting state: level 1 with its 10% threshold, full lives, no
    /// countdown running.
    pub fn new() -> (s: GameState)
        ensures
            s.wf(),
            s.score == 0,
            s.lives == STARTING_LIVES,
            !s.game_over,
            s.level == 1,
            s.reveal_threshold == 10,
            s.level_complete_timer is None,
            !s.ready_to_advance,
    {
        GameState {
            score: 0,
            lives: STARTING_LIVES,
            game_over: false,
            level: 1,
            reveal_threshold: 10,
            level_complete_timer: None,
            ready_to_advance: false,
        }
    }
}

/// The background image state: how much of it is revealed, whether the
/// reveal threshold has been latched, and which image is shown.
pub struct BackgroundState {
    /// Revealed share of the grid, in hundredths of a percent.
    pub revealed_hundredths: u64,
    /// Latched once the revealed percentage crosses the level threshold;
    /// reset only on level advance.
    pub threshold_reached: bool,
    /// Path of the image currently shown, relative to the asset folder.
    pub current_image: Vec<u8>,
}

impl BackgroundState {
    /// A fresh background: nothing revealed, threshold not reached, showing
    /// the given image.
    pub fn new(image: Vec<u8>) -> (b: BackgroundState)
        ensures
            b.revealed_hundredths == 0,
            !b.threshold_reached,
            b.current_image@ == image@,
    {
        BackgroundState { revealed_hundredths: 0, threshold_reached: false, current_image: image }
    }
}

/// Whether the claimed share of the grid has reached the threshold, compared
/// exactly: `claimed / total >= threshold / 100`.
pub open spec fn spec_threshold_crossed(claimed: int, total: int, threshold: int) -> bool {
    claimed * 100 >= threshold * total
}

/// Recomputes the revealed percentage from the grid and latches the
/// threshold flag on crossing. The latch is one-shot: it never reverts, and
/// the call reports `true` exactly when the flag flips on this tick.
pub fn reveal_tick(bg: &mut BackgroundState, state: &GameState, grid: &GameGrid) -> (crossed:
    bool)
    requires
        grid.wf(),
        state.wf(),
    ensures
        final(bg).current_image@ == old(bg).current_image@,
        final(bg).revealed_hundredths == spec_revealed_hundredths(
            count_true(grid.claimed@),
            grid.n as int * grid.n as int,
        ),
        final(bg).threshold_reached == (old(bg).threshold_reached || spec_threshold_crossed(
            count_true(grid.claimed@),
            grid.n as int * grid.n as int,
            state.reveal_threshold as int,
        )),
        old(bg).threshold_reached ==> final(bg).threshold_reached,
        crossed == (!old(bg).threshold_reached && spec_threshold_crossed(
            count_true(grid.claimed@),
            grid.n as int * grid.n as int,
            state.reveal_threshold as int,
        )),
{
    let claimed = grid.claimed_count();
    proof {
        assert(grid.n * grid.n <= 1_000_000) by (nonlinear_arith)
            requires
                0 < grid.n <= 1000,
        ;
    }
    let total = grid.n * grid.n;
    bg.revealed_hundredths = calculate_revealed_percentage(claimed, total);
    proof {
        assert(state.reveal_threshold <= 209_998);
        assert((state.reveal_threshold as int) * (total as int) <= 209_998 * 1_000_000)
            by (nonlinear_arith)
            requires
                state.reveal_threshold <= 209_998,
                0 <= total <= 1_000_000,
        ;
    }
    let crossed = !bg.threshold_reached && (claimed as u64) * 100 >= (
    state.reveal_threshold as u64) * (total as u64);
    if crossed {
        bg.threshold_reached = true;
    }
    crossed
}

/// The completion timer after arming: a reached threshold with no running
/// countdown arms the full display duration; otherwise the timer stands.
pub open spec fn spec_armed_timer(timer: Option<u64>, threshold_reached: bool) -> Option<u64> {
    if threshold_reached && timer is None {
        Some(LEVEL_DISPLAY_MS)
    } else {
        timer
    }
}

/// The completion timer after counting down by the elapsed time: it runs
/// out when the elapsed time covers it.
pub open spec fn spec_timer_after(armed: Option<u64>, dt: int) -> Option<u64> {
    match armed {
        Some(t) => if dt >= t {
            None
        } else {
            Some((t - dt) as u64)
        },
        None => None,
    }
}

/// The ready-to-advance flag after a countdown step: set when it already
/// was, or when the armed timer runs out this step.
pub open spec fn spec_ready_after(ready: bool, armed: Option<u64>, dt: int) -> bool {
    ready || (armed matches Some(t) && dt >= t)
}

/// Drives the completion-display countdown: the first tick after the
/// threshold is reached arms the timer with the full display duration, every
/// tick with a running timer counts it down by the elapsed time, and when it
/// runs out the state becomes ready to advance.
pub fn check_level_completion(state: &mut GameState, threshold_reached: bool, dt: u64)
    requires
        old(state).wf(),
    ensures
        final(state).wf(),
        final(state).score == old(state).score,
        final(state).lives == old(state).lives,
        final(state).game_over == old(state).game_over,
        final(state).level == old(state).level,
        final(state).reveal_threshold == old(state).reveal_threshold,
        final(state).level_complete_timer == spec_timer_after(
            spec_armed_timer(old(state).level_complete_timer, threshold_reached),
            dt as int,
        ),
        final(state).ready_to_advance == spec_ready_after(
            old(state).ready_to_advance,
            spec_armed_timer(old(state).level_complete_timer, threshold_reached),
            dt as int,
        ),
{
    if threshold_reached && state.level_complete_timer.is_none() {
        state.level_complete_timer = Some(LEVEL_DISPLAY_MS);
    }
    match state.level_complete_timer {
        Some(t) => {
            if dt >= t {
                state.level_complete_timer = None;
                state.ready_to_advance = true;
            } else {
                state.level_complete_timer = Some(t - dt);
            }
        },
        None => {},
    }
}

/// Advances to the next level once the completion display has run out: the
/// level number rises, its threshold is recomputed, the grid and the
/// background reset, and a new image is chosen, avoiding the one just shown
/// when another exists. Without the ready flag nothing changes.
pub fn advance_level(
    state: &mut GameState,
    grid: &mut GameGrid,
    bg: &mut BackgroundState,
    files: &Vec<Vec<u8>>,
)
    requires
        old(state).wf(),
        old(grid).wf(),
        old(state).level < MAX_LEVEL,
    ensures
        final(state).wf(),
        final(grid).wf(),
        final(grid).n == old(grid).n,
        !old(state).ready_to_advance ==> *final(state) == *old(state) && *final(grid) == *old(
            grid,
        ) && *final(bg) == *old(bg),
        old(state).ready_to_advance ==> {
            &&& final(state).level == old(state).level + 1
            &&& final(state).reveal_threshold == spec_threshold_pct(final(state).level as int)
            &&& !final(state).ready_to_advance
            &&& final(state).score == old(state).score
            &&& final(state).lives == old(state).lives
            &&& final(state).game_over == old(state).game_over
            &&& final(state).level_complete_timer == old(state).level_complete_timer
            &&& final(bg).revealed_hundredths == 0
            &&& !final(bg).threshold_reached
            &&& final(grid).drawing_path@.len() == 0
            &&& forall|x: int, y: int|
                final(grid).in_bounds(x, y) ==> (#[trigger] final(grid).cell(x, y)
                    <==> final(grid).on_border(x, y))
            &&& (files@.len() == 0 ==> final(bg).current_image@ == spec_fallback_image())
            &&& (files@.len() > 0 ==> exists|i: int|
                0 <= i < files@.len() && final(bg).current_image@ == #[trigger] files@[i]@)
            &&& ((exists|i: int|
                0 <= i < files@.len() && #[trigger] files@[i]@ != old(bg).current_image@)
                ==> final(bg).current_image@ != old(bg).current_image@)
        },
{
    if !state.ready_to_advance {
        return ;
    }
    state.level = state.level + 1;
    state.reveal_threshold = threshold_for_level(state.level);
    state.ready_to_advance = false;
    bg.revealed_hundredths = 0;
    bg.threshold_reached = false;
    grid.reset();
    let previous = copy_bytes(&bg.current_image);
    bg.current_image = choose_image(files, Some(&previous));
}

} // verus!
