//! The claim grid: an `n` by `n` matrix of claimed flags stored row-major,
//! together with the active drawing path, and the area-closing operation that
//! turns a completed path into claimed territory.
//!
//! Invariants: the border ring is always claimed; the path visits interior
//! cells only, and consecutive path cells are adjacent (at most one step on
//! each axis) and distinct. Claimed cells never revert except on reset.

use vstd::prelude::*;
use crate::count::{count_true, count_true_vec, lemma_count_monotone};

verus! {

/// Row-major index of cell `(x, y)` in a grid of width `n`.
pub open spec fn rm(n: int, x: int, y: int) -> int {
    y * n + x
}

/// Row-major indices of in-bounds cells lie below `n * n`.
pub proof fn lemma_rm_bounds(n: int, x: int, y: int)
    requires
        0 <= x < n,
        0 <= y < n,
    ensures
        0 <= rm(n, x, y) < n * n,
{
    assert(0 <= y * n + x < n * n) by (nonlinear_arith)
        requires
            0 <= x < n,
            0 <= y < n,
    ;
}

/// A row-major index determines its cell coordinates.
pub proof fn lemma_rm_div_mod(n: int, x: int, y: int)
    requires
        0 < n,
        0 <= x < n,
        0 <= y,
    ensures
        rm(n, x, y) / n == y,
        rm(n, x, y) % n == x,
{
    vstd::arithmetic::div_mod::lemma_fundamental_div_mod_converse(y * n + x, n, y, x);
}

/// For small grids the row-major index also fits comfortably in `usize`.
pub proof fn lemma_rm_fits(n: int, x: int, y: int)
    requires
        0 <= x < n,
        0 <= y < n,
        n <= 1000,
    ensures
        0 <= rm(n, x, y) < n * n,
        n * n <= 1_000_000,
{
    lemma_rm_bounds(n, x, y);
    assert(n * n <= 1_000_000) by (nonlinear_arith)
        requires
            0 < n <= 1000,
    ;
}

/// Distinct in-bounds cells have distinct row-major indices.
pub proof fn lemma_rm_injective(n: int, x1: int, y1: int, x2: int, y2: int)
    requires
        0 < n,
        0 <= x1 < n,
        0 <= y1,
        0 <= x2 < n,
        0 <= y2,
        rm(n, x1, y1) == rm(n, x2, y2),
    ensures
        x1 == x2,
        y1 == y2,
{
    lemma_rm_div_mod(n, x1, y1);
    lemma_rm_div_mod(n, x2, y2);
}

/// Whether `(ax, ay)` is a 4-neighbor of `(px, py)`.
pub open spec fn adj4(px: int, py: int, ax: int, ay: int) -> bool {
    ||| (ax == px && (ay == py - 1 || ay == py + 1))
    ||| (ay == py && (ax == px - 1 || ax == px + 1))
}

/// Whether some of the first `k` path entries is the cell `(x, y)`.
pub open spec fn path_contains_upto(path: Seq<(usize, usize)>, k: int, x: int, y: int) -> bool {
    exists|j: int| 0 <= j < k && #[trigger] path[j].0 == x && path[j].1 == y
}

/// Whether `(x, y)` is a 4-neighbor of one of the first `k` path entries.
pub open spec fn path_adjacent_upto(path: Seq<(usize, usize)>, k: int, x: int, y: int) -> bool {
    exists|j: int| 0 <= j < k && adj4(#[trigger] path[j].0 as int, path[j].1 as int, x, y)
}

/// Consecutive path cells are distinct and move at most one cell per axis.
pub open spec fn path_step_ok(a: (usize, usize), b: (usize, usize)) -> bool {
    &&& !(a.0 == b.0 && a.1 == b.1)
    &&& -1 <= b.0 - a.0 <= 1
    &&& -1 <= b.1 - a.1 <= 1
}

/// The claim grid and the active drawing path.
pub struct GameGrid {
    /// Number of cells along each axis.
    pub n: usize,
    /// Claim flags, row-major: cell `(x, y)` at index `y * n + x`.
    pub claimed: Vec<bool>,
    /// The ordered, uncommitted cells the player has traced since leaving
    /// claimed territory.
    pub drawing_path: Vec<(usize, usize)>,
}

impl GameGrid {
    /// Whether `(x, y)` is a valid cell coordinate.
    pub open spec fn in_bounds(self, x: int, y: int) -> bool {
        0 <= x < self.n && 0 <= y < self.n
    }

    /// Whether cell `(x, y)` lies on the border ring.
    pub open spec fn on_border(self, x: int, y: int) -> bool {
        x == 0 || x == self.n - 1 || y == 0 || y == self.n - 1
    }

    /// Whether cell `(x, y)` lies strictly inside the border ring.
    pub open spec fn interior(self, x: int, y: int) -> bool {
        1 <= x < self.n - 1 && 1 <= y < self.n - 1
    }

    /// Whether cell `(x, y)` is claimed.
    pub open spec fn cell(self, x: int, y: int) -> bool {
        self.claimed@[rm(self.n as int, x, y)]
    }

    /// Whether the active path holds the cell `(x, y)`.
    pub open spec fn path_contains(self, x: int, y: int) -> bool {
        path_contains_upto(self.drawing_path@, self.drawing_path@.len() as int, x, y)
    }

    /// Whether `(x, y)` is a 4-neighbor of some cell of the active path.
    pub open spec fn path_adjacent(self, x: int, y: int) -> bool {
        path_adjacent_upto(self.drawing_path@, self.drawing_path@.len() as int, x, y)
    }

    /// Well-formedness: size bounds, the border ring claimed, and the path
    /// made of adjacent, pairwise-distinct interior cells.
    pub open spec fn wf(self) -> bool {
        &&& 2 <= self.n <= 1000
        &&& self.claimed@.len() == self.n * self.n
        &&& forall|x: int, y: int|
            self.in_bounds(x, y) && self.on_border(x, y) ==> #[trigger] self.cell(x, y)
        &&& forall|k: int|
            0 <= k < self.drawing_path@.len() ==> {
                let c = #[trigger] self.drawing_path@[k];
                1 <= c.0 < self.n - 1 && 1 <= c.1 < self.n - 1
            }
        &&& forall|k: int|
            1 <= k < self.drawing_path@.len() ==> path_step_ok(
                self.drawing_path@[k - 1],
                #[trigger] self.drawing_path@[k],
            )
    }

    /// Creates a fresh grid: exactly the border ring claimed, the interior
    /// unclaimed, and the path empty.
    pub fn new(n: usize) -> (g: GameGrid)
        requires
            2 <= n <= 1000,
        ensures
            g.wf(),
            g.n == n,
            g.drawing_path@.len() == 0,
            forall|x: int, y: int|
                g.in_bounds(x, y) ==> (#[trigger] g.cell(x, y) <==> g.on_border(x, y)),
    {
        let g = GameGrid { n, claimed: build_border_cells(n), drawing_path: Vec::new() };
        proof {
            assert forall|x: int, y: int|
                g.in_bounds(x, y) implies (#[trigger] g.cell(x, y) <==> g.on_border(x, y)) by {
                lemma_rm_bounds(n as int, x, y);
            }
        }
        g
    }

    /// Resets the grid for a new level: reclaims the border ring only, clears
    /// the interior and the active path.
    pub fn reset(&mut self)
        requires
            old(self).wf(),
        ensures
            final(self).wf(),
            final(self).n == old(self).n,
            final(self).drawing_path@.len() == 0,
            forall|x: int, y: int|
                final(self).in_bounds(x, y) ==> (#[trigger] final(self).cell(x, y)
                    <==> final(self).on_border(x, y)),
    {
        self.claimed = build_border_cells(self.n);
        self.drawing_path.clear();
        proof {
            assert forall|x: int, y: int|
                self.in_bounds(x, y) implies (#[trigger] self.cell(x, y) <==> self.on_border(
                x,
                y,
            )) by {
                lemma_rm_bounds(self.n as int, x, y);
            }
        }
    }

    /// Whether `(x, y)` lies on the border ring.
    pub fn is_border(&self, x: usize, y: usize) -> (r: bool)
        requires
            1 <= self.n,
        ensures
            r == self.on_border(x as int, y as int),
    {
        x == 0 || x == self.n - 1 || y == 0 || y == self.n - 1
    }

    /// Whether cell `(x, y)` is claimed.
    pub fn is_claimed(&self, x: usize, y: usize) -> (r: bool)
        requires
            self.wf(),
            x < self.n,
            y < self.n,
        ensures
            r == self.cell(x as int, y as int),
    {
        proof {
            lemma_rm_fits(self.n as int, x as int, y as int);
        }
        self.claimed[y * self.n + x]
    }

    /// Sets the claim flag of the in-bounds cell `(x, y)`.
    fn set_cell(&mut self, x: usize, y: usize)
        requires
            2 <= old(self).n <= 1000,
            old(self).claimed@.len() == old(self).n * old(self).n,
            x < old(self).n,
            y < old(self).n,
        ensures
            final(self).n == old(self).n,
            final(self).drawing_path@ == old(self).drawing_path@,
            final(self).claimed@ == old(self).claimed@.update(
                rm(old(self).n as int, x as int, y as int),
                true,
            ),
    {
        proof {
            lemma_rm_fits(self.n as int, x as int, y as int);
        }
        let idx = y * self.n + x;
        self.claimed.set(idx, true);
    }

    /// Marks `(x, y)` claimed; a coordinate outside the grid is rejected as a
    /// no-op.
    pub fn mark_claimed(&mut self, x: usize, y: usize)
        requires
            old(self).wf(),
        ensures
            final(self).wf(),
            final(self).n == old(self).n,
            final(self).drawing_path@ == old(self).drawing_path@,
            x < old(self).n && y < old(self).n ==> forall|a: int, b: int|
                final(self).in_bounds(a, b) ==> (#[trigger] final(self).cell(a, b)
                    <==> old(self).cell(a, b) || (a == x && b == y)),
            !(x < old(self).n && y < old(self).n) ==> final(self).claimed@ == old(self).claimed@,
    {
        let ghost g0 = *self;
        if x < self.n && y < self.n {
            self.set_cell(x, y);
            proof {
                let n = g0.n as int;
                let i = rm(n, x as int, y as int);
                lemma_rm_bounds(n, x as int, y as int);
                assert(self.claimed@ == g0.claimed@.update(i, true));
                assert forall|a: int, b: int|
                    self.in_bounds(a, b) implies (#[trigger] self.cell(a, b) <==> g0.cell(a, b)
                    || (a == x && b == y)) by {
                    lemma_rm_bounds(n, a, b);
                    let j = rm(n, a, b);
                    assert(self.cell(a, b) == g0.claimed@.update(i, true)[j]);
                    if j == i {
                        lemma_rm_injective(n, a, b, x as int, y as int);
                        assert(g0.claimed@.update(i, true)[j] == true);
                    } else {
                        assert(g0.claimed@.update(i, true)[j] == g0.claimed@[j]);
                    }
                }
                assert forall|a: int, b: int|
                    self.in_bounds(a, b) && self.on_border(a, b) implies #[trigger] self.cell(
                    a,
                    b,
                ) by {
                    assert(g0.cell(a, b));
                }
            }
        }
    }

    /// Counts the claimed cells.
    pub fn claimed_count(&self) -> (r: usize)
        requires
            self.wf(),
        ensures
            r == count_true(self.claimed@),
            0 <= r <= self.n * self.n,
    {
        proof {
            crate::count::lemma_count_bounds(self.claimed@);
        }
        count_true_vec(&self.claimed)
    }

    /// Appends an interior cell to the active path; the cell must continue
    /// the path by at most one step on each axis.
    pub fn push_path_cell(&mut self, x: usize, y: usize)
        requires
            old(self).wf(),
            1 <= x < old(self).n - 1,
            1 <= y < old(self).n - 1,
            old(self).drawing_path@.len() > 0 ==> path_step_ok(
                old(self).drawing_path@.last(),
                (x, y),
            ),
        ensures
            final(self).wf(),
            final(self).n == old(self).n,
            final(self).claimed@ == old(self).claimed@,
            final(self).drawing_path@ == old(self).drawing_path@.push((x, y)),
    {
        let ghost g0 = *self;
        self.drawing_path.push((x, y));
        proof {
            assert forall|a: int, b: int|
                self.in_bounds(a, b) && self.on_border(a, b) implies #[trigger] self.cell(
                a,
                b,
            ) by {
                assert(g0.cell(a, b));
            }
        }
    }

    /// Whether the active path holds the cell `(x, y)`, for coordinates from
    /// any source, also outside the grid.
    pub fn path_contains_cell(&self, x: i64, y: i64) -> (r: bool)
        requires
            self.wf(),
        ensures
            r == path_contains_upto(
                self.drawing_path@,
                self.drawing_path@.len() as int,
                x as int,
                y as int,
            ),
    {
        let mut k: usize = 0;
        while k < self.drawing_path.len()
            invariant
                self.wf(),
                k <= self.drawing_path@.len(),
                !path_contains_upto(self.drawing_path@, k as int, x as int, y as int),
            decreases self.drawing_path@.len() - k,
        {
            let c = self.drawing_path[k];
            proof {
                assert(c == self.drawing_path@[k as int]);
                assert(1 <= c.0 < self.n - 1 && 1 <= c.1 < self.n - 1);
            }
            if c.0 as i64 == x && c.1 as i64 == y {
                proof {
                    assert(self.drawing_path@[k as int].0 == x as int && self.drawing_path@[
                        k as int].1 == y as int);
                }
                return true;
            }
            proof {
                assert forall|j: int| 0 <= j < k + 1 implies !(#[trigger] self.drawing_path@[j].0
                    == x as int && self.drawing_path@[j].1 == y as int) by {
                    if j < k {
                        assert(!path_contains_upto(
                            self.drawing_path@,
                            k as int,
                            x as int,
                            y as int,
                        ));
                    }
                }
            }
            k = k + 1;
        }
        false
    }

    /// Clears the active path without touching any claim.
    pub fn clear_path(&mut self)
        requires
            old(self).wf(),
        ensures
            final(self).wf(),
            final(self).n == old(self).n,
            final(self).claimed@ == old(self).claimed@,
            final(self).drawing_path@.len() == 0,
    {
        let ghost g0 = *self;
        self.drawing_path.clear();
        proof {
            assert forall|a: int, b: int|
                self.in_bounds(a, b) && self.on_border(a, b) implies #[trigger] self.cell(
                a,
                b,
            ) by {
                assert(g0.cell(a, b));
            }
        }
    }

    /// Converts the just-completed path into claimed territory: every path
    /// cell becomes claimed, so does every 4-neighbor of a path cell (the
    /// one-ring expansion), and the path is cleared. Claims only grow.
    pub fn complete_area(&mut self)
        requires
            old(self).wf(),
        ensures
            final(self).wf(),
            final(self).n == old(self).n,
            final(self).drawing_path@.len() == 0,
            forall|x: int, y: int|
                old(self).in_bounds(x, y) ==> (#[trigger] final(self).cell(x, y)
                    <==> old(self).cell(x, y) || old(self).path_contains(x, y)
                    || old(self).path_adjacent(x, y)),
            forall|x: int, y: int|
                old(self).in_bounds(x, y) && old(self).cell(x, y)
                    ==> #[trigger] final(self).cell(x, y),
    {
        let ghost g0 = *self;
        let ghost n = g0.n as int;
        let ghost path = g0.drawing_path@;
        let len = self.drawing_path.len();

        // First pass: mark every cell on the path as claimed.
        let mut k: usize = 0;
        while k < len
            invariant
                g0.wf(),
                self.n == g0.n,
                n == g0.n as int,
                path == g0.drawing_path@,
                self.drawing_path@ == g0.drawing_path@,
                len == path.len(),
                self.claimed@.len() == g0.claimed@.len(),
                k <= len,
                forall|x: int, y: int|
                    g0.in_bounds(x, y) ==> (#[trigger] self.cell(x, y) <==> g0.cell(x, y)
                        || path_contains_upto(path, k as int, x, y)),
            decreases len - k,
        {
            let c = self.drawing_path[k];
            let ghost prev = *self;
            proof {
                assert(path[k as int] == c);
                assert(1 <= c.0 < g0.n - 1 && 1 <= c.1 < g0.n - 1);
            }
            self.set_cell(c.0, c.1);
            proof {
                let cx = c.0 as int;
                let cy = c.1 as int;
                let ic = rm(n, cx, cy);
                lemma_rm_bounds(n, cx, cy);
                assert(self.claimed@ == prev.claimed@.update(ic, true));
                assert forall|x: int, y: int|
                    g0.in_bounds(x, y) implies (#[trigger] self.cell(x, y) <==> g0.cell(x, y)
                    || path_contains_upto(path, k + 1, x, y)) by {
                    lemma_rm_bounds(n, x, y);
                    let i = rm(n, x, y);
                    assert(self.cell(x, y) == prev.claimed@.update(ic, true)[i]);
                    if i == ic {
                        lemma_rm_injective(n, x, y, cx, cy);
                        assert(path[k as int].0 == x && path[k as int].1 == y);
                        assert(path_contains_upto(path, k + 1, x, y));
                    } else {
                        assert(self.cell(x, y) == prev.cell(x, y));
                        if path_contains_upto(path, k + 1, x, y) && !path_contains_upto(
                            path,
                            k as int,
                            x,
                            y,
                        ) {
                            let j = choose|j: int|
                                0 <= j < k + 1 && #[trigger] path[j].0 == x && path[j].1 == y;
                            assert(j == k);
                            assert(false);
                        }
                    }
                }
            }
            k = k + 1;
        }

        // Second pass: claim the 4-neighbors of every path cell. Path cells
        // are interior, so all their neighbors are in bounds.
        let ghost mid = *self;
        let mut k: usize = 0;
        while k < len
            invariant
                g0.wf(),
                self.n == g0.n,
                n == g0.n as int,
                path == g0.drawing_path@,
                self.drawing_path@ == g0.drawing_path@,
                len == path.len(),
                self.claimed@.len() == g0.claimed@.len(),
                k <= len,
                mid.n == g0.n,
                mid.claimed@.len() == g0.claimed@.len(),
                forall|x: int, y: int|
                    g0.in_bounds(x, y) ==> (#[trigger] mid.cell(x, y) <==> g0.cell(x, y)
                        || path_contains_upto(path, len as int, x, y)),
                forall|x: int, y: int|
                    g0.in_bounds(x, y) ==> (#[trigger] self.cell(x, y) <==> mid.cell(x, y)
                        || path_adjacent_upto(path, k as int, x, y)),
            decreases len - k,
        {
            let c = self.drawing_path[k];
            let ghost before = *self;
            let (cx, cy) = c;
            proof {
                assert(path[k as int] == c);
                assert(1 <= c.0 < g0.n - 1 && 1 <= c.1 < g0.n - 1);
                lemma_rm_bounds(n, c.0 - 1, c.1 as int);
                lemma_rm_bounds(n, c.0 + 1, c.1 as int);
                lemma_rm_bounds(n, c.0 as int, c.1 - 1);
                lemma_rm_bounds(n, c.0 as int, c.1 + 1);
                assert(g0.claimed@.len() == n * n);
            }
            self.set_cell(cx - 1, cy);
            proof {
                assert(self.claimed@.len() == g0.claimed@.len());
            }
            self.set_cell(cx + 1, cy);
            proof {
                assert(self.claimed@.len() == g0.claimed@.len());
            }
            self.set_cell(cx, cy - 1);
            proof {
                assert(self.claimed@.len() == g0.claimed@.len());
            }
            self.set_cell(cx, cy + 1);
            proof {
                let px = cx as int;
                let py = cy as int;
                let i1 = rm(n, px - 1, py);
                let i2 = rm(n, px + 1, py);
                let i3 = rm(n, px, py - 1);
                let i4 = rm(n, px, py + 1);
                lemma_rm_bounds(n, px - 1, py);
                lemma_rm_bounds(n, px + 1, py);
                lemma_rm_bounds(n, px, py - 1);
                lemma_rm_bounds(n, px, py + 1);
                let s4 = before.claimed@.update(i1, true).update(i2, true).update(i3, true).update(
                    i4,
                    true,
                );
                assert(self.claimed@ == s4);
                assert forall|x: int, y: int|
                    g0.in_bounds(x, y) implies (#[trigger] self.cell(x, y) <==> mid.cell(x, y)
                    || path_adjacent_upto(path, k + 1, x, y)) by {
                    lemma_rm_bounds(n, x, y);
                    let i = rm(n, x, y);
                    assert(self.cell(x, y) == s4[i]);
                    if i == i1 {
                        lemma_rm_injective(n, x, y, px - 1, py);
                        assert(adj4(px, py, x, y));
                        assert(path[k as int].0 as int == px && path[k as int].1 as int == py);
                        assert(path_adjacent_upto(path, k + 1, x, y));
                        assert(s4[i]);
                    } else if i == i2 {
                        lemma_rm_injective(n, x, y, px + 1, py);
                        assert(adj4(px, py, x, y));
                        assert(path[k as int].0 as int == px && path[k as int].1 as int == py);
                        assert(path_adjacent_upto(path, k + 1, x, y));
                        assert(s4[i]);
                    } else if i == i3 {
                        lemma_rm_injective(n, x, y, px, py - 1);
                        assert(adj4(px, py, x, y));
                        assert(path[k as int].0 as int == px && path[k as int].1 as int == py);
                        assert(path_adjacent_upto(path, k + 1, x, y));
                        assert(s4[i]);
                    } else if i == i4 {
                        lemma_rm_injective(n, x, y, px, py + 1);
                        assert(adj4(px, py, x, y));
                        assert(path[k as int].0 as int == px && path[k as int].1 as int == py);
                        assert(path_adjacent_upto(path, k + 1, x, y));
                        assert(s4[i]);
                    } else {
                        assert(s4[i] == before.claimed@[i]);
                        assert(self.cell(x, y) == before.cell(x, y));
                        if path_adjacent_upto(path, k + 1, x, y) && !path_adjacent_upto(
                            path,
                            k as int,
                            x,
                            y,
                        ) {
                            let j = choose|j: int|
                                0 <= j < k + 1 && adj4(
                                    #[trigger] path[j].0 as int,
                                    path[j].1 as int,
                                    x,
                                    y,
                                );
                            assert(j == k);
                            assert(adj4(px, py, x, y));
                            assert(i == i1 || i == i2 || i == i3 || i == i4);
                            assert(false);
                        }
                    }
                }
            }
            k = k + 1;
        }

        let ghost done = *self;
        self.drawing_path.clear();
        proof {
            assert forall|x: int, y: int|
                g0.in_bounds(x, y) implies (#[trigger] self.cell(x, y) <==> g0.cell(x, y)
                || g0.path_contains(x, y) || g0.path_adjacent(x, y)) by {
                assert(self.cell(x, y) == done.cell(x, y));
                assert(done.cell(x, y) <==> mid.cell(x, y) || path_adjacent_upto(
                    path,
                    len as int,
                    x,
                    y,
                ));
                assert(mid.cell(x, y) <==> g0.cell(x, y) || path_contains_upto(
                    path,
                    len as int,
                    x,
                    y,
                ));
            }
            assert forall|x: int, y: int|
                self.in_bounds(x, y) && self.on_border(x, y) implies #[trigger] self.cell(
                x,
                y,
            ) by {
                assert(g0.cell(x, y));
            }
        }
    }
}

/// Builds the claim flags of a fresh grid: the border ring claimed, the
/// interior unclaimed.
fn build_border_cells(n: usize) -> (v: Vec<bool>)
    requires
        2 <= n <= 1000,
    ensures
        v@.len() == n * n,
        forall|x: int, y: int|
            0 <= x < n && 0 <= y < n ==> #[trigger] v@[rm(n as int, x, y)] == (x == 0 || x == n - 1
                || y == 0 || y == n - 1),
{
    proof {
        assert(n * n <= 1_000_000) by (nonlinear_arith)
            requires
                0 < n <= 1000,
        ;
    }
    let total = n * n;
    let mut v: Vec<bool> = Vec::new();
    let mut i: usize = 0;
    while i < total
        invariant
            2 <= n <= 1000,
            total == n * n,
            i <= total,
            v@.len() == i,
            forall|x: int, y: int|
                0 <= x < n && 0 <= y < n && rm(n as int, x, y) < i ==> #[trigger] v@[rm(
                    n as int,
                    x,
                    y,
                )] == (x == 0 || x == n - 1 || y == 0 || y == n - 1),
        decreases total - i,
    {
        let x = i % n;
        let y = i / n;
        let border = x == 0 || x == n - 1 || y == 0 || y == n - 1;
        v.push(border);
        proof {
            vstd::arithmetic::div_mod::lemma_fundamental_div_mod(i as int, n as int);
            assert(i as int == (n as int) * (i as int / n as int) + (i as int % n as int));
            assert((n as int) * (i as int / n as int) == (i as int / n as int) * (n as int))
                by (nonlinear_arith);
            assert(rm(n as int, x as int, y as int) == i);
            assert(y < n) by (nonlinear_arith)
                requires
                    i < n * n,
                    0 < n,
                    y == i as int / n as int,
                    i as int == (y as int) * (n as int) + (x as int),
                    0 <= x < n,
            ;
            assert forall|a: int, b: int|
                0 <= a < n && 0 <= b < n && rm(n as int, a, b) < i + 1 implies #[trigger] v@[rm(
                n as int,
                a,
                b,
            )] == (a == 0 || a == n - 1 || b == 0 || b == n - 1) by {
                lemma_rm_bounds(n as int, a, b);
                if rm(n as int, a, b) == i {
                    lemma_rm_injective(n as int, a, b, x as int, y as int);
                }
            }
        }
        i = i + 1;
    }
    proof {
        assert forall|x: int, y: int| 0 <= x < n && 0 <= y < n implies rm(n as int, x, y)
            < total by {
            lemma_rm_bounds(n as int, x, y);
        }
    }
    v
}

/// Pointwise growth of claims never reduces the claimed-cell count.
pub proof fn lemma_claims_count_monotonic(g1: GameGrid, g2: GameGrid)
    requires
        g1.wf(),
        g2.wf(),
        g1.n == g2.n,
        forall|x: int, y: int| g1.in_bounds(x, y) && g1.cell(x, y) ==> #[trigger] g2.cell(x, y),
    ensures
        count_true(g1.claimed@) <= count_true(g2.claimed@),
{
    let n = g1.n as int;
    assert forall|i: int| 0 <= i < g1.claimed@.len() && g1.claimed@[i] implies g2.claimed@[i] by {
        vstd::arithmetic::div_mod::lemma_fundamental_div_mod(i, n);
        let x = i % n;
        let y = i / n;
        assert(n * (i / n) == (i / n) * n) by (nonlinear_arith);
        assert(rm(n, x, y) == i);
        assert(y < n) by (nonlinear_arith)
            requires
                i < n * n,
                0 < n,
                i == y * n + x,
                0 <= x < n,
        ;
        assert(g1.cell(x, y));
        assert(g2.cell(x, y));
    }
    lemma_count_monotone(g1.claimed@, g2.claimed@);
}

} // verus!
