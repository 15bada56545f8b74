//! Grid navigation: shortest paths over the passable cells of a grid.

use pathfinding::directed::astar::astar;
use vstd::prelude::*;

verus! {

/// The largest grid the search handles. Its costs are `u32`: a path the
/// search records repeats no cell, so its cost is at most 14 per cell, and
/// the octile estimate adds at most as much again; with 10^8 cells both stay
/// below 2.8 * 10^9, inside `u32`.
pub const MAX_GRID_CELLS: usize = 100_000_000;

/// The cost of moving from cell `a` to cell `b` of a `w` by `h` grid, where
/// `b` is a passable 8-neighbour of `a`: 10 straight, 14 diagonal.
pub open spec fn grid_step(w: int, h: int, passable: Seq<bool>, a: int, b: int) -> Option<u32> {
    if 0 < w && 0 <= a < w * h && 0 <= b < w * h && b < passable.len() && passable[b] {
        let dx = b % w - a % w;
        let dy = b / w - a / w;
        if -1 <= dx <= 1 && -1 <= dy <= 1 && !(dx == 0 && dy == 0) {
            Some(
                if dx != 0 && dy != 0 {
                    14u32
                } else {
                    10u32
                },
            )
        } else {
            None
        }
    } else {
        None
    }
}

/// `q` is a walk over the grid from `start` to `goal`.
pub open spec fn is_grid_path(
    w: int,
    h: int,
    passable: Seq<bool>,
    q: Seq<usize>,
    start: int,
    goal: int,
) -> bool {
    &&& q.len() >= 1
    &&& q[0] == start
    &&& q.last() == goal
    &&& forall|i: int| 0 <= i < q.len() - 1 ==> (#[trigger] grid_step(w, h, passable, q[i] as int, q[i + 1] as int)) is Some
}

/// The total step cost of walk `q`.
pub open spec fn path_cost(w: int, h: int, passable: Seq<bool>, q: Seq<usize>) -> int
    decreases q.len(),
{
    if q.len() <= 1 {
        0
    } else {
        path_cost(w, h, passable, q.drop_last()) + match grid_step(
            w,
            h,
            passable,
            q[q.len() - 2] as int,
            q.last() as int,
        ) {
            Some(c) => c as int,
            None => 0,
        }
    }
}

/// The octile distance between cells `a` and `g` of a grid of width `w`, in
/// step costs: 14 per diagonal and 10 per straight move of the cheapest walk
/// ignoring obstacles.
pub open spec fn octile_distance(w: int, a: int, g: int) -> int {
    let dx = if a % w > g % w { a % w - g % w } else { g % w - a % w };
    let dy = if a / w > g / w { a / w - g / w } else { g / w - a / w };
    if dx > dy {
        10 * dx + 4 * dy
    } else {
        10 * dy + 4 * dx
    }
}

/// One step never lowers the octile distance to a cell by more than its cost.
pub proof fn lemma_octile_step(w: int, h: int, passable: Seq<bool>, a: int, b: int, g: int)
    requires
        grid_step(w, h, passable, a, b) is Some,
    ensures
        octile_distance(w, a, g) <= grid_step(w, h, passable, a, b)->0 + octile_distance(w, b, g),
{
}

/// The octile distance never exceeds the cost of a walk: the search's
/// heuristic is admissible.
pub proof fn lemma_octile_admissible(w: int, h: int, passable: Seq<bool>, q: Seq<usize>, g: int)
    requires
        q.len() >= 1,
        forall|i: int| 0 <= i < q.len() - 1 ==> (#[trigger] grid_step(w, h, passable, q[i] as int, q[i + 1] as int)) is Some,
    ensures
        octile_distance(w, q[0] as int, g) <= path_cost(w, h, passable, q) + octile_distance(w, q.last() as int, g),
    decreases q.len(),
{
    if q.len() > 1 {
        let p = q.drop_last();
        assert forall|i: int| 0 <= i < p.len() - 1 implies (#[trigger] grid_step(w, h, passable, p[i] as int, p[i + 1] as int)) is Some by {
            assert(grid_step(w, h, passable, q[i] as int, q[i + 1] as int) is Some);
        }
        lemma_octile_admissible(w, h, passable, p, g);
        let k = q.len() - 2;
        assert(grid_step(w, h, passable, q[k] as int, q[k + 1] as int) is Some);
        assert(p.last() == q[k]);
        lemma_octile_step(w, h, passable, q[k] as int, q[k + 1] as int, g);
    }
}

/// What the A* search of the grid returns, for the passable flags, the grid's
/// width and height, and the start and goal cells.
pub uninterp spec fn grid_search(passable: Seq<bool>, width: nat, height: nat, start: nat, goal: nat) -> Option<(Seq<usize>, u32)>;

/// A cell of a grid has its column and row within the grid.
proof fn lemma_cell_coords(idx: int, w: int, h: int)
    requires
        0 <= idx < w * h,
        w >= 0,
        h >= 0,
        w * h <= MAX_GRID_CELLS,
    ensures
        w > 0,
        h > 0,
        w <= MAX_GRID_CELLS,
        h <= MAX_GRID_CELLS,
        0 <= idx % w < w,
        0 <= idx / w < h,
        idx == w * (idx / w) + idx % w,
{
    assert(w > 0 && h > 0) by (nonlinear_arith)
        requires
            0 <= idx < w * h,
            w >= 0,
            h >= 0,
    ;
    assert(w <= w * h && h <= w * h) by (nonlinear_arith)
        requires
            w > 0,
            h > 0,
    ;
    vstd::arithmetic::div_mod::lemma_fundamental_div_mod(idx, w);
    assert(idx / w < h) by (nonlinear_arith)
        requires
            idx < w * h,
            idx == w * (idx / w) + idx % w,
            idx % w >= 0,
            w > 0,
    ;
}

pub struct NavGrid {
    width: usize,
    height: usize,
    passable: Vec<bool>,
}

/// Whether `n` is the goal cell `goal`.
fn reaches(n: usize, goal: usize) -> (done: bool)
    ensures
        done == (n == goal),
{
    n == goal
}

/// `pathfinding::directed::astar::astar` from `start`, with the passable
/// 8-neighbours of a cell as its successors (cost 10 straight, 14 diagonal),
/// the octile distance to `goal` as the heuristic, and reaching `goal` as
/// success. The contract claims what pathfinding documents: the result is a
/// function of the grid, start and goal; a path found begins at `start`, ends
/// at `goal`, repeats no cell, moves only between successors, comes with its
/// total cost, and is a shortest one (the octile heuristic never exceeds the
/// real cost); and `None` means that no path exists.
#[verifier::external_body]
fn astar_on_grid(grid: &NavGrid, start: usize, goal: usize) -> (found: Option<(Vec<usize>, u32)>)
    requires
        grid.wf(),
        start < grid.spec_width() * grid.spec_height(),
        goal < grid.spec_width() * grid.spec_height(),
    ensures
        grid_search(
            grid.cells(),
            grid.spec_width() as nat,
            grid.spec_height() as nat,
            start as nat,
            goal as nat,
        ) == (match found {
            Some((p, c)) => Some((p@, c)),
            None => None,
        }),
        found matches Some((p, c)) ==> {
            &&& is_grid_path(
                grid.spec_width() as int,
                grid.spec_height() as int,
                grid.cells(),
                p@,
                start as int,
                goal as int,
            )
            &&& p@.no_duplicates()
            &&& c == path_cost(grid.spec_width() as int, grid.spec_height() as int, grid.cells(), p@)
            &&& forall|q: Seq<usize>|
                #[trigger] is_grid_path(
                    grid.spec_width() as int,
                    grid.spec_height() as int,
                    grid.cells(),
                    q,
                    start as int,
                    goal as int,
                ) ==> path_cost(grid.spec_width() as int, grid.spec_height() as int, grid.cells(), q)
                    >= c
        },
        found is None ==> forall|q: Seq<usize>|
            !#[trigger] is_grid_path(
                grid.spec_width() as int,
                grid.spec_height() as int,
                grid.cells(),
                q,
                start as int,
                goal as int,
            ),
{
    astar(&start, |n: &usize| grid.neighbors(*n), |n: &usize| grid.octile(*n, goal), |n: &usize| reaches(*n, goal))
}

impl NavGrid {
    pub closed spec fn spec_width(&self) -> usize {
        self.width
    }

    pub closed spec fn spec_height(&self) -> usize {
        self.height
    }

    /// Whether each cell, row by row, is passable.
    pub closed spec fn cells(&self) -> Seq<bool> {
        self.passable@
    }

    pub closed spec fn wf(&self) -> bool {
        &&& self.passable@.len() == self.width * self.height
        &&& self.width * self.height <= MAX_GRID_CELLS
    }

    /// A grid of `width` by `height` cells with the given passability, row
    /// by row.
    pub fn new(width: usize, height: usize, passable: Vec<bool>) -> (grid: Self)
        requires
            passable@.len() == width * height,
            width * height <= MAX_GRID_CELLS,
        ensures
            grid.wf(),
            grid.spec_width() == width,
            grid.spec_height() == height,
            grid.cells() == passable@,
    {
        NavGrid { width, height, passable }
    }

    /// The number of cells along x.
    pub fn width(&self) -> (w: usize)
        ensures
            w == self.spec_width(),
    {
        self.width
    }

    /// The number of cells along y.
    pub fn height(&self) -> (h: usize)
        ensures
            h == self.spec_height(),
    {
        self.height
    }

    /// The passable 8-neighbours of cell `idx` with the cost of the move.
    fn neighbors(&self, idx: usize) -> (next: Vec<(usize, u32)>)
        requires
            self.wf(),
            idx < self.width * self.height,
        ensures
            forall|i: int| 0 <= i < next@.len() ==> grid_step(self.width as int, self.height as int, self.passable@, idx as int, (#[trigger] next@[i]).0 as int) == Some(next@[i].1),
            forall|b: int| (#[trigger] grid_step(self.width as int, self.height as int, self.passable@, idx as int, b)) is Some ==> exists|i: int| 0 <= i < next@.len() && next@[i].0 == b,
    {
        let w = self.width;
        let h = self.height;
        proof {
            lemma_cell_coords(idx as int, w as int, h as int);
        }
        let x = idx % w;
        let y = idx / w;
        let mut next: Vec<(usize, u32)> = Vec::new();
        let mut dy: i64 = -1;
        while dy <= 1
            invariant
                self.wf(),
                w == self.width,
                h == self.height,
                w > 0,
                idx < w * h,
                x == idx % w,
                y == idx / w,
                x < w,
                y < h,
                w <= MAX_GRID_CELLS,
                h <= MAX_GRID_CELLS,
                -1 <= dy <= 2,
                forall|i: int| 0 <= i < next@.len() ==> grid_step(w as int, h as int, self.passable@, idx as int, (#[trigger] next@[i]).0 as int) == Some(next@[i].1),
                forall|b: int| (#[trigger] grid_step(w as int, h as int, self.passable@, idx as int, b)) is Some && b / (w as int) - y < dy ==> exists|i: int| 0 <= i < next@.len() && next@[i].0 == b,
            decreases 2 - dy,
        {
            let mut dx: i64 = -1;
            while dx <= 1
                invariant
                    self.wf(),
                    w == self.width,
                    h == self.height,
                    w > 0,
                    idx < w * h,
                    x == idx % w,
                    y == idx / w,
                    x < w,
                    y < h,
                    w <= MAX_GRID_CELLS,
                    h <= MAX_GRID_CELLS,
                    -1 <= dy <= 1,
                    -1 <= dx <= 2,
                    forall|i: int| 0 <= i < next@.len() ==> grid_step(w as int, h as int, self.passable@, idx as int, (#[trigger] next@[i]).0 as int) == Some(next@[i].1),
                    forall|b: int| (#[trigger] grid_step(w as int, h as int, self.passable@, idx as int, b)) is Some && (b / (w as int) - y < dy || (b / (w as int) - y == dy && b % (w as int) - x < dx)) ==> exists|i: int| 0 <= i < next@.len() && next@[i].0 == b,
                decreases 2 - dx,
            {
                let ghost old_next = next@;
                if !(dx == 0 && dy == 0) {
                    let nx = x as i64 + dx;
                    let ny = y as i64 + dy;
                    if nx >= 0 && ny >= 0 && nx < w as i64 && ny < h as i64 {
                        proof {
                            assert((ny as usize) * w + (nx as usize) < w * h) by (nonlinear_arith)
                                requires
                                    0 <= nx < w,
                                    0 <= ny < h,
                            ;
                        }
                        let ni = (ny as usize) * w + nx as usize;
                        proof {
                            vstd::arithmetic::div_mod::lemma_fundamental_div_mod_converse(ni as int, w as int, ny as int, nx as int);
                        }
                        if self.passable[ni] {
                            let cost: u32 = if dx != 0 && dy != 0 { 14 } else { 10 };
                            next.push((ni, cost));
                            assert(next@[next@.len() - 1].0 == ni);
                        }
                    }
                }
                proof {
                    assert forall|b: int| (#[trigger] grid_step(w as int, h as int, self.passable@, idx as int, b)) is Some && (b / (w as int) - y < dy || (b / (w as int) - y == dy && b % (w as int) - x < dx + 1)) implies exists|i: int| 0 <= i < next@.len() && next@[i].0 == b by {
                        if b / (w as int) - y == dy && b % (w as int) - x == dx {
                            lemma_cell_coords(b, w as int, h as int);
                            assert(b == (y + dy) * w + (x + dx)) by (nonlinear_arith)
                                requires
                                    b == w * (b / (w as int)) + b % (w as int),
                                    b / (w as int) == y + dy,
                                    b % (w as int) == x + dx,
                            ;
                            assert(next@.len() == old_next.len() + 1);
                            assert(next@[next@.len() - 1].0 == b);
                        } else {
                            let i = choose|i: int| 0 <= i < old_next.len() && old_next[i].0 == b;
                            assert(next@[i] == old_next[i]);
                        }
                    }
                }
                dx = dx + 1;
            }
            dy = dy + 1;
        }
        next
    }

    /// A shortest path over passable cells from cell `(sx, sy)` to cell
    /// `(gx, gy)`, as cell indices row by row, or `None` when either end is
    /// blocked or no path exists.
    pub fn find_path_cells(&self, sx: usize, sy: usize, gx: usize, gy: usize) -> (path: Option<Vec<usize>>)
        requires
            self.wf(),
            sx < self.spec_width(),
            sy < self.spec_height(),
            gx < self.spec_width(),
            gy < self.spec_height(),
        ensures
            ({
                let w = self.spec_width() as int;
                let h = self.spec_height() as int;
                let start = sy * w + sx;
                let goal = gy * w + gx;
                &&& (!self.cells()[start] || !self.cells()[goal]) ==> path is None
                &&& (self.cells()[start] && self.cells()[goal]) ==> {
                    &&& path matches Some(p) ==> grid_search(self.cells(), w as nat, h as nat, start as nat, goal as nat)
                        == Some((p@, path_cost(w, h, self.cells(), p@) as u32))
                    &&& path is None ==> grid_search(self.cells(), w as nat, h as nat, start as nat, goal as nat) is None
                }
                &&& path matches Some(p) ==> {
                    &&& is_grid_path(w, h, self.cells(), p@, start, goal)
                    &&& p@.no_duplicates()
                    &&& forall|q: Seq<usize>|
                        #[trigger] is_grid_path(w, h, self.cells(), q, start, goal) ==> path_cost(w, h, self.cells(), q)
                            >= path_cost(w, h, self.cells(), p@)
                }
                &&& (path is None && self.cells()[start] && self.cells()[goal]) ==> forall|q: Seq<usize>|
                    !#[trigger] is_grid_path(w, h, self.cells(), q, start, goal)
            }),
    {
        let w = self.width;
        proof {
            assert(sy * w + sx < w * self.height && gy * w + gx < w * self.height) by (nonlinear_arith)
                requires
                    sx < w,
                    sy < self.height,
                    gx < w,
                    gy < self.height,
            ;
        }
        let start_idx = sy * w + sx;
        let goal_idx = gy * w + gx;
        if !self.passable[start_idx] || !self.passable[goal_idx] {
            return None;
        }
        match astar_on_grid(self, start_idx, goal_idx) {
            Some((p, _cost)) => Some(p),
            None => None,
        }
    }

    /// The octile distance from cell `idx` to cell `goal`, in step costs.
    fn octile(&self, idx: usize, goal: usize) -> (h: u32)
        requires
            self.wf(),
            idx < self.width * self.height,
            goal < self.width * self.height,
        ensures
            h == octile_distance(self.width as int, idx as int, goal as int),
    {
        let w = self.width;
        proof {
            lemma_cell_coords(idx as int, w as int, self.height as int);
            lemma_cell_coords(goal as int, w as int, self.height as int);
        }
        let x = idx % w;
        let y = idx / w;
        let gx = goal % w;
        let gy = goal / w;
        let dx = if x > gx { x - gx } else { gx - x };
        let dy = if y > gy { y - gy } else { gy - y };
        let (big, small) = if dx > dy { (dx, dy) } else { (dy, dx) };
        (big * 10 + small * 4) as u32
    }
}

} // verus!
