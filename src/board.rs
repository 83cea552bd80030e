use crate::direction::Direction;
use crate::pattern::{Pattern, pattern_grid, rotated, width};
use vstd::arithmetic::div_mod::lemma_fundamental_div_mod_converse;
use vstd::prelude::*;

verus! {

/// The side of the board that `Board::new` makes.
pub const BOARD_SIZE: usize = 128;

/// The largest side a board may have.
pub const MAX_BOARD_SIZE: usize = 4096;

/// What neighbour counting does with a neighbour position off the board.
#[derive(Debug, Clone, Copy, PartialEq, Eq, Structural)]
pub enum Boundary {
    /// Off-board positions are not counted.
    Clipped,
    /// Off-board positions wrap around to the opposite edge: the board is a torus.
    Toroidal,
}

/// Why a checked query was refused.
#[derive(Debug, Clone, Copy, PartialEq, Eq, Structural)]
pub enum BoardError {
    /// The coordinates lie outside the board.
    OutOfBounds,
}

/// The mathematical state of a board: its side, boundary policy, generation
/// counter and cells in row-major order (cell `(x, y)` at `y * size + x`).
pub struct BoardModel {
    pub size: int,
    pub boundary: Boundary,
    pub generation: int,
    pub cells: Seq<bool>,
}

/// The number of `true` entries of `s`.
pub open spec fn count_true(s: Seq<bool>) -> nat
    decreases s.len(),
{
    if s.len() == 0 {
        0
    } else {
        count_true(s.drop_last()) + if s.last() {
            1nat
        } else {
            0nat
        }
    }
}

/// 1 for a live cell, 0 for a dead one.
pub open spec fn live_value(b: bool) -> int {
    if b {
        1
    } else {
        0
    }
}

impl BoardModel {
    /// The side is positive and bounded, and there is one cell per position.
    pub open spec fn wf(self) -> bool {
        &&& 0 < self.size <= MAX_BOARD_SIZE
        &&& self.cells.len() == self.size * self.size
    }

    /// `(x, y)` is a position on the board.
    pub open spec fn in_bounds(self, x: int, y: int) -> bool {
        0 <= x < self.size && 0 <= y < self.size
    }

    /// Whether the cell at `(x, y)` is alive.
    pub open spec fn cell(self, x: int, y: int) -> bool {
        self.cells[y * self.size + x]
    }

    /// Whether the neighbour of `(x, y)` at offset `(dx, dy)` is a live cell under
    /// the board's boundary policy.
    pub open spec fn neighbour_live(self, x: int, y: int, dx: int, dy: int) -> bool {
        let nx = x + dx;
        let ny = y + dy;
        match self.boundary {
            Boundary::Clipped => self.in_bounds(nx, ny) && self.cell(nx, ny),
            Boundary::Toroidal => self.cell(nx % self.size, ny % self.size),
        }
    }

    /// The number of live cells among the eight neighbours of `(x, y)`.
    pub open spec fn active_neighbours(self, x: int, y: int) -> int {
        live_value(self.neighbour_live(x, y, 0, -1)) + live_value(self.neighbour_live(x, y, 1, -1))
            + live_value(self.neighbour_live(x, y, 1, 0)) + live_value(
            self.neighbour_live(x, y, 1, 1),
        ) + live_value(self.neighbour_live(x, y, 0, 1)) + live_value(
            self.neighbour_live(x, y, -1, 1),
        ) + live_value(self.neighbour_live(x, y, -1, 0)) + live_value(
            self.neighbour_live(x, y, -1, -1),
        )
    }

    /// The number of live cells on the board.
    pub open spec fn population(self) -> nat {
        count_true(self.cells)
    }

    /// Every cell of the board is dead.
    pub open spec fn is_empty(self) -> bool {
        forall|x: int, y: int| self.in_bounds(x, y) ==> !#[trigger] self.cell(x, y)
    }

    /// The two boards have the same side, boundary policy and generation.
    pub open spec fn same_frame(self, other: BoardModel) -> bool {
        &&& self.size == other.size
        &&& self.boundary == other.boundary
        &&& self.generation == other.generation
    }

    /// The value that cell `(bx, by)` takes when grid `g` is stamped centred on
    /// `(x, y)`: the pattern's value where it covers the cell, the old value elsewhere.
    pub open spec fn stamp_value(self, g: Seq<Seq<u8>>, x: int, y: int, bx: int, by: int) -> bool {
        let py = by - (y - g.len() / 2);
        let px = bx - (x - width(g) / 2);
        if 0 <= py < g.len() && 0 <= px < g[py].len() {
            g[py][px] == 1
        } else {
            self.cell(bx, by)
        }
    }

    /// `stamp_value` where only the pattern cells before row `rows`, column `cols`
    /// in row-major order have been written.
    spec fn stamp_prefix(
        self,
        g: Seq<Seq<u8>>,
        x: int,
        y: int,
        rows: int,
        cols: int,
        bx: int,
        by: int,
    ) -> bool {
        let py = by - (y - g.len() / 2);
        let px = bx - (x - width(g) / 2);
        if 0 <= py < g.len() && 0 <= px < g[py].len() && (py < rows || (py == rows && px < cols)) {
            g[py][px] == 1
        } else {
            self.cell(bx, by)
        }
    }
}

/// Cell `(x, y)` of a board of side `n` is stored at `y * n + x`, and distinct
/// positions are stored at distinct places.
pub proof fn lemma_cell_index(n: int, x: int, y: int, i: int, j: int)
    requires
        0 <= x < n,
        0 <= y < n,
        0 <= i < n,
        0 <= j < n,
        n <= MAX_BOARD_SIZE,
    ensures
        0 <= y * n + x < n * n,
        n * n <= MAX_BOARD_SIZE * MAX_BOARD_SIZE,
        (y * n + x == j * n + i) <==> (x == i && y == j),
{
    assert(0 <= y * n + x < n * n) by (nonlinear_arith)
        requires
            0 <= x < n,
            0 <= y < n,
    ;
    assert(n * n <= MAX_BOARD_SIZE * MAX_BOARD_SIZE) by (nonlinear_arith)
        requires
            0 <= n <= MAX_BOARD_SIZE,
    ;
    if y * n + x == j * n + i {
        lemma_fundamental_div_mod_converse(y * n + x, n, y, x);
        lemma_fundamental_div_mod_converse(j * n + i, n, j, i);
    }
}

/// Stamping grid `g` centred on `(cx, cy)` onto an empty board leaves alive exactly
/// the board positions `(cx - width / 2 + px, cy - height / 2 + py)` of the grid's live
/// cells `(px, py)` that fall on the board.
pub proof fn lemma_place_on_empty(
    before: BoardModel,
    after: BoardModel,
    g: Seq<Seq<u8>>,
    cx: int,
    cy: int,
)
    requires
        before.is_empty(),
        after.size == before.size,
        forall|bx: int, by: int|
            #![trigger after.cell(bx, by)]
            before.in_bounds(bx, by) ==> after.cell(bx, by) == before.stamp_value(g, cx, cy, bx, by),
    ensures
        forall|px: int, py: int|
            #![trigger g[py][px]]
            0 <= py < g.len() && 0 <= px < g[py].len() && g[py][px] == 1 && after.in_bounds(
                cx - width(g) / 2 + px,
                cy - g.len() / 2 + py,
            ) ==> after.cell(cx - width(g) / 2 + px, cy - g.len() / 2 + py),
        forall|bx: int, by: int|
            #![trigger after.cell(bx, by)]
            after.in_bounds(bx, by) && after.cell(bx, by) ==> exists|px: int, py: int|
                0 <= py < g.len() && 0 <= px < g[py].len() && g[py][px] == 1 && bx == cx - width(g)
                    / 2 + px && by == cy - g.len() / 2 + py,
{
    assert forall|bx: int, by: int| after.in_bounds(bx, by) && after.cell(bx, by) implies exists|
        px: int,
        py: int,
    |
        0 <= py < g.len() && 0 <= px < g[py].len() && g[py][px] == 1 && bx == cx - width(g) / 2
            + px && by == cy - g.len() / 2 + py by {
        assert(before.in_bounds(bx, by));
        assert(!before.cell(bx, by));
        let px = bx - (cx - width(g) / 2);
        let py = by - (cy - g.len() / 2);
        assert(0 <= py < g.len() && 0 <= px < g[py].len() && g[py][px] == 1);
    }
}

/// On a board of side at least 3, the corner cell `(size - 1, size - 1)` is a
/// neighbour of `(0, 0)` on a toroidal board and not on a clipped one: bringing that
/// corner alone to life adds one to the live-neighbour count of `(0, 0)` under
/// wraparound, and nothing under clipping.
pub proof fn lemma_corner_neighbour(b1: BoardModel, b2: BoardModel)
    requires
        b1.wf(),
        b2.wf(),
        b2.size == b1.size,
        b2.boundary == b1.boundary,
        b1.size >= 3,
        !b1.cell(b1.size - 1, b1.size - 1),
        b2.cell(b1.size - 1, b1.size - 1),
        forall|i: int, j: int|
            #![trigger b2.cell(i, j)]
            b1.in_bounds(i, j) && !(i == b1.size - 1 && j == b1.size - 1) ==> b2.cell(i, j)
                == b1.cell(i, j),
    ensures
        b1.boundary == Boundary::Toroidal ==> b2.active_neighbours(0, 0) == b1.active_neighbours(0, 0)
            + 1,
        b1.boundary == Boundary::Clipped ==> b2.active_neighbours(0, 0) == b1.active_neighbours(
            0,
            0,
        ),
{
    let n = b1.size;
    lemma_fundamental_div_mod_converse(-1, n, -1, n - 1);
    lemma_fundamental_div_mod_converse(0, n, 0, 0);
    lemma_fundamental_div_mod_converse(1, n, 0, 1);
    assert(b2.cell(0, n - 1) == b1.cell(0, n - 1));
    assert(b2.cell(1, n - 1) == b1.cell(1, n - 1));
    assert(b2.cell(1, 0) == b1.cell(1, 0));
    assert(b2.cell(1, 1) == b1.cell(1, 1));
    assert(b2.cell(0, 1) == b1.cell(0, 1));
    assert(b2.cell(n - 1, 1) == b1.cell(n - 1, 1));
    assert(b2.cell(n - 1, 0) == b1.cell(n - 1, 0));
}

/// One step from coordinate `c` by `d` on a torus of side `n`.
fn wrap_step(c: usize, d: i8, n: usize) -> (r: usize)
    requires
        c < n,
        -1 <= d <= 1,
    ensures
        r == (c + d) % (n as int),
{
    if d < 0 {
        if c == 0 {
            proof {
                lemma_fundamental_div_mod_converse(-1, n as int, -1, n - 1);
            }
            n - 1
        } else {
            proof {
                lemma_fundamental_div_mod_converse(c - 1, n as int, 0, c - 1);
            }
            c - 1
        }
    } else if d > 0 {
        if c + 1 == n {
            proof {
                lemma_fundamental_div_mod_converse(n as int, n as int, 1, 0);
            }
            0
        } else {
            proof {
                lemma_fundamental_div_mod_converse(c + 1, n as int, 0, c + 1);
            }
            c + 1
        }
    } else {
        proof {
            lemma_fundamental_div_mod_converse(c as int, n as int, 0, c as int);
        }
        c
    }
}

/// The board coordinate `c + p - half` where it lies in `0..n`.
fn board_coord(c: usize, p: usize, half: usize, n: usize) -> (r: Option<usize>)
    ensures
        match r {
            Some(v) => v == c + p - half && v < n,
            None => !(0 <= c + p - half < n),
        },
{
    if p >= half {
        let d = p - half;
        if c < n && d < n - c {
            Some(c + d)
        } else {
            None
        }
    } else {
        let d = half - p;
        if c >= d && c - d < n {
            Some(c - d)
        } else {
            None
        }
    }
}

/// A square grid of live and dead cells, with a generation counter and a
/// neighbour boundary policy.
pub struct Board {
    generation: i128,
    size: usize,
    boundary: Boundary,
    cells: Vec<bool>,
}

impl View for Board {
    type V = BoardModel;

    closed spec fn view(&self) -> BoardModel {
        BoardModel {
            size: self.size as int,
            boundary: self.boundary,
            generation: self.generation as int,
            cells: self.cells@,
        }
    }
}

impl Board {
    /// The board's representation matches its model.
    pub open spec fn wf(&self) -> bool {
        self@.wf()
    }

    /// A toroidal board of side `BOARD_SIZE`, every cell dead, at generation 1.
    pub fn new() -> (r: Board)
        ensures
            r.wf(),
            r@.size == BOARD_SIZE,
            r@.boundary == Boundary::Toroidal,
            r@.generation == 1,
            r@.is_empty(),
    {
        Board::with_size(BOARD_SIZE, Boundary::Toroidal)
    }

    /// A board of side `size` under `boundary`, every cell dead, at generation 1.
    pub fn with_size(size: usize, boundary: Boundary) -> (r: Board)
        requires
            0 < size <= MAX_BOARD_SIZE,
        ensures
            r.wf(),
            r@.size == size,
            r@.boundary == boundary,
            r@.generation == 1,
            r@.is_empty(),
    {
        assert(size * size <= MAX_BOARD_SIZE * MAX_BOARD_SIZE) by (nonlinear_arith)
            requires
                0 < size <= MAX_BOARD_SIZE,
        ;
        let total = size * size;
        let mut cells: Vec<bool> = Vec::new();
        let mut k: usize = 0;
        while k < total
            invariant
                k <= total,
                cells@.len() == k,
                forall|i: int| 0 <= i < k ==> !(#[trigger] cells@[i]),
            decreases total - k,
        {
            cells.push(false);
            k = k + 1;
        }
        let r = Board { generation: 1, size, boundary, cells };
        assert forall|x: int, y: int| r@.in_bounds(x, y) implies !#[trigger] r@.cell(x, y) by {
            lemma_cell_index(size as int, x, y, x, y);
        }
        r
    }

    /// Writes `value` into cell `(x, y)`; a position off the board is ignored.
    pub fn set_cell(&mut self, x: usize, y: usize, value: bool)
        requires
            old(self).wf(),
        ensures
            final(self).wf(),
            final(self)@.same_frame(old(self)@),
            forall|i: int, j: int|
                #![trigger final(self)@.cell(i, j)]
                old(self)@.in_bounds(i, j) ==> final(self)@.cell(i, j) == if i == x && j == y {
                    value
                } else {
                    old(self)@.cell(i, j)
                },
    {
        if x >= self.size || y >= self.size {
            return ;
        }
        let ghost before = self@;
        proof {
            lemma_cell_index(self.size as int, x as int, y as int, x as int, y as int);
        }
        let k = y * self.size + x;
        self.cells.set(k, value);
        assert forall|i: int, j: int| before.in_bounds(i, j) implies self@.cell(i, j) == if i == x
            && j == y {
            value
        } else {
            before.cell(i, j)
        } by {
            lemma_cell_index(before.size, x as int, y as int, i, j);
            lemma_cell_index(before.size, i, j, i, j);
        }
    }

    /// Whether cell `(x, y)` is alive.
    pub fn is_cell_occupied(&self, x: usize, y: usize) -> (r: bool)
        requires
            self.wf(),
            x < self@.size,
            y < self@.size,
        ensures
            r == self@.cell(x as int, y as int),
    {
        proof {
            lemma_cell_index(self.size as int, x as int, y as int, x as int, y as int);
        }
        self.cells[y * self.size + x]
    }

    /// Whether cell `(x, y)` is alive, or `OutOfBounds` where the position is off the board.
    pub fn try_is_cell_occupied(&self, x: usize, y: usize) -> (r: Result<bool, BoardError>)
        requires
            self.wf(),
        ensures
            self@.in_bounds(x as int, y as int) ==> r == Ok::<bool, BoardError>(
                self@.cell(x as int, y as int),
            ),
            !self@.in_bounds(x as int, y as int) ==> r == Err::<bool, BoardError>(
                BoardError::OutOfBounds,
            ),
    {
        if x >= self.size || y >= self.size {
            Err(BoardError::OutOfBounds)
        } else {
            Ok(self.is_cell_occupied(x, y))
        }
    }

    /// Whether the neighbour of `(x, y)` at offset `(dx, dy)` is a live cell under
    /// the board's boundary policy.
    fn neighbour_occupied(&self, x: usize, y: usize, dx: i8, dy: i8) -> (r: bool)
        requires
            self.wf(),
            x < self@.size,
            y < self@.size,
            -1 <= dx <= 1,
            -1 <= dy <= 1,
        ensures
            r == self@.neighbour_live(x as int, y as int, dx as int, dy as int),
    {
        let n = self.size;
        match self.boundary {
            Boundary::Clipped => {
                if (dx < 0 && x == 0) || (dx > 0 && x + 1 == n) || (dy < 0 && y == 0) || (dy > 0
                    && y + 1 == n) {
                    return false;
                }
                let nx = if dx < 0 {
                    x - 1
                } else if dx > 0 {
                    x + 1
                } else {
                    x
                };
                let ny = if dy < 0 {
                    y - 1
                } else if dy > 0 {
                    y + 1
                } else {
                    y
                };
                self.is_cell_occupied(nx, ny)
            },
            Boundary::Toroidal => {
                let nx = wrap_step(x, dx, n);
                let ny = wrap_step(y, dy, n);
                self.is_cell_occupied(nx, ny)
            },
        }
    }

    /// The number of live cells among the eight neighbours of `(x, y)`, under the
    /// board's boundary policy.
    pub fn get_active_neighbours(&self, x: i32, y: i32) -> (r: i8)
        requires
            self.wf(),
            0 <= x < self@.size,
            0 <= y < self@.size,
        ensures
            r == self@.active_neighbours(x as int, y as int),
            0 <= r <= 8,
    {
        let x = x as usize;
        let y = y as usize;
        let mut active: i8 = 0;
        if self.neighbour_occupied(x, y, 0, -1) {
            active = active + 1;
        }
        if self.neighbour_occupied(x, y, 1, -1) {
            active = active + 1;
        }
        if self.neighbour_occupied(x, y, 1, 0) {
            active = active + 1;
        }
        if self.neighbour_occupied(x, y, 1, 1) {
            active = active + 1;
        }
        if self.neighbour_occupied(x, y, 0, 1) {
            active = active + 1;
        }
        if self.neighbour_occupied(x, y, -1, 1) {
            active = active + 1;
        }
        if self.neighbour_occupied(x, y, -1, 0) {
            active = active + 1;
        }
        if self.neighbour_occupied(x, y, -1, -1) {
            active = active + 1;
        }
        active
    }

    /// The live-neighbour count of `(x, y)`, or `OutOfBounds` where the position
    /// is off the board.
    pub fn try_get_active_neighbours(&self, x: i32, y: i32) -> (r: Result<i8, BoardError>)
        requires
            self.wf(),
        ensures
            self@.in_bounds(x as int, y as int) ==> r == Ok::<i8, BoardError>(
                self@.active_neighbours(x as int, y as int) as i8,
            ),
            !self@.in_bounds(x as int, y as int) ==> r == Err::<i8, BoardError>(
                BoardError::OutOfBounds,
            ),
    {
        if x < 0 || y < 0 || x as usize >= self.size || y as usize >= self.size {
            Err(BoardError::OutOfBounds)
        } else {
            Ok(self.get_active_neighbours(x, y))
        }
    }

    /// The number of live cells on the board.
    pub fn population(&self) -> (r: usize)
        requires
            self.wf(),
        ensures
            r == self@.population(),
    {
        let mut count: usize = 0;
        let mut k: usize = 0;
        while k < self.cells.len()
            invariant
                k <= self.cells@.len(),
                count == count_true(self.cells@.subrange(0, k as int)),
                count <= k,
            decreases self.cells@.len() - k,
        {
            assert(self.cells@.subrange(0, k + 1).drop_last() =~= self.cells@.subrange(0, k as int));
            if self.cells[k] {
                count = count + 1;
            }
            k = k + 1;
        }
        assert(self.cells@.subrange(0, k as int) =~= self.cells@);
        count
    }

    /// Stamps `pattern` in its canonical orientation centred on `(x, y)`;
    /// pattern cells that fall off the board are skipped.
    pub fn place_pattern(&mut self, pattern: Pattern, x: usize, y: usize)
        requires
            old(self).wf(),
        ensures
            final(self).wf(),
            final(self)@.same_frame(old(self)@),
            forall|bx: int, by: int|
                #![trigger final(self)@.cell(bx, by)]
                old(self)@.in_bounds(bx, by) ==> final(self)@.cell(bx, by) == old(
                    self,
                )@.stamp_value(pattern_grid(pattern), x as int, y as int, bx, by),
    {
        let pattern_grid = pattern.grid();
        self.set_cells(pattern_grid, x, y);
    }

    /// Stamps `pattern` turned to face `direction`, centred on `(x, y)`;
    /// pattern cells that fall off the board are skipped.
    pub fn place_rotated_pattern(&mut self, pattern: Pattern, x: usize, y: usize, direction: Direction)
        requires
            old(self).wf(),
        ensures
            final(self).wf(),
            final(self)@.same_frame(old(self)@),
            forall|bx: int, by: int|
                #![trigger final(self)@.cell(bx, by)]
                old(self)@.in_bounds(bx, by) ==> final(self)@.cell(bx, by) == old(
                    self,
                )@.stamp_value(rotated(pattern_grid(pattern), direction), x as int, y as int, bx, by),
    {
        let pattern_grid = pattern.rotated_grid(direction);
        self.set_cells(pattern_grid, x, y);
    }

    /// Copies grid `cells` onto the board with its centre at `(x, y)`: the grid's
    /// top-left corner goes to `(x - width / 2, y - height / 2)`, a 1 becomes a live
    /// cell and any other value a dead one. Grid cells that fall off the board are
    /// skipped; an empty grid changes nothing.
    pub fn set_cells(&mut self, cells: Vec<Vec<u8>>, x: usize, y: usize)
        requires
            old(self).wf(),
        ensures
            final(self).wf(),
            final(self)@.same_frame(old(self)@),
            forall|bx: int, by: int|
                #![trigger final(self)@.cell(bx, by)]
                old(self)@.in_bounds(bx, by) ==> final(self)@.cell(bx, by) == old(
                    self,
                )@.stamp_value(cells.deep_view(), x as int, y as int, bx, by),
    {
        let ghost g = cells.deep_view();
        let ghost start = self@;
        let h = cells.len();
        if h == 0 {
            return ;
        }
        let half_h = h / 2;
        let half_w = cells[0].len() / 2;
        assert(width(g) == cells[0]@.len());
        let n = self.size;
        let mut py: usize = 0;
        while py < h
            invariant
                self.wf(),
                self@.same_frame(start),
                n == self@.size,
                g == cells.deep_view(),
                h == g.len(),
                half_h == g.len() / 2,
                half_w == width(g) / 2,
                py <= h,
                forall|bx: int, by: int|
                    #![trigger self@.cell(bx, by)]
                    start.in_bounds(bx, by) ==> self@.cell(bx, by) == start.stamp_prefix(
                        g,
                        x as int,
                        y as int,
                        py as int,
                        0,
                        bx,
                        by,
                    ),
            decreases h - py,
        {
            let row = &cells[py];
            assert(row@ == g[py as int]);
            let by_opt = board_coord(y, py, half_h, n);
            let mut px: usize = 0;
            while px < row.len()
                invariant
                    self.wf(),
                    self@.same_frame(start),
                    n == self@.size,
                    g == cells.deep_view(),
                    h == g.len(),
                    half_h == g.len() / 2,
                    half_w == width(g) / 2,
                    py < h,
                    row@ == g[py as int],
                    px <= row@.len(),
                    match by_opt {
                        Some(v) => v == y + py - half_h && v < n,
                        None => !(0 <= y + py - half_h < n),
                    },
                    forall|bx: int, by: int|
                        #![trigger self@.cell(bx, by)]
                        start.in_bounds(bx, by) ==> self@.cell(bx, by) == start.stamp_prefix(
                            g,
                            x as int,
                            y as int,
                            py as int,
                            px as int,
                            bx,
                            by,
                        ),
                decreases row@.len() - px,
            {
                let bx_opt = board_coord(x, px, half_w, n);
                match (bx_opt, by_opt) {
                    (Some(bx), Some(by)) => {
                        self.set_cell(bx, by, row[px] == 1);
                    },
                    _ => {},
                }
                px = px + 1;
            }
            py = py + 1;
            assert forall|bx: int, by: int| start.in_bounds(bx, by) implies start.stamp_prefix(
                g,
                x as int,
                y as int,
                (py - 1) as int,
                g[py - 1].len() as int,
                bx,
                by,
            ) == start.stamp_prefix(g, x as int, y as int, py as int, 0, bx, by) by {}
        }
    }

    /// The side of the board.
    pub fn size(&self) -> (r: usize)
        ensures
            r == self@.size,
    {
        self.size
    }

    /// The neighbour boundary policy of the board.
    pub fn boundary(&self) -> (r: Boundary)
        ensures
            r == self@.boundary,
    {
        self.boundary
    }

    /// The generation counter.
    pub fn generation(&self) -> (r: i128)
        ensures
            r == self@.generation,
    {
        self.generation
    }

    /// Sets the generation counter to `generation`, leaving the cells as they are.
    pub fn set_generation(&mut self, generation: i128)
        ensures
            final(self)@ == (BoardModel { generation: generation as int, ..old(self)@ }),
    {
        self.generation = generation;
    }

    /// The cells in row-major order: cell `(x, y)` at `y * size + x`.
    pub fn cells(&self) -> (r: &Vec<bool>)
        ensures
            r@ == self@.cells,
    {
        &self.cells
    }
}

} // verus!
