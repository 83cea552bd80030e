use crate::direction::Direction;
use crate::random::random_below;
use vstd::arithmetic::div_mod::lemma_fundamental_div_mod_converse;
use vstd::prelude::*;
use vstd::relations::injective_on;
use vstd::set_lib::{lemma_int_range, lemma_len_subset, lemma_map_size, set_int_range};

verus! {

/// A named seed shape from the catalog.
#[derive(Debug, Clone, Copy, PartialEq, Eq, Structural)]
pub enum Pattern {
    Glider,
    Beacon,
    Toad,
    GliderGun,
    Acorn,
}

/// The number of patterns in the catalog.
pub const PATTERN_COUNT: usize = 5;

/// The canonical (North-facing) shape of a pattern, row by row; 1 is a live cell.
pub open spec fn pattern_grid(p: Pattern) -> Seq<Seq<u8>> {
    match p {
            Pattern::Glider => seq![
                seq![0, 1, 0],
                seq![0, 0, 1],
                seq![1, 1, 1],
            ],
            Pattern::Beacon => seq![
                seq![1, 1, 0, 0],
                seq![1, 1, 0, 0],
                seq![0, 0, 1, 1],
                seq![0, 0, 1, 1],
            ],
            Pattern::Toad => seq![
                seq![0, 1, 1, 1, 0],
                seq![1, 1, 1, 0, 0],
            ],
            Pattern::GliderGun => seq![
                seq![0, 0, 0, 0, 0, 0, 0, 0, 0, 0, 0, 0, 0, 0, 0, 0, 0, 0, 0, 0, 0, 0, 0, 0, 1, 0, 0, 0, 0, 0, 0, 0, 0, 0, 0, 0, 0],
                seq![0, 0, 0, 0, 0, 0, 0, 0, 0, 0, 0, 0, 0, 0, 0, 0, 0, 0, 0, 0, 0, 0, 1, 0, 1, 0, 0, 0, 0, 0, 0, 0, 0, 0, 0, 0, 0],
                seq![0, 0, 0, 0, 0, 0, 0, 0, 0, 0, 0, 0, 1, 1, 0, 0, 0, 0, 0, 0, 1, 1, 0, 0, 0, 0, 0, 0, 0, 0, 0, 0, 0, 0, 1, 1, 0],
                seq![0, 0, 0, 0, 0, 0, 0, 0, 0, 0, 0, 1, 0, 0, 0, 1, 0, 0, 0, 0, 1, 1, 0, 0, 0, 0, 0, 0, 0, 0, 0, 0, 0, 0, 1, 1, 0],
                seq![1, 1, 0, 0, 0, 0, 0, 0, 0, 0, 1, 0, 0, 0, 0, 0, 1, 0, 0, 0, 1, 1, 0, 0, 0, 0, 0, 0, 0, 0, 0, 0, 0, 0, 0, 0, 0],
                seq![1, 1, 0, 0, 0, 0, 0, 0, 0, 0, 1, 0, 0, 0, 1, 0, 1, 1, 0, 0, 0, 0, 1, 0, 1, 0, 0, 0, 0, 0, 0, 0, 0, 0, 0, 0, 0],
                seq![0, 0, 0, 0, 0, 0, 0, 0, 0, 0, 1, 0, 0, 0, 0, 0, 1, 0, 0, 0, 0, 0, 0, 0, 1, 0, 0, 0, 0, 0, 0, 0, 0, 0, 0, 0, 0],
                seq![0, 0, 0, 0, 0, 0, 0, 0, 0, 0, 0, 1, 0, 0, 0, 1, 0, 0, 0, 0, 0, 0, 0, 0, 0, 0, 0, 0, 0, 0, 0, 0, 0, 0, 0, 0, 0],
                seq![0, 0, 0, 0, 0, 0, 0, 0, 0, 0, 0, 0, 1, 1, 0, 0, 0, 0, 0, 0, 0, 0, 0, 0, 0, 0, 0, 0, 0, 0, 0, 0, 0, 0, 0, 0, 0],
                seq![0, 0, 0, 0, 0, 0, 0, 0, 0, 0, 0, 0, 0, 0, 0, 0, 0, 0, 0, 0, 0, 0, 0, 0, 0, 0, 0, 0, 0, 0, 0, 0, 0, 0, 0, 0, 0],
            ],
            Pattern::Acorn => seq![
                seq![0, 1, 0, 0, 0, 0, 0],
                seq![0, 0, 0, 1, 0, 0, 0],
                seq![1, 1, 0, 0, 1, 1, 1],
            ],
    }
}

/// The width of a grid: the length of its first row.
pub open spec fn width(g: Seq<Seq<u8>>) -> int {
    if g.len() > 0 {
        g[0].len() as int
    } else {
        0
    }
}

/// Every row of `g` is as long as the first, and there is at least one row.
pub open spec fn is_rectangular(g: Seq<Seq<u8>>) -> bool {
    &&& g.len() > 0
    &&& forall|i: int| 0 <= i < g.len() ==> (#[trigger] g[i]).len() == g[0].len()
}

/// The grid `g` turned to face `d`: North leaves it as it is, East turns it a
/// quarter clockwise, South a half turn, West a quarter counter-clockwise.
pub open spec fn rotated(g: Seq<Seq<u8>>, d: Direction) -> Seq<Seq<u8>> {
    let h = g.len() as int;
    let w = width(g);
    match d {
        Direction::North => g,
        Direction::East => Seq::new(w as nat, |r: int| Seq::new(h as nat, |c: int| g[h - 1 - c][r])),
        Direction::South => Seq::new(
            h as nat,
            |r: int| Seq::new(w as nat, |c: int| g[h - 1 - r][w - 1 - c]),
        ),
        Direction::West => Seq::new(w as nat, |r: int| Seq::new(h as nat, |c: int| g[c][w - 1 - r])),
    }
}

/// The number of rows of `g` turned to face `d`.
pub open spec fn rotated_height(g: Seq<Seq<u8>>, d: Direction) -> int {
    match d {
        Direction::North | Direction::South => g.len() as int,
        Direction::East | Direction::West => width(g),
    }
}

/// The number of columns of `g` turned to face `d`.
pub open spec fn rotated_width(g: Seq<Seq<u8>>, d: Direction) -> int {
    match d {
        Direction::North | Direction::South => width(g),
        Direction::East | Direction::West => g.len() as int,
    }
}

/// The value at row `r`, column `c` of `grid` turned to face `d`.
fn rotated_cell(grid: &Vec<Vec<u8>>, d: Direction, r: usize, c: usize) -> (v: u8)
    requires
        is_rectangular(grid.deep_view()),
        r < rotated_height(grid.deep_view(), d),
        c < rotated_width(grid.deep_view(), d),
    ensures
        v == rotated(grid.deep_view(), d)[r as int][c as int],
{
    let ghost g = grid.deep_view();
    let h = grid.len();
    let w = grid[0].len();
    assert(g[0].len() == w);
    match d {
        Direction::North => {
            assert(g[r as int].len() == w);
            grid[r][c]
        },
        Direction::East => {
            assert(g[h - 1 - c].len() == w);
            grid[h - 1 - c][r]
        },
        Direction::South => {
            assert(g[h - 1 - r].len() == w);
            grid[h - 1 - r][w - 1 - c]
        },
        Direction::West => {
            assert(g[c as int].len() == w);
            grid[c][w - 1 - r]
        },
    }
}

/// The grid `grid` turned to face `direction`.
pub fn rotate_grid(grid: &Vec<Vec<u8>>, direction: Direction) -> (r: Vec<Vec<u8>>)
    requires
        is_rectangular(grid.deep_view()),
    ensures
        r.deep_view() == rotated(grid.deep_view(), direction),
{
    let ghost g = grid.deep_view();
    let h = grid.len();
    let w = grid[0].len();
    assert(g[0].len() == w);
    let (out_h, out_w) = match direction {
        Direction::North | Direction::South => (h, w),
        Direction::East | Direction::West => (w, h),
    };
    let ghost want = rotated(g, direction);
    assert(want.len() == out_h);
    let mut out: Vec<Vec<u8>> = Vec::new();
    let mut r: usize = 0;
    while r < out_h
        invariant
            is_rectangular(g),
            g == grid.deep_view(),
            want == rotated(g, direction),
            out_h == rotated_height(g, direction),
            out_w == rotated_width(g, direction),
            want.len() == out_h,
            r <= out_h,
            out.len() == r,
            forall|i: int| 0 <= i < r ==> (#[trigger] out@[i])@ == want[i],
        decreases out_h - r,
    {
        let mut row: Vec<u8> = Vec::new();
        let mut c: usize = 0;
        assert(want[r as int].len() == out_w);
        while c < out_w
            invariant
                is_rectangular(g),
                g == grid.deep_view(),
                want == rotated(g, direction),
                out_h == rotated_height(g, direction),
                out_w == rotated_width(g, direction),
                r < out_h,
                c <= out_w,
                want[r as int].len() == out_w,
                row@.len() == c,
                forall|j: int| 0 <= j < c ==> row@[j] == want[r as int][j],
            decreases out_w - c,
        {
            let v = rotated_cell(grid, direction, r, c);
            row.push(v);
            c = c + 1;
        }
        assert(row@ =~= want[r as int]);
        out.push(row);
        r = r + 1;
    }
    assert(out.deep_view() =~~= want);
    out
}

/// The positions `(row, column)` of the live cells of `g`.
pub open spec fn live_cells(g: Seq<Seq<u8>>) -> Set<(int, int)> {
    Set::new(|p: (int, int)| 0 <= p.0 < g.len() && 0 <= p.1 < g[p.0].len() && g[p.0][p.1] == 1)
}

/// The number of live cells of `g`.
pub open spec fn count_live(g: Seq<Seq<u8>>) -> nat {
    live_cells(g).len()
}

/// Where the cell at position `p` of `g` lands when `g` is turned to face `d`.
pub open spec fn rotated_position(g: Seq<Seq<u8>>, d: Direction, p: (int, int)) -> (int, int) {
    let h = g.len() as int;
    let w = width(g);
    match d {
        Direction::North => p,
        Direction::East => (p.1, h - 1 - p.0),
        Direction::South => (h - 1 - p.0, w - 1 - p.1),
        Direction::West => (w - 1 - p.1, p.0),
    }
}

/// A rectangular grid has finitely many live cells.
proof fn lemma_live_cells_finite(g: Seq<Seq<u8>>)
    requires
        is_rectangular(g),
    ensures
        live_cells(g).finite(),
{
    let h = g.len() as int;
    let w = width(g);
    if w == 0 {
        assert(live_cells(g) =~= Set::empty());
    } else {
        let range = set_int_range(0, h * w);
        let grid_box = range.map(|k: int| (k / w, k % w));
        assert(h * w >= 0) by (nonlinear_arith)
            requires
                h >= 0,
                w >= 0,
        ;
        lemma_int_range(0, h * w);
        range.lemma_map_finite(|k: int| (k / w, k % w));
        assert forall|p: (int, int)| live_cells(g).contains(p) implies grid_box.contains(p) by {
            let k = p.0 * w + p.1;
            assert(g[p.0].len() == w);
            lemma_fundamental_div_mod_converse(k, w, p.0, p.1);
            assert(0 <= k < h * w) by (nonlinear_arith)
                requires
                    0 <= p.0 < h,
                    0 <= p.1 < w,
                    k == p.0 * w + p.1,
            ;
            assert(range.contains(k));
            assert((k / w, k % w) == p);
        }
        lemma_len_subset(live_cells(g), grid_box);
    }
}

/// Turning a rectangular grid carries its live cells one for one onto the live
/// cells of the turned grid.
proof fn lemma_rotated_live_cells(g: Seq<Seq<u8>>, d: Direction)
    requires
        is_rectangular(g),
    ensures
        live_cells(rotated(g, d)) == live_cells(g).map(|p: (int, int)| rotated_position(g, d, p)),
        injective_on(|p: (int, int)| rotated_position(g, d, p), live_cells(g)),
{
    let h = g.len() as int;
    let w = width(g);
    let f = |p: (int, int)| rotated_position(g, d, p);
    let r = rotated(g, d);
    assert forall|q: (int, int)| live_cells(r).contains(q) implies live_cells(g).map(f).contains(
        q,
    ) by {
        let p = match d {
            Direction::North => q,
            Direction::East => (h - 1 - q.1, q.0),
            Direction::South => (h - 1 - q.0, w - 1 - q.1),
            Direction::West => (q.1, w - 1 - q.0),
        };
        assert(g[p.0].len() == w);
        assert(live_cells(g).contains(p));
        assert(f(p) == q);
    }
    assert forall|q: (int, int)| live_cells(g).map(f).contains(q) implies live_cells(r).contains(
        q,
    ) by {
        let p = choose|p: (int, int)| live_cells(g).contains(p) && q == f(p);
        assert(g[p.0].len() == w);
    }
    assert(live_cells(r) =~= live_cells(g).map(f));
}

/// Turning a rectangular pattern grid to face any direction keeps the number of
/// its live cells.
pub proof fn lemma_rotation_keeps_live_count(g: Seq<Seq<u8>>, d: Direction)
    requires
        is_rectangular(g),
    ensures
        count_live(rotated(g, d)) == count_live(g),
{
    lemma_live_cells_finite(g);
    lemma_rotated_live_cells(g, d);
    lemma_map_size(
        live_cells(g),
        live_cells(rotated(g, d)),
        |p: (int, int)| rotated_position(g, d, p),
    );
}

/// A quarter turn clockwise of a rectangular grid with at least one column is a
/// rectangular grid whose rows are the old columns read bottom to top.
proof fn lemma_east_shape(g: Seq<Seq<u8>>)
    requires
        is_rectangular(g),
        width(g) > 0,
    ensures
        is_rectangular(rotated(g, Direction::East)),
        rotated(g, Direction::East).len() == width(g),
        width(rotated(g, Direction::East)) == g.len(),
        forall|r: int, c: int|
            0 <= r < width(g) && 0 <= c < g.len() ==> #[trigger] rotated(g, Direction::East)[r][c]
                == g[g.len() - 1 - c][r],
{
}

/// Four successive quarter turns clockwise bring a rectangular grid with at
/// least one column back to itself.
pub proof fn lemma_four_quarter_turns(g: Seq<Seq<u8>>)
    requires
        is_rectangular(g),
        width(g) > 0,
    ensures
        rotated(
            rotated(rotated(rotated(g, Direction::East), Direction::East), Direction::East),
            Direction::East,
        ) == g,
{
    let h = g.len() as int;
    let w = width(g);
    let g1 = rotated(g, Direction::East);
    lemma_east_shape(g);
    let g2 = rotated(g1, Direction::East);
    lemma_east_shape(g1);
    let g3 = rotated(g2, Direction::East);
    lemma_east_shape(g2);
    let g4 = rotated(g3, Direction::East);
    lemma_east_shape(g3);
    assert(g4.len() == g.len());
    assert forall|r: int| 0 <= r < h implies #[trigger] g4[r] =~= g[r] by {
        assert(g[r].len() == w);
        assert forall|c: int| 0 <= c < w implies g4[r][c] == g[r][c] by {
            assert(g4[r][c] == g3[w - 1 - c][r]);
            assert(g3[w - 1 - c][r] == g2[h - 1 - r][w - 1 - c]);
            assert(g2[h - 1 - r][w - 1 - c] == g1[c][h - 1 - r]);
            assert(g1[c][h - 1 - r] == g[r][c]);
        }
    }
    assert(g4 =~= g);
}

/// The pattern at position `i` in declaration order.
pub open spec fn pattern_at(i: int) -> Option<Pattern> {
    if i == 0 {
        Some(Pattern::Glider)
    } else if i == 1 {
        Some(Pattern::Beacon)
    } else if i == 2 {
        Some(Pattern::Toad)
    } else if i == 3 {
        Some(Pattern::GliderGun)
    } else if i == 4 {
        Some(Pattern::Acorn)
    } else {
        None
    }
}

impl Pattern {
    /// The canonical (North-facing) grid of this pattern.
    pub fn grid(&self) -> (r: Vec<Vec<u8>>)
        ensures
            r.deep_view() == pattern_grid(*self),
    {
        let r = match *self {
                Pattern::Glider => vec![
                    vec![0, 1, 0],
                    vec![0, 0, 1],
                    vec![1, 1, 1],
                ],
                Pattern::Beacon => vec![
                    vec![1, 1, 0, 0],
                    vec![1, 1, 0, 0],
                    vec![0, 0, 1, 1],
                    vec![0, 0, 1, 1],
                ],
                Pattern::Toad => vec![
                    vec![0, 1, 1, 1, 0],
                    vec![1, 1, 1, 0, 0],
                ],
                Pattern::GliderGun => vec![
                    vec![0, 0, 0, 0, 0, 0, 0, 0, 0, 0, 0, 0, 0, 0, 0, 0, 0, 0, 0, 0, 0, 0, 0, 0, 1, 0, 0, 0, 0, 0, 0, 0, 0, 0, 0, 0, 0],
                    vec![0, 0, 0, 0, 0, 0, 0, 0, 0, 0, 0, 0, 0, 0, 0, 0, 0, 0, 0, 0, 0, 0, 1, 0, 1, 0, 0, 0, 0, 0, 0, 0, 0, 0, 0, 0, 0],
                    vec![0, 0, 0, 0, 0, 0, 0, 0, 0, 0, 0, 0, 1, 1, 0, 0, 0, 0, 0, 0, 1, 1, 0, 0, 0, 0, 0, 0, 0, 0, 0, 0, 0, 0, 1, 1, 0],
                    vec![0, 0, 0, 0, 0, 0, 0, 0, 0, 0, 0, 1, 0, 0, 0, 1, 0, 0, 0, 0, 1, 1, 0, 0, 0, 0, 0, 0, 0, 0, 0, 0, 0, 0, 1, 1, 0],
                    vec![1, 1, 0, 0, 0, 0, 0, 0, 0, 0, 1, 0, 0, 0, 0, 0, 1, 0, 0, 0, 1, 1, 0, 0, 0, 0, 0, 0, 0, 0, 0, 0, 0, 0, 0, 0, 0],
                    vec![1, 1, 0, 0, 0, 0, 0, 0, 0, 0, 1, 0, 0, 0, 1, 0, 1, 1, 0, 0, 0, 0, 1, 0, 1, 0, 0, 0, 0, 0, 0, 0, 0, 0, 0, 0, 0],
                    vec![0, 0, 0, 0, 0, 0, 0, 0, 0, 0, 1, 0, 0, 0, 0, 0, 1, 0, 0, 0, 0, 0, 0, 0, 1, 0, 0, 0, 0, 0, 0, 0, 0, 0, 0, 0, 0],
                    vec![0, 0, 0, 0, 0, 0, 0, 0, 0, 0, 0, 1, 0, 0, 0, 1, 0, 0, 0, 0, 0, 0, 0, 0, 0, 0, 0, 0, 0, 0, 0, 0, 0, 0, 0, 0, 0],
                    vec![0, 0, 0, 0, 0, 0, 0, 0, 0, 0, 0, 0, 1, 1, 0, 0, 0, 0, 0, 0, 0, 0, 0, 0, 0, 0, 0, 0, 0, 0, 0, 0, 0, 0, 0, 0, 0],
                    vec![0, 0, 0, 0, 0, 0, 0, 0, 0, 0, 0, 0, 0, 0, 0, 0, 0, 0, 0, 0, 0, 0, 0, 0, 0, 0, 0, 0, 0, 0, 0, 0, 0, 0, 0, 0, 0],
                ],
                Pattern::Acorn => vec![
                    vec![0, 1, 0, 0, 0, 0, 0],
                    vec![0, 0, 0, 1, 0, 0, 0],
                    vec![1, 1, 0, 0, 1, 1, 1],
                ],
        };
        assert(r.deep_view() =~~= pattern_grid(*self));
        r
    }

    /// This pattern's grid turned to face `direction`.
    pub fn rotated_grid(&self, direction: Direction) -> (r: Vec<Vec<u8>>)
        ensures
            r.deep_view() == rotated(pattern_grid(*self), direction),
    {
        let grid = self.grid();
        proof {
            lemma_catalog_rectangular(*self);
        }
        rotate_grid(&grid, direction)
    }

    /// The pattern at position `i` in declaration order, if there is one.
    pub fn from_repr(i: usize) -> (r: Option<Pattern>)
        ensures
            r == pattern_at(i as int),
    {
        match i {
            0 => Some(Pattern::Glider),
            1 => Some(Pattern::Beacon),
            2 => Some(Pattern::Toad),
            3 => Some(Pattern::GliderGun),
            4 => Some(Pattern::Acorn),
            _ => None,
        }
    }

    /// The pattern selected by a draw `i`; the glider where the draw names none.
    pub fn from_draw(i: usize) -> (r: Pattern)
        ensures
            r == (if i < PATTERN_COUNT { pattern_at(i as int)->Some_0 } else { Pattern::Glider }),
    {
        match Pattern::from_repr(i) {
            Some(p) => p,
            None => Pattern::Glider,
        }
    }

    /// A pattern chosen uniformly at random from the catalog.
    pub fn get_random_pattern() -> (r: Pattern)
        ensures
            exists|i: int| 0 <= i < PATTERN_COUNT && pattern_at(i) == Some(r),
    {
        let i = random_below(PATTERN_COUNT);
        let p = Pattern::from_draw(i);
        assert(pattern_at(i as int) == Some(p));
        p
    }
}

/// Every catalog pattern is a rectangle with at least one column.
pub proof fn lemma_catalog_rectangular(p: Pattern)
    ensures
        is_rectangular(pattern_grid(p)),
        width(pattern_grid(p)) > 0,
{
    let g = pattern_grid(p);
    assert forall|i: int| 0 <= i < g.len() implies (#[trigger] g[i]).len() == g[0].len() by {
        match p {
            Pattern::Glider => assert(i == 0 || i == 1 || i == 2),
            Pattern::Beacon => assert(i == 0 || i == 1 || i == 2 || i == 3),
            Pattern::Toad => assert(i == 0 || i == 1),
            Pattern::GliderGun => assert(0 <= i < 10),
            Pattern::Acorn => assert(i == 0 || i == 1 || i == 2),
        }
    }
}

} // verus!
