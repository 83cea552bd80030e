use crate::board::{Board, BoardModel};
use vstd::prelude::*;

verus! {

/// The standard rule (B3/S23): a live cell survives with two or three live
/// neighbours, a dead cell is born with exactly three.
pub open spec fn next_state(alive: bool, neighbours: int) -> bool {
    if alive {
        neighbours == 2 || neighbours == 3
    } else {
        neighbours == 3
    }
}

/// The state of cell `(x, y)` of `b` in the next generation.
pub open spec fn next_cell(b: BoardModel, x: int, y: int) -> bool {
    next_state(b.cell(x, y), b.active_neighbours(x, y))
}

/// The state that cell `(x, y)` of `board` takes in the next generation.
pub fn update_cell(board: &Board, x: usize, y: usize) -> (r: bool)
    requires
        board.wf(),
        x < board@.size,
        y < board@.size,
    ensures
        r == next_cell(board@, x as int, y as int),
{
    let active = board.is_cell_occupied(x, y);
    let neighbours = board.get_active_neighbours(x as i32, y as i32);
    if active {
        if neighbours != 2 && neighbours != 3 {
            return false;
        }
        return true;
    }
    if neighbours == 3 {
        return true;
    }
    false
}

/// The next generation of `board`, computed on a fresh board from the unchanged
/// current one: same side and boundary policy, generation counter one higher.
pub fn perform_generation(board: &mut Board) -> (r: Board)
    requires
        old(board).wf(),
        old(board)@.generation < i128::MAX,
    ensures
        *final(board) == *old(board),
        r.wf(),
        r@.size == old(board)@.size,
        r@.boundary == old(board)@.boundary,
        r@.generation == old(board)@.generation + 1,
        forall|x: int, y: int|
            #![trigger r@.cell(x, y)]
            old(board)@.in_bounds(x, y) && old(board)@.cell(x, y) ==> (r@.cell(x, y) <==> (
            old(board)@.active_neighbours(x, y) == 2 || old(board)@.active_neighbours(x, y) == 3)),
        forall|x: int, y: int|
            #![trigger r@.cell(x, y)]
            old(board)@.in_bounds(x, y) && !old(board)@.cell(x, y) ==> (r@.cell(x, y) <==> old(
                board,
            )@.active_neighbours(x, y) == 3),
{
    let n = board.size();
    let mut new_board = Board::with_size(n, board.boundary());
    let ghost cur = board@;
    let mut y: usize = 0;
    while y < n
        invariant
            board.wf(),
            board@ == cur,
            new_board.wf(),
            new_board@.size == n,
            new_board@.boundary == cur.boundary,
            new_board@.generation == 1,
            n == cur.size,
            y <= n,
            forall|i: int, j: int|
                #![trigger new_board@.cell(i, j)]
                cur.in_bounds(i, j) ==> new_board@.cell(i, j) == if j < y {
                    next_cell(cur, i, j)
                } else {
                    false
                },
        decreases n - y,
    {
        let mut x: usize = 0;
        while x < n
            invariant
                board.wf(),
                board@ == cur,
                new_board.wf(),
                new_board@.size == n,
                new_board@.boundary == cur.boundary,
                new_board@.generation == 1,
                n == cur.size,
                y < n,
                x <= n,
                forall|i: int, j: int|
                    #![trigger new_board@.cell(i, j)]
                    cur.in_bounds(i, j) ==> new_board@.cell(i, j) == if j < y || (j == y && i < x) {
                        next_cell(cur, i, j)
                    } else {
                        false
                    },
            decreases n - x,
        {
            let value = update_cell(board, x, y);
            new_board.set_cell(x, y, value);
            x = x + 1;
        }
        y = y + 1;
    }
    let ghost filled = new_board@;
    new_board.set_generation(board.generation() + 1);
    assert forall|x: int, y: int| cur.in_bounds(x, y) implies new_board@.cell(x, y) == next_cell(
        cur,
        x,
        y,
    ) by {
        assert(filled.cell(x, y) == next_cell(cur, x, y));
    }
    new_board
}

} // verus!
