use crate::board::{Board, MAX_BOARD_SIZE};
use vstd::prelude::*;
use vstd::string::*;

verus! {

/// The colour bytes of a cell: red for a live cell, black for a dead one.
pub open spec fn cell_rgb(alive: bool) -> Seq<u8> {
    if alive {
        seq![255u8, 0u8, 0u8]
    } else {
        seq![0u8, 0u8, 0u8]
    }
}

/// The board as RGB texture data: three bytes per cell, in the board's
/// row-major cell order.
pub fn create_data_from_board(board: &Board) -> (r: Vec<u8>)
    requires
        board.wf(),
    ensures
        r@.len() == 3 * board@.cells.len(),
        forall|k: int|
            #![trigger board@.cells[k]]
            0 <= k < board@.cells.len() ==> r@.subrange(3 * k, 3 * k + 3) == cell_rgb(
                board@.cells[k],
            ),
{
    let cells = board.cells();
    assert(board@.size * board@.size <= MAX_BOARD_SIZE * MAX_BOARD_SIZE) by (nonlinear_arith)
        requires
            0 < board@.size <= MAX_BOARD_SIZE,
    ;
    let mut data: Vec<u8> = Vec::new();
    let mut k: usize = 0;
    while k < cells.len()
        invariant
            cells@ == board@.cells,
            cells@.len() <= usize::MAX / 4,
            k <= cells@.len(),
            data@.len() == 3 * k,
            forall|i: int|
                #![trigger cells@[i]]
                0 <= i < k ==> data@.subrange(3 * i, 3 * i + 3) == cell_rgb(cells@[i]),
        decreases cells@.len() - k,
    {
        let ghost before = data@;
        if cells[k] {
            data.push(255u8);
        } else {
            data.push(0u8);
        }
        data.push(0u8);
        data.push(0u8);
        assert forall|i: int| 0 <= i < k + 1 implies #[trigger] data@.subrange(3 * i, 3 * i + 3)
            == cell_rgb(cells@[i]) by {
            if i < k {
                assert(data@.subrange(3 * i, 3 * i + 3) =~= before.subrange(3 * i, 3 * i + 3));
            } else {
                assert(data@.subrange(3 * i, 3 * i + 3) =~= cell_rgb(cells@[i]));
            }
        }
        k = k + 1;
    }
    data
}

/// The status suffix for a simulation: empty while running, ":: Paused" otherwise.
pub fn sim_state_to_string(running: bool) -> (r: String)
    ensures
        r@ == (if running {
            ""@
        } else {
            ":: Paused"@
        }),
{
    if running {
        return String::from_str("");
    }
    String::from_str(":: Paused")
}

} // verus!
