//! The cells of one animation frame: the centered text over the life board.
use crate::game_of_life::{Board, Cell};
use crate::sparkles::{centered_grid, lemma_grid_len, CenteredDebugString};
use vstd::prelude::*;

verus! {

/// What one cell of an animation frame shows: a character of the centered
/// text, a highlight where the board's cell is live, and whether the row ends
/// after it.
#[derive(Clone, Copy, Debug)]
pub struct FrameCell {
    pub glyph: char,
    pub live: bool,
    pub line_break: bool,
}

/// Cell `i` is the last of its row on a grid `width` columns wide.
#[verifier::opaque]
pub open spec fn ends_row(i: int, width: int) -> bool {
    i % width == width - 1
}

fn is_row_end(i: usize, width: usize) -> (r: bool)
    requires
        width > 0,
    ensures
        r == ends_row(i as int, width as int),
{
    proof {
        reveal(ends_row);
    }
    i % width == width - 1
}

/// The cells of one frame: `debug_str` centered on the board's grid, each
/// cell highlighted where the board's cell at the same index is live, and a
/// row break after the last column.
pub fn frame(debug_str: &str, board: &Board) -> (r: Vec<FrameCell>)
    requires
        board.wf(),
        debug_str@.len() < usize::MAX,
    ensures
        r@.len() == board.cells().len(),
        forall|i: int|
            0 <= i < r@.len() ==> {
                &&& (#[trigger] r@[i]).glyph == centered_grid(
                    debug_str@,
                    board.spec_width(),
                    board.spec_height(),
                )[i]
                &&& r@[i].live == (board.cells()[i] == Cell::Live)
                &&& r@[i].line_break == ends_row(i, board.spec_width() as int)
            },
{
    let width = board.width();
    let height = board.height();
    let cells = board.cell_array();
    let n: usize = cells.len();
    assert(n == width * height);
    assert(n > 0 ==> width > 0) by (nonlinear_arith)
        requires
            n == width * height,
    ;
    let mut layout = CenteredDebugString::new(debug_str, (width, height));
    let ghost grid = layout.grid();
    proof {
        lemma_grid_len(debug_str@, width as nat, height as nat);
    }
    assert(grid.len() == n);
    let mut out: Vec<FrameCell> = Vec::new();
    let mut i: usize = 0;
    while i < cells.len()
        invariant
            i <= cells@.len(),
            cells@ == board.cells(),
            cells@.len() > 0 ==> width > 0,
            width == board.spec_width(),
            height == board.spec_height(),
            layout.wf(),
            layout.grid() == grid,
            grid == centered_grid(debug_str@, width as nat, height as nat),
            grid.len() == cells@.len(),
            layout.position() == i,
            out@.len() == i,
            forall|j: int|
                0 <= j < i ==> {
                    &&& (#[trigger] out@[j]).glyph == grid[j]
                    &&& out@[j].live == (cells@[j] == Cell::Live)
                    &&& out@[j].line_break == ends_row(j, width as int)
                },
        decreases cells@.len() - i,
    {
        let glyph = match layout.next() {
            Some(c) => c,
            None => ' ',
        };
        let live = cells[i] == Cell::Live;
        let line_break = is_row_end(i, width);
        let cell = FrameCell { glyph, live, line_break };
        let ghost before = out@;
        out.push(cell);
        proof {
            vstd::seq::axiom_seq_push_len(before, cell);
            assert forall|j: int| 0 <= j < i + 1 implies {
                &&& (#[trigger] out@[j]).glyph == grid[j]
                &&& out@[j].live == (cells@[j] == Cell::Live)
                &&& out@[j].line_break == ends_row(j, width as int)
            } by {
                if j < i {
                    vstd::seq::axiom_seq_push_index_different(before, cell, j);
                } else {
                    vstd::seq::axiom_seq_push_index_same(before, cell, j);
                }
            }
        }
        i = i + 1;
    }
    out
}

} // verus!
