//! The Life rule (born with three neighbours, survives with two or three) and
//! the generation step over a whole board.

use vstd::prelude::*;
use crate::torus::{
    down_of, left_of, lemma_neighbor_coordinates, lemma_neighbors_on_board, right_of, up_of,
    valid_shape, wrap_next, wrap_prev,
};

verus! {

/// One if the cell at `i` is alive, zero if it is dead.
pub open spec fn alive_as_int(cells: Seq<bool>, i: int) -> int {
    if cells[i] {
        1
    } else {
        0
    }
}

/// How many of the eight cells around `i` are alive.
pub open spec fn neighbor_count(cells: Seq<bool>, i: int, width: int, height: int) -> int {
    alive_as_int(cells, up_of(left_of(i, width, height), width, height))
        + alive_as_int(cells, up_of(i, width, height))
        + alive_as_int(cells, up_of(right_of(i, width, height), width, height))
        + alive_as_int(cells, left_of(i, width, height))
        + alive_as_int(cells, right_of(i, width, height))
        + alive_as_int(cells, down_of(left_of(i, width, height), width, height))
        + alive_as_int(cells, down_of(i, width, height))
        + alive_as_int(cells, down_of(right_of(i, width, height), width, height))
}

/// The next state of a cell: a live cell with fewer than two live neighbours
/// dies, with two or three it survives, with more than three it dies; a dead
/// cell with exactly three live neighbours comes alive and otherwise stays dead.
pub open spec fn next_state(alive: bool, neighbors: int) -> bool {
    if alive {
        if neighbors < 2 {
            false
        } else if neighbors <= 3 {
            true
        } else {
            false
        }
    } else {
        neighbors == 3
    }
}

/// The board one generation later: every cell updated from the same old board.
pub open spec fn step(cells: Seq<bool>, width: int, height: int) -> Seq<bool> {
    Seq::new(cells.len(), |i: int| next_state(cells[i], neighbor_count(cells, i, width, height)))
}

/// The board `n` generations later.
pub open spec fn steps(cells: Seq<bool>, width: int, height: int, n: nat) -> Seq<bool>
    decreases n,
{
    if n == 0 {
        cells
    } else {
        step(steps(cells, width, height, (n - 1) as nat), width, height)
    }
}

/// No cell of the board is alive.
pub open spec fn all_dead(cells: Seq<bool>) -> bool {
    forall|i: int| 0 <= i < cells.len() ==> !cells[i]
}

/// A cell has between zero and eight live neighbours, whatever the board holds.
pub proof fn lemma_neighbor_count_bounds(cells: Seq<bool>, i: int, width: int, height: int)
    ensures
        0 <= neighbor_count(cells, i, width, height) <= 8,
{
}

/// The rule as a table: the next state is alive exactly for a live cell with
/// two or three live neighbours and for a dead cell with three; every other
/// pair of state and count from zero to eight gives a dead cell.
pub proof fn lemma_rule_table(alive: bool, neighbors: int)
    requires
        0 <= neighbors <= 8,
    ensures
        next_state(alive, neighbors) == ((alive && (neighbors == 2 || neighbors == 3)) || (!alive
            && neighbors == 3)),
{
}

/// A step keeps the number of cells.
pub proof fn lemma_steps_len(cells: Seq<bool>, width: int, height: int, n: nat)
    ensures
        steps(cells, width, height, n).len() == cells.len(),
    decreases n,
{
    if n > 0 {
        lemma_steps_len(cells, width, height, (n - 1) as nat);
    }
}

/// A board with no live cell stays without one, one generation later.
pub proof fn lemma_empty_step(cells: Seq<bool>, width: int, height: int)
    requires
        valid_shape(width, height),
        cells.len() == width * height,
        all_dead(cells),
    ensures
        all_dead(step(cells, width, height)),
{
    assert forall|i: int| 0 <= i < cells.len() implies !step(cells, width, height)[i] by {
        lemma_neighbors_on_board(i, width, height);
    }
}

/// A board with no live cell stays without one after any number of generations.
pub proof fn lemma_empty_stays_empty(cells: Seq<bool>, width: int, height: int, n: nat)
    requires
        valid_shape(width, height),
        cells.len() == width * height,
        all_dead(cells),
    ensures
        all_dead(steps(cells, width, height, n)),
    decreases n,
{
    if n > 0 {
        let prev = steps(cells, width, height, (n - 1) as nat);
        lemma_empty_stays_empty(cells, width, height, (n - 1) as nat);
        lemma_steps_len(cells, width, height, (n - 1) as nat);
        lemma_empty_step(prev, width, height);
    }
}

/// Whether cell `i` is one of the four cells of the 2x2 block whose top-left
/// cell is at `row` and `column`; the block may wrap around the edges.
pub open spec fn in_block(i: int, row: int, column: int, width: int, height: int) -> bool {
    &&& (i / width == row || i / width == wrap_next(row, height))
    &&& (i % width == column || i % width == wrap_next(column, width))
}

/// The live cells of the board are exactly the four cells of the block whose
/// top-left cell is at `row` and `column`.
pub open spec fn lone_block(cells: Seq<bool>, row: int, column: int, width: int, height: int) -> bool {
    forall|i: int| 0 <= i < cells.len() ==> cells[i] == in_block(i, row, column, width, height)
}

/// Along one axis of length at least four, a band of two adjacent lines
/// starting at `x0`: a line in the band has exactly one of its two neighbour
/// lines in the band, and a line outside it has at most one.
proof fn lemma_band(x: int, x0: int, n: int)
    requires
        n >= 4,
        0 <= x < n,
        0 <= x0 < n,
    ensures
        (x == x0 || x == wrap_next(x0, n)) ==> ((wrap_prev(x, n) == x0 || wrap_prev(x, n)
            == wrap_next(x0, n)) != (wrap_next(x, n) == x0 || wrap_next(x, n) == wrap_next(
            x0,
            n,
        ))),
        !(x == x0 || x == wrap_next(x0, n)) ==> !((wrap_prev(x, n) == x0 || wrap_prev(x, n)
            == wrap_next(x0, n)) && (wrap_next(x, n) == x0 || wrap_next(x, n) == wrap_next(
            x0,
            n,
        ))),
{
}

/// A 2x2 block is a still life: on a board of at least four by four whose live
/// cells are exactly the four cells of one block, a step leaves the board as
/// it was.
pub proof fn lemma_block_still_life(
    cells: Seq<bool>,
    row: int,
    column: int,
    width: int,
    height: int,
)
    requires
        width >= 4,
        height >= 4,
        0 <= row < height,
        0 <= column < width,
        cells.len() == width * height,
        lone_block(cells, row, column, width, height),
    ensures
        step(cells, width, height) == cells,
{
    assert forall|i: int| 0 <= i < cells.len() implies step(cells, width, height)[i]
        == cells[i] by {
        lemma_neighbor_coordinates(i, width, height);
        lemma_neighbor_coordinates(left_of(i, width, height), width, height);
        lemma_neighbor_coordinates(right_of(i, width, height), width, height);
        lemma_band(i / width, row, height);
        lemma_band(i % width, column, width);
    }
    assert(step(cells, width, height) =~= cells);
}

} // verus!
