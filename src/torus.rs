//! Row-major addressing on a `width` by `height` torus.

use vstd::prelude::*;

verus! {

/// The index of the cell at `row` and `column` of a board `width` cells wide.
pub open spec fn cell_index(row: int, column: int, width: int) -> int {
    row * width + column
}

/// The cell above `i`; the top row wraps to the bottom row.
pub open spec fn up_of(i: int, width: int, height: int) -> int {
    cell_index((i / width + height - 1) % height, i % width, width)
}

/// The cell below `i`; the bottom row wraps to the top row.
pub open spec fn down_of(i: int, width: int, height: int) -> int {
    cell_index((i / width + 1) % height, i % width, width)
}

/// The cell left of `i`; the first column wraps to the last column.
pub open spec fn left_of(i: int, width: int, height: int) -> int {
    cell_index(i / width, (i % width + width - 1) % width, width)
}

/// The cell right of `i`; the last column wraps to the first column.
pub open spec fn right_of(i: int, width: int, height: int) -> int {
    cell_index(i / width, (i % width + 1) % width, width)
}

/// The row before `x` on a cycle of `n` rows: the last row before the first.
pub open spec fn wrap_prev(x: int, n: int) -> int {
    if x > 0 {
        x - 1
    } else {
        n - 1
    }
}

/// The row after `x` on a cycle of `n` rows: the first row after the last.
pub open spec fn wrap_next(x: int, n: int) -> int {
    if x + 1 < n {
        x + 1
    } else {
        0
    }
}

/// A board shape with cells: both sides positive.
pub open spec fn valid_shape(width: int, height: int) -> bool {
    width > 0 && height > 0
}

proof fn lemma_index_in_board(row: int, column: int, width: int, height: int)
    requires
        0 <= row < height,
        0 <= column < width,
    ensures
        0 <= cell_index(row, column, width) < width * height,
        cell_index(row, column, width) / width == row,
        cell_index(row, column, width) % width == column,
{
    assert(0 <= row * width + column < width * height) by (nonlinear_arith)
        requires
            0 <= row < height,
            0 <= column < width,
    ;
    vstd::arithmetic::div_mod::lemma_fundamental_div_mod_converse(
        row * width + column,
        width,
        row,
        column,
    );
}

proof fn lemma_split_index(i: int, width: int, height: int)
    requires
        valid_shape(width, height),
        0 <= i < width * height,
    ensures
        i == cell_index(i / width, i % width, width),
        0 <= i / width < height,
        0 <= i % width < width,
        i / width == 0 ==> i == i % width,
{
    vstd::arithmetic::div_mod::lemma_fundamental_div_mod(i, width);
    vstd::arithmetic::div_mod::lemma_mod_bound(i, width);
    vstd::arithmetic::div_mod::lemma_div_pos_is_pos(i, width);
    let r = i / width;
    let c = i % width;
    assert(r < height) by (nonlinear_arith)
        requires
            i == width * r + c,
            0 <= c,
            i < width * height,
            width > 0,
    ;
    assert(i == r * width + c) by (nonlinear_arith)
        requires
            i == width * r + c,
    ;
    if r == 0 {
        assert(r * width == 0);
    }
}

/// Every neighbour of a cell on the board is itself on the board, and the
/// wrap-around is the expected one: the top row's up-neighbour is in the bottom
/// row, the bottom row's down-neighbour in the top row, the first column's
/// left-neighbour in the last column and the last column's right-neighbour in
/// the first column, each in the same column or row; elsewhere the neighbour is
/// the adjacent cell.
pub proof fn lemma_toroidal_wrap(i: int, width: int, height: int)
    requires
        valid_shape(width, height),
        0 <= i < width * height,
    ensures
        0 <= up_of(i, width, height) < width * height,
        0 <= down_of(i, width, height) < width * height,
        0 <= left_of(i, width, height) < width * height,
        0 <= right_of(i, width, height) < width * height,
        i / width == 0 ==> up_of(i, width, height) == cell_index(height - 1, i % width, width),
        i / width != 0 ==> up_of(i, width, height) == i - width,
        i / width == height - 1 ==> down_of(i, width, height) == cell_index(0, i % width, width),
        i / width != height - 1 ==> down_of(i, width, height) == i + width,
        i % width == 0 ==> left_of(i, width, height) == cell_index(i / width, width - 1, width),
        i % width != 0 ==> left_of(i, width, height) == i - 1,
        i % width == width - 1 ==> right_of(i, width, height) == cell_index(i / width, 0, width),
        i % width != width - 1 ==> right_of(i, width, height) == i + 1,
{
    lemma_neighbor_coordinates(i, width, height);
    lemma_split_index(i, width, height);
    let r = i / width;
    let c = i % width;
    lemma_wrap_mod(r, height);
    lemma_wrap_mod(c, width);
    if r != 0 {
        assert((r - 1) * width + c == i - width) by (nonlinear_arith)
            requires
                i == r * width + c,
        ;
    }
    if r != height - 1 {
        assert((r + 1) * width + c == i + width) by (nonlinear_arith)
            requires
                i == r * width + c,
        ;
    }
}

proof fn lemma_wrap_mod(x: int, n: int)
    requires
        0 <= x < n,
    ensures
        (x + n - 1) % n == wrap_prev(x, n),
        (x + 1) % n == wrap_next(x, n),
{
    if x == 0 {
        vstd::arithmetic::div_mod::lemma_small_mod((n - 1) as nat, n as nat);
    } else {
        vstd::arithmetic::div_mod::lemma_fundamental_div_mod_converse(x + n - 1, n, 1, x - 1);
    }
    if x == n - 1 {
        vstd::arithmetic::div_mod::lemma_fundamental_div_mod_converse(x + 1, n, 1, 0);
    } else {
        vstd::arithmetic::div_mod::lemma_small_mod((x + 1) as nat, n as nat);
    }
}

/// Each of the four primitive neighbours of a cell lies in the adjacent row or
/// column, wrapping around, and shares the other coordinate with the cell.
pub proof fn lemma_neighbor_coordinates(i: int, width: int, height: int)
    requires
        valid_shape(width, height),
        0 <= i < width * height,
    ensures
        0 <= i / width < height,
        0 <= i % width < width,
        0 <= up_of(i, width, height) < width * height,
        0 <= down_of(i, width, height) < width * height,
        0 <= left_of(i, width, height) < width * height,
        0 <= right_of(i, width, height) < width * height,
        up_of(i, width, height) / width == wrap_prev(i / width, height),
        up_of(i, width, height) % width == i % width,
        down_of(i, width, height) / width == wrap_next(i / width, height),
        down_of(i, width, height) % width == i % width,
        left_of(i, width, height) / width == i / width,
        left_of(i, width, height) % width == wrap_prev(i % width, width),
        right_of(i, width, height) / width == i / width,
        right_of(i, width, height) % width == wrap_next(i % width, width),
{
    lemma_split_index(i, width, height);
    let r = i / width;
    let c = i % width;
    lemma_wrap_mod(r, height);
    lemma_wrap_mod(c, width);
    lemma_index_in_board(wrap_prev(r, height), c, width, height);
    lemma_index_in_board(wrap_next(r, height), c, width, height);
    lemma_index_in_board(r, wrap_prev(c, width), width, height);
    lemma_index_in_board(r, wrap_next(c, width), width, height);
}

/// The eight cells around a cell on the board are on the board too.
pub proof fn lemma_neighbors_on_board(i: int, width: int, height: int)
    requires
        valid_shape(width, height),
        0 <= i < width * height,
    ensures
        0 <= up_of(left_of(i, width, height), width, height) < width * height,
        0 <= up_of(i, width, height) < width * height,
        0 <= up_of(right_of(i, width, height), width, height) < width * height,
        0 <= left_of(i, width, height) < width * height,
        0 <= right_of(i, width, height) < width * height,
        0 <= down_of(left_of(i, width, height), width, height) < width * height,
        0 <= down_of(i, width, height) < width * height,
        0 <= down_of(right_of(i, width, height), width, height) < width * height,
{
    lemma_toroidal_wrap(i, width, height);
    lemma_toroidal_wrap(left_of(i, width, height), width, height);
    lemma_toroidal_wrap(right_of(i, width, height), width, height);
}

/// The cell above `index`.
pub fn up(index: usize, width: usize, height: usize) -> (r: usize)
    requires
        valid_shape(width as int, height as int),
        width * height <= usize::MAX,
        index < width * height,
    ensures
        r == up_of(index as int, width as int, height as int),
        r < width * height,
{
    proof {
        lemma_split_index(index as int, width as int, height as int);
        lemma_toroidal_wrap(index as int, width as int, height as int);
    }
    if index / width == 0 {
        (height - 1) * width + index
    } else {
        index - width
    }
}

/// The cell below `index`.
pub fn down(index: usize, width: usize, height: usize) -> (r: usize)
    requires
        valid_shape(width as int, height as int),
        width * height <= usize::MAX,
        index < width * height,
    ensures
        r == down_of(index as int, width as int, height as int),
        r < width * height,
{
    proof {
        lemma_split_index(index as int, width as int, height as int);
        lemma_toroidal_wrap(index as int, width as int, height as int);
    }
    if index / width == height - 1 {
        index % width
    } else {
        index + width
    }
}

/// The cell left of `index`.
pub fn left(index: usize, width: usize, height: usize) -> (r: usize)
    requires
        valid_shape(width as int, height as int),
        width * height <= usize::MAX,
        index < width * height,
    ensures
        r == left_of(index as int, width as int, height as int),
        r < width * height,
{
    proof {
        lemma_split_index(index as int, width as int, height as int);
        lemma_toroidal_wrap(index as int, width as int, height as int);
    }
    if index % width == 0 {
        index + (width - 1)
    } else {
        index - 1
    }
}

/// The cell right of `index`.
pub fn right(index: usize, width: usize, height: usize) -> (r: usize)
    requires
        valid_shape(width as int, height as int),
        width * height <= usize::MAX,
        index < width * height,
    ensures
        r == right_of(index as int, width as int, height as int),
        r < width * height,
{
    proof {
        lemma_split_index(index as int, width as int, height as int);
        lemma_toroidal_wrap(index as int, width as int, height as int);
    }
    if index % width + 1 == width {
        index - (index % width)
    } else {
        index + 1
    }
}

} // verus!
