//! The board as bits of a 64-bit word.
//!
//! The grid has seven columns of six rows. Cell `(col, row)`, row 0 at the
//! bottom, is bit `7 * col + row`; bit `7 * col + 6` is a spare cell above
//! column `col` that never holds a stone, so that adding to a column never
//! carries into the next one.

use crate::bits::{
    bit_at, count_below, lemma_popcount_bound, lemma_popcount_subset, popcount, single_bit,
};
use vstd::prelude::*;

verus! {

/// The number of columns.
pub const WIDTH: u8 = 7;

/// The number of rows.
pub const HEIGHT: u8 = 6;

/// The bottom cell of each column.
pub const BOTTOM_MASK: u64 = 0x0000_0408_1020_4081;

/// The forty-two cells of the board.
pub const BOARD_MASK: u64 = 0x0000_FDFB_F7EF_DFBF;

/// The cell of column `col` and row `row`.
pub open spec fn cell(col: int, row: int) -> u64 {
    1u64 << ((7 * col + row) as u64)
}

/// The six cells of column `col`.
pub open spec fn col_mask(col: u8) -> u64 {
    0x3Fu64 << (7 * col)
}

/// The bottom cell of column `col`.
pub open spec fn bottom_mask_col(col: u8) -> u64 {
    1u64 << (7 * col)
}

/// The top cell of column `col`.
pub open spec fn top_mask(col: u8) -> u64 {
    0x20u64 << (7 * col)
}

/// The least column that has a cell in `mask`, or `none` where no column has one.
pub open spec fn first_column(mask: u64, none: u8) -> u8 {
    if mask & col_mask(0) != 0 {
        0
    } else if mask & col_mask(1) != 0 {
        1
    } else if mask & col_mask(2) != 0 {
        2
    } else if mask & col_mask(3) != 0 {
        3
    } else if mask & col_mask(4) != 0 {
        4
    } else if mask & col_mask(5) != 0 {
        5
    } else if mask & col_mask(6) != 0 {
        6
    } else {
        none
    }
}

/// The cells of `all` are board cells, and in each column they are the
/// lowest ones, with no free cell below a taken one.
pub open spec fn stacked(all: u64) -> bool {
    &&& all & !BOARD_MASK == 0
    &&& all & ((all + BOTTOM_MASK) as u64) == 0
}

/// The lowest free cell of each column that has one.
pub open spec fn possible(all: u64) -> u64 {
    ((all + BOTTOM_MASK) as u64) & BOARD_MASK
}

/// The lowest free cell of column `col`.
pub open spec fn landing(all: u64, col: u8) -> u64 {
    ((all + bottom_mask_col(col)) as u64) & col_mask(col)
}

proof fn lemma_masks(i: u64, col: u8, row: u8)
    by (bit_vector)
    requires
        i < 64,
        col < 7,
        row < 6,
    ensures
        bit_at(BOARD_MASK, i) == (i < 49 && i % 7 != 6),
        bit_at(BOTTOM_MASK, i) == (i < 49 && i % 7 == 0),
        stacked(0),
        0u64 & !0u64 == 0,
        cell(col as int, row as int) & col_mask(col) != 0,
        cell(col as int, row as int) & BOARD_MASK != 0,
        col_mask(col) & !BOARD_MASK == 0,
        bottom_mask_col(col) == cell(col as int, 0),
        top_mask(col) == cell(col as int, 5),
        BOTTOM_MASK & col_mask(col) == bottom_mask_col(col),
{
}

/// The two masks hold the cells that they are named after, and the masks
/// of a column hold cells of that column.
pub proof fn lemma_layout(col: u8, row: u8)
    requires
        col < 7,
        row < 6,
    ensures
        forall|i: u64| i < 64 ==> #[trigger] bit_at(BOARD_MASK, i) == (i < 49 && i % 7 != 6),
        forall|i: u64| i < 64 ==> #[trigger] bit_at(BOTTOM_MASK, i) == (i < 49 && i % 7 == 0),
        cell(col as int, row as int) & col_mask(col) != 0,
        cell(col as int, row as int) & BOARD_MASK != 0,
        col_mask(col) & !BOARD_MASK == 0,
        bottom_mask_col(col) == cell(col as int, 0),
        top_mask(col) == cell(col as int, 5),
        BOTTOM_MASK & col_mask(col) == bottom_mask_col(col),
{
    lemma_masks(0, col, row);
    assert forall|i: u64| i < 64 implies #[trigger] bit_at(BOARD_MASK, i) == (i < 49 && i % 7
        != 6) by {
        lemma_masks(i, col, row);
    }
    assert forall|i: u64| i < 64 implies #[trigger] bit_at(BOTTOM_MASK, i) == (i < 49 && i % 7
        == 0) by {
        lemma_masks(i, col, row);
    }
}

/// How many board cells are among the `n` lowest bits.
spec fn board_cells_below(n: u64) -> nat {
    if n >= 49 {
        42
    } else if n % 7 == 6 {
        (6 * (n / 7) + 6) as nat
    } else {
        (6 * (n / 7) + n % 7) as nat
    }
}

proof fn lemma_count_board(n: u64)
    requires
        n <= 64,
    ensures
        count_below(BOARD_MASK, n) == board_cells_below(n),
    decreases n,
{
    if n > 0 {
        lemma_count_board((n - 1) as u64);
        lemma_masks((n - 1) as u64, 0, 0);
    }
}

/// The board has forty-two cells, and a set of board cells that has
/// forty-two members is the whole board.
pub proof fn lemma_popcount_board(x: u64)
    requires
        x & !BOARD_MASK == 0,
    ensures
        popcount(BOARD_MASK) == 42,
        popcount(x) <= 42,
        popcount(x) == 42 <==> x == BOARD_MASK,
{
    lemma_count_board(64);
    lemma_popcount_subset(x, BOARD_MASK);
}

/// The empty board is stacked and holds no stone.
pub proof fn lemma_empty_stack()
    ensures
        stacked(0),
        0u64 & !0u64 == 0,
        popcount(0) == 0,
{
    lemma_masks(0, 0, 0);
    lemma_popcount_bound(0);
}

/// In a column whose top cell is free, the landing cell is one playable
/// cell, free and on the board, and a stone on it leaves the cells stacked.
pub proof fn lemma_landing(p: u64, all: u64, col: u8)
    by (bit_vector)
    requires
        stacked(all),
        p & !all == 0,
        col < 7,
        all & top_mask(col) == 0,
    ensures
        all + bottom_mask_col(col) <= u64::MAX,
        single_bit(landing(all, col)),
        landing(all, col) == possible(all) & col_mask(col),
        landing(all, col) & possible(all) != 0,
        landing(all, col) & all == 0,
        landing(all, col) & !BOARD_MASK == 0,
        stacked(all | landing(all, col)),
{
}

/// A stone on a playable cell leaves the cells stacked, and the stones of
/// the side that placed it are those it had and the new one.
pub proof fn lemma_play_cell(p: u64, all: u64, x: u64)
    by (bit_vector)
    requires
        stacked(all),
        p & !all == 0,
        single_bit(x),
        x & possible(all) != 0,
    ensures
        x & all == 0,
        x & !BOARD_MASK == 0,
        stacked(all | x),
        (p ^ all) & !(all | x) == 0,
        (p ^ all) ^ (all | x) == p | x,
        p ^ all == all ^ p,
{
}

/// A stone that is taken off again, and two changes of the side, leave what
/// there was.
pub proof fn lemma_undo(p: u64, all: u64, x: u64)
    by (bit_vector)
    requires
        x & all == 0,
    ensures
        (all | x) ^ x == all,
        (p ^ all) ^ all == p,
{
}

/// A column has a playable cell exactly when its top cell is free, and
/// only the full board has no playable cell.
pub proof fn lemma_possible(all: u64, col: u8)
    by (bit_vector)
    requires
        stacked(all),
        col < 7,
    ensures
        (possible(all) & col_mask(col) != 0) == (all & top_mask(col) == 0),
        possible(all) == 0 <==> all == BOARD_MASK,
        possible(all) != 0 ==> possible(all) & BOARD_MASK != 0,
        all + BOTTOM_MASK <= u64::MAX,
{
}

/// A mask with a board cell has a cell in one of the seven columns.
pub proof fn lemma_some_column(mask: u64)
    by (bit_vector)
    requires
        mask & BOARD_MASK != 0,
    ensures
        mask & col_mask(0) != 0 || mask & col_mask(1) != 0 || mask & col_mask(2) != 0 || mask
            & col_mask(3) != 0 || mask & col_mask(4) != 0 || mask & col_mask(5) != 0 || mask
            & col_mask(6) != 0,
{
}

/// A mask with a cell in a column has one of the six cells of that column.
pub proof fn lemma_some_row(mask: u64, col: u8)
    by (bit_vector)
    requires
        col < 7,
        mask & col_mask(col) != 0,
    ensures
        mask & cell(col as int, 0) != 0 || mask & cell(col as int, 1) != 0 || mask & cell(
            col as int,
            2,
        ) != 0 || mask & cell(col as int, 3) != 0 || mask & cell(col as int, 4) != 0 || mask
            & cell(col as int, 5) != 0,
{
}

/// A column of `mask`, for a mask that has a board cell.
pub proof fn some_column(mask: u64) -> (col: u8)
    requires
        mask & BOARD_MASK != 0,
    ensures
        col < 7,
        mask & col_mask(col) != 0,
{
    lemma_some_column(mask);
    if mask & col_mask(0) != 0 {
        0
    } else if mask & col_mask(1) != 0 {
        1
    } else if mask & col_mask(2) != 0 {
        2
    } else if mask & col_mask(3) != 0 {
        3
    } else if mask & col_mask(4) != 0 {
        4
    } else if mask & col_mask(5) != 0 {
        5
    } else {
        6
    }
}

/// The column and the row of a board cell of `mask`, for a mask that has one.
pub proof fn some_cell(mask: u64) -> (at: (u8, u8))
    requires
        mask & BOARD_MASK != 0,
    ensures
        at.0 < 7,
        at.1 < 6,
        mask & cell(at.0 as int, at.1 as int) != 0,
{
    let col = some_column(mask);
    lemma_some_row(mask, col);
    let row: u8 = if mask & cell(col as int, 0) != 0 {
        0
    } else if mask & cell(col as int, 1) != 0 {
        1
    } else if mask & cell(col as int, 2) != 0 {
        2
    } else if mask & cell(col as int, 3) != 0 {
        3
    } else if mask & cell(col as int, 4) != 0 {
        4
    } else {
        5
    };
    (col, row)
}

/// The sum of the stones and the stones of one side is below the number
/// whose 49 low bits are all set.
pub proof fn lemma_hash_fits(p: u64, all: u64)
    by (bit_vector)
    requires
        stacked(all),
        p & !all == 0,
    ensures
        all + p < 0x1_FFFF_FFFF_FFFF,
{
}

/// The sum of the stones and the stones of one side tells both.
pub proof fn lemma_hash_injective(all: u64, player: u64, other_all: u64, other_player: u64)
    by (bit_vector)
    requires
        stacked(all),
        stacked(other_all),
        player & !all == 0,
        other_player & !other_all == 0,
        all + player == other_all + other_player,
    ensures
        all == other_all,
        player == other_player,
{
}

} // verus!
