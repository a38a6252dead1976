//! Four in a row, and the cells that would complete it.
//!
//! Neighbouring cells lie 1 bit apart in a column, 7 bits apart in a row,
//! 8 bits apart on a rising diagonal and 6 bits apart on a falling one. The
//! spare cell above each column keeps a line from running on into the next
//! column.

use crate::bits::{lemma_popcount_clear_lowest, popcount, single_bit};
use crate::grid::{
    cell, col_mask, landing, possible, some_cell, stacked, top_mask, BOARD_MASK,
};
use vstd::prelude::*;

verus! {

/// Bit `s` of the result is set when the bits `s`, `s + d`, `s + 2d` and
/// `s + 3d` of `m` are all set.
pub open spec fn line4(m: u64, d: u64) -> u64 {
    m & (m >> d) & (m >> (2 * d)) & (m >> (3 * d))
}

/// Some four cells in a row, along one of the four directions, are all in `m`.
pub open spec fn four_in_row(m: u64) -> bool {
    line4(m, 1) != 0 || line4(m, 7) != 0 || line4(m, 6) != 0 || line4(m, 8) != 0
}

/// The four cells from `(col, row)` on, each `dcol` columns and `drow` rows
/// from the one before, are board cells of `m`.
pub open spec fn run_of_four(m: u64, col: int, row: int, dcol: int, drow: int) -> bool {
    &&& 0 <= col && col + 3 * dcol < 7
    &&& 0 <= row < 6 && 0 <= row + 3 * drow < 6
    &&& m & cell(col, row) != 0
    &&& m & cell(col + dcol, row + drow) != 0
    &&& m & cell(col + 2 * dcol, row + 2 * drow) != 0
    &&& m & cell(col + 3 * dcol, row + 3 * drow) != 0
}

/// Some four cells in a row, upwards, sideways or along a diagonal, are
/// board cells of `m`.
pub open spec fn has_run(m: u64) -> bool {
    exists|col: int, row: int|
        #![trigger cell(col, row)]
        run_of_four(m, col, row, 0, 1) || run_of_four(m, col, row, 1, 0) || run_of_four(
            m,
            col,
            row,
            1,
            1,
        ) || run_of_four(m, col, row, 1, -1)
}

/// With the cell `x` added, `p` holds four in a row through `x` along the
/// direction of step `d`.
pub open spec fn completes(p: u64, x: u64, d: u64) -> bool {
    line4(p | x, d) & (x | (x >> d) | (x >> (2 * d)) | (x >> (3 * d))) != 0
}

/// With the cell `x` added, `p` holds four in a row through `x`, upwards,
/// sideways or along a diagonal.
pub open spec fn gives_four(p: u64, x: u64) -> bool {
    completes(p, x, 1) || completes(p, x, 7) || completes(p, x, 6) || completes(p, x, 8)
}

/// The cells right above three stones of `p` on top of each other.
pub open spec fn vertical_threats(p: u64) -> u64 {
    (p << 1) & (p << 2) & (p << 3)
}

/// The cells that have, along the direction of step `d`, three stones of
/// `p` for neighbours in a line of four: three on one side, or two on one
/// side and one on the other.
pub open spec fn line_threats(p: u64, d: u64) -> u64 {
    let up = (p << d) & (p << (2 * d));
    let down = (p >> d) & (p >> (2 * d));
    (up & (p << (3 * d))) | (up & (p >> d)) | (down & (p >> (3 * d))) | (down & (p << d))
}

/// The free board cells where one more stone would give the owner of `p`
/// four in a row, `all` being the cells that hold a stone.
pub open spec fn threats(p: u64, all: u64) -> u64 {
    (vertical_threats(p) | line_threats(p, 7) | line_threats(p, 6) | line_threats(p, 8)) & (
    BOARD_MASK & !all)
}

/// The playable cells that do not let the owner of the other stones win with
/// the next stone, for a side with the stones `p` among the stones `all`.
///
/// Where the other side has two playable threats there is none. Where it
/// has one, only that cell is left. A cell right below a threat of the
/// other side is never one.
pub open spec fn nonlosing(p: u64, all: u64) -> u64 {
    let opp = threats(p ^ all, all);
    let forced = possible(all) & opp;
    if forced == 0 {
        possible(all) & !(opp >> 1)
    } else if forced & ((forced - 1) as u64) == 0 {
        forced & !(opp >> 1)
    } else {
        0
    }
}

proof fn lemma_line4_cells(m: u64, col: u8, row: u8, d: u64)
    by (bit_vector)
    requires
        m & !BOARD_MASK == 0,
        col < 7,
        row < 6,
    ensures
        (line4(m, 1) & cell(col as int, row as int) != 0) == run_of_four(
            m,
            col as int,
            row as int,
            0,
            1,
        ),
        (line4(m, 7) & cell(col as int, row as int) != 0) == run_of_four(
            m,
            col as int,
            row as int,
            1,
            0,
        ),
        (line4(m, 8) & cell(col as int, row as int) != 0) == run_of_four(
            m,
            col as int,
            row as int,
            1,
            1,
        ),
        (line4(m, 6) & cell(col as int, row as int) != 0) == run_of_four(
            m,
            col as int,
            row as int,
            1,
            -1,
        ),
        line4(m, d) & cell(col as int, row as int) != 0 ==> line4(m, d) != 0,
        line4(m, d) != 0 ==> line4(m, d) & BOARD_MASK != 0,
{
}

/// The masks of board cells in which the shifts find four in a row are
/// those that hold four cells in a row on the grid, upwards, sideways or
/// along a diagonal.
pub proof fn lemma_four_in_row(m: u64)
    requires
        m & !BOARD_MASK == 0,
    ensures
        four_in_row(m) == has_run(m),
{
    if four_in_row(m) {
        let d: u64 = if line4(m, 1) != 0 {
            1
        } else if line4(m, 7) != 0 {
            7
        } else if line4(m, 6) != 0 {
            6
        } else {
            8
        };
        lemma_line4_cells(m, 0, 0, d);
        let at = some_cell(line4(m, d));
        lemma_line4_cells(m, at.0, at.1, d);
    }
    if has_run(m) {
        let (col, row) = choose|col: int, row: int|
            #![trigger cell(col, row)]
            run_of_four(m, col, row, 0, 1) || run_of_four(m, col, row, 1, 0) || run_of_four(
                m,
                col,
                row,
                1,
                1,
            ) || run_of_four(m, col, row, 1, -1);
        lemma_line4_cells(m, col as u8, row as u8, 1);
        lemma_line4_cells(m, col as u8, row as u8, 7);
        lemma_line4_cells(m, col as u8, row as u8, 6);
        lemma_line4_cells(m, col as u8, row as u8, 8);
    }
}

/// On a free board cell, a stone of the owner of `p` makes four in a row
/// through that cell exactly when the cell is one of the threats of `p`.
/// So a threat taken gives four in a row, and a stone that gives four in a
/// row to a side that had none was put on a threat.
pub proof fn lemma_threats_win(p: u64, all: u64, x: u64)
    by (bit_vector)
    requires
        stacked(all),
        p & !all == 0,
        single_bit(x),
        x & !BOARD_MASK == 0,
        x & all == 0,
    ensures
        (threats(p, all) & x != 0) == gives_four(p, x),
        (threats(p ^ all, all) & x != 0) == gives_four(p ^ all, x),
        threats(p, all) & x != 0 ==> four_in_row(p | x),
        !four_in_row(p) && four_in_row(p | x) ==> threats(p, all) & x != 0,
{
}

/// The threats and the non-losing cells are board cells, the non-losing
/// cells are playable, and what holds of a mask holds of its parts.
pub proof fn lemma_parts(p: u64, all: u64, mask: u64)
    by (bit_vector)
    ensures
        threats(p, all) & !BOARD_MASK == 0,
        threats(p, all) & all == 0,
        nonlosing(p, all) & !possible(all) == 0,
        nonlosing(p, all) != 0 ==> nonlosing(p, all) & BOARD_MASK != 0,
        nonlosing(p, all) == 0 ==> nonlosing(p, all) & mask == 0,
        possible(all) & mask == 0 ==> nonlosing(p, all) & mask == 0,
        possible(all) == 0 ==> threats(p, all) & possible(all) == 0,
        threats(p, all) & possible(all) == 0 ==> (threats(p, all) & possible(all)) & mask == 0,
        threats(p, all) & possible(all) != 0 ==> threats(p, all) != 0 && (threats(p, all)
            & possible(all)) & BOARD_MASK != 0,
        (threats(p, all) & possible(all)) & mask != 0 ==> possible(all) & mask != 0 && threats(
            p,
            all,
        ) & (possible(all) & mask) != 0,
        single_bit(mask) && mask & possible(all) != 0 && threats(p, all) & mask != 0 ==> threats(
            p,
            all,
        ) & possible(all) != 0,
{
}

/// A column holds a non-losing cell of a side exactly when, after a stone
/// of that side in the column, the other side has no playable threat.
pub proof fn lemma_nonlosing(p: u64, all: u64, col: u8)
    by (bit_vector)
    requires
        stacked(all),
        p & !all == 0,
        col < 7,
        all & top_mask(col) == 0,
    ensures
        (nonlosing(p, all) & col_mask(col) != 0) == (threats(p ^ all, all | landing(all, col))
            & possible(all | landing(all, col)) == 0),
{
}

proof fn lemma_three_bits(p: u64, all: u64)
    by (bit_vector)
    requires
        threats(p, all) != 0,
    ensures
        p != 0,
        p & ((p - 1) as u64) != 0,
        (p & ((p - 1) as u64)) & (((p & ((p - 1) as u64)) - 1) as u64) != 0,
{
}

/// Whoever has a threat has three stones at least.
pub proof fn lemma_threats_need_three(p: u64, all: u64)
    requires
        threats(p, all) != 0,
    ensures
        popcount(p) >= 3,
{
    lemma_three_bits(p, all);
    let q = p & ((p - 1) as u64);
    let r = q & ((q - 1) as u64);
    lemma_popcount_clear_lowest(p);
    lemma_popcount_clear_lowest(q);
    lemma_popcount_clear_lowest(r);
}

} // verus!
