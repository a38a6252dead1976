//! The value of a position under best play, and what the moves are worth.

use crate::grid::{
    col_mask, landing, lemma_landing, lemma_play_cell, lemma_popcount_board, lemma_possible,
    some_column,
};
use crate::lines::{four_in_row, lemma_nonlosing, lemma_parts, lemma_threats_win};
use crate::position::{lemma_play_col_wf, lemma_win_needs_six, Position};
use vstd::prelude::*;

verus! {

/// The highest score: a win with the fourth stone.
pub const MAX_SCORE: i32 = 18;

/// The lowest score: a loss to the fourth stone of the other side.
pub const MIN_SCORE: i32 = -18;

/// The greater of two numbers.
pub open spec fn higher(a: int, b: int) -> int {
    if a >= b {
        a
    } else {
        b
    }
}

/// What the side to move gets from a stone in `col`; a move that cannot be
/// made counts as worse than any that can.
pub open spec fn reply_value(p: Position, col: u8) -> int
    decreases 42 - p.moves, 0nat,
{
    if p.moves < 42 && p.can_play(col) {
        -value(p.play_col(col))
    } else {
        -22
    }
}

/// The value of `p` to the side to move when both sides play as well as can
/// be played, for a position in which nobody has four in a row yet.
///
/// A side that wins with its `k`-th stone scores `22 - k`; the other side
/// scores the negative of that, and a full board scores 0 for both. So a
/// side that can complete four in a row at once scores `(43 - moves) / 2`,
/// and any other side scores the best of what its moves lead to.
pub open spec fn value(p: Position) -> int
    decreases 42 - p.moves, 1nat,
{
    if p.moves >= 42 {
        0
    } else if p.can_win_next() {
        (43 - p.moves) / 2
    } else {
        higher(
            reply_value(p, 0),
            higher(
                reply_value(p, 1),
                higher(
                    reply_value(p, 2),
                    higher(
                        reply_value(p, 3),
                        higher(reply_value(p, 4), higher(reply_value(p, 5), reply_value(p, 6))),
                    ),
                ),
            ),
        )
    }
}

/// A well-formed position with fewer than forty-two stones has a column
/// with a free cell, and one with forty-two has none.
pub proof fn lemma_has_move(p: Position) -> (col: u8)
    requires
        p.wf(),
    ensures
        p.moves <= 42,
        p.moves < 42 ==> p.can_play(col),
        p.moves == 42 ==> p.possible() == 0 && !p.can_win_next(),
{
    lemma_popcount_board(p.all);
    lemma_possible(p.all, 0);
    lemma_parts(p.player, p.all, 0);
    if p.moves < 42 {
        let c = some_column(p.possible());
        lemma_possible(p.all, c);
        c
    } else {
        0
    }
}

/// While the board is not full, the least column with a free cell has one.
pub proof fn lemma_first_playable(p: Position)
    requires
        p.wf(),
        p.moves < 42,
    ensures
        p.can_play(p.first_playable()),
{
    let c = lemma_has_move(p);
    lemma_possible(p.all, 0);
    lemma_possible(p.all, 1);
    lemma_possible(p.all, 2);
    lemma_possible(p.all, 3);
    lemma_possible(p.all, 4);
    lemma_possible(p.all, 5);
    lemma_possible(p.all, 6);
}

/// Where the side to move can win at once, the winning column has a free
/// cell, and a stone there gives the side that placed it four in a row.
pub proof fn lemma_winning_column(p: Position)
    requires
        p.wf(),
        p.can_win_next(),
    ensures
        p.can_play(p.winning_column()),
        p.winning_cells() & landing(p.all, p.winning_column()) != 0,
        p.play_col(p.winning_column()).opponent() == p.player | landing(
            p.all,
            p.winning_column(),
        ),
        four_in_row(p.play_col(p.winning_column()).opponent()),
{
    let wins = p.winning_cells() & p.possible();
    lemma_parts(p.player, p.all, 0);
    let c = some_column(wins);
    let col = p.winning_column();
    lemma_parts(p.player, p.all, col_mask(col));
    lemma_possible(p.all, col);
    let cell = landing(p.all, col);
    lemma_landing(p.player, p.all, col);
    lemma_play_cell(p.player, p.all, cell);
    lemma_threats_win(p.player, p.all, cell);
}

/// Where the side to move cannot win at once, there is no winning column.
pub proof fn lemma_no_winning_column(p: Position)
    requires
        !p.can_win_next(),
    ensures
        p.winning_column() == 255,
{
    lemma_parts(p.player, p.all, col_mask(0));
    lemma_parts(p.player, p.all, col_mask(1));
    lemma_parts(p.player, p.all, col_mask(2));
    lemma_parts(p.player, p.all, col_mask(3));
    lemma_parts(p.player, p.all, col_mask(4));
    lemma_parts(p.player, p.all, col_mask(5));
    lemma_parts(p.player, p.all, col_mask(6));
}

/// While the side to move has no four in a row yet, it can win at once
/// exactly when a stone in some column gives it four in a row.
pub proof fn lemma_can_win_next(p: Position)
    requires
        p.wf(),
        !four_in_row(p.player),
    ensures
        p.can_win_next() <==> exists|col: u8|
            p.can_play(col) && four_in_row(#[trigger] p.play_col(col).opponent()),
{
    if p.can_win_next() {
        lemma_winning_column(p);
    }
    if exists|col: u8| p.can_play(col) && four_in_row(#[trigger] p.play_col(col).opponent()) {
        let col = choose|col: u8|
            p.can_play(col) && four_in_row(#[trigger] p.play_col(col).opponent());
        let cell = landing(p.all, col);
        lemma_landing(p.player, p.all, col);
        lemma_play_cell(p.player, p.all, cell);
        lemma_threats_win(p.player, p.all, cell);
        lemma_parts(p.player, p.all, cell);
    }
}

/// A column holds a non-losing cell exactly when a stone can go into it and
/// the other side cannot win at once after that.
pub proof fn lemma_nonlosing_column(p: Position, col: u8)
    requires
        p.wf(),
        col < 7,
    ensures
        (p.nonlosing() & col_mask(col) != 0) == (p.can_play(col) && !p.play_col(
            col,
        ).can_win_next()),
{
    lemma_possible(p.all, col);
    lemma_parts(p.player, p.all, col_mask(col));
    if p.can_play(col) {
        lemma_nonlosing(p.player, p.all, col);
    }
}

/// There is no non-losing cell exactly when every move that can be made
/// lets the other side win at once.
pub proof fn lemma_no_safe_move(p: Position)
    requires
        p.wf(),
    ensures
        p.nonlosing() == 0 <==> forall|col: u8|
            p.can_play(col) ==> #[trigger] p.play_col(col).can_win_next(),
{
    if p.nonlosing() == 0 {
        assert forall|col: u8| p.can_play(col) implies #[trigger] p.play_col(
            col,
        ).can_win_next() by {
            lemma_nonlosing_column(p, col);
            lemma_parts(p.player, p.all, col_mask(col));
        }
    } else {
        lemma_parts(p.player, p.all, 0);
        let col = some_column(p.nonlosing());
        lemma_nonlosing_column(p, col);
    }
}

/// The value lies between the worst and the best that the number of stones
/// still allows, and below the best where the side to move cannot win at once.
pub proof fn lemma_value_bounds(p: Position)
    requires
        p.wf(),
    ensures
        p.moves <= 42,
        -((42 - p.moves) / 2) <= value(p) <= (43 - p.moves) / 2,
        p.moves < 42 && !p.can_win_next() ==> value(p) <= (41 - p.moves) / 2,
    decreases 42 - p.moves, 1nat,
{
    let c = lemma_has_move(p);
    if p.moves < 42 && !p.can_win_next() {
        lemma_reply_bounds(p, 0);
        lemma_reply_bounds(p, 1);
        lemma_reply_bounds(p, 2);
        lemma_reply_bounds(p, 3);
        lemma_reply_bounds(p, 4);
        lemma_reply_bounds(p, 5);
        lemma_reply_bounds(p, 6);
    }
}

proof fn lemma_reply_bounds(p: Position, col: u8)
    requires
        p.wf(),
        p.moves < 42,
    ensures
        p.can_play(col) ==> -((42 - p.moves) / 2) <= reply_value(p, col) <= (41 - p.moves) / 2,
        !p.can_play(col) ==> reply_value(p, col) == -22,
    decreases 42 - p.moves, 0nat,
{
    if p.can_play(col) {
        lemma_play_col_wf(p, col);
        lemma_value_bounds(p.play_col(col));
    }
}

/// No side wins before its fourth stone: every value lies between the
/// lowest and the highest score.
pub proof fn lemma_value_range(p: Position)
    requires
        p.wf(),
    ensures
        MIN_SCORE <= value(p) <= MAX_SCORE,
    decreases 42 - p.moves, 1nat,
{
    let c = lemma_has_move(p);
    if p.moves < 42 {
        if p.can_win_next() {
            lemma_win_needs_six(p);
        } else {
            lemma_reply_range(p, 0);
            lemma_reply_range(p, 1);
            lemma_reply_range(p, 2);
            lemma_reply_range(p, 3);
            lemma_reply_range(p, 4);
            lemma_reply_range(p, 5);
            lemma_reply_range(p, 6);
        }
    }
}

proof fn lemma_reply_range(p: Position, col: u8)
    requires
        p.wf(),
        p.moves < 42,
    ensures
        p.can_play(col) ==> MIN_SCORE <= reply_value(p, col) <= MAX_SCORE,
        !p.can_play(col) ==> reply_value(p, col) == -22,
    decreases 42 - p.moves, 0nat,
{
    if p.can_play(col) {
        lemma_play_col_wf(p, col);
        lemma_value_range(p.play_col(col));
    }
}

/// No move is worth more than the position.
pub proof fn lemma_reply_le(p: Position, col: u8)
    requires
        p.moves < 42,
        !p.can_win_next(),
        col < 7,
    ensures
        reply_value(p, col) <= value(p),
{
}

/// A bound on what the seven columns are worth is a bound on the value.
pub proof fn lemma_value_le(p: Position, bound: int)
    requires
        p.moves < 42,
        !p.can_win_next(),
        forall|col: u8| col < 7 ==> reply_value(p, col) <= bound,
    ensures
        value(p) <= bound,
{
    assert(reply_value(p, 0) <= bound);
    assert(reply_value(p, 1) <= bound);
    assert(reply_value(p, 2) <= bound);
    assert(reply_value(p, 3) <= bound);
    assert(reply_value(p, 4) <= bound);
    assert(reply_value(p, 5) <= bound);
    assert(reply_value(p, 6) <= bound);
}

/// Some move that can be made is worth what the position is worth.
pub proof fn lemma_best_reply(p: Position) -> (col: u8)
    requires
        p.wf(),
        p.moves < 42,
        !p.can_win_next(),
    ensures
        p.can_play(col),
        value(p) == reply_value(p, col),
        value(p) == -value(p.play_col(col)),
{
    let c = lemma_has_move(p);
    lemma_reply_bounds(p, 0);
    lemma_reply_bounds(p, 1);
    lemma_reply_bounds(p, 2);
    lemma_reply_bounds(p, 3);
    lemma_reply_bounds(p, 4);
    lemma_reply_bounds(p, 5);
    lemma_reply_bounds(p, 6);
    let v = value(p);
    if reply_value(p, 0) == v {
        0
    } else if reply_value(p, 1) == v {
        1
    } else if reply_value(p, 2) == v {
        2
    } else if reply_value(p, 3) == v {
        3
    } else if reply_value(p, 4) == v {
        4
    } else if reply_value(p, 5) == v {
        5
    } else {
        6
    }
}

/// A move that no other move is better than is worth what the position is
/// worth: the value of the position is the negative of the value of the
/// position that the move leads to.
pub proof fn lemma_optimal_move(p: Position, col: u8)
    requires
        p.wf(),
        !p.can_win_next(),
        p.can_play(col),
        forall|other: u8|
            p.can_play(other) ==> -value(#[trigger] p.play_col(other)) <= -value(p.play_col(col)),
    ensures
        value(p) == -value(p.play_col(col)),
{
    lemma_play_col_wf(p, col);
    let best = lemma_best_reply(p);
    lemma_reply_le(p, col);
}

/// A move that lets the other side win at once is worth the worst that the
/// number of stones allows.
pub proof fn lemma_losing_reply(p: Position, col: u8)
    requires
        p.wf(),
        p.can_play(col),
        p.play_col(col).can_win_next(),
    ensures
        reply_value(p, col) == -((42 - p.moves) / 2),
{
    lemma_play_col_wf(p, col);
    let c = lemma_has_move(p.play_col(col));
}

/// A move after which the other side cannot win at once is worth more than that.
pub proof fn lemma_safe_reply(p: Position, col: u8)
    requires
        p.wf(),
        p.can_play(col),
        !p.play_col(col).can_win_next(),
        p.moves < 40,
    ensures
        reply_value(p, col) >= -((40 - p.moves) / 2),
{
    lemma_play_col_wf(p, col);
    lemma_value_bounds(p.play_col(col));
}

/// Where every move loses at once, the position is worth the worst that the
/// number of stones allows.
pub proof fn lemma_value_all_lose(p: Position)
    requires
        p.wf(),
        !p.can_win_next(),
        p.nonlosing() == 0,
    ensures
        value(p) == -((42 - p.moves) / 2),
{
    let c = lemma_has_move(p);
    if p.moves < 42 {
        lemma_no_safe_move(p);
        lemma_all_lose_reply(p, 0);
        lemma_all_lose_reply(p, 1);
        lemma_all_lose_reply(p, 2);
        lemma_all_lose_reply(p, 3);
        lemma_all_lose_reply(p, 4);
        lemma_all_lose_reply(p, 5);
        lemma_all_lose_reply(p, 6);
    }
}

proof fn lemma_all_lose_reply(p: Position, col: u8)
    requires
        p.wf(),
        p.moves < 42,
        forall|col: u8| p.can_play(col) ==> #[trigger] p.play_col(col).can_win_next(),
    ensures
        p.can_play(col) ==> reply_value(p, col) == -((42 - p.moves) / 2),
        !p.can_play(col) ==> reply_value(p, col) == -22,
{
    if p.can_play(col) {
        lemma_losing_reply(p, col);
    }
}

/// Where some move does not lose at once and forty stones are not yet
/// placed, the position is worth more than the worst.
pub proof fn lemma_value_floor(p: Position)
    requires
        p.wf(),
        !p.can_win_next(),
        p.nonlosing() != 0,
        p.moves < 40,
    ensures
        value(p) >= -((40 - p.moves) / 2),
{
    lemma_parts(p.player, p.all, 0);
    let col = some_column(p.nonlosing());
    lemma_nonlosing_column(p, col);
    lemma_safe_reply(p, col);
    lemma_reply_le(p, col);
}

/// With forty stones or more placed, a position in which some move does not
/// lose at once is drawn.
pub proof fn lemma_value_late(p: Position)
    requires
        p.wf(),
        !p.can_win_next(),
        p.nonlosing() != 0,
        p.moves >= 40,
    ensures
        p.moves < 42,
        value(p) == 0,
{
    let c = lemma_has_move(p);
    lemma_parts(p.player, p.all, 0);
    let safe = some_column(p.nonlosing());
    lemma_nonlosing_column(p, safe);
    lemma_play_col_wf(p, safe);
    lemma_late_reply(p, 0);
    lemma_late_reply(p, 1);
    lemma_late_reply(p, 2);
    lemma_late_reply(p, 3);
    lemma_late_reply(p, 4);
    lemma_late_reply(p, 5);
    lemma_late_reply(p, 6);
}

proof fn lemma_late_reply(p: Position, col: u8)
    requires
        p.wf(),
        40 <= p.moves < 42,
    ensures
        p.can_play(col) && !p.play_col(col).can_win_next() ==> reply_value(p, col) == 0,
        reply_value(p, col) <= 0,
{
    if p.can_play(col) {
        let q = p.play_col(col);
        lemma_play_col_wf(p, col);
        lemma_value_bounds(q);
        if q.moves < 42 && !q.can_win_next() {
            let best = lemma_best_reply(q);
            lemma_play_col_wf(q, best);
        }
    }
}

} // verus!
