//! What the search computes, as functions of the position, the table and
//! the window.

use crate::bits::popcount;
use crate::game::{higher, MIN_SCORE};
use crate::grid::col_mask;
use crate::lines::threats;
use crate::position::Position;
use crate::sort::{holds, lemma_insert_holds, lemma_rank_bounds, rank, MoveNode};
use crate::table::slot_keys;
use vstd::prelude::*;

verus! {

/// What a search gives: a score, a column or a negative number for none,
/// and the table that it leaves.
pub struct Found {
    pub score: int,
    pub column: int,
    pub table: Map<u64, i32>,
}

/// The least value that the number of stones allows: the other side wins
/// with its next stone.
pub open spec fn worst(p: Position) -> int {
    -((42 - p.moves) / 2)
}

/// The greatest value that the number of stones allows: the side to move
/// wins with its next stone.
pub open spec fn best(p: Position) -> int {
    (43 - p.moves) / 2
}

/// The least value of a position in which some move does not lose at once.
pub open spec fn floor(p: Position) -> int {
    -((40 - p.moves) / 2)
}

/// The upper bound on the value of `p` that the search starts from: what
/// the table holds for `p`, less the offset, or else the most that the
/// number of stones allows to a side that cannot win at once.
pub open spec fn ceiling(table: Map<u64, i32>, p: Position) -> int {
    if table.dom().contains(p.hash()) {
        table[p.hash()] + MIN_SCORE - 1
    } else {
        (41 - p.moves) / 2
    }
}

/// The lesser of two numbers.
pub open spec fn lower(a: int, b: int) -> int {
    if a <= b {
        a
    } else {
        b
    }
}

/// The column at place `i` of the exploration order, which goes from the
/// middle of the board outwards.
pub open spec fn order(i: int) -> u8 {
    if i == 0 {
        3
    } else if i == 1 {
        2
    } else if i == 2 {
        4
    } else if i == 3 {
        1
    } else if i == 4 {
        5
    } else if i == 5 {
        0
    } else {
        6
    }
}

/// Column `col` as a candidate: its value is the number of threats that
/// the side to move would hold with a stone on the non-losing cell of the
/// column.
pub open spec fn candidate(p: Position, col: u8) -> MoveNode {
    MoveNode {
        action: col,
        value: popcount(threats(p.player | (p.nonlosing() & col_mask(col)), p.all)) as i32,
    }
}

/// The candidates of `p` once the columns from place `i` of the
/// exploration order on have been put in, the last place first: the
/// columns with a non-losing cell, in ascending order of their values, and
/// among equal values the column nearer to the middle behind the other.
pub open spec fn ordered(p: Position, i: int) -> Seq<MoveNode>
    decreases 7 - i,
{
    if i >= 7 {
        Seq::empty()
    } else {
        let later = ordered(p, i + 1);
        if p.nonlosing() & col_mask(order(i)) != 0 {
            later.insert(rank(later, candidate(p, order(i)).value), candidate(p, order(i)))
        } else {
            later
        }
    }
}

/// Every candidate of `s` is a column with a non-losing cell.
pub open spec fn safe(p: Position, s: Seq<MoveNode>) -> bool {
    forall|k: int|
        0 <= k < s.len() ==> (#[trigger] s[k]).action < 7 && p.nonlosing() & col_mask(
            s[k].action,
        ) != 0
}

proof fn lemma_ordered_from(p: Position, i: int)
    requires
        0 <= i <= 7,
    ensures
        ordered(p, i).len() <= 7 - i,
        safe(p, ordered(p, i)),
        forall|j: int|
            i <= j < 7 && p.nonlosing() & col_mask(order(j)) != 0 ==> holds(
                ordered(p, i),
                #[trigger] order(j),
            ),
    decreases 7 - i,
{
    if i < 7 {
        lemma_ordered_from(p, i + 1);
        let later = ordered(p, i + 1);
        if p.nonlosing() & col_mask(order(i)) != 0 {
            let node = candidate(p, order(i));
            lemma_rank_bounds(later, node.value);
            lemma_insert_holds(later, rank(later, node.value), node);
        }
        assert forall|j: int|
            i <= j < 7 && p.nonlosing() & col_mask(order(j)) != 0 implies holds(
            ordered(p, i),
            #[trigger] order(j),
        ) by {
            if j > i {
                assert(holds(later, order(j)));
            }
        }
    }
}

/// The candidates of a position are at most seven, and they are the
/// columns that have a non-losing cell.
pub proof fn lemma_ordered(p: Position, i: int)
    requires
        0 <= i <= 7,
    ensures
        ordered(p, i).len() <= 7 - i,
        safe(p, ordered(p, i)),
        forall|col: u8|
            col < 7 && p.nonlosing() & #[trigger] col_mask(col) != 0 ==> holds(ordered(p, 0), col),
{
    lemma_ordered_from(p, i);
    lemma_ordered_from(p, 0);
    assert(order(0) == 3 && order(1) == 2 && order(2) == 4 && order(3) == 1 && order(4) == 5
        && order(5) == 0 && order(6) == 6);
}

/// What a search of `p` between `alpha` and `beta` answers before it tries
/// a move, if it does: the worst where every move loses at once, a draw
/// where at most two cells are free, the least possible value where `beta`
/// lies below it, and the upper bound that the search starts from where
/// that closes the window. The column is the least with a free cell in the
/// first two cases and -1 for none in the others.
pub open spec fn shortcut(p: Position, table: Map<u64, i32>, alpha: int, beta: int) -> Option<
    (int, int),
> {
    if p.nonlosing() == 0 {
        Some((worst(p), p.first_playable() as int))
    } else if p.moves >= 40 {
        Some((0, p.first_playable() as int))
    } else if beta < floor(p) {
        Some((floor(p), -1))
    } else if ceiling(table, p) < beta && ceiling(table, p) <= higher(alpha, floor(p)) {
        Some((ceiling(table, p), -1))
    } else {
        None
    }
}

/// What a search of `p` gives with the table `table` and the window from
/// `alpha` to `beta`: the answer of `shortcut` where there is one; else
/// what trying the candidates gives, from the one of the highest value
/// down, between the window and the two bounds on the value.
pub open spec fn search(p: Position, table: Map<u64, i32>, alpha: int, beta: int) -> Found
    decreases 42 - p.moves, 1nat, 0nat,
{
    match shortcut(p, table, alpha, beta) {
        Some(found) => Found { score: found.0, column: found.1, table },
        None => scan(
            p,
            ordered(p, 0),
            table,
            higher(alpha, floor(p)),
            lower(beta, ceiling(table, p)),
            -1,
        ),
    }
}

/// What trying the candidates `moves` gives, the last one first, when the
/// best score so far is `low`, reached by column `best`, and a score of
/// `high` or more ends the search.
///
/// Each candidate is searched for the other side, between `-high` and
/// `-low`. A score of `high` or more is given at once, with its column. A
/// score above `low` becomes the best so far. When no candidate is left,
/// the best so far is given, and stored in the table with the offset.
pub open spec fn scan(
    p: Position,
    moves: Seq<MoveNode>,
    table: Map<u64, i32>,
    low: int,
    high: int,
    best: int,
) -> Found
    decreases 42 - p.moves, 0nat, moves.len(),
{
    if moves.len() == 0 || p.moves >= 42 {
        Found {
            score: low,
            column: best,
            table: table.remove_keys(slot_keys(p.hash())).insert(
                p.hash(),
                (low - MIN_SCORE + 1) as i32,
            ),
        }
    } else {
        let col = moves.last().action;
        let reply = search(p.play_col(col), table, -high, -low);
        if -reply.score >= high {
            Found { score: -reply.score, column: col as int, table: reply.table }
        } else if -reply.score > low {
            scan(p, moves.drop_last(), reply.table, -reply.score, high, col as int)
        } else {
            scan(p, moves.drop_last(), reply.table, low, high, best)
        }
    }
}

/// Half of `x`, rounded towards 0.
pub open spec fn half(x: int) -> int {
    if x >= 0 {
        x / 2
    } else {
        -((-x) / 2)
    }
}

/// The number above which a search one wide looks next, when the value
/// lies from `min` to `max`: the middle, moved towards 0 where half of the
/// bound on its side of 0 is nearer to 0.
pub open spec fn middle(min: int, max: int) -> int {
    let med = min + (max - min) / 2;
    if med <= 0 && half(min) < med {
        half(min)
    } else if med >= 0 && half(max) > med {
        half(max)
    } else {
        med
    }
}

/// What closing in on the value gives when it lies from `min` to `max` and
/// `column` is the column found so far: searches one wide, each above the
/// middle of what is left, until nothing is left. A score at or below the
/// middle is the new `max`, a score above it the new `min`, and a search
/// that gives a column replaces the column found so far.
pub open spec fn close_in(
    p: Position,
    table: Map<u64, i32>,
    min: int,
    max: int,
    column: int,
) -> Found
    decreases higher(max - min, 0),
{
    if min >= max {
        Found { score: min, column, table }
    } else {
        let med = middle(min, max);
        let found = search(p, table, med, med + 1);
        let column = if found.column != -1 {
            found.column
        } else {
            column
        };
        if found.score <= med {
            close_in(p, found.table, min, found.score, column)
        } else {
            close_in(p, found.table, found.score, max, column)
        }
    }
}

/// What solving `p` gives with the table `table`: the win at once where
/// there is one, and else what closing in on the value gives, from the
/// worst to the best that the number of stones allows.
pub open spec fn solved(p: Position, table: Map<u64, i32>) -> Found {
    if p.can_win_next() {
        Found { score: (43 - p.moves) / 2, column: p.winning_column() as int, table }
    } else {
        close_in(p, table, worst(p), best(p), -100)
    }
}

} // verus!
