//! The search: the value of a position and a column to play.

use crate::bits::lemma_popcount_bound;
use crate::board::Board;
use crate::game::{
    higher, lemma_first_playable, lemma_has_move, lemma_losing_reply, lemma_no_safe_move,
    lemma_nonlosing_column, lemma_reply_le, lemma_safe_reply, lemma_value_all_lose,
    lemma_value_bounds, lemma_value_floor, lemma_value_late, lemma_value_le, lemma_value_range,
    lemma_winning_column, reply_value, value, MAX_SCORE, MIN_SCORE,
};
use crate::grid::{col_mask, some_column, HEIGHT, WIDTH};
use crate::lines::{lemma_parts, threats};
use crate::position::{lemma_hash_is_injective, lemma_play_col_wf, Position};
use crate::search::{
    best, candidate, ceiling, close_in, floor, lemma_ordered, middle, order, ordered, safe, scan,
    search, shortcut, solved, worst, Found,
};
use crate::sort::{holds, lemma_drop_last_holds, MoveNode, MoveSort};
use crate::table::{slot_keys, Table};
use vstd::prelude::*;

verus! {

/// The columns from the middle of the board outwards.
pub const EXPLORATION_ORDER: [u8; 7] = [3, 2, 4, 1, 5, 0, 6];

/// Every score that the table holds for a position is, once the offset is
/// taken off, an upper bound on the value of that position.
pub open spec fn sound(table: Map<u64, i32>) -> bool {
    forall|p: Position|
        p.wf() && #[trigger] table.dom().contains(p.hash()) ==> value(p) <= table[p.hash()]
            + MIN_SCORE - 1
}

/// What the score of a search between `alpha` and `beta` tells about the
/// value `v`: a score inside the window is the value, one at or below
/// `alpha` is an upper bound on it, and one at or above `beta` a lower bound.
pub open spec fn within(v: int, alpha: int, beta: int, score: int) -> bool {
    &&& score <= alpha && score < beta ==> v <= score
    &&& score >= beta && score > alpha ==> v >= score
    &&& alpha < score < beta ==> v == score
}

/// A position that the search answers without looking further: every move
/// loses at once, or at most two cells are free.
pub open spec fn settled(p: Position) -> bool {
    p.nonlosing() == 0 || p.moves >= 40
}

/// Every column with a non-losing cell is among the candidates `s` or is
/// worth at most `alpha`.
pub open spec fn covered(p: Position, s: Seq<MoveNode>, alpha: int) -> bool {
    forall|col: u8|
        col < 7 && p.nonlosing() & #[trigger] col_mask(col) != 0 ==> holds(s, col) || reply_value(
            p,
            col,
        ) <= alpha
}

/// What a search tells about a position in which the side to move cannot
/// win at once, where it started with a sound table and gave `score` and
/// `column` for the window from `alpha` to `beta`.
///
/// The score bounds the value as `within` says, and is the value where the
/// position is settled. Where the search has tried the moves, for a window
/// that is not empty, a score at or below `alpha` comes with no column, and
/// a score at or above `beta` with a column that is worth the score at
/// least.
pub open spec fn told(
    p: Position,
    table: Map<u64, i32>,
    alpha: int,
    beta: int,
    score: int,
    column: int,
) -> bool {
    &&& within(value(p), alpha, beta, score)
    &&& settled(p) ==> score == value(p)
    &&& worst(p) <= score <= 108
    &&& shortcut(p, table, alpha, beta) is None && alpha < beta ==> {
        &&& score <= alpha ==> column == -1
        &&& score >= beta ==> column >= 0 && reply_value(p, column as u8) >= score
    }
}

/// Storing an upper bound on the value of a position keeps a table sound.
pub proof fn lemma_sound_add(table: Map<u64, i32>, p: Position, bound: int)
    requires
        sound(table),
        p.wf(),
        value(p) <= bound <= 108,
    ensures
        sound(
            table.remove_keys(slot_keys(p.hash())).insert(
                p.hash(),
                (bound - MIN_SCORE + 1) as i32,
            ),
        ),
{
    let after = table.remove_keys(slot_keys(p.hash())).insert(
        p.hash(),
        (bound - MIN_SCORE + 1) as i32,
    );
    lemma_value_range(p);
    assert forall|q: Position| q.wf() && #[trigger] after.dom().contains(q.hash()) implies value(q)
        <= after[q.hash()] + MIN_SCORE - 1 by {
        if q.hash() == p.hash() {
            lemma_hash_is_injective(p, q);
        } else {
            assert(table.dom().contains(q.hash()));
        }
    }
}

/// What the score of a search of the position after a stone in `col` tells
/// about that move, for a search between `-beta` and `-alpha`.
proof fn lemma_child(p: Position, col: u8, alpha: int, beta: int, child_score: int)
    requires
        p.moves < 42,
        p.can_play(col),
        alpha <= beta,
        within(value(p.play_col(col)), -beta, -alpha, child_score),
    ensures
        -child_score > alpha && -child_score >= beta ==> reply_value(p, col) >= -child_score,
        alpha < -child_score < beta ==> reply_value(p, col) == -child_score,
        -child_score < beta && -child_score <= alpha ==> reply_value(p, col) <= -child_score,
{
}

/// Searches the moves of `position` that do not lose at once, most
/// promising first, for the value of the position between `alpha` and
/// `beta`. Gives a score and a column, or -1 for no column.
///
/// What is given, and what the table holds afterwards, is what `search`
/// says. For a position in which the side to move cannot win at once, and a
/// table that is sound, the table is sound afterwards, and the score and
/// the column tell of the position what `told` says.
pub fn negamax(position: Board, table: &mut Table, alpha: i32, beta: i32) -> (result: (i32, i32))
    requires
        alpha <= beta,
    ensures
        search(position@, old(table)@, alpha as int, beta as int) == (Found {
            score: result.0 as int,
            column: result.1 as int,
            table: final(table)@,
        }),
        -147 <= result.0 <= 147,
        -1 <= result.1 < 7,
        result.1 >= 0 && position@.moves < 42 ==> position@.can_play(result.1 as u8),
        !position@.can_win_next() && sound(old(table)@) ==> sound(final(table)@) && told(
            position@,
            old(table)@,
            alpha as int,
            beta as int,
            result.0 as int,
            result.1 as int,
        ),
    decreases 42 - position@.moves,
{
    let ghost p = position@;
    let ghost good = !p.can_win_next() && sound(old(table)@);
    let mut low = alpha;
    let mut high = beta;
    proof {
        use_type_invariant(&position);
        lemma_value_bounds(p);
    }
    let possible = position.nonlosing_moves();
    if possible == 0 {
        let mut score = HEIGHT * WIDTH - position.nb_moves();
        score /= 2;
        proof {
            if good {
                lemma_value_all_lose(p);
            }
            if p.moves < 42 {
                lemma_first_playable(p);
            }
        }
        return (-(score as i32), position.possible_move() as i32);
    }
    if position.nb_moves() >= HEIGHT * WIDTH - 2 {
        proof {
            if good {
                lemma_value_late(p);
            }
            if p.moves < 42 {
                lemma_first_playable(p);
            }
        }
        return (0, position.possible_move() as i32);
    }
    let min = -(((WIDTH * HEIGHT - 2 - position.nb_moves()) / 2) as i32);
    proof {
        if good {
            lemma_value_floor(p);
        }
    }
    if low < min {
        low = min;
        if low > high {
            return (low, -1);
        }
    }
    let max = match table.get(&position) {
        Some(score) => score + MIN_SCORE - 1,
        None => ((WIDTH * HEIGHT - 1 - position.nb_moves()) / 2) as i32,
    };
    if high > max {
        high = max;
        if low >= high {
            return (high, -1);
        }
    }
    let mut move_sort = MoveSort::new();
    let mut i: u8 = WIDTH;
    while i > 0
        invariant
            i <= 7,
            p == position@,
            possible == p.nonlosing(),
            move_sort@ == ordered(p, i as int),
        decreases i,
    {
        i -= 1;
        let col = EXPLORATION_ORDER[i as usize];
        let action = possible & Board::col_mask(col);
        if action > 0 {
            let value = position.action_score(action);
            proof {
                lemma_ordered(p, i + 1);
                lemma_popcount_bound(threats(p.player | action, p.all));
            }
            move_sort.insert(col, value);
        }
    }
    let ghost start = low;
    let ghost top = ceiling(old(table)@, p);
    let ghost goal = search(p, old(table)@, alpha as int, beta as int);
    proof {
        lemma_ordered(p, 0);
        lemma_parts(p.player, p.all, 0);
        let col = some_column(p.nonlosing());
    }
    let mut best_action: i32 = -1;
    while move_sort.size() > 0
        invariant
            p == position@,
            p.wf(),
            p.moves < 40,
            p.nonlosing() != 0,
            good == (!p.can_win_next() && sound(old(table)@)),
            goal == search(p, old(table)@, alpha as int, beta as int),
            goal == scan(p, move_sort@, table@, low as int, high as int, best_action as int),
            shortcut(p, old(table)@, alpha as int, beta as int) is None,
            safe(p, move_sort@),
            alpha <= beta,
            floor(p) <= beta,
            top == ceiling(old(table)@, p),
            high == beta || high == top,
            high <= top,
            start == alpha || start == floor(p),
            alpha <= start <= low <= high <= beta,
            floor(p) <= start,
            high <= 108,
            start < high ==> low < high,
            high < beta ==> start < high,
            (best_action == -1) == (low == start),
            best_action != -1 ==> 0 <= best_action < 7 && p.can_play(best_action as u8),
            good ==> {
                &&& sound(table@)
                &&& covered(p, move_sort@, low as int)
                &&& floor(p) <= value(p)
                &&& high < beta ==> value(p) <= high
                &&& low > start ==> value(p) >= low
                &&& alpha < beta && start == high ==> move_sort@.len() > 0
            },
        decreases move_sort@.len(),
    {
        let ghost before = move_sort@;
        let action = move_sort.get_next();
        proof {
            lemma_nonlosing_column(p, action);
            lemma_play_col_wf(p, action);
            if good {
                assert forall|col: u8|
                    col < 7 && p.nonlosing() & #[trigger] col_mask(col) != 0 && col
                        != action implies holds(move_sort@, col) || reply_value(p, col)
                    <= low by {
                    if holds(before, col) {
                        lemma_drop_last_holds(before, col);
                    }
                }
            }
        }
        let mut next_position = position;
        next_position.play_col(action);
        let (mut score, step) = negamax(next_position, table, -high, -low);
        proof {
            if good {
                lemma_child(p, action, low as int, high as int, score as int);
                lemma_reply_le(p, action);
                lemma_safe_reply(p, action);
            }
        }
        score = -score;
        if score >= high {
            return (score, action as i32);
        }
        if score > low {
            low = score;
            best_action = action as i32;
        }
    }
    proof {
        if good {
            assert forall|col: u8| col < 7 implies reply_value(p, col) <= low by {
                lemma_nonlosing_column(p, col);
                if p.can_play(col) && p.play_col(col).can_win_next() {
                    lemma_losing_reply(p, col);
                }
            }
            lemma_value_le(p, low as int);
            lemma_sound_add(table@, p, low as int);
        }
    }
    table.add(&position, low - MIN_SCORE + 1);
    return (low, best_action);
}

/// What solving tells about a position, where it started with a sound
/// table and gave `score` and `column`.
///
/// The score is the value of the position, a score from the lowest to the
/// highest. On a board that is not full the column has a free cell. Where
/// the side to move cannot win at once, the column is the least with a free
/// cell if every move loses at once or at most two cells are free; and
/// while fewer than forty stones are placed it is a best move: the position
/// that it leads to has the negative of the value for the other side.
pub open spec fn answered(p: Position, score: int, column: int) -> bool {
    &&& score == value(p)
    &&& MIN_SCORE <= score <= MAX_SCORE
    &&& p.moves < 42 ==> 0 <= column < 7 && p.can_play(column as u8)
    &&& p.moves < 42 && !p.can_win_next() && settled(p) ==> column == p.first_playable()
    &&& p.moves < 40 && !p.can_win_next() ==> value(p) == -value(p.play_col(column as u8))
}

/// The value of `position` and a column to play.
///
/// What is given, and what the table holds afterwards, is what `solved`
/// says. Where the side to move can win at once, the score is
/// `(43 - moves) / 2` and the column is the least that wins. On a full
/// board the score is 0 and the column is -100. Where the table is sound,
/// it is sound afterwards, and the score and the column tell of the
/// position what `answered` says.
pub fn solve(position: Board, table: &mut Table) -> (result: (i32, i32))
    ensures
        solved(position@, old(table)@) == (Found {
            score: result.0 as int,
            column: result.1 as int,
            table: final(table)@,
        }),
        position@.can_win_next() ==> result.0 == (43 - position@.moves) / 2 && result.1
            == position@.winning_column(),
        position@.moves >= 42 ==> result.0 == 0 && result.1 == -100,
        position@.can_win_next() || position@.moves >= 42 ==> final(table)@ == old(table)@,
        result.1 == -100 || (0 <= result.1 < 7 && position@.can_play(result.1 as u8)),
        sound(old(table)@) ==> sound(final(table)@) && answered(
            position@,
            result.0 as int,
            result.1 as int,
        ),
{
    let ghost p = position@;
    let ghost good = sound(old(table)@);
    proof {
        use_type_invariant(&position);
        lemma_value_bounds(p);
        lemma_value_range(p);
        let c = lemma_has_move(p);
    }
    let mut min = -((WIDTH * HEIGHT - position.nb_moves()) as i32) / 2;
    let mut max = ((WIDTH * HEIGHT + 1 - position.nb_moves()) as i32) / 2;
    let mut action: i32 = -100;
    if position.can_win_next() {
        let mut score = HEIGHT * WIDTH + 1 - position.nb_moves();
        score /= 2;
        proof {
            lemma_winning_column(p);
        }
        return (score as i32, position.winning_move() as i32);
    }
    while min < max
        invariant
            p == position@,
            p.wf(),
            p.moves <= 42,
            !p.can_win_next(),
            good == sound(old(table)@),
            solved(p, old(table)@) == close_in(p, table@, min as int, max as int, action as int),
            -147 <= min <= 147,
            -147 <= max <= 147,
            action == -100 || (0 <= action < 7 && p.can_play(action as u8)),
            p.moves >= 42 ==> action == -100 && table@ == old(table)@ && min == 0 && max == 0,
            good ==> {
                &&& sound(table@)
                &&& worst(p) <= min <= value(p) <= max <= best(p)
                &&& settled(p) ==> action == p.first_playable() || (action == -100 && min
                    == worst(p) && max == best(p))
                &&& !settled(p) ==> (action == -100 ==> min == worst(p)) && (action != -100
                    ==> reply_value(p, action as u8) >= min)
            },
        decreases higher(max - min, 0),
    {
        let mut med = min + (max - min) / 2;
        if med <= 0 && min / 2 < med {
            med = min / 2;
        } else if med >= 0 && max / 2 > med {
            med = max / 2;
        }
        let (result, action_c) = negamax(position, table, med, med + 1);
        proof {
            if p.moves < 42 {
                lemma_first_playable(p);
            }
        }
        if action_c != -1 {
            action = action_c;
        }
        if result <= med {
            max = result;
        } else {
            min = result;
        }
    }
    proof {
        if p.moves < 42 {
            lemma_first_playable(p);
        }
        if good && p.moves < 40 {
            if p.nonlosing() == 0 {
                lemma_value_all_lose(p);
                lemma_no_safe_move(p);
                lemma_losing_reply(p, p.first_playable());
            } else {
                lemma_value_floor(p);
                lemma_reply_le(p, action as u8);
            }
        }
    }
    return (min, action);
}

/// The value of the position that the moves of `state` lead to from the
/// empty board, and the column to play, counted from 1: what `solve` gives
/// for that position and a new table, with 1 added to the column.
pub fn do_the_magic(state: &str) -> (result: (i32, i32))
    requires
        Position::empty().legal(state@),
    ensures
        result.0 == solved(Position::empty().replay(state@), Map::empty()).score,
        result.1 == solved(Position::empty().replay(state@), Map::empty()).column + 1,
        answered(Position::empty().replay(state@), result.0 as int, result.1 - 1),
        Position::empty().replay(state@).can_win_next() ==> result.1 == Position::empty().replay(
            state@,
        ).winning_column() + 1,
        Position::empty().replay(state@).moves >= 42 ==> result == (0i32, -99i32),
{
    let board = Board::construct(state);
    let mut table = Table::new();
    let (result, mut action) = solve(board, &mut table);
    action += 1;
    (result, action)
}

} // verus!
