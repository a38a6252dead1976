//! Game states as plain values, and what a move does to them.

use crate::bits::{lemma_popcount_add, lemma_popcount_subset, popcount, single_bit};
use crate::grid::{
    bottom_mask_col, col_mask, first_column, landing, lemma_empty_stack, lemma_hash_fits,
    lemma_hash_injective, lemma_landing, lemma_play_cell, lemma_popcount_board, lemma_undo,
    possible, stacked, top_mask, BOARD_MASK,
};
use crate::lines::{lemma_parts, lemma_threats_need_three, nonlosing, threats};
use vstd::prelude::*;

verus! {

/// A game state: the cells that hold a stone, the cells that hold a stone
/// of the side to move, and the number of stones.
pub struct Position {
    pub all: u64,
    pub player: u64,
    pub moves: nat,
}

/// `c` is one of the ten digits.
pub open spec fn is_digit_char(c: char) -> bool {
    '0' <= c && c <= '9'
}

/// `c` is a digit that names a column: one from 1 to 7.
pub open spec fn is_move_char(c: char) -> bool {
    '1' <= c && c <= '7'
}

/// The column, counted from 0, that the digit `c` names.
pub open spec fn column_of(c: char) -> u8 {
    ((c as u32) - 0x31) as u8
}

impl Position {
    /// The board without a stone.
    pub open spec fn empty() -> Position {
        Position { all: 0, player: 0, moves: 0 }
    }

    /// Stones lie on board cells only, each column is filled from the bottom
    /// without gaps, the stones of the side to move are stones, `moves`
    /// counts the stones, and the two sides have placed them in turn.
    pub open spec fn wf(self) -> bool {
        &&& stacked(self.all)
        &&& self.player & !self.all == 0
        &&& self.moves == popcount(self.all)
        &&& popcount(self.player) == self.moves / 2
    }

    /// Column `col` is a column and has a free cell.
    pub open spec fn can_play(self, col: u8) -> bool {
        col < 7 && self.all & top_mask(col) == 0
    }

    /// The lowest free cell of each column that has one.
    pub open spec fn possible(self) -> u64 {
        possible(self.all)
    }

    /// The side to move puts a stone on `cell`; the other side is then to move.
    pub open spec fn play(self, cell: u64) -> Position {
        Position { all: self.all | cell, player: self.player ^ self.all, moves: self.moves + 1 }
    }

    /// The side to move puts a stone on the lowest free cell of column `col`.
    pub open spec fn play_col(self, col: u8) -> Position {
        self.play(landing(self.all, col))
    }

    /// The stones of the side that is not to move.
    pub open spec fn opponent(self) -> u64 {
        self.player ^ self.all
    }

    /// The free cells where a stone of the side to move would complete four
    /// in a row.
    pub open spec fn winning_cells(self) -> u64 {
        threats(self.player, self.all)
    }

    /// The free cells where a stone of the other side would complete four
    /// in a row.
    pub open spec fn opponent_winning_cells(self) -> u64 {
        threats(self.opponent(), self.all)
    }

    /// One of the playable cells completes four in a row for the side to move.
    pub open spec fn can_win_next(self) -> bool {
        self.winning_cells() & self.possible() != 0
    }

    /// The playable cells that do not let the other side win with its next
    /// stone.
    pub open spec fn nonlosing(self) -> u64 {
        nonlosing(self.player, self.all)
    }

    /// The least column where the side to move wins at once, 255 if there
    /// is none.
    pub open spec fn winning_column(self) -> u8 {
        first_column(self.winning_cells() & self.possible(), 255)
    }

    /// The least column with a free cell, 0 if there is none.
    pub open spec fn first_playable(self) -> u8 {
        first_column(self.possible(), 0)
    }

    /// The sum of the two masks.
    pub open spec fn hash(self) -> u64 {
        (self.all + self.player) as u64
    }

    /// The state after the moves that `s` names, in order: each digit from
    /// 1 to 7 is a move in that column, counted from 1, and every other
    /// character changes nothing.
    pub open spec fn replay(self, s: Seq<char>) -> Position
        decreases s.len(),
    {
        if s.len() == 0 {
            self
        } else {
            let before = self.replay(s.drop_last());
            if is_move_char(s.last()) {
                before.play_col(column_of(s.last()))
            } else {
                before
            }
        }
    }

    /// Every digit of `s` names a column, and that column has a free cell
    /// when its turn comes.
    pub open spec fn legal(self, s: Seq<char>) -> bool
        decreases s.len(),
    {
        s.len() == 0 || (self.legal(s.drop_last()) && (is_digit_char(s.last()) ==> is_move_char(
            s.last(),
        ) && self.replay(s.drop_last()).can_play(column_of(s.last()))))
    }
}

/// The empty board is well formed.
pub proof fn lemma_empty_wf()
    ensures
        Position::empty().wf(),
{
    lemma_empty_stack();
}

/// A move into a column with a free cell keeps a position well formed: the
/// stones still lie stacked on the board, the stones of the side to move
/// are among them, and there is one stone more, on one more cell of that
/// column.
pub proof fn lemma_play_col_wf(p: Position, col: u8)
    requires
        p.wf(),
        p.can_play(col),
    ensures
        p.play_col(col).wf(),
        p.play_col(col).moves == p.moves + 1,
        p.moves < 42,
        single_bit(landing(p.all, col)),
        landing(p.all, col) == p.possible() & col_mask(col),
        landing(p.all, col) & p.all == 0,
        p.all + bottom_mask_col(col) <= u64::MAX,
{
    let cell = landing(p.all, col);
    lemma_landing(p.player, p.all, col);
    lemma_play_cell(p.player, p.all, cell);
    lemma_popcount_add(p.all, cell);
    lemma_popcount_board(p.all | cell);
    lemma_popcount_subset(p.player, p.all);
}

/// A move can be taken back: without the new stone, and with the sides
/// changed back, the position after a move is the position before it.
pub proof fn lemma_play_col_undo(p: Position, col: u8)
    requires
        p.wf(),
        p.can_play(col),
    ensures
        p.play_col(col).all ^ landing(p.all, col) == p.all,
        p.play_col(col).player ^ p.all == p.player,
        p.play_col(col).moves - 1 == p.moves,
{
    lemma_landing(p.player, p.all, col);
    lemma_undo(p.player, p.all, landing(p.all, col));
}

/// Every position that legal moves lead to from a well-formed one is well
/// formed.
pub proof fn lemma_replay_wf(p: Position, s: Seq<char>)
    requires
        p.wf(),
        p.legal(s),
    ensures
        p.replay(s).wf(),
        p.moves <= p.replay(s).moves <= p.moves + s.len(),
    decreases s.len(),
{
    if s.len() > 0 {
        lemma_replay_wf(p, s.drop_last());
        if is_move_char(s.last()) {
            lemma_play_col_wf(p.replay(s.drop_last()), column_of(s.last()));
        }
    }
}

/// In every position that legal moves lead to from the empty board, the
/// number of moves is the number of stones, the stones of the side to move
/// are among the stones, and the stones lie on board cells.
pub proof fn lemma_reachable(s: Seq<char>)
    requires
        Position::empty().legal(s),
    ensures
        popcount(Position::empty().replay(s).all) == Position::empty().replay(s).moves,
        Position::empty().replay(s).player & !Position::empty().replay(s).all == 0,
        Position::empty().replay(s).all & !BOARD_MASK == 0,
        Position::empty().replay(s).wf(),
{
    lemma_empty_wf();
    lemma_replay_wf(Position::empty(), s);
}

/// The moves of a sequence, replayed from the position that the moves
/// before them have led to, give the position that the whole sequence gives.
pub proof fn lemma_replay_concat(p: Position, s: Seq<char>, t: Seq<char>)
    ensures
        p.replay(s + t) == p.replay(s).replay(t),
        p.legal(s + t) == (p.legal(s) && p.replay(s).legal(t)),
    decreases t.len(),
{
    if t.len() == 0 {
        assert(s + t =~= s);
    } else {
        lemma_replay_concat(p, s, t.drop_last());
        assert((s + t).drop_last() =~= s + t.drop_last());
    }
}

/// Every prefix of a legal sequence is legal.
pub proof fn lemma_legal_prefix(p: Position, s: Seq<char>, n: int)
    requires
        p.legal(s),
        0 <= n <= s.len(),
    ensures
        p.legal(s.take(n)),
    decreases s.len(),
{
    if n < s.len() {
        lemma_legal_prefix(p, s.drop_last(), n);
        assert(s.drop_last().take(n) =~= s.take(n));
    } else {
        assert(s.take(n) =~= s);
    }
}

/// Two well-formed positions with the same hash are the same position, and
/// no hash is the number whose 49 low bits are all set, or above it.
pub proof fn lemma_hash_is_injective(p: Position, q: Position)
    requires
        p.wf(),
        q.wf(),
        p.hash() == q.hash(),
    ensures
        p == q,
        p.hash() == p.all + p.player,
        p.hash() < 0x1_FFFF_FFFF_FFFF,
{
    lemma_hash_fits(p.player, p.all);
    lemma_hash_fits(q.player, q.all);
    lemma_hash_injective(p.all, p.player, q.all, q.player);
}

/// The side to move can win at once only when six stones or more are placed.
pub proof fn lemma_win_needs_six(p: Position)
    requires
        p.wf(),
        p.can_win_next(),
    ensures
        p.moves >= 6,
{
    lemma_parts(p.player, p.all, 0);
    lemma_threats_need_three(p.player, p.all);
}

} // verus!
