//! The board that the search works on.

use crate::bits::{
    lemma_popcount_add, lemma_popcount_bound, lemma_popcount_clear_lowest, lemma_popcount_subset,
    popcount, single_bit,
};
use crate::grid::{
    bottom_mask_col, cell, col_mask, first_column, lemma_hash_fits, lemma_landing,
    lemma_play_cell, lemma_popcount_board, lemma_possible, top_mask, BOARD_MASK, BOTTOM_MASK,
    WIDTH,
};
use crate::game::{
    lemma_can_win_next, lemma_first_playable, lemma_no_safe_move, lemma_no_winning_column,
    lemma_winning_column,
};
use crate::lines::{four_in_row, gives_four, lemma_threats_win, line_threats, threats};
use crate::position::{lemma_empty_wf, lemma_legal_prefix, Position};
use vstd::prelude::*;

verus! {

/// A Connect Four position on the grid of seven columns and six rows, held
/// as two bit masks and a stone count. Every value of this type is well
/// formed.
#[derive(Debug, Hash, PartialEq, Eq, Clone, Copy)]
pub struct Board {
    stones_all: u64,
    stones_player: u64,
    num_moves: u8,
}

impl View for Board {
    type V = Position;

    /// The position that the board holds.
    closed spec fn view(&self) -> Position {
        Position { all: self.stones_all, player: self.stones_player, moves: self.num_moves as nat }
    }
}

impl Board {
    /// The number of columns.
    pub const WIDTH: u8 = 7;

    /// The number of rows.
    pub const HEIGHT: u8 = 6;

    /// The highest score: a win with the fourth stone.
    pub const MAX_SCORE: i32 = 18;

    /// The lowest score: a loss to the fourth stone of the other side.
    pub const MIN_SCORE: i32 = -18;

    /// What holds of every board: its position is well formed.
    #[verifier::type_invariant]
    pub open spec fn inv(self) -> bool {
        self@.wf()
    }

    /// The empty board.
    pub fn new() -> (board: Board)
        ensures
            board@ == Position::empty(),
            board@.wf(),
    {
        proof {
            lemma_empty_wf();
        }
        Board { stones_all: 0, stones_player: 0, num_moves: 0 }
    }

    /// The position after the moves that `instructions` names from the empty
    /// board: each digit from 1 to 7 is a move in that column, counted from
    /// 1, and every character that is no digit is passed over.
    pub fn construct(instructions: &str) -> (board: Board)
        requires
            Position::empty().legal(instructions@),
        ensures
            board@ == Position::empty().replay(instructions@),
            board@.wf(),
    {
        let mut board = Board::new();
        for play in it: instructions.chars()
            invariant
                it.seq() == instructions@,
                Position::empty().legal(instructions@),
                board@ == Position::empty().replay(instructions@.take(it.index())),
        {
            proof {
                let done = instructions@.take(it.index());
                let next = instructions@.take(it.index() + 1);
                assert(next.drop_last() =~= done);
                lemma_legal_prefix(Position::empty(), instructions@, it.index() + 1);
            }
            if play >= '0' && play <= '9' {
                let col = (play as u32 - 0x31) as u8;
                board.play_col(col);
            }
        }
        proof {
            assert(instructions@.take(instructions@.len() as int) =~= instructions@);
            use_type_invariant(&board);
        }
        board
    }

    /// Whether `instructions` can be played from the empty board: every
    /// digit names a column, and no move goes into a full column.
    pub fn legal(instructions: &str) -> (ok: bool)
        ensures
            ok == Position::empty().legal(instructions@),
    {
        let mut board = Board::new();
        for play in it: instructions.chars()
            invariant
                it.seq() == instructions@,
                Position::empty().legal(instructions@.take(it.index())),
                board@ == Position::empty().replay(instructions@.take(it.index())),
        {
            proof {
                let done = instructions@.take(it.index());
                let next = instructions@.take(it.index() + 1);
                assert(next.drop_last() =~= done);
                if Position::empty().legal(instructions@) {
                    lemma_legal_prefix(Position::empty(), instructions@, it.index() + 1);
                }
            }
            if play >= '0' && play <= '9' {
                if play < '1' || play > '7' {
                    return false;
                }
                let col = (play as u32 - 0x31) as u8;
                if !board.can_play(col) {
                    return false;
                }
                board.play_col(col);
            }
        }
        proof {
            assert(instructions@.take(instructions@.len() as int) =~= instructions@);
        }
        true
    }

    /// The cells that hold a stone.
    pub fn stones_all(&self) -> (mask: u64)
        ensures
            mask == self@.all,
            self@.wf(),
    {
        proof {
            use_type_invariant(self);
        }
        self.stones_all
    }

    /// The cells that hold a stone of the side to move.
    pub fn stones_player(&self) -> (mask: u64)
        ensures
            mask == self@.player,
            self@.wf(),
    {
        proof {
            use_type_invariant(self);
        }
        self.stones_player
    }

    /// The number of stones on the board.
    pub fn nb_moves(&self) -> (count: u8)
        ensures
            count == self@.moves,
            count == popcount(self@.all),
            count <= 42,
    {
        proof {
            use_type_invariant(self);
            lemma_popcount_board(self.stones_all);
        }
        self.num_moves
    }

    /// The sum of the two masks: a number that no other position has.
    pub fn hash(&self) -> (key: u64)
        ensures
            key == self@.hash(),
            key == self@.all + self@.player,
            key < 0x1_FFFF_FFFF_FFFF,
    {
        proof {
            use_type_invariant(self);
            lemma_hash_fits(self.stones_player, self.stones_all);
        }
        self.stones_all + self.stones_player
    }

    /// The bottom cell of each column.
    pub fn bottom_mask() -> (mask: u64)
        ensures
            mask == BOTTOM_MASK,
    {
        BOTTOM_MASK
    }

    /// The forty-two cells of the board.
    pub fn board_mask() -> (mask: u64)
        ensures
            mask == BOARD_MASK,
    {
        BOARD_MASK
    }

    /// The top cell of column `col`.
    pub fn top_mask(col: u8) -> (mask: u64)
        requires
            col < 7,
        ensures
            mask == top_mask(col),
    {
        0x20_u64 << (col * 7)
    }

    /// The six cells of column `col`.
    pub fn col_mask(col: u8) -> (mask: u64)
        requires
            col < 7,
        ensures
            mask == col_mask(col),
    {
        0x3F_u64 << (col * 7)
    }

    /// The bottom cell of column `col`.
    pub fn bottom_mask_col(col: u8) -> (mask: u64)
        requires
            col < 7,
        ensures
            mask == bottom_mask_col(col),
    {
        1_u64 << (col * 7)
    }

    /// Whether `col` is a column with a free cell.
    pub fn can_play(&self, col: u8) -> (free: bool)
        ensures
            free == self@.can_play(col),
    {
        col < WIDTH && self.stones_all & Board::top_mask(col) == 0
    }

    /// The lowest free cell of each column that has one.
    pub fn possible(&self) -> (cells: u64)
        ensures
            cells == self@.possible(),
    {
        proof {
            use_type_invariant(self);
            lemma_possible(self.stones_all, 0);
        }
        (self.stones_all + Board::bottom_mask()) & Board::board_mask()
    }

    /// Puts a stone of the side to move on `move_mask`, one of the playable
    /// cells. The other side is then to move.
    pub fn play(&mut self, move_mask: u64)
        requires
            single_bit(move_mask),
            move_mask & old(self)@.possible() != 0,
        ensures
            final(self)@ == old(self)@.play(move_mask),
            final(self)@.wf(),
    {
        proof {
            use_type_invariant(&*self);
            lemma_play_cell(self.stones_player, self.stones_all, move_mask);
            lemma_popcount_add(self.stones_all, move_mask);
            lemma_popcount_board(self.stones_all | move_mask);
            lemma_popcount_subset(self.stones_player, self.stones_all);
        }
        *self = Board {
            stones_all: self.stones_all | move_mask,
            stones_player: self.stones_player ^ self.stones_all,
            num_moves: self.num_moves + 1,
        };
    }

    /// Puts a stone of the side to move into column `col`, which has a free
    /// cell.
    pub fn play_col(&mut self, col: u8)
        requires
            old(self)@.can_play(col),
        ensures
            final(self)@ == old(self)@.play_col(col),
            final(self)@.wf(),
    {
        proof {
            use_type_invariant(&*self);
            lemma_landing(self.stones_player, self.stones_all, col);
        }
        self.play((self.stones_all + Board::bottom_mask_col(col)) & Board::col_mask(col));
    }

    /// The cells that have three of `stones` for neighbours in a line of
    /// four along the direction of step `step`.
    fn line_threats(stones: u64, step: u64) -> (cells: u64)
        requires
            step <= 8,
        ensures
            cells == line_threats(stones, step),
    {
        let up = (stones << step) & (stones << (2 * step));
        let down = (stones >> step) & (stones >> (2 * step));
        (up & (stones << (3 * step))) | (up & (stones >> step)) | (down & (stones >> (3 * step)))
            | (down & (stones << step))
    }

    /// The free board cells where one more stone would give the owner of
    /// `stones_player` four in a row.
    pub fn compute_winning_moves(stones_player: u64, stones_all: u64) -> (cells: u64)
        ensures
            cells == threats(stones_player, stones_all),
    {
        let vertical = (stones_player << 1) & (stones_player << 2) & (stones_player << 3);
        let horizontal = Board::line_threats(stones_player, 7);
        let falling = Board::line_threats(stones_player, 6);
        let rising = Board::line_threats(stones_player, 8);
        (vertical | horizontal | falling | rising) & (Board::board_mask() & !stones_all)
    }

    /// The free cells where a stone of the side to move would complete four
    /// in a row: a free board cell is one of them exactly when the stones
    /// of the side to move, with that cell added, hold four in a row
    /// through it.
    pub fn winning_moves(&self) -> (cells: u64)
        ensures
            cells == self@.winning_cells(),
            forall|x: u64|
                #![trigger cells & x]
                single_bit(x) && x & !BOARD_MASK == 0 && x & self@.all == 0 ==> ((cells & x != 0)
                    == gives_four(self@.player, x)),
    {
        let cells = Board::compute_winning_moves(self.stones_player, self.stones_all);
        proof {
            use_type_invariant(self);
            assert forall|x: u64|
                single_bit(x) && x & !BOARD_MASK == 0 && x & self@.all == 0 implies ((
            #[trigger] (cells & x) != 0) == gives_four(self@.player, x)) by {
                lemma_threats_win(self.stones_player, self.stones_all, x);
            }
        }
        cells
    }

    /// The free cells where a stone of the other side would complete four
    /// in a row: a free board cell is one of them exactly when the stones
    /// of the other side, with that cell added, hold four in a row through
    /// it.
    pub fn opponent_winning_moves(&self) -> (cells: u64)
        ensures
            cells == self@.opponent_winning_cells(),
            forall|x: u64|
                #![trigger cells & x]
                single_bit(x) && x & !BOARD_MASK == 0 && x & self@.all == 0 ==> ((cells & x != 0)
                    == gives_four(self@.opponent(), x)),
    {
        let cells = Board::compute_winning_moves(
            self.stones_player ^ self.stones_all,
            self.stones_all,
        );
        proof {
            use_type_invariant(self);
            assert forall|x: u64|
                single_bit(x) && x & !BOARD_MASK == 0 && x & self@.all == 0 implies ((
            #[trigger] (cells & x) != 0) == gives_four(self@.opponent(), x)) by {
                lemma_threats_win(self.stones_player, self.stones_all, x);
            }
        }
        cells
    }

    /// Whether the side to move can complete four in a row with its next
    /// stone: whether one of its winning cells is playable. For a side that
    /// has no four in a row yet, that is whether a stone in some column
    /// gives it four in a row.
    pub fn can_win_next(&self) -> (wins: bool)
        ensures
            wins == self@.can_win_next(),
            !four_in_row(self@.player) ==> (wins <==> exists|col: u8|
                self@.can_play(col) && four_in_row(#[trigger] self@.play_col(col).opponent())),
    {
        proof {
            use_type_invariant(self);
            if !four_in_row(self@.player) {
                lemma_can_win_next(self@);
            }
        }
        self.winning_moves() & self.possible() != 0
    }

    /// The number of set bits of `value`.
    pub fn pop_count(value: u64) -> (count: i32)
        ensures
            count == popcount(value),
    {
        let mut count: i32 = 0;
        let mut value = value;
        let ghost start = value;
        proof {
            lemma_popcount_bound(start);
        }
        while value > 0
            invariant
                0 <= count,
                count + popcount(value) == popcount(start),
                popcount(start) <= 64,
            decreases value,
        {
            proof {
                lemma_popcount_clear_lowest(value);
            }
            count += 1;
            value = value & (value - 1);
        }
        proof {
            lemma_popcount_bound(0);
        }
        count
    }

    /// How many threats the side to move would hold with one more stone on
    /// `action`.
    pub fn action_score(&self, action: u64) -> (score: i32)
        ensures
            score == popcount(threats(self@.player | action, self@.all)),
    {
        let winning_moves = Board::compute_winning_moves(
            self.stones_player | action,
            self.stones_all,
        );
        Board::pop_count(winning_moves)
    }

    /// The playable cells that do not let the other side win with its next
    /// stone. There is none exactly when every move that can be made lets
    /// the other side win at once.
    pub fn nonlosing_moves(&self) -> (cells: u64)
        ensures
            cells == self@.nonlosing(),
            cells == 0 <==> forall|col: u8|
                self@.can_play(col) ==> #[trigger] self@.play_col(col).can_win_next(),
    {
        proof {
            use_type_invariant(self);
            lemma_no_safe_move(self@);
        }
        let mut possible = self.possible();
        let opponent_win = self.opponent_winning_moves();
        let forced_moves = possible & opponent_win;
        if forced_moves > 0 {
            if (forced_moves & (forced_moves - 1)) == 0 {
                possible = forced_moves;
            } else {
                return 0;
            }
        }
        possible & !(opponent_win >> 1)
    }

    /// The least column that has a cell in `mask`, or `none`.
    fn first_column(mask: u64, none: u8) -> (col: u8)
        ensures
            col == first_column(mask, none),
    {
        let mut i: u8 = 0;
        while i < WIDTH
            invariant
                i <= 7,
                forall|c: u8| c < i ==> mask & #[trigger] col_mask(c) == 0,
            decreases 7 - i,
        {
            if mask & Board::col_mask(i) != 0 {
                return i;
            }
            i += 1;
        }
        none
    }

    /// The least column where the side to move wins at once, 255 if there
    /// is none. Where the side to move can win at once, the column has a
    /// free cell, and a stone in it gives the side that placed it four in a
    /// row.
    pub fn winning_move(&self) -> (col: u8)
        ensures
            col == self@.winning_column(),
            self@.can_win_next() ==> self@.can_play(col) && four_in_row(
                self@.play_col(col).opponent(),
            ),
            !self@.can_win_next() ==> col == 255,
    {
        proof {
            use_type_invariant(self);
            if self@.can_win_next() {
                lemma_winning_column(self@);
            } else {
                lemma_no_winning_column(self@);
            }
        }
        let possible = self.possible();
        let winning = self.winning_moves();
        Board::first_column(winning & possible, 255)
    }

    /// The least column with a free cell, 0 if there is none. While the
    /// board is not full, the column has a free cell.
    pub fn possible_move(&self) -> (col: u8)
        ensures
            col == self@.first_playable(),
            col < 7,
            self@.moves < 42 ==> self@.can_play(col),
    {
        proof {
            use_type_invariant(self);
            if self@.moves < 42 {
                lemma_first_playable(self@);
            }
        }
        Board::first_column(self.possible(), 0)
    }

    /// The same position once more.
    pub fn copy(&self) -> (board: Board)
        ensures
            board == *self,
    {
        proof {
            use_type_invariant(self);
        }
        Board {
            stones_all: self.stones_all,
            stones_player: self.stones_player,
            num_moves: self.num_moves,
        }
    }

    /// Whether `target` holds the cell of column `col` and row `row`.
    pub fn accessor(target: u64, row: u8, col: u8) -> (set: bool)
        requires
            col < 7,
            row < 7,
        ensures
            set == (target & cell(col as int, row as int) != 0),
    {
        let index: u64 = (col * 7 + row) as u64;
        (target & (1_u64 << index)) > 0
    }
}

} // verus!
