use connect_four::board::Board;
use std::collections::HashMap;

#[test]
fn starting_board() {
    let board = Board::new();
    assert_eq!(board.stones_all(), 0);
    assert_eq!(board.stones_player(), 0);
}

#[test]
fn playing_col_simple() {
    let mut board = Board::new();
    let mut total = 0;
    assert!(board.can_play(0));
    for i in 0..Board::HEIGHT {
        total += 2_u64.pow(i as u32);
        board.play_col(0);
        assert_eq!(board.stones_all(), total)
    }
    assert!(!board.can_play(0));
}

#[test]
fn playing_col_medium() {
    let mut board = Board::new();
    board.play_col(1);
    assert_eq!(board.stones_all(), 2_u64.pow(Board::HEIGHT as u32 + 1));
    board.play_col(0);
    assert_eq!(board.stones_all(), 2_u64.pow(Board::HEIGHT as u32 + 1) + 1);
}

#[test]
fn accessor() {
    let mut board = Board::new();
    assert!(!Board::accessor(board.stones_all(), 0, 0));
    assert!(!Board::accessor(board.stones_all(), 1, 0));

    board.play_col(0);
    assert!(Board::accessor(board.stones_all(), 0, 0));
    assert!(!Board::accessor(board.stones_all(), 1, 0));

    board.play_col(0);
    assert!(Board::accessor(board.stones_all(), 0, 0));
    assert!(Board::accessor(board.stones_all(), 1, 0));
}

#[test]
fn winning() {
    let board = Board::construct("131415");
    assert_eq!(board.winning_moves(), 1_u64 << 3);

    let board = Board::construct("162636");
    assert!(board.can_win_next());

    let board = Board::construct("472737");
    assert!(board.can_win_next());
    assert!(board.can_win_next());

    let board = Board::construct("1223344445");
    assert!(board.can_win_next());

    let board = Board::construct("525354");
    assert!(board.can_win_next());
}

#[test]
fn opponent_win() {
    let board_org = Board::construct("13141");
    let board = Board::construct("13141");
    let op_win = board.opponent_winning_moves();
    assert_eq!(board, board_org);

    assert_eq!(op_win, 1_u64 << 3);
    let board = Board::construct("1");

    assert_eq!(
        board.nonlosing_moves() ^ (1_u64 << 1) | 1_u64,
        Board::bottom_mask()
    );
}

/// Whether the stones of `mask` hold four in a row through the cell
/// `(col, row)`, found by walking the grid.
fn four_through(mask: u64, col: i32, row: i32) -> bool {
    let has = |c: i32, r: i32| {
        c >= 0 && c < 7 && r >= 0 && r < 6 && mask & (1_u64 << (7 * c + r)) != 0
    };
    for (dc, dr) in [(0, 1), (1, 0), (1, 1), (1, -1)] {
        for back in 0..4 {
            let mut all = true;
            for k in 0..4 {
                let step = k - back;
                if !has(col + step * dc, row + step * dr) {
                    all = false;
                }
            }
            if all {
                return true;
            }
        }
    }
    false
}

fn has_four(mask: u64) -> bool {
    for col in 0..7 {
        for row in 0..6 {
            if four_through(mask, col, row) {
                return true;
            }
        }
    }
    false
}

/// Every position that at most `depth` more legal moves lead to from
/// `board`, in which nobody has four in a row before the last move.
fn reachable(board: Board, depth: u32, out: &mut Vec<Board>) {
    out.push(board);
    if depth == 0 {
        return;
    }
    let mover_before = board.stones_all() ^ board.stones_player();
    if has_four(mover_before) {
        return;
    }
    for col in 0..7 {
        if board.can_play(col) {
            let mut next = board;
            next.play_col(col);
            reachable(next, depth - 1, out);
        }
    }
}

#[test]
fn masks_of_the_board() {
    let mut bottom = 0_u64;
    let mut cells = 0_u64;
    for col in 0..7_u8 {
        assert_eq!(Board::bottom_mask_col(col), 1_u64 << (7 * col));
        assert_eq!(Board::top_mask(col), 1_u64 << (7 * col + 5));
        assert_eq!(Board::col_mask(col), 63_u64 << (7 * col));
        bottom |= Board::bottom_mask_col(col);
        cells |= Board::col_mask(col);
    }
    assert_eq!(Board::bottom_mask(), bottom);
    assert_eq!(Board::board_mask(), cells);
    assert_eq!(Board::board_mask(), 0xFDFB_F7EF_DFBF);
    assert_eq!(Board::WIDTH, 7);
    assert_eq!(Board::HEIGHT, 6);
    assert_eq!(Board::MAX_SCORE, 18);
    assert_eq!(Board::MIN_SCORE, -18);
    assert_eq!(Board::WIDTH, connect_four::grid::WIDTH);
    assert_eq!(Board::HEIGHT, connect_four::grid::HEIGHT);
    assert_eq!(Board::MAX_SCORE, connect_four::game::MAX_SCORE);
    assert_eq!(Board::MIN_SCORE, connect_four::game::MIN_SCORE);
}

#[test]
fn stones_are_counted_and_stay_on_the_board() {
    let mut all = Vec::new();
    reachable(Board::new(), 5, &mut all);
    assert!(all.len() > 10_000);
    for board in all {
        assert_eq!(board.stones_all().count_ones(), board.nb_moves() as u32);
        assert_eq!(Board::pop_count(board.stones_all()), board.nb_moves() as i32);
        assert_eq!(board.stones_player() & !board.stones_all(), 0);
        assert_eq!(board.stones_all() & !Board::board_mask(), 0);
    }
}

#[test]
fn the_side_to_move_changes_with_each_stone() {
    let mut board = Board::new();
    board.play_col(3);
    assert_eq!(board.stones_all(), 1 << 21);
    assert_eq!(board.stones_player(), 0);
    assert_eq!(board.nb_moves(), 1);
    board.play_col(3);
    assert_eq!(board.stones_all(), (1 << 21) | (1 << 22));
    assert_eq!(board.stones_player(), 1 << 21);
    assert_eq!(board.nb_moves(), 2);
    board.play(1 << 14);
    assert_eq!(board.stones_all(), (1 << 21) | (1 << 22) | (1 << 14));
    assert_eq!(board.stones_player(), 1 << 22);
    assert_eq!(board.nb_moves(), 3);
    assert_eq!(board.copy(), board);
}

#[test]
fn possible_cells_are_the_lowest_free_ones() {
    let board = Board::construct("4455");
    let expected = Board::bottom_mask() ^ (1 << 21) ^ (1 << 28) | (1 << 23) | (1 << 30);
    assert_eq!(board.possible(), expected);
    let full = Board::construct("111111");
    assert_eq!(full.possible() & Board::col_mask(0), 0);
    assert_eq!(full.possible_move(), 1);
    assert_eq!(Board::new().possible_move(), 0);
}

#[test]
fn a_move_can_be_taken_back() {
    let before = Board::construct("4433225");
    let mut after = before;
    after.play_col(4);
    let cell = after.stones_all() ^ before.stones_all();
    assert_eq!(cell, 1 << 29);
    assert_eq!(after.stones_all() ^ cell, before.stones_all());
    assert_eq!(after.stones_player() ^ before.stones_all(), before.stones_player());
    assert_eq!(after.nb_moves() - 1, before.nb_moves());
}

#[test]
fn replaying_a_sequence_gives_the_same_board() {
    let whole = Board::construct("4433225167");
    let mut replayed = Board::construct("44332");
    for col in [1_u8, 4, 0, 5, 6] {
        replayed.play_col(col);
    }
    assert_eq!(whole, replayed);
    assert_eq!(whole.stones_all(), replayed.stones_all());
    assert_eq!(whole.stones_player(), replayed.stones_player());
    assert_eq!(whole, Board::construct("4433225167"));
}

#[test]
fn characters_that_name_no_column_are_passed_over() {
    assert_eq!(Board::construct("4 4,3-3\n2"), Board::construct("44332"));
    assert_eq!(Board::construct("x"), Board::new());
    assert_eq!(Board::construct(""), Board::new());
}

#[test]
fn legal_sequences_are_told_from_the_others() {
    assert!(Board::legal(""));
    assert!(Board::legal("131415"));
    assert!(Board::legal("111111"));
    assert!(Board::legal("11 11 11 2"));
    assert!(!Board::legal("1111111"));
    assert!(!Board::legal("0"));
    assert!(!Board::legal("128"));
    assert!(!Board::legal("9"));
}

#[test]
fn hashes_of_distinct_positions_differ() {
    let mut seen: HashMap<u64, (u64, u64)> = HashMap::new();
    let mut level = vec![Board::new()];
    seen.insert(Board::new().hash(), (0, 0));
    for _ in 0..8 {
        let mut next_level = Vec::new();
        for board in level {
            for col in 0..7 {
                if board.can_play(col) {
                    let mut next = board;
                    next.play_col(col);
                    let key = next.hash();
                    assert_eq!(key, next.stones_all() + next.stones_player());
                    assert!(key < (1 << 49) - 1);
                    let state = (next.stones_all(), next.stones_player());
                    match seen.insert(key, state) {
                        Some(other) => assert_eq!(other, state),
                        None => next_level.push(next),
                    }
                }
            }
        }
        level = next_level;
    }
    assert!(seen.len() > 200_000);
}

#[test]
fn the_winning_move_makes_four_in_a_row() {
    for (sequence, column) in [
        ("131415", 0_u8),
        ("162636", 3),
        ("472737", 0),
        ("525354", 4),
        ("1223344445", 0),
    ] {
        let board = Board::construct(sequence);
        assert!(board.can_win_next());
        assert_eq!(board.winning_move(), column);
        let mut after = board;
        after.play_col(column);
        let mover = after.stones_all() ^ after.stones_player();
        assert!(has_four(mover));
    }
    assert_eq!(Board::new().winning_move(), 255);
    assert!(!Board::new().can_win_next());
}

#[test]
fn winning_cells_are_those_that_complete_four() {
    let mut all = Vec::new();
    reachable(Board::construct("44335"), 4, &mut all);
    for board in all {
        let player = board.stones_player();
        let winning = board.winning_moves();
        assert_eq!(winning, Board::compute_winning_moves(player, board.stones_all()));
        if has_four(player) {
            continue;
        }
        for col in 0..7_i32 {
            for row in 0..6_i32 {
                let cell = 1_u64 << (7 * col + row);
                let free = board.stones_all() & cell == 0;
                let below_filled = row == 0 || board.stones_all() & (cell >> 1) != 0;
                if free && below_filled {
                    assert_eq!(winning & cell != 0, four_through(player | cell, col, row));
                }
            }
        }
    }
}

#[test]
fn no_safe_move_means_every_move_loses() {
    let mut all = Vec::new();
    reachable(Board::construct("13141"), 3, &mut all);
    reachable(Board::construct("4455"), 3, &mut all);
    reachable(Board::construct("334455"), 2, &mut all);
    let mut without = 0;
    for board in all {
        let safe = board.nonlosing_moves();
        let mut every_move_loses = true;
        for col in 0..7 {
            let mut loses = true;
            if board.can_play(col) {
                let mut next = board;
                next.play_col(col);
                loses = next.can_win_next();
                if !loses {
                    every_move_loses = false;
                }
            }
            assert_eq!(safe & Board::col_mask(col) == 0, loses);
        }
        assert_eq!(safe == 0, every_move_loses);
        if safe == 0 {
            without += 1;
        }
    }
    assert!(without > 0);
}

#[test]
fn a_single_threat_forces_the_reply() {
    let board = Board::construct("13141");
    assert_eq!(board.opponent_winning_moves() & board.possible(), 1 << 3);
    assert_eq!(board.nonlosing_moves(), 1 << 3);
    let board = Board::construct("4142434");
    assert_eq!(board.nonlosing_moves(), 1 << 25);
}

#[test]
fn two_threats_leave_no_safe_move() {
    let board = Board::construct("31415");
    assert!(!board.can_win_next());
    let threats = board.opponent_winning_moves() & board.possible();
    assert_eq!(threats, (1 << 7) | (1 << 35));
    assert_eq!(board.nonlosing_moves(), 0);
}

#[test]
fn a_cell_under_a_threat_is_no_safe_move() {
    let board = Board::construct("4434725665544535");
    assert_eq!(board.possible(), 0x82204010101);
    assert_eq!(board.opponent_winning_moves() & board.possible(), 0);
    assert_eq!(board.nonlosing_moves(), 0x82204000101);
    let forced = Board::construct("762213161152156613");
    assert_eq!(forced.opponent_winning_moves() & forced.possible(), 0x200000);
    assert_eq!(forced.nonlosing_moves(), 0);
}

#[test]
fn action_score_counts_the_threats_made() {
    let board = Board::construct("3141");
    assert_eq!(board.action_score(1 << 28), 2);
    assert_eq!(board.action_score(1 << 7), 1);
    assert_eq!(board.action_score(1 << 1), 0);
    let other = Board::construct("1121");
    assert_eq!(other.action_score(1 << 14), 1);
    assert_eq!(other.action_score(1 << 3), 0);
    assert_eq!(Board::pop_count(0), 0);
    assert_eq!(Board::pop_count(u64::MAX), 64);
    assert_eq!(Board::pop_count(0b1011), 3);
}
