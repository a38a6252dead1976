use connect_four::board::Board;
use connect_four::game::{MAX_SCORE, MIN_SCORE};
use connect_four::solver::{do_the_magic, negamax, solve, EXPLORATION_ORDER};
use connect_four::table::Table;

/// The value of `board` to the side to move, by trying every move.
fn value(board: Board) -> i32 {
    if board.nb_moves() >= 42 {
        return 0;
    }
    if board.can_win_next() {
        return (43 - board.nb_moves() as i32) / 2;
    }
    let mut best = -22;
    for col in 0..7 {
        if board.can_play(col) {
            let mut next = board;
            next.play_col(col);
            best = best.max(-value(next));
        }
    }
    best
}

const QUIET: [(&str, i32, i32); 19] = [
    ("12353322646646412566172271", -2, 3),
    ("22516215432772234763356653", -8, 0),
    ("25572742521362277166556476", 7, 3),
    ("41717317213775537644445612", 0, 4),
    ("1415715711732365423751646653", 0, 3),
    ("5254213552346465227533661172", -7, 0),
    ("7256177412456571214112557756", 6, 3),
    ("126611252622124446616745741477", -3, 4),
    ("457271322235777765643354223345", 5, 5),
    ("36232145245232234411155457664716", 0, 6),
    ("574723773671312112644133366164746", 4, 3),
    ("4655637173715337242513724476634265", -1, 5),
    ("45723574616413262442332351431256756", 0, 6),
    ("621423522217633466776726444341113377", 2, 0),
    ("7641655127332746562544754243311315321", 1, 1),
    ("57576634615546647147164232574357232331", 0, 1),
    ("171711357642537266531713643744322546565", -1, 1),
    ("366221152574434752277453557437241133116", 1, 5),
    ("55372436535777312535411414227441166622766", 0, 2),
];

#[test]
fn solve_gives_the_value_and_a_column() {
    let mut table = Table::new();
    for (sequence, score, column) in QUIET {
        let board = Board::construct(sequence);
        assert!(!board.can_win_next());
        assert_eq!(solve(board, &mut table), (score, column));
        assert!(board.can_play(column as u8));
    }
}

#[test]
fn solve_agrees_with_trying_every_move() {
    let mut table = Table::new();
    for (sequence, score, _) in QUIET {
        let board = Board::construct(sequence);
        if board.nb_moves() >= 30 {
            assert_eq!(value(board), score);
            assert_eq!(solve(board, &mut table).0, value(board));
        }
    }
}

#[test]
fn solve_gives_the_same_score_each_time() {
    for (sequence, score, column) in QUIET {
        let board = Board::construct(sequence);
        if board.nb_moves() >= 32 {
            let first = solve(board, &mut Table::new());
            let second = solve(board, &mut Table::new());
            assert_eq!(first, (score, column));
            assert_eq!(first, second);
        }
    }
    let board = Board::construct("36232145245232234411155457664716");
    let mut table = Table::new();
    let first = solve(board, &mut table);
    let again = solve(board, &mut table);
    assert_eq!(first.0, again.0);
    table.clear();
    assert_eq!(solve(board, &mut table), first);
}

#[test]
fn the_score_changes_sign_after_the_move_found() {
    let mut table = Table::new();
    for (sequence, score, column) in QUIET {
        let board = Board::construct(sequence);
        if board.nb_moves() < 40 {
            let mut next = board;
            next.play_col(column as u8);
            assert_eq!(solve(next, &mut table).0, -score);
        }
    }
}

#[test]
fn no_other_move_is_better_than_the_move_found() {
    let mut table = Table::new();
    for (sequence, score, _) in QUIET {
        let board = Board::construct(sequence);
        if board.nb_moves() >= 30 {
            for col in 0..7 {
                if board.can_play(col) {
                    let mut next = board;
                    next.play_col(col);
                    assert!(-solve(next, &mut table).0 <= score);
                }
            }
        }
    }
}

#[test]
fn a_full_board_is_drawn() {
    let board = Board::construct("453322713545135561642646422211366175347777");
    assert_eq!(board.nb_moves(), 42);
    assert_eq!(board.stones_all(), Board::board_mask());
    let mut table = Table::new();
    assert_eq!(solve(board, &mut table), (0, -100));
    assert_eq!(negamax(board, &mut table, -1, 1), (0, 0));
}

#[test]
fn a_win_at_once_is_found_without_a_search() {
    let mut table = Table::new();
    for (sequence, score, column) in [
        ("131415", 18, 0),
        ("162636", 18, 3),
        ("472737", 18, 0),
        ("525354", 18, 4),
        ("1223344445", 16, 0),
        ("257771314744647214154617633623", 6, 0),
        ("5153577216672316716162467375332221553444", 1, 3),
    ] {
        let board = Board::construct(sequence);
        assert!(board.can_win_next());
        assert_eq!(solve(board, &mut table), (score, column));
        assert_eq!(score, (43 - board.nb_moves() as i32) / 2);
        assert_eq!(column, board.winning_move() as i32);
    }
    assert_eq!(table.add_count(), 0);
    assert_eq!(table.get_count(), 0);
}

#[test]
fn do_the_magic_counts_columns_from_one() {
    assert_eq!(do_the_magic("131415"), (18, 1));
    assert_eq!(do_the_magic("525354"), (18, 5));
    assert_eq!(do_the_magic("162636"), (18, 4));
    assert_eq!(do_the_magic("366221152574434752277453557437241133116"), (1, 6));
    assert_eq!(
        do_the_magic("453322713545135561642646422211366175347777"),
        (0, -99)
    );
}

#[test]
fn with_two_cells_left_the_first_free_column_is_named() {
    let board = Board::construct("2235417741761352443344312117773565556266");
    assert_eq!(board.nb_moves(), 40);
    assert!(!board.can_win_next());
    assert_ne!(board.nonlosing_moves(), 0);
    let mut table = Table::new();
    assert_eq!(solve(board, &mut table), (0, 1));
    assert_eq!(board.possible_move(), 1);
    assert_eq!(negamax(board, &mut table, 0, 1), (0, 1));
}

#[test]
fn where_every_move_loses_the_first_free_column_is_named() {
    let board = Board::construct("22516215432772234763356653");
    assert_eq!(board.nonlosing_moves(), 0);
    let mut table = Table::new();
    assert_eq!(negamax(board, &mut table, -1, 0), (-8, 0));
    assert_eq!(negamax(board, &mut table, -30, 30), (-8, 0));
    assert_eq!(table.add_count(), 0);
}

#[test]
fn negamax_bounds_the_value_by_its_window() {
    for (sequence, score, _) in QUIET {
        let board = Board::construct(sequence);
        if board.nb_moves() < 33 {
            continue;
        }
        for alpha in [-3, -1, 0, 2] {
            let mut table = Table::new();
            let (found, column) = negamax(board, &mut table, alpha, alpha + 1);
            if board.nonlosing_moves() == 0 || board.nb_moves() >= 40 {
                assert_eq!((found, column), (score, board.possible_move() as i32));
            } else if found <= alpha {
                assert!(score <= found);
            } else {
                assert!(score >= found);
                let floor = -((40 - board.nb_moves() as i32) / 2);
                if alpha + 1 >= floor {
                    assert!(column >= 0);
                } else {
                    assert_eq!((found, column), (floor, -1));
                }
            }
            assert!(column >= -1 && column < 7);
        }
        let mut table = Table::new();
        assert_eq!(negamax(board, &mut table, -21, 21).0, score);
    }
}

#[test]
fn negamax_leaves_an_upper_bound_in_the_table() {
    let board = Board::construct("36232145245232234411155457664716");
    let mut table = Table::new();
    let (found, _) = negamax(board, &mut table, -21, 21);
    assert_eq!(found, 0);
    let stored = table.get(&board);
    assert_eq!(stored, Some(found - MIN_SCORE + 1));
}

#[test]
fn the_scores_and_the_order_of_the_columns() {
    assert_eq!(MAX_SCORE, 18);
    assert_eq!(MIN_SCORE, -18);
    assert_eq!(EXPLORATION_ORDER, [3, 2, 4, 1, 5, 0, 6]);
}

#[test]
fn a_window_below_every_possible_value_is_answered_at_once() {
    let board = Board::construct("36232145245232234411155457664716");
    let mut table = Table::new();
    assert_eq!(negamax(board, &mut table, -10, -9), (-4, -1));
    assert_eq!(negamax(board, &mut table, -30, -5), (-4, -1));
    assert_eq!(table.get_count(), 0);
    assert_eq!(table.add_count(), 0);
}

#[test]
fn a_stored_bound_that_closes_the_window_is_the_answer() {
    let board = Board::construct("36232145245232234411155457664716");
    let mut table = Table::new();
    assert_eq!(negamax(board, &mut table, -21, 21), (0, 6));
    let adds = table.add_count();
    let gets = table.get_count();
    assert_eq!(negamax(board, &mut table, 0, 5), (0, -1));
    assert_eq!(table.add_count(), adds);
    assert_eq!(table.get_count(), gets + 1);
}

#[test]
fn a_wrong_bound_in_the_table_misleads_the_search() {
    let board = Board::construct("36232145245232234411155457664716");
    let mut table = Table::new();
    table.add(&board, 1);
    assert_eq!(negamax(board, &mut table, -1, 1), (-18, -1));
    let mut table = Table::new();
    table.add(&board, -128);
    assert_eq!(solve(board, &mut table), (-5, -100));
    table.clear();
    assert_eq!(solve(board, &mut table), (0, 6));
}
