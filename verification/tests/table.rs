use connect_four::board::Board;
use connect_four::table::{Table, TableNode, CAPACITY};

#[test]
fn table() {
    let board = Board::construct("162636");
    let mut table = Table::new();
    table.add(&board, 20);
    assert_eq!(table.get(&board), Some(20));
    table.add(&board, 10);
    assert_eq!(table.get(&board), Some(10));

    assert_eq!(table.add_count(), 2);
    assert_eq!(table.get_count(), 2);
}

#[test]
fn a_new_table_holds_nothing() {
    let mut table = Table::new();
    assert_eq!(table.get(&Board::new()), None);
    assert_eq!(table.get(&Board::construct("4")), None);
    assert_eq!(table.get(&Board::construct("131415")), None);
    assert_eq!(table.add_count(), 0);
    assert_eq!(table.get_count(), 3);
}

#[test]
fn a_cleared_table_holds_nothing() {
    let mut table = Table::new();
    let empty = Board::new();
    let other = Board::construct("44");
    table.add(&empty, 7);
    table.add(&other, 3);
    assert_eq!(table.get(&empty), Some(7));
    table.clear();
    assert_eq!(table.get(&empty), None);
    assert_eq!(table.get(&other), None);
    table.add(&other, -1);
    assert_eq!(table.get(&other), Some(-1));
    assert_eq!(table.get(&empty), None);
}

#[test]
fn a_score_is_kept_as_one_signed_byte() {
    let board = Board::construct("4455");
    let mut table = Table::new();
    table.add(&board, 127);
    assert_eq!(table.get(&board), Some(127));
    table.add(&board, -128);
    assert_eq!(table.get(&board), Some(-128));
    table.add(&board, 128);
    assert_eq!(table.get(&board), Some(-128));
    table.add(&board, 300);
    assert_eq!(table.get(&board), Some(44));
    table.add(&board, -1);
    assert_eq!(table.get(&board), Some(-1));
}

/// Two positions whose hashes leave the same remainder on division by the
/// number of slots.
fn colliding() -> (Board, Board) {
    let first = Board::construct("1");
    let mut seen = std::collections::HashMap::new();
    let mut stack = vec![Board::new()];
    while let Some(board) = stack.pop() {
        let slot = board.hash() % CAPACITY;
        if let Some(other) = seen.insert(slot, board) {
            if other != board {
                return (other, board);
            }
        }
        if board.nb_moves() < 12 {
            for col in 0..7 {
                if board.can_play(col) {
                    let mut next = board;
                    next.play_col(col);
                    stack.push(next);
                }
            }
        }
    }
    (first, first)
}

#[test]
fn a_later_entry_of_the_same_slot_takes_the_place() {
    let (first, second) = colliding();
    assert_ne!(first, second);
    assert_ne!(first.hash(), second.hash());
    assert_eq!(first.hash() % CAPACITY, second.hash() % CAPACITY);
    let mut table = Table::new();
    table.add(&first, 5);
    assert_eq!(table.get(&first), Some(5));
    assert_eq!(table.get(&second), None);
    table.add(&second, 9);
    assert_eq!(table.get(&second), Some(9));
    assert_eq!(table.get(&first), None);
}

#[test]
fn a_node_packs_a_hash_above_a_byte() {
    let node = TableNode::new(0x1234_5678_9ABC, -3);
    assert_eq!(node.get_hash(), 0x1234_5678_9ABC);
    assert_eq!(node.get_value(), -3);
    let node = TableNode::new(1, 20);
    assert_eq!(node.get_hash(), 1);
    assert_eq!(node.get_value(), 20);
    assert_eq!(CAPACITY, 8388593 * 2);
}
