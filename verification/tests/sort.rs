use connect_four::sort::MoveSort;

#[test]
fn move_sorter() {
    let mut sorter = MoveSort::new();
    sorter.insert(0, 0);
    sorter.insert(5, 5);
    sorter.insert(1, 1);
    sorter.insert(4, 4);
    sorter.insert(2, 2);
    sorter.insert(3, 3);
    //let mut action = sorter.getNext();
    for i in (0..6).rev() {
        assert_eq!(sorter.get_next(), i);
    }
}

#[test]
fn of_equal_values_the_last_put_in_comes_out_first() {
    let mut sorter = MoveSort::new();
    sorter.insert(6, 1);
    sorter.insert(0, 1);
    sorter.insert(5, 0);
    sorter.insert(1, 1);
    sorter.insert(3, 2);
    assert_eq!(sorter.size(), 5);
    assert_eq!(sorter.get_next(), 3);
    assert_eq!(sorter.get_next(), 1);
    assert_eq!(sorter.get_next(), 0);
    assert_eq!(sorter.get_next(), 6);
    assert_eq!(sorter.get_next(), 5);
    assert_eq!(sorter.size(), 0);
}

#[test]
fn a_sorter_takes_seven_and_can_be_cleared() {
    let mut sorter = MoveSort::new();
    assert_eq!(sorter.size(), 0);
    for col in 0..7_u8 {
        sorter.insert(col, -(col as i32));
    }
    assert_eq!(sorter.size(), 7);
    assert_eq!(sorter.get_next(), 0);
    assert_eq!(sorter.get_next(), 1);
    sorter.clear();
    assert_eq!(sorter.size(), 0);
    sorter.insert(4, 9);
    assert_eq!(sorter.get_next(), 4);
}
