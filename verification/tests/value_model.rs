//! The per-cell value model: fills, marks, toggles and the cleanup rule.

use sudoku_logic::board::{Coordinates, Value};
use sudoku_logic::input_mode::{update_value_center, update_value_corner, update_value_fill};
use sudoku_logic::marks::{CenterMarks, CornerMarks};

#[test]
fn fill_empty_cell_takes_digit() {
    let v = update_value_fill(&Value::Empty, 5);
    assert_eq!(v, Value::Filled(5));
}

#[test]
fn fill_same_digit_round_trips_to_empty() {
    let once = update_value_fill(&Value::Empty, 4);
    let twice = update_value_fill(&once, 4);
    assert_eq!(twice, Value::Empty);
}

#[test]
fn fill_other_digit_overwrites() {
    let once = update_value_fill(&Value::Empty, 4);
    let other = update_value_fill(&once, 9);
    assert_eq!(other, Value::Filled(9));
}

#[test]
fn fill_discards_marks() {
    let marked = update_value_center(&Value::Empty, 2);
    let filled = update_value_fill(&marked, 6);
    assert_eq!(filled, Value::Filled(6));
}

#[test]
fn center_mark_on_empty_cell() {
    let v = update_value_center(&Value::Empty, 3);
    match v {
        Value::Marked(center, corner) => {
            assert!(center.contains(3));
            assert!(!center.contains(4));
            assert!(corner.is_empty());
        },
        _ => panic!("center mark on an empty cell must yield marks"),
    }
}

#[test]
fn center_mark_discards_fill() {
    let v = update_value_center(&Value::Filled(8), 3);
    assert_eq!(
        v,
        Value::Marked(CenterMarks::new(3), CornerMarks::default())
    );
}

#[test]
fn center_mark_same_digit_round_trips_to_empty() {
    let once = update_value_center(&Value::Empty, 3);
    let twice = update_value_center(&once, 3);
    assert_eq!(twice, Value::Empty);
}

#[test]
fn center_mark_keeps_corner_set() {
    let corner = update_value_corner(&Value::Empty, 7);
    let both = update_value_center(&corner, 2);
    match both {
        Value::Marked(center, corner) => {
            assert!(center.contains(2));
            assert!(corner.contains(7));
        },
        _ => panic!("marks expected"),
    }
}

#[test]
fn corner_mark_same_digit_round_trips_to_empty() {
    let once = update_value_corner(&Value::Empty, 9);
    let twice = update_value_corner(&once, 9);
    assert_eq!(twice, Value::Empty);
}

#[test]
fn corner_mark_discards_fill() {
    let v = update_value_corner(&Value::Filled(1), 5);
    assert_eq!(
        v,
        Value::Marked(CenterMarks::default(), CornerMarks::new(5))
    );
}

#[test]
fn cleanup_collapses_blank_marks() {
    let blank = Value::Marked(CenterMarks::default(), CornerMarks::default());
    assert_eq!(blank.cleanup(), Value::Empty);
}

#[test]
fn cleanup_keeps_real_values() {
    let marked = Value::Marked(CenterMarks::new(4), CornerMarks::default());
    assert_eq!(marked.cleanup(), marked);
    assert_eq!(Value::Filled(2).cleanup(), Value::Filled(2));
    assert_eq!(Value::Empty.cleanup(), Value::Empty);
}

#[test]
fn removing_last_center_mark_via_toggle_leaves_no_blank_marks() {
    // A marked cell whose only center digit is toggled off must end Empty,
    // not as a Marked value with two empty sets.
    let one_mark = update_value_center(&Value::Empty, 6);
    let gone = update_value_center(&one_mark, 6);
    assert!(!matches!(gone, Value::Marked(_, _)));
    assert_eq!(gone, Value::Empty);
}

#[test]
fn marks_with_same_digits_are_equal_whatever_the_entry_order() {
    let a = CenterMarks::new(2).update(5).update(8);
    let b = CenterMarks::new(8).update(2).update(5);
    assert_eq!(a, b);
}

#[test]
fn marks_to_string_is_ascending() {
    let m = CenterMarks::new(7).update(1).update(4);
    assert_eq!(m.to_string(), "147");
    let k = CornerMarks::new(9).update(3);
    assert_eq!(k.to_string(), "39");
}

#[test]
fn empty_marks_to_string_is_empty() {
    assert_eq!(CenterMarks::default().to_string(), "");
    assert_eq!(CornerMarks::default().to_string(), "");
}

#[test]
fn update_toggles_membership() {
    let m = CenterMarks::new(5);
    assert!(m.contains(5));
    let without = m.update(5);
    assert!(!without.contains(5));
    assert!(without.is_empty());
    let with_two = m.update(2);
    assert!(with_two.contains(2));
    assert!(with_two.contains(5));
}

#[test]
fn compute_square_matches_reading_order() {
    assert_eq!(Coordinates::compute_square(1, 1), 1);
    assert_eq!(Coordinates::compute_square(1, 4), 2);
    assert_eq!(Coordinates::compute_square(1, 9), 3);
    assert_eq!(Coordinates::compute_square(4, 1), 4);
    assert_eq!(Coordinates::compute_square(4, 5), 5);
    assert_eq!(Coordinates::compute_square(5, 5), 5);
    assert_eq!(Coordinates::compute_square(7, 9), 9);
    assert_eq!(Coordinates::compute_square(9, 9), 9);
}

#[test]
fn compute_square_covers_all_81_cells() {
    for row in 1..=9u8 {
        for column in 1..=9u8 {
            let expected = 3 * ((row - 1) / 3) + (column - 1) / 3 + 1;
            assert_eq!(Coordinates::compute_square(row, column), expected);
            assert!((1..=9).contains(&Coordinates::compute_square(row, column)));
        }
    }
}

#[test]
fn coordinates_new_derives_square() {
    let c = Coordinates::new(4, 5);
    assert_eq!(c.row, 4);
    assert_eq!(c.column, 5);
    assert_eq!(c.square, 5);
}
