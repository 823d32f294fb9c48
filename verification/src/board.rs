//! Core data structures of the Sudoku board: cell identity, the per-cell
//! value, and the flags the interaction logic reads and writes.

use vstd::prelude::*;
use crate::marks::{CenterMarks, CornerMarks};

verus! {

/// Which 3x3 square the cell at `(row, column)` lies in, counted from 1 at
/// the top left in standard left-to-right, top-to-bottom reading order.
pub open spec fn spec_square(row: u8, column: u8) -> int {
    3 * ((row - 1) / 3) + (column - 1) / 3 + 1
}

/// Immutable identity of a cell. Set once at board construction and never
/// mutated afterwards.
#[derive(PartialEq, Eq, Structural, Hash, Clone, Copy, Debug)]
pub struct Coordinates {
    /// Between 1 and 9, counted from top to bottom
    pub row: u8,
    /// Between 1 and 9, counted from left to right
    pub column: u8,
    /// Squares are counted from 1 to 9 starting at the top left,
    /// in standard left-to-right reading order
    ///
    /// The standard term for the 3x3 box a cell is in is `box`,
    /// but that's a reserved word in Rust
    pub square: u8,
}

impl Coordinates {
    /// Row and column lie on the board and the square is the one derived
    /// from them.
    pub open spec fn wf(self) -> bool {
        &&& 1 <= self.row <= 9
        &&& 1 <= self.column <= 9
        &&& self.square == spec_square(self.row, self.column)
    }

    /// Computes which 3x3 square a cell is in based on its row and column
    pub fn compute_square(row: u8, column: u8) -> (square: u8)
        requires
            1 <= row <= 9,
            1 <= column <= 9,
        ensures
            square == spec_square(row, column),
            1 <= square <= 9,
    {
        let major_row = (row - 1) / 3;
        let major_col = (column - 1) / 3;
        major_col + major_row * 3 + 1
    }

    /// A cell identity with its derived square.
    pub fn new(row: u8, column: u8) -> (c: Coordinates)
        requires
            1 <= row <= 9,
            1 <= column <= 9,
        ensures
            c.wf(),
            c.row == row,
            c.column == column,
    {
        Coordinates { row, column, square: Coordinates::compute_square(row, column) }
    }
}

/// The number(s) marked inside of each cell
#[derive(Clone, Copy, PartialEq, Eq, Structural, Debug)]
pub enum Value {
    /// No value is filled in this cell
    Empty,
    /// A single value is known to be in this cell
    Filled(u8),
    /// We have partial information about the state of this cell
    Marked(CenterMarks, CornerMarks),
}

impl Value {
    /// A `Marked` value both of whose digit sets are empty. It carries no
    /// information, so every mutator normalizes it back to `Empty` (the
    /// cleanup rule); a well-formed value is never in this state.
    pub open spec fn is_blank_marks(self) -> bool {
        self matches Value::Marked(c, k) && c@.is_empty() && k@.is_empty()
    }

    /// The mark sets hold digit bits only, whatever else holds of the value.
    pub open spec fn marks_wf(self) -> bool {
        self matches Value::Marked(c, k) ==> c.wf() && k.wf()
    }

    /// A filled digit is in range, mark sets are well formed, and blank
    /// marks have been normalized away.
    pub open spec fn wf(self) -> bool {
        match self {
            Value::Empty => true,
            Value::Filled(d) => 1 <= d <= 9,
            Value::Marked(c, k) => c.wf() && k.wf() && !(c@.is_empty() && k@.is_empty()),
        }
    }

    /// Converts empty marks into an empty cell state
    pub fn cleanup(&self) -> (r: Value)
        requires
            self.marks_wf(),
        ensures
            r == if self.is_blank_marks() {
                Value::Empty
            } else {
                *self
            },
    {
        match self {
            Value::Marked(center, corner) => {
                if center.is_empty() && corner.is_empty() {
                    Value::Empty
                } else {
                    *self
                }
            },
            _ => *self,
        }
    }
}

/// Two values carry the same content: same variant, same digit, or the same
/// two mark sets.
pub open spec fn same_content(a: Value, b: Value) -> bool {
    match (a, b) {
        (Value::Empty, Value::Empty) => true,
        (Value::Filled(x), Value::Filled(y)) => x == y,
        (Value::Marked(c1, k1), Value::Marked(c2, k2)) => c1@ == c2@ && k1@ == k2@,
        _ => false,
    }
}

/// Value equality is equality of content: marks are canonical, so comparing
/// two cell values compares their digit sets, not a representation detail.
/// Match-selection relies on this when it compares cells by `Value`.
pub proof fn lemma_value_eq_is_content_eq(a: Value, b: Value)
    requires
        a.marks_wf(),
        b.marks_wf(),
    ensures
        (a == b) <==> same_content(a, b),
{
    if same_content(a, b) {
        match (a, b) {
            (Value::Marked(c1, k1), Value::Marked(c2, k2)) => {
                crate::marks::lemma_center_marks_canonical(c1, c2);
                crate::marks::lemma_corner_marks_canonical(k1, k2);
            },
            _ => {},
        }
    }
}

/// A component that specifies whether digits were provided by the puzzle
#[derive(Clone, Copy, PartialEq, Eq, Structural, Debug)]
pub struct Fixed(pub bool);

/// One cell of the board: its identity and the state the player mutates.
#[derive(Clone, Copy, Debug)]
pub struct Cell {
    /// Identity within the grid; never changed after construction.
    pub coordinates: Coordinates,
    /// What the player (or the puzzle) has written into the cell.
    pub value: Value,
    /// True when the digit was supplied by the puzzle's clues and must never
    /// be mutated by player input.
    pub fixed: Fixed,
    /// True when the cell is part of the active selection.
    pub selected: bool,
}

impl Cell {
    /// The cell sits at index `i` of the board in row-major order and its
    /// value is well formed.
    pub open spec fn wf_at(self, i: int) -> bool {
        &&& self.coordinates.wf()
        &&& self.coordinates.row == i / 9 + 1
        &&& self.coordinates.column == i % 9 + 1
        &&& self.value.wf()
    }
}

} // verus!
