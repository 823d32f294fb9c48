//! The input mode and the pure transition functions that compute a cell's
//! next value from its current value and an entered digit.
//!
//! A `Fixed` cell must never reach these functions; that guard is the
//! caller's responsibility (see `interaction`), not this component's.

use vstd::prelude::*;
use crate::board::Value;
use crate::marks::{CenterMarks, CornerMarks, toggle_digit};

verus! {

/// Different ways to enter a number into a cell
#[derive(Copy, Clone, PartialEq, Eq, Structural, Hash, Debug)]
pub enum InputMode {
    /// The value of the cell
    Fill,
    /// One possible value of the cell
    CenterMark,
    /// This value must be within one of these cells in the box
    CornerMark,
}

impl Default for InputMode {
    /// A fresh game accepts digits as fills until the mode is switched.
    fn default() -> (r: Self)
        ensures
            r == InputMode::Fill,
    {
        InputMode::Fill
    }
}

/// The value after a digit is entered under `Fill` mode: an empty or marked
/// cell takes the digit; re-entering a filled cell's own digit clears it
/// (the fill toggle); any other digit overwrites it.
pub open spec fn spec_fill(old: Value, num: u8) -> Value {
    match old {
        Value::Empty => Value::Filled(num),
        Value::Marked(_, _) => Value::Filled(num),
        Value::Filled(d) => if d == num {
            Value::Empty
        } else {
            Value::Filled(num)
        },
    }
}

/// The value after a digit is entered under `CenterMark` mode. An empty or
/// filled cell becomes marks holding only that digit (a prior fill is
/// discarded, deliberately asymmetric with `Fill`'s behavior toward marks);
/// existing marks toggle the digit in the center set. A result whose two
/// mark sets are both empty collapses to `Empty` (the cleanup rule).
pub open spec fn center_mark_applied(old: Value, num: u8, r: Value) -> bool {
    match old {
        Value::Marked(c0, k0) => {
            let c1 = toggle_digit(c0@, num);
            if c1.is_empty() && k0@.is_empty() {
                r == Value::Empty
            } else {
                r matches Value::Marked(c, k) && c@ == c1 && k@ == k0@
            }
        },
        _ => r matches Value::Marked(c, k) && c@ == set![num] && k@ == Set::<u8>::empty(),
    }
}

/// The value after a digit is entered under `CornerMark` mode: symmetric to
/// `center_mark_applied`, operating on the corner set instead, with the same
/// cleanup rule.
pub open spec fn corner_mark_applied(old: Value, num: u8, r: Value) -> bool {
    match old {
        Value::Marked(c0, k0) => {
            let k1 = toggle_digit(k0@, num);
            if c0@.is_empty() && k1.is_empty() {
                r == Value::Empty
            } else {
                r matches Value::Marked(c, k) && c@ == c0@ && k@ == k1
            }
        },
        _ => r matches Value::Marked(c, k) && c@ == Set::<u8>::empty() && k@ == set![num],
    }
}

/// The value after a digit is entered under the given mode.
pub open spec fn input_applied(mode: InputMode, old: Value, num: u8, r: Value) -> bool {
    match mode {
        InputMode::Fill => r == spec_fill(old, num),
        InputMode::CenterMark => center_mark_applied(old, num, r),
        InputMode::CornerMark => corner_mark_applied(old, num, r),
    }
}

/// Law: under `Fill`, entering a digit twice into an empty cell round-trips
/// back to `Empty` (the fill toggle), while entering a different second
/// digit overwrites the first.
pub proof fn lemma_fill_toggle_round_trip(d1: u8, d2: u8)
    requires
        1 <= d1 <= 9,
        1 <= d2 <= 9,
    ensures
        spec_fill(spec_fill(Value::Empty, d1), d1) == Value::Empty,
        d1 != d2 ==> spec_fill(spec_fill(Value::Empty, d1), d2) == Value::Filled(d2),
{
}

/// Law: under `CenterMark`, marking a digit twice on an empty cell
/// round-trips back to `Empty` through the cleanup rule; no blank `Marked`
/// value is left behind.
pub proof fn lemma_center_mark_round_trip(v1: Value, v2: Value, d: u8)
    requires
        1 <= d <= 9,
        center_mark_applied(Value::Empty, d, v1),
        center_mark_applied(v1, d, v2),
    ensures
        v2 == Value::Empty,
{
    if let Value::Marked(c, k) = v1 {
        assert(c@.contains(d));
        assert(toggle_digit(c@, d) =~= Set::<u8>::empty());
    }
}

/// Law: under `CornerMark`, marking a digit twice on an empty cell
/// round-trips back to `Empty`, symmetric to the center-mark round trip.
pub proof fn lemma_corner_mark_round_trip(v1: Value, v2: Value, d: u8)
    requires
        1 <= d <= 9,
        corner_mark_applied(Value::Empty, d, v1),
        corner_mark_applied(v1, d, v2),
    ensures
        v2 == Value::Empty,
{
    if let Value::Marked(c, k) = v1 {
        assert(k@.contains(d));
        assert(toggle_digit(k@, d) =~= Set::<u8>::empty());
    }
}

/// Law (cleanup invariant): no digit entry, in any mode, yields a `Marked`
/// value both of whose sets are empty; every function that can produce
/// marks normalizes such a result to `Empty`.
pub proof fn lemma_no_blank_marks(mode: InputMode, old: Value, num: u8, r: Value)
    requires
        1 <= num <= 9,
        input_applied(mode, old, num, r),
    ensures
        !r.is_blank_marks(),
{
    match mode {
        InputMode::Fill => {},
        InputMode::CenterMark => {
            match old {
                Value::Marked(_, _) => {},
                _ => {
                    assert(r matches Value::Marked(c, k) && c@ == set![num]);
                    assert(set![num].contains(num));
                },
            }
        },
        InputMode::CornerMark => {
            match old {
                Value::Marked(_, _) => {},
                _ => {
                    assert(r matches Value::Marked(c, k) && k@ == set![num]);
                    assert(set![num].contains(num));
                },
            }
        },
    }
}

pub fn update_value_fill(old_value: &Value, new_num: u8) -> (r: Value)
    requires
        1 <= new_num <= 9,
    ensures
        r == spec_fill(*old_value, new_num),
        r.wf(),
{
    match *old_value {
        // Fill blank values with the key pressed
        Value::Empty => Value::Filled(new_num),
        // Overwrite markings with new value
        Value::Marked(_, _) => Value::Filled(new_num),
        Value::Filled(old_num) => {
            // Remove existing values if they match
            if old_num == new_num {
                Value::Empty
            } else {
                // Otherwise overwrite them
                Value::Filled(new_num)
            }
        },
    }
}

pub fn update_value_center(old_value: &Value, num: u8) -> (r: Value)
    requires
        1 <= num <= 9,
        old_value.wf(),
    ensures
        center_mark_applied(*old_value, num, r),
        r.wf(),
{
    let out = match old_value {
        // Fill blank values with a center mark
        Value::Empty => Value::Marked(CenterMarks::new(num), CornerMarks::default()),
        // Update center marks with new value, adding it if it doesn't exist
        // and removing it if it does
        Value::Marked(center, corner) => Value::Marked(center.update(num), *corner),
        // Overwrite filled values with a center mark
        Value::Filled(_) => Value::Marked(CenterMarks::new(num), CornerMarks::default()),
    };
    out.cleanup()
}

pub fn update_value_corner(old_value: &Value, num: u8) -> (r: Value)
    requires
        1 <= num <= 9,
        old_value.wf(),
    ensures
        corner_mark_applied(*old_value, num, r),
        r.wf(),
{
    let out = match old_value {
        // Fill blank values with a corner mark
        Value::Empty => Value::Marked(CenterMarks::default(), CornerMarks::new(num)),
        // Update corner marks with new value, adding it if it doesn't exist
        // and removing it if it does
        Value::Marked(center, corner) => Value::Marked(*center, corner.update(num)),
        // Overwrite filled values with a corner mark
        Value::Filled(_) => Value::Marked(CenterMarks::default(), CornerMarks::new(num)),
    };
    out.cleanup()
}

} // verus!
