//! Selection state and the interaction dispatcher: turns high-level click
//! and keyboard events into selection and cell-value mutations.
//!
//! The board state is an explicit `GameState` owned by the caller; one logic
//! tick is an ordered sequence of calls (index rebuild, then click
//! resolution, then selection and value mutation), never concurrent. Every
//! transition is a synchronous pure computation over in-memory state.

use vstd::prelude::*;
use crate::board::{Cell, Coordinates, Fixed, Value};
use crate::cell_index::{CellIndex, Point, spec_lookup};
use crate::input_mode::{
    InputMode, input_applied, update_value_center, update_value_corner, update_value_fill,
};
use crate::keyboard::{CellInput, KeyCode, contains_key, key_in};

verus! {

/// Event to dispatch cell clicks
#[derive(Clone, Copy, Debug)]
pub struct CellClick {
    /// Some(cell) if a cell was clicked, otherwise None
    pub selected_cell: Option<usize>,
    /// Should we select multiple cells at once
    pub multi: bool,
    /// Was the mouse dragged
    pub drag: bool,
}

/// The board and the process-wide input mode, owned by the caller and
/// mutated only through the functions of this module.
pub struct GameState {
    /// The 81 cells in row-major order: index `9 * (row - 1) + column - 1`.
    pub cells: Vec<Cell>,
    /// Which transition function future digit input will use.
    pub input_mode: InputMode,
}

/// How many cells of the board are selected.
pub open spec fn n_selected(cells: Seq<Cell>) -> int
    decreases cells.len(),
{
    if cells.len() == 0 {
        0
    } else {
        n_selected(cells.drop_last()) + if cells.last().selected {
            1int
        } else {
            0int
        }
    }
}

/// `b` is `a` with at most the selection flag changed.
pub open spec fn same_but_selected(a: Cell, b: Cell) -> bool {
    &&& b.coordinates == a.coordinates
    &&& b.value == a.value
    &&& b.fixed == a.fixed
}

/// `b` is `a` with at most the value changed.
pub open spec fn same_but_value(a: Cell, b: Cell) -> bool {
    &&& b.coordinates == a.coordinates
    &&& b.fixed == a.fixed
    &&& b.selected == a.selected
}

/// Whether cell `j` is selected after a click, given the board before it:
/// a click outside the board clears the selection; a drag only ever adds the
/// cell under it; a multi-click toggles the cell under it; a plain click on
/// the sole selected cell selects every cell sharing its value
/// (match-select); any other plain click selects exactly the cell under it.
pub open spec fn spec_selected_after_click(cells: Seq<Cell>, click: CellClick, j: int) -> bool {
    match click.selected_cell {
        Option::None => false,
        Option::Some(c) => {
            let ci = c as int;
            if click.drag {
                j == ci || cells[j].selected
            } else if click.multi {
                if j == ci {
                    !cells[ci].selected
                } else {
                    cells[j].selected
                }
            } else if cells[ci].selected && n_selected(cells) <= 1 {
                cells[j].value == cells[ci].value
            } else {
                j == ci
            }
        },
    }
}

impl GameState {
    /// The board has its 81 cells, each carrying the coordinates of its
    /// position and a well-formed value.
    pub open spec fn wf(self) -> bool {
        &&& self.cells@.len() == 81
        &&& forall|i: int| 0 <= i < self.cells@.len() ==> (#[trigger] self.cells@[i]).wf_at(i)
    }

    /// A fresh board: every cell empty, fillable and unselected, the input
    /// mode on `Fill`.
    #[verifier::loop_isolation(false)]
    pub fn new() -> (state: GameState)
        ensures
            state.wf(),
            state.input_mode == InputMode::Fill,
            forall|j: int|
                0 <= j < state.cells@.len() ==> (#[trigger] state.cells@[j]).value == Value::Empty
                    && !state.cells@[j].fixed.0 && !state.cells@[j].selected,
    {
        let mut cells: Vec<Cell> = Vec::new();
        let mut i: usize = 0;
        while i < 81
            invariant
                cells@.len() == i,
                0 <= i <= 81,
                forall|j: int|
                    0 <= j < i ==> (#[trigger] cells@[j]).wf_at(j) && cells@[j].value
                        == Value::Empty && !cells@[j].fixed.0 && !cells@[j].selected,
            decreases 81 - i,
        {
            let row: u8 = (i / 9 + 1) as u8;
            let column: u8 = (i % 9 + 1) as u8;
            let coordinates = Coordinates::new(row, column);
            // No digits are filled in to begin with
            cells.push(
                Cell { coordinates, value: Value::Empty, fixed: Fixed(false), selected: false },
            );
            i = i + 1;
        }
        GameState { cells, input_mode: InputMode::Fill }
    }
}

/// Writes one cell's selection flag, leaving everything else as it was.
fn set_selected(state: &mut GameState, i: usize, selected: bool)
    requires
        i < old(state).cells@.len(),
    ensures
        final(state).cells@.len() == old(state).cells@.len(),
        final(state).input_mode == old(state).input_mode,
        same_but_selected(old(state).cells@[i as int], final(state).cells@[i as int]),
        final(state).cells@[i as int].selected == selected,
        forall|j: int|
            0 <= j < old(state).cells@.len() && j != i ==> #[trigger] final(state).cells@[j] == old(
                state,
            ).cells@[j],
{
    let c = state.cells[i];
    state.cells.set(
        i,
        Cell { coordinates: c.coordinates, value: c.value, fixed: c.fixed, selected },
    );
}

/// Writes one cell's value, leaving everything else as it was.
fn set_value(state: &mut GameState, i: usize, value: Value)
    requires
        i < old(state).cells@.len(),
    ensures
        final(state).cells@.len() == old(state).cells@.len(),
        final(state).input_mode == old(state).input_mode,
        same_but_value(old(state).cells@[i as int], final(state).cells@[i as int]),
        final(state).cells@[i as int].value == value,
        forall|j: int|
            0 <= j < old(state).cells@.len() && j != i ==> #[trigger] final(state).cells@[j] == old(
                state,
            ).cells@[j],
{
    let c = state.cells[i];
    state.cells.set(
        i,
        Cell { coordinates: c.coordinates, value, fixed: c.fixed, selected: c.selected },
    );
}

/// Removes the selection tag from every cell.
#[verifier::loop_isolation(false)]
fn clear_selection(state: &mut GameState)
    ensures
        final(state).cells@.len() == old(state).cells@.len(),
        final(state).input_mode == old(state).input_mode,
        forall|j: int|
            0 <= j < old(state).cells@.len() ==> same_but_selected(
                old(state).cells@[j],
                #[trigger] final(state).cells@[j],
            ) && !final(state).cells@[j].selected,
{
    let mut i: usize = 0;
    while i < state.cells.len()
        invariant
            state.cells@.len() == old(state).cells@.len(),
            state.input_mode == old(state).input_mode,
            0 <= i <= state.cells@.len(),
            forall|j: int|
                0 <= j < i ==> same_but_selected(
                    old(state).cells@[j],
                    #[trigger] state.cells@[j],
                ) && !state.cells@[j].selected,
            forall|j: int|
                i <= j < old(state).cells@.len() ==> #[trigger] state.cells@[j] == old(
                    state,
                ).cells@[j],
        decreases state.cells@.len() - i,
    {
        set_selected(state, i, false);
        i = i + 1;
    }
}

/// Counts the cells currently selected.
#[verifier::loop_isolation(false)]
pub fn count_selected(state: &GameState) -> (n: usize)
    ensures
        n as int == n_selected(state.cells@),
{
    proof {
        assert(state.cells@.take(0) =~= Seq::<Cell>::empty());
    }
    let mut n: usize = 0;
    let mut i: usize = 0;
    while i < state.cells.len()
        invariant
            0 <= i <= state.cells@.len(),
            n <= i,
            n as int == n_selected(state.cells@.take(i as int)),
        decreases state.cells@.len() - i,
    {
        proof {
            let t = state.cells@.take(i as int + 1);
            assert(t.last() == state.cells@[i as int]);
            assert(t.drop_last() =~= state.cells@.take(i as int));
        }
        if state.cells[i].selected {
            n = n + 1;
        }
        i = i + 1;
    }
    proof {
        assert(state.cells@.take(state.cells@.len() as int) =~= state.cells@);
    }
    n
}

/// Selects every cell whose value equals `target`, and no other.
#[verifier::loop_isolation(false)]
fn select_matching(state: &mut GameState, target: Value)
    ensures
        final(state).cells@.len() == old(state).cells@.len(),
        final(state).input_mode == old(state).input_mode,
        forall|j: int|
            0 <= j < old(state).cells@.len() ==> same_but_selected(
                old(state).cells@[j],
                #[trigger] final(state).cells@[j],
            ) && final(state).cells@[j].selected == (old(state).cells@[j].value == target),
{
    let mut i: usize = 0;
    while i < state.cells.len()
        invariant
            state.cells@.len() == old(state).cells@.len(),
            state.input_mode == old(state).input_mode,
            0 <= i <= state.cells@.len(),
            forall|j: int|
                0 <= j < i ==> same_but_selected(old(state).cells@[j], #[trigger] state.cells@[j])
                    && state.cells@[j].selected == (old(state).cells@[j].value == target),
            forall|j: int|
                i <= j < old(state).cells@.len() ==> #[trigger] state.cells@[j] == old(
                    state,
                ).cells@[j],
        decreases state.cells@.len() - i,
    {
        let matches_target = state.cells[i].value == target;
        set_selected(state, i, matches_target);
        i = i + 1;
    }
}

/// Selects cells based on the clicks received
pub fn handle_clicks(state: &mut GameState, click: &CellClick)
    requires
        old(state).wf(),
        // A click carrying a cell the board does not have is a caller error;
        // the index is rebuilt before dispatch, so it cannot occur.
        click.selected_cell matches Some(c) ==> (c as int) < old(state).cells@.len(),
    ensures
        final(state).wf(),
        final(state).input_mode == old(state).input_mode,
        final(state).cells@.len() == old(state).cells@.len(),
        forall|j: int|
            0 <= j < old(state).cells@.len() ==> same_but_selected(
                old(state).cells@[j],
                #[trigger] final(state).cells@[j],
            ),
        forall|j: int|
            0 <= j < old(state).cells@.len() ==> (#[trigger] final(state).cells@[j]).selected
                == spec_selected_after_click(old(state).cells@, *click, j),
{
    match click.selected_cell {
        // If the user clicks outside of the grid, unselect everything
        None => {
            clear_selection(state);
        },
        // A grid cell was clicked
        Some(entity) => {
            // A drag click was used
            if click.drag {
                // Select cells clicked
                set_selected(state, entity, true);
                // A non-drag click was used
            } else if click.multi {
                // Shift or control was held:
                // select cells that aren't selected,
                // unselect cells that were already selected
                let was_selected = state.cells[entity].selected;
                set_selected(state, entity, !was_selected);
                // A single, instant click was used
            } else {
                // Count the number of currently selected cells
                let n_sel = count_selected(state);
                let was_selected = state.cells[entity].selected;
                let current_value = state.cells[entity].value;

                // On a double click, select all tiles with a matching number
                if was_selected && n_sel <= 1 {
                    select_matching(state, current_value);
                    // Normally, select just the cell clicked on
                } else {
                    clear_selection(state);
                    set_selected(state, entity, true);
                }
            }
        },
    }
    proof {
        assert forall|j: int| 0 <= j < old(state).cells@.len() implies (#[trigger] state.cells@[j]).wf_at(
            j,
        ) by {
            assert(old(state).cells@[j].wf_at(j));
        }
    }
}

/// Set the value of the selected cells from cell input events
#[verifier::loop_isolation(false)]
pub fn set_cell_value(state: &mut GameState, event: &CellInput)
    requires
        old(state).wf(),
        1 <= event.num <= 9,
    ensures
        final(state).wf(),
        final(state).input_mode == old(state).input_mode,
        final(state).cells@.len() == old(state).cells@.len(),
        forall|j: int|
            0 <= j < old(state).cells@.len() ==> same_but_value(
                old(state).cells@[j],
                #[trigger] final(state).cells@[j],
            ),
        forall|j: int|
            0 <= j < old(state).cells@.len() ==> if old(state).cells@[j].selected && !old(
                state,
            ).cells@[j].fixed.0 {
                input_applied(
                    old(state).input_mode,
                    old(state).cells@[j].value,
                    event.num,
                    (#[trigger] final(state).cells@[j]).value,
                )
            } else {
                final(state).cells@[j].value == old(state).cells@[j].value
            },
{
    let mut i: usize = 0;
    while i < state.cells.len()
        invariant
            state.cells@.len() == old(state).cells@.len(),
            state.input_mode == old(state).input_mode,
            0 <= i <= state.cells@.len(),
            forall|j: int|
                0 <= j < i ==> same_but_value(old(state).cells@[j], #[trigger] state.cells@[j])
                    && state.cells@[j].wf_at(j),
            forall|j: int|
                0 <= j < i ==> if old(state).cells@[j].selected && !old(state).cells@[j].fixed.0 {
                    input_applied(
                        old(state).input_mode,
                        old(state).cells@[j].value,
                        event.num,
                        (#[trigger] state.cells@[j]).value,
                    )
                } else {
                    state.cells@[j].value == old(state).cells@[j].value
                },
            forall|j: int|
                i <= j < old(state).cells@.len() ==> #[trigger] state.cells@[j] == old(
                    state,
                ).cells@[j],
        decreases state.cells@.len() - i,
    {
        let cell = state.cells[i];
        // Don't change the values of cells given by the puzzle; other
        // selected cells still update
        if cell.selected && !cell.fixed.0 {
            // The behavior of setting the cell's value varies based on which
            // input mode we're in
            let new_value = match state.input_mode {
                // Set the cell's value based on the event's contents
                InputMode::Fill => update_value_fill(&cell.value, event.num),
                InputMode::CenterMark => update_value_center(&cell.value, event.num),
                InputMode::CornerMark => update_value_corner(&cell.value, event.num),
            };
            set_value(state, i, new_value);
        }
        i = i + 1;
    }
}

/// Clears all selected cells when Backspace or Delete is pressed
#[verifier::loop_isolation(false)]
pub fn erase_selected_cells(state: &mut GameState, just_pressed: &Vec<KeyCode>)
    requires
        old(state).wf(),
    ensures
        final(state).wf(),
        final(state).input_mode == old(state).input_mode,
        final(state).cells@.len() == old(state).cells@.len(),
        forall|j: int|
            0 <= j < old(state).cells@.len() ==> same_but_value(
                old(state).cells@[j],
                #[trigger] final(state).cells@[j],
            ),
        forall|j: int|
            0 <= j < old(state).cells@.len() ==> (#[trigger] final(state).cells@[j]).value == if (
            key_in(just_pressed@, KeyCode::Delete) || key_in(just_pressed@, KeyCode::Back)) && old(
                state,
            ).cells@[j].selected && !old(state).cells@[j].fixed.0 {
                Value::Empty
            } else {
                old(state).cells@[j].value
            },
{
    if contains_key(just_pressed, KeyCode::Delete) || contains_key(just_pressed, KeyCode::Back) {
        let mut i: usize = 0;
        while i < state.cells.len()
            invariant
                state.cells@.len() == old(state).cells@.len(),
                state.input_mode == old(state).input_mode,
                0 <= i <= state.cells@.len(),
                forall|j: int|
                    0 <= j < i ==> same_but_value(
                        old(state).cells@[j],
                        #[trigger] state.cells@[j],
                    ) && state.cells@[j].wf_at(j),
                forall|j: int|
                    0 <= j < i ==> (#[trigger] state.cells@[j]).value == if old(
                        state,
                    ).cells@[j].selected && !old(state).cells@[j].fixed.0 {
                        Value::Empty
                    } else {
                        old(state).cells@[j].value
                    },
                forall|j: int|
                    i <= j < old(state).cells@.len() ==> #[trigger] state.cells@[j] == old(
                        state,
                    ).cells@[j],
            decreases state.cells@.len() - i,
        {
            let cell = state.cells[i];
            // Erase is a hard reset to Empty, not a toggle; Fixed cells keep
            // their value
            if cell.selected && !cell.fixed.0 {
                set_value(state, i, Value::Empty);
            }
            i = i + 1;
        }
    }
}

/// Selects all cells when Ctrl + A is pressed
#[verifier::loop_isolation(false)]
pub fn select_all(state: &mut GameState, pressed: &Vec<KeyCode>, just_pressed: &Vec<KeyCode>)
    requires
        old(state).wf(),
    ensures
        final(state).wf(),
        final(state).input_mode == old(state).input_mode,
        final(state).cells@.len() == old(state).cells@.len(),
        forall|j: int|
            0 <= j < old(state).cells@.len() ==> same_but_selected(
                old(state).cells@[j],
                #[trigger] final(state).cells@[j],
            ),
        forall|j: int|
            0 <= j < old(state).cells@.len() ==> (#[trigger] final(state).cells@[j]).selected == if (
            key_in(pressed@, KeyCode::LControl) || key_in(pressed@, KeyCode::RControl)) && key_in(
                just_pressed@,
                KeyCode::A,
            ) {
                true
            } else {
                old(state).cells@[j].selected
            },
{
    let ctrl = contains_key(pressed, KeyCode::LControl) || contains_key(
        pressed,
        KeyCode::RControl,
    );

    if ctrl && contains_key(just_pressed, KeyCode::A) {
        let mut i: usize = 0;
        while i < state.cells.len()
            invariant
                state.cells@.len() == old(state).cells@.len(),
                state.input_mode == old(state).input_mode,
                0 <= i <= state.cells@.len(),
                forall|j: int|
                    0 <= j < i ==> same_but_selected(
                        old(state).cells@[j],
                        #[trigger] state.cells@[j],
                    ) && state.cells@[j].selected,
                forall|j: int|
                    i <= j < old(state).cells@.len() ==> #[trigger] state.cells@[j] == old(
                        state,
                    ).cells@[j],
            decreases state.cells@.len() - i,
        {
            set_selected(state, i, true);
            i = i + 1;
        }
    }
    proof {
        assert forall|j: int| 0 <= j < old(state).cells@.len() implies (#[trigger] state.cells@[j]).wf_at(
            j,
        ) by {
            assert(old(state).cells@[j].wf_at(j));
        }
    }
}

/// The mode a batch of just-pressed keys switches to, if any: the fill key
/// wins over the center-mark key, which wins over the corner-mark key.
pub open spec fn spec_mode_after_keys(keys: Seq<KeyCode>, prior: InputMode) -> InputMode {
    if key_in(keys, KeyCode::Q) {
        InputMode::Fill
    } else if key_in(keys, KeyCode::W) {
        InputMode::CenterMark
    } else if key_in(keys, KeyCode::E) {
        InputMode::CornerMark
    } else {
        prior
    }
}

/// Swaps the input mode based on keyboard input
pub fn swap_input_mode(state: &mut GameState, just_pressed: &Vec<KeyCode>)
    ensures
        final(state).cells@ == old(state).cells@,
        final(state).input_mode == spec_mode_after_keys(just_pressed@, old(state).input_mode),
{
    if contains_key(just_pressed, KeyCode::Q) {
        state.input_mode = InputMode::Fill;
    } else if contains_key(just_pressed, KeyCode::W) {
        state.input_mode = InputMode::CenterMark;
    } else if contains_key(just_pressed, KeyCode::E) {
        state.input_mode = InputMode::CornerMark;
    }
}

/// Turns raw clicks into `CellClick` events: the spatial index decides the
/// cell under the cursor, a held shift or control asks for multi-selection,
/// and a press that is not fresh continues a drag.
pub fn cell_click(
    cell_index: &CellIndex,
    cursor_position: Point,
    pressed: &Vec<KeyCode>,
    left_just_pressed: bool,
) -> (click: CellClick)
    ensures
        click.selected_cell == spec_lookup(cell_index.entries(), cursor_position),
        click.multi == (key_in(pressed@, KeyCode::LShift) || key_in(pressed@, KeyCode::RShift)
            || key_in(pressed@, KeyCode::LControl) || key_in(pressed@, KeyCode::RControl)),
        click.drag == !left_just_pressed,
{
    // Use the CellIndex resource to map the mouse position to a particular cell
    let selected_cell = cell_index.get(cursor_position);

    // Send a multi select event when Shift or Control is held
    let multi = contains_key(pressed, KeyCode::LShift) || contains_key(pressed, KeyCode::RShift)
        || contains_key(pressed, KeyCode::LControl) || contains_key(pressed, KeyCode::RControl);

    // Send a drag event when the mouse was not just pressed
    let drag = !left_just_pressed;

    CellClick { selected_cell, multi, drag }
}

/// The value a clue seeds a cell with: a digit is a committed fill, a zero
/// leaves the cell empty.
pub open spec fn spec_clue_value(d: u8) -> Value {
    if d == 0 {
        Value::Empty
    } else {
        Value::Filled(d)
    }
}

/// Seeds the board from a clue grid: a digit becomes a fixed `Filled` cell,
/// a zero an empty fillable one; the selection is cleared. The input mode is
/// left as it was.
#[verifier::loop_isolation(false)]
pub fn load_puzzle(state: &mut GameState, clues: &Vec<u8>)
    requires
        old(state).wf(),
        clues@.len() == old(state).cells@.len(),
        forall|j: int| 0 <= j < clues@.len() ==> #[trigger] clues@[j] <= 9,
    ensures
        final(state).wf(),
        final(state).input_mode == old(state).input_mode,
        final(state).cells@.len() == old(state).cells@.len(),
        forall|j: int|
            0 <= j < old(state).cells@.len() ==> (#[trigger] final(state).cells@[j]).coordinates
                == old(state).cells@[j].coordinates,
        forall|j: int|
            0 <= j < old(state).cells@.len() ==> (#[trigger] final(state).cells@[j]).value
                == spec_clue_value(clues@[j]),
        forall|j: int|
            0 <= j < old(state).cells@.len() ==> (#[trigger] final(state).cells@[j]).fixed.0 == (
            clues@[j] != 0),
        forall|j: int|
            0 <= j < old(state).cells@.len() ==> !(#[trigger] final(state).cells@[j]).selected,
{
    let mut i: usize = 0;
    while i < state.cells.len()
        invariant
            state.cells@.len() == old(state).cells@.len(),
            clues@.len() == old(state).cells@.len(),
            state.input_mode == old(state).input_mode,
            forall|j: int| 0 <= j < clues@.len() ==> #[trigger] clues@[j] <= 9,
            0 <= i <= state.cells@.len(),
            forall|j: int|
                0 <= j < i ==> (#[trigger] state.cells@[j]).coordinates == old(
                    state,
                ).cells@[j].coordinates && state.cells@[j].wf_at(j),
            forall|j: int|
                0 <= j < i ==> (#[trigger] state.cells@[j]).value == spec_clue_value(clues@[j])
                    && state.cells@[j].fixed.0 == (clues@[j] != 0) && !state.cells@[j].selected,
            forall|j: int|
                i <= j < old(state).cells@.len() ==> #[trigger] state.cells@[j] == old(
                    state,
                ).cells@[j],
        decreases state.cells@.len() - i,
    {
        let clue = clues[i];
        let c = state.cells[i];
        let value = if clue == 0 {
            Value::Empty
        } else {
            Value::Filled(clue)
        };
        state.cells.set(
            i,
            Cell { coordinates: c.coordinates, value, fixed: Fixed(clue != 0), selected: false },
        );
        i = i + 1;
    }
}

/// Overwrites every cell's value with the solution grid (the reveal/cheat
/// operation); fixed flags and the selection are left as they are.
#[verifier::loop_isolation(false)]
pub fn solve_puzzle(state: &mut GameState, solution: &Vec<u8>)
    requires
        old(state).wf(),
        solution@.len() == old(state).cells@.len(),
        forall|j: int| 0 <= j < solution@.len() ==> 1 <= #[trigger] solution@[j] <= 9,
    ensures
        final(state).wf(),
        final(state).input_mode == old(state).input_mode,
        final(state).cells@.len() == old(state).cells@.len(),
        forall|j: int|
            0 <= j < old(state).cells@.len() ==> same_but_value(
                old(state).cells@[j],
                #[trigger] final(state).cells@[j],
            ) && final(state).cells@[j].value == Value::Filled(solution@[j]),
{
    let mut i: usize = 0;
    while i < state.cells.len()
        invariant
            state.cells@.len() == old(state).cells@.len(),
            solution@.len() == old(state).cells@.len(),
            state.input_mode == old(state).input_mode,
            forall|j: int| 0 <= j < solution@.len() ==> 1 <= #[trigger] solution@[j] <= 9,
            0 <= i <= state.cells@.len(),
            forall|j: int|
                0 <= j < i ==> same_but_value(old(state).cells@[j], #[trigger] state.cells@[j])
                    && state.cells@[j].wf_at(j) && state.cells@[j].value == Value::Filled(
                    solution@[j],
                ),
            forall|j: int|
                i <= j < old(state).cells@.len() ==> #[trigger] state.cells@[j] == old(
                    state,
                ).cells@[j],
        decreases state.cells@.len() - i,
    {
        set_value(state, i, Value::Filled(solution[i]));
        i = i + 1;
    }
}

} // verus!
