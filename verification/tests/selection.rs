//! Selection state machine and the interaction dispatcher.

use sudoku_logic::board::Value;
use sudoku_logic::input_mode::InputMode;
use sudoku_logic::interaction::{
    CellClick, GameState, count_selected, erase_selected_cells, handle_clicks, select_all,
    set_cell_value, solve_puzzle, swap_input_mode, load_puzzle,
};
use sudoku_logic::keyboard::{CellInput, KeyCode};

fn cell_at(row: usize, column: usize) -> usize {
    (row - 1) * 9 + column - 1
}

fn plain_click(state: &mut GameState, cell: usize) {
    let click = CellClick { selected_cell: Some(cell), multi: false, drag: false };
    handle_clicks(state, &click);
}

fn multi_click(state: &mut GameState, cell: usize) {
    let click = CellClick { selected_cell: Some(cell), multi: true, drag: false };
    handle_clicks(state, &click);
}

fn selected_cells(state: &GameState) -> Vec<usize> {
    state
        .cells
        .iter()
        .enumerate()
        .filter(|(_, c)| c.selected)
        .map(|(i, _)| i)
        .collect()
}

#[test]
fn new_board_has_81_empty_unselected_cells() {
    let state = GameState::new();
    assert_eq!(state.cells.len(), 81);
    assert_eq!(state.input_mode, InputMode::Fill);
    for cell in &state.cells {
        assert_eq!(cell.value, Value::Empty);
        assert!(!cell.fixed.0);
        assert!(!cell.selected);
    }
    assert_eq!(state.cells[cell_at(4, 5)].coordinates.row, 4);
    assert_eq!(state.cells[cell_at(4, 5)].coordinates.column, 5);
    assert_eq!(state.cells[cell_at(4, 5)].coordinates.square, 5);
}

#[test]
fn click_outside_clears_selection_whatever_held() {
    let mut state = GameState::new();
    multi_click(&mut state, cell_at(2, 2));
    multi_click(&mut state, cell_at(3, 3));
    assert_eq!(count_selected(&state), 2);

    // target None clears unconditionally, even with multi and drag set
    let click = CellClick { selected_cell: None, multi: true, drag: true };
    handle_clicks(&mut state, &click);
    assert_eq!(count_selected(&state), 0);
}

#[test]
fn plain_click_selects_only_that_cell() {
    let mut state = GameState::new();
    multi_click(&mut state, cell_at(1, 1));
    multi_click(&mut state, cell_at(9, 9));
    plain_click(&mut state, cell_at(5, 5));
    assert_eq!(selected_cells(&state), vec![cell_at(5, 5)]);
}

#[test]
fn multi_click_toggles_membership() {
    let mut state = GameState::new();
    multi_click(&mut state, cell_at(1, 1));
    multi_click(&mut state, cell_at(1, 2));
    assert_eq!(selected_cells(&state), vec![cell_at(1, 1), cell_at(1, 2)]);

    // a second multi click on a selected cell deselects just that cell
    multi_click(&mut state, cell_at(1, 1));
    assert_eq!(selected_cells(&state), vec![cell_at(1, 2)]);
}

#[test]
fn drag_only_ever_adds() {
    let mut state = GameState::new();
    plain_click(&mut state, cell_at(3, 1));
    for column in 1..=5 {
        let click =
            CellClick { selected_cell: Some(cell_at(3, column)), multi: false, drag: true };
        handle_clicks(&mut state, &click);
    }
    assert_eq!(
        selected_cells(&state),
        (1..=5).map(|c| cell_at(3, c)).collect::<Vec<_>>()
    );

    // dragging over an already selected cell never removes it
    let click = CellClick { selected_cell: Some(cell_at(3, 2)), multi: false, drag: true };
    handle_clicks(&mut state, &click);
    assert_eq!(count_selected(&state), 5);
}

#[test]
fn double_click_selects_all_matching_values() {
    let mut state = GameState::new();
    // six cells filled with 7, scattered over the board
    let sevens = [
        cell_at(1, 1),
        cell_at(2, 5),
        cell_at(4, 4),
        cell_at(6, 9),
        cell_at(8, 2),
        cell_at(9, 7),
    ];
    for &cell in &sevens {
        plain_click(&mut state, cell);
        set_cell_value(&mut state, &CellInput { num: 7 });
    }
    // a plain click selects the lone cell, a second selects every 7
    plain_click(&mut state, cell_at(4, 4));
    assert_eq!(selected_cells(&state), vec![cell_at(4, 4)]);
    plain_click(&mut state, cell_at(4, 4));
    assert_eq!(selected_cells(&state), sevens.to_vec());
}

#[test]
fn double_click_on_empty_cell_selects_all_empty_cells() {
    let mut state = GameState::new();
    plain_click(&mut state, cell_at(5, 5));
    plain_click(&mut state, cell_at(5, 5));
    // every cell is empty, so match-select takes the whole board
    assert_eq!(count_selected(&state), 81);
}

#[test]
fn match_select_does_not_mix_fills_and_marks() {
    let mut state = GameState::new();
    // cell (1,1) filled with 5; cell (1,2) center-marked 5
    plain_click(&mut state, cell_at(1, 1));
    set_cell_value(&mut state, &CellInput { num: 5 });
    plain_click(&mut state, cell_at(1, 2));
    swap_input_mode(&mut state, &vec![KeyCode::W]);
    set_cell_value(&mut state, &CellInput { num: 5 });

    // double-click the filled cell: the marked cell does not match
    plain_click(&mut state, cell_at(1, 1));
    plain_click(&mut state, cell_at(1, 1));
    assert_eq!(selected_cells(&state), vec![cell_at(1, 1)]);
}

#[test]
fn select_all_needs_ctrl_and_a() {
    let mut state = GameState::new();
    select_all(&mut state, &vec![KeyCode::LControl], &vec![KeyCode::A]);
    assert_eq!(count_selected(&state), 81);

    let mut other = GameState::new();
    select_all(&mut other, &vec![], &vec![KeyCode::A]);
    assert_eq!(count_selected(&other), 0);
    select_all(&mut other, &vec![KeyCode::RControl], &vec![]);
    assert_eq!(count_selected(&other), 0);
}

#[test]
fn erase_clears_selected_fillable_cells() {
    let mut state = GameState::new();
    // fill (1,1) and (1,2), then select both with multi clicks and erase
    plain_click(&mut state, cell_at(1, 1));
    set_cell_value(&mut state, &CellInput { num: 3 });
    plain_click(&mut state, cell_at(1, 2));
    set_cell_value(&mut state, &CellInput { num: 4 });
    handle_clicks(&mut state, &CellClick { selected_cell: None, multi: false, drag: false });

    multi_click(&mut state, cell_at(1, 1));
    multi_click(&mut state, cell_at(1, 2));
    erase_selected_cells(&mut state, &vec![KeyCode::Delete]);
    assert_eq!(state.cells[cell_at(1, 1)].value, Value::Empty);
    assert_eq!(state.cells[cell_at(1, 2)].value, Value::Empty);
}

#[test]
fn erase_needs_delete_or_backspace() {
    let mut state = GameState::new();
    plain_click(&mut state, cell_at(2, 2));
    set_cell_value(&mut state, &CellInput { num: 8 });
    erase_selected_cells(&mut state, &vec![KeyCode::Q]);
    assert_eq!(state.cells[cell_at(2, 2)].value, Value::Filled(8));
    erase_selected_cells(&mut state, &vec![KeyCode::Back]);
    assert_eq!(state.cells[cell_at(2, 2)].value, Value::Empty);
}

#[test]
fn fixed_cell_ignores_digit_input() {
    let mut state = GameState::new();
    let mut clues = vec![0u8; 81];
    clues[cell_at(1, 1)] = 9;
    load_puzzle(&mut state, &clues);
    assert!(state.cells[cell_at(1, 1)].fixed.0);

    plain_click(&mut state, cell_at(1, 1));
    set_cell_value(&mut state, &CellInput { num: 5 });
    assert_eq!(state.cells[cell_at(1, 1)].value, Value::Filled(9));
}

#[test]
fn fixed_cell_never_blocks_other_selected_cells() {
    let mut state = GameState::new();
    let mut clues = vec![0u8; 81];
    clues[cell_at(1, 1)] = 9;
    load_puzzle(&mut state, &clues);

    // select the fixed cell first, then a fillable one
    plain_click(&mut state, cell_at(1, 1));
    multi_click(&mut state, cell_at(1, 2));
    set_cell_value(&mut state, &CellInput { num: 5 });
    assert_eq!(state.cells[cell_at(1, 1)].value, Value::Filled(9));
    assert_eq!(state.cells[cell_at(1, 2)].value, Value::Filled(5));
}

#[test]
fn fixed_cell_survives_erase() {
    let mut state = GameState::new();
    let mut clues = vec![0u8; 81];
    clues[cell_at(7, 7)] = 2;
    load_puzzle(&mut state, &clues);
    plain_click(&mut state, cell_at(7, 7));
    erase_selected_cells(&mut state, &vec![KeyCode::Delete]);
    assert_eq!(state.cells[cell_at(7, 7)].value, Value::Filled(2));
}

#[test]
fn center_mark_twice_through_dispatcher_ends_empty() {
    let mut state = GameState::new();
    swap_input_mode(&mut state, &vec![KeyCode::W]);
    assert_eq!(state.input_mode, InputMode::CenterMark);

    plain_click(&mut state, cell_at(3, 3));
    set_cell_value(&mut state, &CellInput { num: 3 });
    assert!(matches!(state.cells[cell_at(3, 3)].value, Value::Marked(_, _)));
    set_cell_value(&mut state, &CellInput { num: 3 });
    assert_eq!(state.cells[cell_at(3, 3)].value, Value::Empty);
    assert!(!matches!(state.cells[cell_at(3, 3)].value, Value::Marked(_, _)));
}

#[test]
fn swap_input_mode_prefers_fill_over_marks() {
    let mut state = GameState::new();
    swap_input_mode(&mut state, &vec![KeyCode::E]);
    assert_eq!(state.input_mode, InputMode::CornerMark);
    swap_input_mode(&mut state, &vec![]);
    assert_eq!(state.input_mode, InputMode::CornerMark);
    swap_input_mode(&mut state, &vec![KeyCode::W, KeyCode::Q]);
    assert_eq!(state.input_mode, InputMode::Fill);
}

#[test]
fn mode_switch_is_not_retroactive() {
    let mut state = GameState::new();
    plain_click(&mut state, cell_at(6, 6));
    set_cell_value(&mut state, &CellInput { num: 4 });
    assert_eq!(state.cells[cell_at(6, 6)].value, Value::Filled(4));

    // switching mode changes nothing until the next digit input
    swap_input_mode(&mut state, &vec![KeyCode::W]);
    assert_eq!(state.cells[cell_at(6, 6)].value, Value::Filled(4));
    set_cell_value(&mut state, &CellInput { num: 2 });
    assert!(matches!(state.cells[cell_at(6, 6)].value, Value::Marked(_, _)));
}

#[test]
fn digit_with_empty_selection_is_a_no_op() {
    let mut state = GameState::new();
    set_cell_value(&mut state, &CellInput { num: 5 });
    for cell in &state.cells {
        assert_eq!(cell.value, Value::Empty);
    }
}

#[test]
fn load_puzzle_seeds_values_and_clears_selection() {
    let mut state = GameState::new();
    select_all(&mut state, &vec![KeyCode::LControl], &vec![KeyCode::A]);

    let mut clues = vec![0u8; 81];
    clues[cell_at(1, 1)] = 5;
    clues[cell_at(9, 9)] = 1;
    load_puzzle(&mut state, &clues);

    assert_eq!(count_selected(&state), 0);
    assert_eq!(state.cells[cell_at(1, 1)].value, Value::Filled(5));
    assert!(state.cells[cell_at(1, 1)].fixed.0);
    assert_eq!(state.cells[cell_at(1, 2)].value, Value::Empty);
    assert!(!state.cells[cell_at(1, 2)].fixed.0);
    assert_eq!(state.cells[cell_at(9, 9)].value, Value::Filled(1));
}

#[test]
fn solve_puzzle_overwrites_every_cell() {
    let mut state = GameState::new();
    plain_click(&mut state, cell_at(1, 1));
    set_cell_value(&mut state, &CellInput { num: 3 });

    let solution: Vec<u8> = (0..81).map(|i| (i % 9 + 1) as u8).collect();
    solve_puzzle(&mut state, &solution);
    for (i, cell) in state.cells.iter().enumerate() {
        assert_eq!(cell.value, Value::Filled((i % 9 + 1) as u8));
    }
}
