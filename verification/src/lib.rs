//! Interactive logic core of a single-player Sudoku game: the per-cell value
//! model (fills and candidate marks), the spatial index that maps a pointer
//! position to a cell, the selection state machine, and the dispatcher that
//! turns click and keyboard events into selection and value mutations.
//!
//! Rendering, layout and puzzle generation are external collaborators: they
//! supply cell geometry and clue grids, and read the board state back after
//! each tick. The types here hold everything those collaborators need as
//! plain values.

pub mod assoc;
pub mod board;
pub mod cell_index;
pub mod input_mode;
pub mod interaction;
pub mod keyboard;
pub mod marks;
