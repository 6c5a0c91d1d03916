//! Conway's Game of Life: a fixed-size grid of cells and its verified
//! transition function.

mod board;
mod cell;
mod engine;
mod random;

pub use board::{cell_count, is_rectangular, lemma_cell_count, live_cells, matrix_of, picked, Board};
pub use cell::Cell;
pub use engine::{
    lemma_corner_neighbors, lemma_full_neighborhood, lemma_step_deterministic, lemma_step_local,
    neighbor_count, neighbors, next_generation, next_state, next_step, weight_at,
};
