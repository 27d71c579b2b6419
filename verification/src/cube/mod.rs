pub mod operations;
pub mod state;

pub use operations::{apply_notation_move, apply_notation_sequence, RubiksCube};
pub use state::{PartialStatePattern, State, StateView};
