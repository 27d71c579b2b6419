pub mod corner_solver;
pub mod edge_solver;
pub mod json_reading;
pub mod operations_to_turns;

pub use corner_solver::{CornerInspection, CornerOperation, CornerSwapOperation, CornerTwistOperation};
pub use edge_solver::{EdgeFlipOperation, EdgeInspection, EdgeOperation, EdgeSwapOperation};
pub use operations_to_turns::{MoveSequence, MoveSequenceCollection, OperationsToTurns};
