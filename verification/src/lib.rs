pub mod cli_state_input;
pub mod cube;
pub mod display;
pub mod explorer;
pub mod inspection;
pub mod parser;
pub mod text;
pub mod workflow;

pub use cli_state_input::StateInputEditor;
pub use cube::{PartialStatePattern, RubiksCube, State};
pub use display::{cube_net_lines, CubeColor, CubeDisplay, Face, StateToDisplay};
pub use explorer::{
    CornerModifier, EdgeFlipModifier, EdgeModifier, EdgeSwapModifier, ModifiedEdgeSequence, ModifiedSequence,
    NearbyEdgeOperationSearch, NearbyOperationSearch, SwapModifier, TwistModifier, WrongOperationDetector,
};
pub use inspection::{
    CornerInspection, CornerOperation, CornerSwapOperation, CornerTwistOperation, EdgeFlipOperation,
    EdgeInspection, EdgeOperation, EdgeSwapOperation, MoveSequence, OperationsToTurns,
};
pub use parser::{parse_3style_csv_text, parse_sequence, sequence_to_string, NotationMove, Sequence};
