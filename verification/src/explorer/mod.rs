pub mod alternative_generator;
pub mod collection_modifier;
pub mod edge_modifier;
pub mod edge_nearby_search;
pub mod mixed_modifier;
pub mod mixed_nearby_search;
pub mod modifier;
pub mod move_modifier;
pub mod nearby_search;
pub mod nearby_sequence_search;
pub mod notation_alternative_generator;
pub mod wrong_operation_detector;

pub use alternative_generator::{
    CornerSwapAlternativeGenerator, CornerTwistAlternativeGenerator, EdgeFlipAlternativeGenerator,
    EdgeSwapAlternativeGenerator,
};
pub use edge_modifier::{EdgeFlipModifier, EdgeModifier, EdgeSwapModifier, ModifiedEdgeSequence};
pub use edge_nearby_search::NearbyEdgeOperationSearch;
pub use mixed_modifier::{MixedModifier, ModifiedMixedSequence};
pub use mixed_nearby_search::{AlternativeGenerator, ApplyableToState, MixedOperation, NearbyMixedOperationSearch};
pub use modifier::{CornerModifier, ModifiedSequence, SwapModifier, TwistModifier};
pub use nearby_search::NearbyOperationSearch;
pub use notation_alternative_generator::{NotationAlternativeGenerator, SameGroupAlternativeGenerator};
pub use move_modifier::{ModifiedMoveSequence, MoveModifier};
pub use collection_modifier::{CollectionModifier, ModifiedMoveSequenceCollection};
pub use nearby_sequence_search::NearbySequenceSearch;
pub use wrong_operation_detector::WrongOperationDetector;
