pub mod bld_workflow;
pub mod mixed_nearby_search_workflow;
pub mod nearby_sequence_search_workflow;

pub use bld_workflow::{AllOperations, BldSolution, BldWorkflow, Operation};
pub use mixed_nearby_search_workflow::MixedNearbySearchWorkflow;
pub use nearby_sequence_search_workflow::{AlternativeResult, NearbySequenceSearchWorkflow};
