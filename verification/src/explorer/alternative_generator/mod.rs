pub mod corner_swap;
pub mod corner_twist;
pub mod edge_flip;
pub mod edge_swap;

pub use corner_swap::CornerSwapAlternativeGenerator;
pub use corner_twist::CornerTwistAlternativeGenerator;
pub use edge_flip::EdgeFlipAlternativeGenerator;
pub use edge_swap::EdgeSwapAlternativeGenerator;
