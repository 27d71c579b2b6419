pub mod colors;
pub mod conversion;
pub mod net;

pub use colors::{CornerSticker, CubeColor, CubeDisplay, CubeFace, CubeStickers, EdgeSticker, Face, FaceStickers};
pub use conversion::StateToDisplay;
pub use net::cube_net_lines;
