//! The preprocessing steps. Each one maps a pixel buffer to a new one.

pub mod grayscale;
pub mod normalize;
pub mod threshold;
pub mod denoise;
pub mod neighbors;
pub mod sharpen;
pub mod resize;
pub mod deskew;
