//! Image filters on raw 8-bit pixel buffers (RGB triples or single-channel
//! luma), the choice of which filters run, and the decisions that drive a
//! GPU compute job.

pub mod pixels;
pub mod root;
pub mod grid;
pub mod sobel;
pub mod blur;
pub mod selection;
pub mod gpu;
