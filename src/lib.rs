//! Integer core of a Monte-Carlo path tracer: texel lookup in decoded images,
//! PPM output encoding, checker-cell parity, the Perlin permutation lattice,
//! the bounding-volume-hierarchy split layout and the preview frame counters.
pub mod bvh;
pub mod image;
pub mod perlin;
pub mod ppm;
pub mod preview;
mod random;
pub mod shape;
pub mod texture;
