//! Decoder for a legacy binary embroidery stitch format.
//!
//! The decoder turns a raw design file into a sequence of color-grouped
//! path operations: absolute stitch positions are reconstructed from
//! relative motion codes, segmented into uninterrupted path blocks, and
//! grouped into one operation per palette color.

pub mod dst;
pub mod laws;
pub mod model;
