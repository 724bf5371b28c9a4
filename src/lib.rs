//! A verified text layout pipeline: grapheme segmentation, font fallback
//! runs, bidirectional reordering, shaping, glyph assembly and outline paths.
//!
//! All geometry is held in 26.6 fixed point (one unit is 1/64 pixel).

pub mod segment;
pub mod shaping;
pub mod text;
pub mod assemble;
pub mod outline;
pub mod pipeline;
