//! Ordered (Bayer-matrix) dithering of an RGB pixel grid to a fixed
//! palette of eighteen colours.
use vstd::prelude::*;

pub mod dither;
pub mod palette;
pub mod perturb;
pub mod quantize;
pub mod tile;

pub use dither::{dither, dither_named, dither_pixel};
pub use palette::{palette, Pixel, PALETTE_LEN};
pub use perturb::{channel_offset, perturb};
pub use quantize::{closest_color, PerturbedColor};
pub use tile::{DitherError, Tile};

verus! {

} // verus!
