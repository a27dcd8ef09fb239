//! Draws images and camera frames as text: each sampled pixel becomes a glyph chosen by its
//! perceptual brightness, optionally wrapped in 24-bit ANSI colour escapes.

use vstd::prelude::*;

pub mod camera;
pub mod cli;
pub mod glyph;
pub mod intensity;
pub mod layout;
pub mod render;

verus! {

} // verus!
