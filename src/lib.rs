//! Right- and center-alignment of text lines against a common wall.

pub mod config;
pub mod model;
pub mod align;
pub mod text;
pub mod laws;
