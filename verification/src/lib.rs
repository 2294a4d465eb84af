//! Verified core of a screen-capture overlay: pixel conversion, hashing,
//! annotation history, glyph blending and the request framing used when a
//! capture is delivered.

pub mod pixel;
pub mod cache;
pub mod annotate;
pub mod actions;
pub mod text;
pub mod draw;
pub mod render;
pub mod upload;
pub mod geom;
pub mod hotkey;
pub mod overlay;
