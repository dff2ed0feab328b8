//! A glyph rasterization cache and pixel compositing pipeline.
//!
//! Shaped text arrives as an already-computed stream of positioned glyphs.
//! The library rasterizes each distinct glyph at most once through the
//! external rasterization collaborator, composites the resulting coverage
//! bitmaps into a fixed-size packed-RGB framebuffer with silent clipping,
//! and paces a fixed-rate presentation loop. Font discovery, Unicode
//! shaping and the display window itself stay outside.

pub mod glyph;
pub mod bitmap;
pub mod framebuffer;
pub mod compositor;
pub mod shaping;
pub mod cache;
pub mod renderer;
pub mod presentation;
