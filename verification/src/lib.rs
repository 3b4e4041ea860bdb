//! Image preparation and prefetch pipeline of a slide show.
//!
//! A decoded RGB raster is turned into a buffer of packed opaque pixels, band
//! by band in parallel. A worker answers decode requests with such buffers, and
//! a display loop keeps one decoded image ahead of the one on screen.

pub mod catalog;
pub mod config;
pub mod convert;
pub mod driver;
pub mod error;
pub mod interval;
pub mod pixel;
pub mod protocol;
