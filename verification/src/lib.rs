//! The logic of an audio reactive lighting mode for keyboards.
//!
//! Sound is split into frequency bands, and each column of the key matrix shows the level of one band
//! as a bar of colors. This crate reads the configuration, decides what to analyze, and renders the
//! frames. It holds no floating-point arithmetic: single-precision numbers are carried by their bits
//! and compared, and what has to be computed with them is left to the caller.

pub mod capture;
pub mod config;
pub mod device;
pub mod entry;
pub mod entry_laws;
pub mod frame;
pub mod frame_laws;
pub mod load;
pub mod load_laws;
pub mod names;
pub mod palette;
pub mod reload_laws;
pub mod rng;
pub mod single;
pub mod spectrum;
pub mod text;
pub mod text_laws;
