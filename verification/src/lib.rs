//! Verified core of a shortwave receiver and decoder: the configuration
//! document and its settings sections, the teleprinter, keying and phase shift
//! keying alphabets, the framing that turns bits into characters, decoded text
//! lines, the sample ring, the glyph atlas and the whole number decisions of
//! the signal path.

pub mod text;
pub mod number;
pub mod config;
pub mod decode;
pub mod common;
pub mod font;
pub mod dsp;
