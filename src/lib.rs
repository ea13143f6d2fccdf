//! Hex codec of the HSLuv color library: channel quantization, `#rrggbb`
//! formatting into a fixed-capacity buffer, and tolerant hex parsing.
//!
//! The color-space conversions themselves work in floating point and are built
//! on top of these pieces.

pub mod buffer;
pub mod hex;
pub mod quantize;

pub use hex::{bytes_to_hex, hex_to_channels, thousandths_to_hex};
pub use quantize::quantize_channel;
