//! An interpreter core for the CHIP-8 virtual machine: instruction decoding,
//! the processor state machine, the sprite rasterizer and frame pacing.

pub mod cpu;
pub mod decode;
pub mod font;
pub mod frame;
pub mod raster;
pub mod timing;
