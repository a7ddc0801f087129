//! A CHIP-8 virtual machine core: instruction decoding, machine state,
//! the fetch/decode/execute cycle and the 64x32 monochrome framebuffer.
//!
//! Every executable function carries a contract stated over the
//! mathematical model in [`machine`], and is proved against it.

pub mod decode;
pub mod display;
pub mod fault;
pub mod laws;
pub mod machine;
pub mod cpu;
mod entropy;
