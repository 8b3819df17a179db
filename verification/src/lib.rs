//! A verified CHIP-8 interpreter core: fetch/decode/execute over a 4096-byte
//! memory, sixteen 8-bit registers, a call stack, two 60 Hz timers, a 64x32
//! monochrome framebuffer, and three construction-time quirk toggles.
//!
//! Windowing, audio output and ROM loading are left to the surrounding
//! program; the core exchanges only plain values with them.
pub mod decode;
pub mod emu;
pub mod font;
pub mod keymap;
pub mod laws;
pub mod machine;
mod rng;
pub mod timing;
