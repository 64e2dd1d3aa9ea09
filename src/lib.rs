//! A CHIP-8 virtual machine: memory, registers, call stack, timers,
//! framebuffer and keypad, driven one fetch-decode-execute cycle at a time.
#![allow(non_snake_case)]

pub mod config;
pub mod decode;
pub mod error;
pub mod font;
pub mod laws;
pub mod machine;
mod random;
pub mod session;
