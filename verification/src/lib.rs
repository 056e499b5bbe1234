//! A CHIP-8 virtual machine: decoder, framebuffer, keypad, timers and the
//! interpreter that ties them together, with every transition specified and
//! proved against a mathematical model of the machine state.

pub mod alu;
pub mod decode;
pub mod display;
mod entropy;
pub mod error;
pub mod font;
pub mod host;
pub mod keypad;
pub mod machine;
pub mod model;
pub mod timers;
