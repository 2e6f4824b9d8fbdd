//! A CHIP-8 virtual machine: instruction decoding, the register and memory
//! store, framebuffer composition and the fetch-decode-execute step.
pub mod bits;
pub mod cpu;
pub mod framebuffer;
pub mod instruction;
pub mod keypad;
pub mod machine;
pub mod timer;
