//! An interpreter for a fixed-architecture 8-bit virtual machine: a
//! fetch-decode-execute engine over 4096 bytes of memory, sixteen 8-bit
//! registers, a 64x32 xor-drawn pixel buffer, a 16-key keypad and two
//! timers that decay once per real-time quantum. Every public operation
//! carries a contract stated over the mathematical model in `model`, and
//! the general laws of the instruction set are proved in `laws`.
pub mod model;
pub mod screen;
pub mod cpu;
pub mod laws;
