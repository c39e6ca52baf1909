//! An instruction-set emulator for an ARMv7-M class microcontroller core.
//!
//! The crate models the core of a Cortex-M4 profile machine: little-endian
//! bit primitives, byte-addressable memory regions behind an address bus,
//! a register file with banked stack pointers, a Thumb instruction decoder,
//! an execution engine, and an NVIC-like pending-exception controller.
//!
//! Every component carries its mathematical model: `ProcModel` is the value
//! of the whole machine, and `step_model` in `processor` is the transition
//! one architectural step performs. The executable code is verified to
//! follow those models exactly.

pub mod bits;
pub mod decoder;
pub mod fault;
pub mod instruction;
pub mod loader;
pub mod memory;
pub mod processor;
pub mod registers;
pub mod stepper;
