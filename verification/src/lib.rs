//! A microcode-driven 8-bit processor.
//!
//! The machine has five registers, two flags and sixteen bytes of memory. It
//! has no instruction set of its own: a control store holds, for every
//! opcode, flag setting and micro-step, a sixteen-bit control word whose
//! bits are the control lines of the machine. An instruction cycle is eight
//! micro-steps; each carries out one control word, moving one value over a
//! bus that a single line may drive and any number of lines may read.
//!
//! [`model`] says what a micro-step and a cycle do, as functions on
//! mathematical values. [`cpu`] and [`store`] hold the machine itself, whose
//! functions are proved to do exactly that, and [`laws`] states what follows
//! for every control word and every state.

pub mod bus;
pub mod control;
pub mod cpu;
pub mod error;
pub mod laws;
pub mod model;
pub mod output;
pub mod store;

pub use bus::Bus;
pub use cpu::Cpu;
pub use error::CpuError;
pub use store::ControlStore;
