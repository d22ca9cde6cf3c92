use vstd::prelude::*;

verus! {

/// Halt: stop the machine.
pub const UCODE_HLT: u16 = 0x0080;

/// Memory address in: the address register takes the low nibble of the bus.
pub const UCODE_MI: u16 = 0x0040;

/// RAM in: the addressed memory cell takes the bus.
pub const UCODE_RI: u16 = 0x0020;

/// RAM out: the addressed memory cell drives the bus.
pub const UCODE_RO: u16 = 0x0010;

/// Instruction out: the low nibble of the instruction register drives the bus.
pub const UCODE_IO: u16 = 0x0008;

/// Instruction in: the instruction register takes the bus.
pub const UCODE_II: u16 = 0x0004;

/// A in: the accumulator takes the bus.
pub const UCODE_AI: u16 = 0x0002;

/// A out: the accumulator drives the bus.
pub const UCODE_AO: u16 = 0x0001;

/// Sum out: the arithmetic unit drives the bus.
pub const UCODE_EO: u16 = 0x8000;

/// Subtract: the arithmetic unit computes a difference instead of a sum.
pub const UCODE_SU: u16 = 0x4000;

/// B in: the B register takes the bus.
pub const UCODE_BI: u16 = 0x2000;

/// Output in: the output device takes the bus.
pub const UCODE_OI: u16 = 0x1000;

/// Counter enable: the program counter advances by one.
pub const UCODE_CE: u16 = 0x0800;

/// Counter out: the program counter drives the bus.
pub const UCODE_CO: u16 = 0x0400;

/// Jump: the program counter takes the low nibble of the bus.
pub const UCODE_J: u16 = 0x0200;

/// Flags in: reserved; it changes nothing.
pub const UCODE_FI: u16 = 0x0100;

/// The lines that the control store holds active-low. A stored word is
/// exclusive-ORed with this mask before it is decoded, so that every line
/// reads active-high afterwards.
pub const INVERT: u16 = UCODE_MI | UCODE_RO | UCODE_IO | UCODE_II | UCODE_AI | UCODE_AO | UCODE_EO
    | UCODE_BI | UCODE_CO | UCODE_J | UCODE_FI;

/// Whether control word `word` asserts `line`.
pub open spec fn asserted(word: u16, line: u16) -> bool {
    word & line != 0
}

/// Whether control word `word` asserts `line`.
pub fn is_asserted(word: u16, line: u16) -> (b: bool)
    ensures
        b == asserted(word, line),
{
    word & line != 0
}

} // verus!
