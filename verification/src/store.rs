use vstd::prelude::*;

use crate::control::INVERT;
use crate::error::CpuError;

verus! {

/// Number of entries that a control store needs to answer every index.
pub const STORE_SIZE: usize = 1024;

/// The contents of a control store as a mathematical value: the low and the
/// high bytes of the stored control words, by index.
#[verifier::ext_equal]
pub struct Microcode {
    /// Low bytes of the stored words.
    pub low: Seq<u8>,
    /// High bytes of the stored words.
    pub high: Seq<u8>,
}

/// The position of a control word in the store: the zero flag, the carry
/// flag, a bit that is always clear, the opcode (the high nibble of
/// `instruction`) and the micro-step, from the most significant bit down.
pub open spec fn control_index(zero: bool, carry: bool, instruction: u8, step: int) -> int {
    let z: int = if zero { 512 } else { 0 };
    let c: int = if carry { 256 } else { 0 };
    z + c + 8 * (instruction / 16) + step
}

/// The control word that the stored bytes `low` and `high` stand for: the
/// two bytes side by side, with the active-low lines turned over.
pub open spec fn decoded(low: u8, high: u8) -> u16 {
    ((high * 256 + low) as u16) ^ INVERT
}

impl Microcode {
    /// Whether both halves of the store have an entry at `index`.
    pub open spec fn covers(self, index: int) -> bool {
        0 <= index < self.low.len() && index < self.high.len()
    }

    /// The control word at `index`, ready to be carried out.
    pub open spec fn word(self, index: int) -> u16 {
        decoded(self.low[index], self.high[index])
    }

    /// Whether the store answers every index that a machine can ask for.
    pub open spec fn complete(self) -> bool {
        self.low.len() >= STORE_SIZE && self.high.len() >= STORE_SIZE
    }
}

/// The two halves of the microcode, as they come out of the two memory chips
/// that hold it.
#[derive(Debug, PartialEq, Eq)]
pub struct ControlStore {
    /// Low bytes of the stored words.
    pub low: Vec<u8>,
    /// High bytes of the stored words.
    pub high: Vec<u8>,
}

impl View for ControlStore {
    type V = Microcode;

    open spec fn view(&self) -> Microcode {
        Microcode { low: self.low@, high: self.high@ }
    }
}

impl ControlStore {
    /// A control store with the given halves.
    pub fn new(low: Vec<u8>, high: Vec<u8>) -> (store: ControlStore)
        ensures
            store@.low == low@,
            store@.high == high@,
    {
        ControlStore { low, high }
    }

    /// Whether the store answers every index that a machine can ask for.
    pub fn is_complete(&self) -> (b: bool)
        ensures
            b == self@.complete(),
    {
        self.low.len() >= STORE_SIZE && self.high.len() >= STORE_SIZE
    }

    /// Reads the stored byte pair at `index`, low byte first.
    pub fn fetch(&self, index: usize) -> (r: Result<(u8, u8), CpuError>)
        ensures
            r == if self@.covers(index as int) {
                Ok::<(u8, u8), CpuError>((self@.low[index as int], self@.high[index as int]))
            } else {
                Err(CpuError::IndexOutOfRange)
            },
    {
        if index < self.low.len() && index < self.high.len() {
            Ok((self.low[index], self.high[index]))
        } else {
            Err(CpuError::IndexOutOfRange)
        }
    }

    /// Reads the control word at `index`, ready to be carried out.
    pub fn control_word(&self, index: usize) -> (r: Result<u16, CpuError>)
        ensures
            r == if self@.covers(index as int) {
                Ok::<u16, CpuError>(self@.word(index as int))
            } else {
                Err(CpuError::IndexOutOfRange)
            },
    {
        let (low, high) = self.fetch(index)?;
        assert(((high as u16) << 8 | (low as u16)) == (high * 256 + low) as u16) by (bit_vector);
        Ok(((high as u16) << 8 | (low as u16)) ^ INVERT)
    }
}

} // verus!
