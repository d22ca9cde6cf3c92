use vstd::prelude::*;

use crate::control::{
    asserted, UCODE_AI, UCODE_AO, UCODE_BI, UCODE_CE, UCODE_CO, UCODE_EO, UCODE_HLT, UCODE_II,
    UCODE_IO, UCODE_J, UCODE_MI, UCODE_OI, UCODE_RI, UCODE_RO, UCODE_SU,
};
use crate::error::CpuError;
use crate::store::{control_index, Microcode};

verus! {

/// Number of cells in the machine's memory.
pub const MEMORY_SIZE: usize = 16;

/// Number of micro-steps that make up one instruction cycle.
pub const MICRO_STEPS: usize = 8;

/// The machine as a mathematical value: what the registers, the flags and
/// the memory hold between two micro-steps.
#[verifier::ext_equal]
pub struct MachineState {
    /// Accumulator.
    pub a: u8,
    /// Second operand of the arithmetic unit.
    pub b: u8,
    /// Instruction register: opcode in the high nibble, operand in the low one.
    pub i: u8,
    /// Memory address register, four bits wide.
    pub m: u8,
    /// Program counter, four bits wide.
    pub c: u8,
    /// Carry flag.
    pub carry: bool,
    /// Zero flag.
    pub zero: bool,
    /// Memory cells, by address.
    pub mem: Seq<u8>,
}

/// What the arithmetic unit puts on the bus for operands `a` and `b`: their
/// sum, or their difference when `subtract` is set, reduced modulo 256.
pub open spec fn alu_output(a: u8, b: u8, subtract: bool) -> u8 {
    if subtract {
        ((a - b) % 256) as u8
    } else {
        ((a + b) % 256) as u8
    }
}

/// The program counter after it has advanced by one from `c`.
pub open spec fn counter_successor(c: u8) -> u8 {
    ((c + 1) % 16) as u8
}

/// How many of the five bus-driving lines `word` asserts.
pub open spec fn drivers(word: u16) -> nat {
    let ro: nat = if asserted(word, UCODE_RO) { 1 } else { 0 };
    let io: nat = if asserted(word, UCODE_IO) { 1 } else { 0 };
    let ao: nat = if asserted(word, UCODE_AO) { 1 } else { 0 };
    let eo: nat = if asserted(word, UCODE_EO) { 1 } else { 0 };
    let co: nat = if asserted(word, UCODE_CO) { 1 } else { 0 };
    ro + io + ao + eo + co
}

/// Whether `word` asserts a line that reads the bus.
pub open spec fn reads_bus(word: u16) -> bool {
    ||| asserted(word, UCODE_MI)
    ||| asserted(word, UCODE_RI)
    ||| asserted(word, UCODE_II)
    ||| asserted(word, UCODE_AI)
    ||| asserted(word, UCODE_BI)
    ||| asserted(word, UCODE_OI)
    ||| asserted(word, UCODE_J)
}

/// The condition that `word` stops the machine with, if any. Halt is looked
/// at first, then the drivers, then the readers; a word that passes all
/// three is carried out in full.
pub open spec fn fault(word: u16) -> Option<CpuError> {
    if asserted(word, UCODE_HLT) {
        Some(CpuError::HaltAndCatchFire)
    } else if drivers(word) > 1 {
        Some(CpuError::BusContention)
    } else if drivers(word) == 0 && reads_bus(word) {
        Some(CpuError::FloatingBus)
    } else {
        None
    }
}

impl MachineState {
    /// The address register and the program counter both name a memory
    /// cell, and memory has its full size.
    pub open spec fn wf(self) -> bool {
        &&& self.m < MEMORY_SIZE
        &&& self.c < MEMORY_SIZE
        &&& self.mem.len() == MEMORY_SIZE
    }

    /// The machine right after power-up, with `mem` as its memory.
    pub open spec fn reset(mem: Seq<u8>) -> MachineState {
        MachineState { a: 0, b: 0, i: 0, m: 0, c: 0, carry: false, zero: false, mem }
    }

    /// The value that the first asserted driving line of `word` puts on the
    /// bus, or `None` when the word leaves the bus floating.
    pub open spec fn driven(self, word: u16) -> Option<u8> {
        if asserted(word, UCODE_RO) {
            Some(self.mem[self.m as int])
        } else if asserted(word, UCODE_IO) {
            Some(self.i % 16)
        } else if asserted(word, UCODE_AO) {
            Some(self.a)
        } else if asserted(word, UCODE_EO) {
            Some(alu_output(self.a, self.b, asserted(word, UCODE_SU)))
        } else if asserted(word, UCODE_CO) {
            Some(self.c)
        } else {
            None
        }
    }

    /// The state once every bus-reading line of `word` has taken `bus`. The
    /// address register and the program counter are four bits wide and keep
    /// the low nibble only, and a memory write goes to the cell that the
    /// address register names after its own update.
    pub open spec fn latched(self, word: u16, bus: u8) -> MachineState {
        let m = if asserted(word, UCODE_MI) { bus % 16 } else { self.m };
        MachineState {
            a: if asserted(word, UCODE_AI) { bus } else { self.a },
            b: if asserted(word, UCODE_BI) { bus } else { self.b },
            i: if asserted(word, UCODE_II) { bus } else { self.i },
            m,
            c: if asserted(word, UCODE_J) { bus % 16 } else { self.c },
            carry: self.carry,
            zero: self.zero,
            mem: if asserted(word, UCODE_RI) { self.mem.update(m as int, bus) } else { self.mem },
        }
    }

    /// The state once the counter-enable line of `word` has been looked at.
    pub open spec fn counted(self, word: u16) -> MachineState {
        if asserted(word, UCODE_CE) {
            MachineState { c: counter_successor(self.c), ..self }
        } else {
            self
        }
    }

    /// The state after a micro-step that carries out `word` in full: the
    /// readers take the bus, then the counter advances. The flags are never
    /// written.
    pub open spec fn after(self, word: u16) -> MachineState {
        match self.driven(word) {
            Some(bus) => self.latched(word, bus).counted(word),
            None => self.counted(word),
        }
    }

    /// The value that a micro-step carrying out `word` in full hands to the
    /// output device, if any.
    pub open spec fn emitted(self, word: u16) -> Option<u8> {
        if asserted(word, UCODE_OI) {
            self.driven(word)
        } else {
            None
        }
    }
}

/// How far a run of micro-steps has come: the state it reached, the values
/// it handed to the output device, and the condition that stopped it, if one
/// did.
#[verifier::ext_equal]
pub struct Progress {
    /// The state after the last micro-step that was carried out.
    pub state: MachineState,
    /// The values handed to the output device, oldest first.
    pub trace: Seq<u8>,
    /// The condition that stopped the run.
    pub fault: Option<CpuError>,
}

impl Progress {
    /// A run that has not begun.
    pub open spec fn start(state: MachineState) -> Progress {
        Progress { state, trace: Seq::empty(), fault: None }
    }

    /// The run after micro-step number `step` of an instruction cycle. The
    /// machine asks the store for the word that its flags, its opcode and
    /// `step` select. A missing entry or a faulting word stops the run where
    /// it stands, and a stopped run stays as it is.
    pub open spec fn advance(self, code: Microcode, step: int) -> Progress {
        let index = control_index(self.state.zero, self.state.carry, self.state.i, step);
        let word = code.word(index);
        if self.fault is Some {
            self
        } else if !code.covers(index) {
            Progress { fault: Some(CpuError::IndexOutOfRange), ..self }
        } else if fault(word) is Some {
            Progress { fault: fault(word), ..self }
        } else {
            Progress {
                state: self.state.after(word),
                trace: match self.state.emitted(word) {
                    Some(value) => self.trace.push(value),
                    None => self.trace,
                },
                fault: None,
            }
        }
    }

    /// What a caller is told of the run: the condition that stopped it, or
    /// nothing when it ran through.
    pub open spec fn outcome(self) -> Result<(), CpuError> {
        match self.fault {
            Some(e) => Err(e),
            None => Ok(()),
        }
    }
}

/// The first `n` micro-steps of an instruction cycle that begins in `state`.
pub open spec fn micro_steps(state: MachineState, code: Microcode, n: nat) -> Progress
    decreases n,
{
    if n == 0 {
        Progress::start(state)
    } else {
        micro_steps(state, code, (n - 1) as nat).advance(code, n - 1)
    }
}

/// One instruction cycle that begins in `state`: all of its micro-steps, or
/// as many as it took to stop the machine.
pub open spec fn cycle(state: MachineState, code: Microcode) -> Progress {
    micro_steps(state, code, MICRO_STEPS as nat)
}

/// A run that has stopped is not changed by further micro-steps.
pub proof fn lemma_stopped_run_stays(state: MachineState, code: Microcode, n: nat, m: nat)
    requires
        n <= m,
        micro_steps(state, code, n).fault is Some,
    ensures
        micro_steps(state, code, m) == micro_steps(state, code, n),
    decreases m,
{
    if n < m {
        lemma_stopped_run_stays(state, code, n, (m - 1) as nat);
    }
}

/// The first `n` instruction cycles of a machine that begins in `state`, one
/// after the other, up to the first that stops the machine.
pub open spec fn cycles(state: MachineState, code: Microcode, n: nat) -> Progress
    decreases n,
{
    if n == 0 {
        Progress::start(state)
    } else {
        let before = cycles(state, code, (n - 1) as nat);
        if before.fault is Some {
            before
        } else {
            let last = cycle(before.state, code);
            Progress { state: last.state, trace: before.trace + last.trace, fault: last.fault }
        }
    }
}

/// A run of cycles that has stopped is not changed by asking for more.
pub proof fn lemma_stopped_cycles_stay(state: MachineState, code: Microcode, n: nat, m: nat)
    requires
        n <= m,
        cycles(state, code, n).fault is Some,
    ensures
        cycles(state, code, m) == cycles(state, code, n),
    decreases m,
{
    if n < m {
        lemma_stopped_cycles_stay(state, code, n, (m - 1) as nat);
    }
}

} // verus!
