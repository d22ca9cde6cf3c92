use vstd::prelude::*;

use crate::control::{
    asserted, INVERT, UCODE_AI, UCODE_AO, UCODE_BI, UCODE_CE, UCODE_CO, UCODE_EO, UCODE_FI,
    UCODE_HLT, UCODE_II, UCODE_IO, UCODE_J, UCODE_MI, UCODE_OI, UCODE_RI, UCODE_RO, UCODE_SU,
};
use crate::error::CpuError;
use crate::model::{
    counter_successor, cycle, cycles, drivers, fault, micro_steps, reads_bus, MachineState,
    MICRO_STEPS,
};
use crate::store::{control_index, Microcode, STORE_SIZE};

verus! {

/// Whether `line` is one of the five lines that drive the bus.
pub open spec fn is_driver(line: u16) -> bool {
    ||| line == UCODE_RO
    ||| line == UCODE_IO
    ||| line == UCODE_AO
    ||| line == UCODE_EO
    ||| line == UCODE_CO
}

/// Whether `line` is one of the seven lines that read the bus.
pub open spec fn is_reader(line: u16) -> bool {
    ||| line == UCODE_MI
    ||| line == UCODE_RI
    ||| line == UCODE_II
    ||| line == UCODE_AI
    ||| line == UCODE_BI
    ||| line == UCODE_OI
    ||| line == UCODE_J
}

/// The state after `n` micro-steps that each carry out `word` in full.
pub open spec fn repeated(state: MachineState, word: u16, n: nat) -> MachineState
    decreases n,
{
    if n == 0 {
        state
    } else {
        repeated(state, word, (n - 1) as nat).after(word)
    }
}

/// The arithmetic unit wraps around. When sum-out is the line that drives
/// the bus, the bus carries `(a + b) mod 256` with the subtract line clear
/// and `(a - b) mod 256` with it set, for every `a` and `b`; neither an
/// overflow nor an underflow is a fault.
pub proof fn lemma_alu_wraps(state: MachineState, word: u16)
    requires
        asserted(word, UCODE_EO),
        drivers(word) == 1,
    ensures
        !asserted(word, UCODE_SU) ==> state.driven(word) == Some(
            ((state.a + state.b) % 256) as u8,
        ),
        asserted(word, UCODE_SU) ==> state.driven(word) == Some(((state.a - state.b) % 256) as u8),
        !asserted(word, UCODE_HLT) ==> fault(word) is None,
{
}

/// Counter enable moves the program counter from `c` to `(c + 1) mod 16`,
/// whether or not anything drives the bus, and touches nothing else. In a
/// micro-step without a jump, `c` is the counter that the micro-step found;
/// in one with a jump, it is the low nibble of the bus.
pub proof fn lemma_counter_advances(state: MachineState, word: u16)
    requires
        asserted(word, UCODE_CE),
    ensures
        state.counted(word) == (MachineState { c: ((state.c + 1) % 16) as u8, ..state }),
        state.counted(word).c < 16,
        !asserted(word, UCODE_J) ==> state.after(word).c == (state.c + 1) % 16,
        asserted(word, UCODE_J) ==> (state.driven(word) matches Some(bus) ==> state.after(word).c
            == (bus % 16 + 1) % 16),
{
}

/// Sixteen micro-steps with counter enable as their only line bring the
/// program counter back to where it was, and leave the rest of the machine
/// alone.
pub proof fn lemma_counter_comes_round(state: MachineState)
    requires
        state.wf(),
    ensures
        fault(UCODE_CE) is None,
        repeated(state, UCODE_CE, 16) == state,
{
    lemma_counter_enable_alone();
    lemma_counting(state, 16);
}

/// A control word with two different driving lines is a bus contention,
/// whichever two they are, unless the halt line stops the machine first.
pub proof fn lemma_two_drivers_contend(word: u16, first: u16, second: u16)
    requires
        is_driver(first),
        is_driver(second),
        first != second,
        asserted(word, first),
        asserted(word, second),
        !asserted(word, UCODE_HLT),
    ensures
        fault(word) == Some(CpuError::BusContention),
{
}

/// A control word with a reading line and no driving line finds the bus
/// floating, whichever line reads, unless the halt line stops the machine
/// first.
pub proof fn lemma_reader_needs_driver(word: u16, reader: u16)
    requires
        is_reader(reader),
        asserted(word, reader),
        drivers(word) == 0,
        !asserted(word, UCODE_HLT),
    ensures
        fault(word) == Some(CpuError::FloatingBus),
{
}

/// Whatever a control word asks for, a micro-step that carries it out leaves
/// the address register and the program counter within the sixteen cells of
/// memory, and memory at its full size.
pub proof fn lemma_registers_stay_in_range(state: MachineState, word: u16)
    requires
        state.wf(),
    ensures
        state.after(word).wf(),
        state.after(word).m < 16,
        state.after(word).c < 16,
{
}

/// The halt line wins over every other line of its control word.
pub proof fn lemma_halt_wins(word: u16)
    requires
        asserted(word, UCODE_HLT),
    ensures
        fault(word) == Some(CpuError::HaltAndCatchFire),
{
}

/// The flags line is reserved: asserting it changes neither what a control
/// word does to the machine nor whether it faults.
pub proof fn lemma_flags_line_is_idle(state: MachineState, word: u16)
    ensures
        fault(word | UCODE_FI) == fault(word),
        state.after(word | UCODE_FI) == state.after(word),
        state.emitted(word | UCODE_FI) == state.emitted(word),
        state.after(word).carry == state.carry,
        state.after(word).zero == state.zero,
{
    assert forall|line: u16| line & UCODE_FI == 0 implies #[trigger] asserted(
        word | UCODE_FI,
        line,
    ) == asserted(word, line) by {
        assert(line & UCODE_FI == 0 ==> (((word | UCODE_FI) & line != 0) == (word & line != 0)))
            by (bit_vector);
    }
    lemma_lines_apart();
}

/// Two machines in the same state with the same microcode cannot be told
/// apart: after any number of instruction cycles they are in the same state,
/// have stopped for the same reason or not at all, and have handed the same
/// values to the output device in the same order.
pub proof fn lemma_runs_agree(
    first: MachineState,
    second: MachineState,
    first_code: Microcode,
    second_code: Microcode,
    n: nat,
)
    requires
        first =~= second,
        first_code =~= second_code,
    ensures
        cycles(first, first_code, n) == cycles(second, second_code, n),
        cycle(first, first_code) == cycle(second, second_code),
{
}

/// Every index that a machine can ask for is below the size of a complete
/// control store.
pub proof fn lemma_index_in_store(zero: bool, carry: bool, instruction: u8, step: int)
    requires
        0 <= step < MICRO_STEPS,
    ensures
        0 <= control_index(zero, carry, instruction, step) < STORE_SIZE,
{
}

/// A complete control store answers every request: no instruction cycle
/// over it, and no run of cycles, stops for want of an entry.
pub proof fn lemma_complete_store_answers(state: MachineState, code: Microcode, n: nat)
    requires
        code.complete(),
    ensures
        cycle(state, code).fault != Some(CpuError::IndexOutOfRange),
        cycles(state, code, n).fault != Some(CpuError::IndexOutOfRange),
    decreases n,
{
    lemma_micro_steps_find_their_words(state, code, MICRO_STEPS as nat);
    if n > 0 {
        lemma_complete_store_answers(state, code, (n - 1) as nat);
        let before = cycles(state, code, (n - 1) as nat);
        lemma_micro_steps_find_their_words(before.state, code, MICRO_STEPS as nat);
    }
}

/// The stored form of a control word is turned over in exactly the lines
/// that the store holds active-low: a set bit there stands for a line at
/// rest. The other lines are stored as they are carried out.
pub proof fn lemma_invert_turns_active_low(raw: u16)
    ensures
        asserted(raw ^ INVERT, UCODE_MI) == !asserted(raw, UCODE_MI),
        asserted(raw ^ INVERT, UCODE_RO) == !asserted(raw, UCODE_RO),
        asserted(raw ^ INVERT, UCODE_IO) == !asserted(raw, UCODE_IO),
        asserted(raw ^ INVERT, UCODE_II) == !asserted(raw, UCODE_II),
        asserted(raw ^ INVERT, UCODE_AI) == !asserted(raw, UCODE_AI),
        asserted(raw ^ INVERT, UCODE_AO) == !asserted(raw, UCODE_AO),
        asserted(raw ^ INVERT, UCODE_EO) == !asserted(raw, UCODE_EO),
        asserted(raw ^ INVERT, UCODE_BI) == !asserted(raw, UCODE_BI),
        asserted(raw ^ INVERT, UCODE_CO) == !asserted(raw, UCODE_CO),
        asserted(raw ^ INVERT, UCODE_J) == !asserted(raw, UCODE_J),
        asserted(raw ^ INVERT, UCODE_FI) == !asserted(raw, UCODE_FI),
        asserted(raw ^ INVERT, UCODE_HLT) == asserted(raw, UCODE_HLT),
        asserted(raw ^ INVERT, UCODE_RI) == asserted(raw, UCODE_RI),
        asserted(raw ^ INVERT, UCODE_SU) == asserted(raw, UCODE_SU),
        asserted(raw ^ INVERT, UCODE_OI) == asserted(raw, UCODE_OI),
        asserted(raw ^ INVERT, UCODE_CE) == asserted(raw, UCODE_CE),
{
    assert({
        &&& ((raw ^ INVERT) & UCODE_MI != 0) == !(raw & UCODE_MI != 0)
        &&& ((raw ^ INVERT) & UCODE_RO != 0) == !(raw & UCODE_RO != 0)
        &&& ((raw ^ INVERT) & UCODE_IO != 0) == !(raw & UCODE_IO != 0)
        &&& ((raw ^ INVERT) & UCODE_II != 0) == !(raw & UCODE_II != 0)
        &&& ((raw ^ INVERT) & UCODE_AI != 0) == !(raw & UCODE_AI != 0)
        &&& ((raw ^ INVERT) & UCODE_AO != 0) == !(raw & UCODE_AO != 0)
        &&& ((raw ^ INVERT) & UCODE_EO != 0) == !(raw & UCODE_EO != 0)
        &&& ((raw ^ INVERT) & UCODE_BI != 0) == !(raw & UCODE_BI != 0)
        &&& ((raw ^ INVERT) & UCODE_CO != 0) == !(raw & UCODE_CO != 0)
        &&& ((raw ^ INVERT) & UCODE_J != 0) == !(raw & UCODE_J != 0)
        &&& ((raw ^ INVERT) & UCODE_FI != 0) == !(raw & UCODE_FI != 0)
        &&& ((raw ^ INVERT) & UCODE_HLT != 0) == (raw & UCODE_HLT != 0)
        &&& ((raw ^ INVERT) & UCODE_RI != 0) == (raw & UCODE_RI != 0)
        &&& ((raw ^ INVERT) & UCODE_SU != 0) == (raw & UCODE_SU != 0)
        &&& ((raw ^ INVERT) & UCODE_OI != 0) == (raw & UCODE_OI != 0)
        &&& ((raw ^ INVERT) & UCODE_CE != 0) == (raw & UCODE_CE != 0)
    }) by (bit_vector);
}

/// Over a complete control store no micro-step of a cycle stops for want of
/// an entry.
proof fn lemma_micro_steps_find_their_words(state: MachineState, code: Microcode, n: nat)
    requires
        code.complete(),
        n <= MICRO_STEPS,
    ensures
        micro_steps(state, code, n).fault != Some(CpuError::IndexOutOfRange),
    decreases n,
{
    if n > 0 {
        lemma_micro_steps_find_their_words(state, code, (n - 1) as nat);
        let before = micro_steps(state, code, (n - 1) as nat);
        lemma_index_in_store(before.state.zero, before.state.carry, before.state.i, n - 1);
    }
}

/// Counter enable on its own asserts no other line.
proof fn lemma_counter_enable_alone()
    ensures
        asserted(UCODE_CE, UCODE_CE),
        drivers(UCODE_CE) == 0,
        !reads_bus(UCODE_CE),
        !asserted(UCODE_CE, UCODE_HLT),
{
    assert({
        &&& UCODE_CE & UCODE_CE != 0
        &&& UCODE_CE & UCODE_HLT == 0
        &&& UCODE_CE & UCODE_RO == 0
        &&& UCODE_CE & UCODE_IO == 0
        &&& UCODE_CE & UCODE_AO == 0
        &&& UCODE_CE & UCODE_EO == 0
        &&& UCODE_CE & UCODE_CO == 0
        &&& UCODE_CE & UCODE_MI == 0
        &&& UCODE_CE & UCODE_RI == 0
        &&& UCODE_CE & UCODE_II == 0
        &&& UCODE_CE & UCODE_AI == 0
        &&& UCODE_CE & UCODE_BI == 0
        &&& UCODE_CE & UCODE_OI == 0
        &&& UCODE_CE & UCODE_J == 0
    }) by (bit_vector);
}

/// The flags line shares its bit with no line that the machine acts on.
proof fn lemma_lines_apart()
    ensures
        UCODE_HLT & UCODE_FI == 0,
        UCODE_RO & UCODE_FI == 0,
        UCODE_IO & UCODE_FI == 0,
        UCODE_AO & UCODE_FI == 0,
        UCODE_EO & UCODE_FI == 0,
        UCODE_SU & UCODE_FI == 0,
        UCODE_CO & UCODE_FI == 0,
        UCODE_MI & UCODE_FI == 0,
        UCODE_RI & UCODE_FI == 0,
        UCODE_II & UCODE_FI == 0,
        UCODE_AI & UCODE_FI == 0,
        UCODE_BI & UCODE_FI == 0,
        UCODE_OI & UCODE_FI == 0,
        UCODE_J & UCODE_FI == 0,
        UCODE_CE & UCODE_FI == 0,
{
    assert({
        &&& UCODE_HLT & UCODE_FI == 0
        &&& UCODE_RO & UCODE_FI == 0
        &&& UCODE_IO & UCODE_FI == 0
        &&& UCODE_AO & UCODE_FI == 0
        &&& UCODE_EO & UCODE_FI == 0
        &&& UCODE_SU & UCODE_FI == 0
        &&& UCODE_CO & UCODE_FI == 0
        &&& UCODE_MI & UCODE_FI == 0
        &&& UCODE_RI & UCODE_FI == 0
        &&& UCODE_II & UCODE_FI == 0
        &&& UCODE_AI & UCODE_FI == 0
        &&& UCODE_BI & UCODE_FI == 0
        &&& UCODE_OI & UCODE_FI == 0
        &&& UCODE_J & UCODE_FI == 0
        &&& UCODE_CE & UCODE_FI == 0
    }) by (bit_vector);
}

/// `n` micro-steps of counter enable alone add `n` to the program counter,
/// modulo 16, once the counter is below 16.
proof fn lemma_counting(state: MachineState, n: nat)
    requires
        state.c < 16,
    ensures
        repeated(state, UCODE_CE, n) == (MachineState { c: ((state.c + n) % 16) as u8, ..state }),
    decreases n,
{
    lemma_counter_enable_alone();
    if n > 0 {
        lemma_counting(state, (n - 1) as nat);
        let before = repeated(state, UCODE_CE, (n - 1) as nat);
        assert(before.driven(UCODE_CE) is None);
        assert(counter_successor(before.c) == ((state.c + n) % 16) as u8);
    }
}

} // verus!
