use vstd::prelude::*;

use crate::bus::Bus;
use crate::control::{
    is_asserted, UCODE_AI, UCODE_AO, UCODE_BI, UCODE_CE, UCODE_CO, UCODE_EO, UCODE_HLT, UCODE_II,
    UCODE_IO, UCODE_J, UCODE_MI, UCODE_OI, UCODE_RI, UCODE_RO, UCODE_SU,
};
use crate::error::CpuError;
use crate::model::{
    alu_output, cycle, cycles, drivers, fault, lemma_stopped_cycles_stay, lemma_stopped_run_stays,
    micro_steps, MachineState, MEMORY_SIZE, MICRO_STEPS,
};
use crate::store::{control_index, ControlStore};

verus! {

/// The register file and the memory of the machine. The address register and
/// the program counter are four bits wide: a machine that is about to be
/// stepped has both below 16; the constructors leave them so and every step
/// keeps them so.
#[derive(Clone, Copy, Debug, PartialEq, Eq)]
pub struct Cpu {
    /// Accumulator.
    pub reg_a: u8,
    /// Second operand of the arithmetic unit.
    pub reg_b: u8,
    /// Instruction register.
    pub reg_i: u8,
    /// Memory address register, four bits wide.
    pub reg_m: u8,
    /// Program counter, four bits wide.
    pub reg_c: u8,
    /// Carry flag.
    pub flag_c: bool,
    /// Zero flag.
    pub flag_z: bool,
    /// Memory.
    pub mem: [u8; 16],
}

impl View for Cpu {
    type V = MachineState;

    open spec fn view(&self) -> MachineState {
        MachineState {
            a: self.reg_a,
            b: self.reg_b,
            i: self.reg_i,
            m: self.reg_m,
            c: self.reg_c,
            carry: self.flag_c,
            zero: self.flag_z,
            mem: self.mem@,
        }
    }
}

impl Cpu {
    /// The address register and the program counter both name a memory cell.
    pub open spec fn wf(&self) -> bool {
        self@.wf()
    }

    /// A machine right after power-up: every register, both flags and all of
    /// memory are zero.
    pub fn new() -> (cpu: Cpu)
        ensures
            cpu.wf(),
            cpu@ == MachineState::reset(Seq::new(MEMORY_SIZE as nat, |a: int| 0u8)),
    {
        Cpu::with_memory([0u8; 16])
    }

    /// A machine right after power-up with a program already in memory.
    pub fn with_memory(mem: [u8; 16]) -> (cpu: Cpu)
        ensures
            cpu.wf(),
            cpu@ == MachineState::reset(mem@),
    {
        Cpu {
            reg_a: 0,
            reg_b: 0,
            reg_i: 0,
            reg_m: 0,
            reg_c: 0,
            flag_c: false,
            flag_z: false,
            mem,
        }
    }

    /// Whether the address register and the program counter both name a
    /// memory cell, as they must before the machine is stepped.
    pub fn is_well_formed(&self) -> (b: bool)
        ensures
            b == self.wf(),
    {
        (self.reg_m as usize) < MEMORY_SIZE && (self.reg_c as usize) < MEMORY_SIZE
    }

    /// The output of the arithmetic unit for the operands in `A` and `B`.
    pub fn alu(&self, subtract: bool) -> (sum: u8)
        ensures
            sum == alu_output(self.reg_a, self.reg_b, subtract),
    {
        if subtract {
            self.reg_a.wrapping_sub(self.reg_b)
        } else {
            self.reg_a.wrapping_add(self.reg_b)
        }
    }

    /// Evaluates the bus-driving lines of `ucode`, in their fixed order, on a
    /// fresh bus. Two asserted drivers are a contention, whichever they are.
    pub fn drive_bus(&self, ucode: u16) -> (r: Result<Bus, CpuError>)
        requires
            self.wf(),
        ensures
            drivers(ucode) > 1 ==> r == Err::<Bus, CpuError>(CpuError::BusContention),
            drivers(ucode) <= 1 ==> r is Ok && r->Ok_0@ == self@.driven(ucode),
    {
        let mut bus = Bus::new();
        if is_asserted(ucode, UCODE_RO) {
            bus.set(self.mem[self.reg_m as usize])?;
        }
        if is_asserted(ucode, UCODE_IO) {
            proof {
                lemma_low_nibble(self.reg_i);
            }
            bus.set(self.reg_i & 15)?;
        }
        if is_asserted(ucode, UCODE_AO) {
            bus.set(self.reg_a)?;
        }
        if is_asserted(ucode, UCODE_EO) {
            bus.set(self.alu(is_asserted(ucode, UCODE_SU)))?;
        }
        if is_asserted(ucode, UCODE_CO) {
            bus.set(self.reg_c)?;
        }
        Ok(bus)
    }

    /// Carries out one micro-step: every line of `ucode`, in the order that
    /// lets the readers see what the driver put on the bus. Halt comes first
    /// and stops everything else; then the driver, the readers, and the
    /// counter. A word that faults leaves the machine as it was. Otherwise
    /// the result is the value handed to the output device, if the word asked
    /// for one.
    pub fn ucode_step(&mut self, ucode: u16) -> (r: Result<Option<u8>, CpuError>)
        requires
            old(self).wf(),
        ensures
            final(self).wf(),
            match fault(ucode) {
                Some(e) => r == Err::<Option<u8>, CpuError>(e) && *final(self) == *old(self),
                None => r == Ok::<Option<u8>, CpuError>(old(self)@.emitted(ucode)) && final(self)@
                    == old(self)@.after(ucode),
            },
    {
        if is_asserted(ucode, UCODE_HLT) {
            return Err(CpuError::HaltAndCatchFire);
        }
        let bus = self.drive_bus(ucode)?;

        let mut emitted: Option<u8> = None;
        if is_asserted(ucode, UCODE_MI) {
            let value = bus.get()?;
            proof {
                lemma_low_nibble(value);
            }
            self.reg_m = value & 15;
        }
        if is_asserted(ucode, UCODE_RI) {
            self.mem[self.reg_m as usize] = bus.get()?;
        }
        if is_asserted(ucode, UCODE_II) {
            self.reg_i = bus.get()?;
        }
        if is_asserted(ucode, UCODE_AI) {
            self.reg_a = bus.get()?;
        }
        if is_asserted(ucode, UCODE_BI) {
            self.reg_b = bus.get()?;
        }
        if is_asserted(ucode, UCODE_OI) {
            emitted = Some(bus.get()?);
        }
        if is_asserted(ucode, UCODE_J) {
            let value = bus.get()?;
            proof {
                lemma_low_nibble(value);
            }
            self.reg_c = value & 15;
        }
        if is_asserted(ucode, UCODE_CE) {
            let next = self.reg_c.wrapping_add(1);
            proof {
                lemma_low_nibble(next);
            }
            self.reg_c = next & 15;
        }
        assert(self@ =~= old(self)@.after(ucode));
        Ok(emitted)
    }

    /// The index of the control word for micro-step `step` of the current
    /// instruction, under the current flags.
    pub fn control_index(&self, step: usize) -> (index: usize)
        requires
            step < MICRO_STEPS,
        ensures
            index == control_index(self.flag_z, self.flag_c, self.reg_i, step as int),
    {
        let z: usize = if self.flag_z { 1 } else { 0 };
        let c: usize = if self.flag_c { 1 } else { 0 };
        let i: usize = self.reg_i as usize;
        assert((z << 9 | c << 8 | (i & 0xF0) >> 1 | step) == z * 512 + c * 256 + 8 * (i / 16)
            + step) by (bit_vector)
            requires
                z <= 1,
                c <= 1,
                i < 256,
                step < 8,
        ;
        z << 9 | c << 8 | (i & 0xF0) >> 1 | step
    }

    /// Carries out one instruction cycle: eight micro-steps, each with the
    /// control word that `store` holds for the flags, the opcode and the
    /// micro-step at that moment. The values handed to the output device are
    /// appended to `out`. The cycle ends early, with the machine as the last
    /// completed micro-step left it, when the store has no entry for an
    /// index or a control word faults.
    pub fn step(&mut self, store: &ControlStore, out: &mut Vec<u8>) -> (r: Result<(), CpuError>)
        requires
            old(self).wf(),
        ensures
            final(self).wf(),
            final(self)@ == cycle(old(self)@, store@).state,
            final(out)@ == old(out)@ + cycle(old(self)@, store@).trace,
            r == cycle(old(self)@, store@).outcome(),
    {
        let ghost begin = self@;
        let ghost before = out@;
        let mut i: usize = 0;
        while i < MICRO_STEPS
            invariant
                i <= MICRO_STEPS,
                begin == old(self)@,
                before == old(out)@,
                self.wf(),
                micro_steps(begin, store@, i as nat).fault is None,
                micro_steps(begin, store@, i as nat).state == self@,
                out@ == before + micro_steps(begin, store@, i as nat).trace,
            decreases MICRO_STEPS - i,
        {
            let ghost next = micro_steps(begin, store@, (i + 1) as nat);
            let index = self.control_index(i);
            let ucode = match store.control_word(index) {
                Ok(word) => word,
                Err(e) => {
                    proof {
                        lemma_stopped_run_stays(begin, store@, (i + 1) as nat, MICRO_STEPS as nat);
                    }
                    return Err(e);
                },
            };
            match self.ucode_step(ucode) {
                Ok(Some(value)) => {
                    out.push(value);
                },
                Ok(None) => {},
                Err(e) => {
                    proof {
                        lemma_stopped_run_stays(begin, store@, (i + 1) as nat, MICRO_STEPS as nat);
                    }
                    return Err(e);
                },
            }
            assert(out@ =~= before + next.trace);
            i += 1;
        }
        Ok(())
    }

    /// Carries out up to `count` instruction cycles and stops after the first
    /// that ends early. The values handed to the output device are appended
    /// to `out` in the order in which the machine produced them.
    pub fn run(&mut self, store: &ControlStore, count: usize, out: &mut Vec<u8>) -> (r: Result<
        (),
        CpuError,
    >)
        requires
            old(self).wf(),
        ensures
            final(self).wf(),
            final(self)@ == cycles(old(self)@, store@, count as nat).state,
            final(out)@ == old(out)@ + cycles(old(self)@, store@, count as nat).trace,
            r == cycles(old(self)@, store@, count as nat).outcome(),
    {
        let ghost begin = self@;
        let ghost before = out@;
        let mut done: usize = 0;
        while done < count
            invariant
                done <= count,
                begin == old(self)@,
                before == old(out)@,
                self.wf(),
                cycles(begin, store@, done as nat).fault is None,
                cycles(begin, store@, done as nat).state == self@,
                out@ == before + cycles(begin, store@, done as nat).trace,
            decreases count - done,
        {
            let ghost next = cycles(begin, store@, (done + 1) as nat);
            let r = self.step(store, out);
            assert(out@ =~= before + next.trace);
            if let Err(e) = r {
                proof {
                    lemma_stopped_cycles_stay(begin, store@, (done + 1) as nat, count as nat);
                }
                return Err(e);
            }
            done += 1;
        }
        Ok(())
    }
}

impl Default for Cpu {
    fn default() -> (cpu: Cpu)
        ensures
            cpu.wf(),
            cpu@ == MachineState::reset(Seq::new(MEMORY_SIZE as nat, |a: int| 0u8)),
    {
        Cpu::new()
    }
}

/// Masking a byte with 15 keeps its remainder modulo 16.
proof fn lemma_low_nibble(x: u8)
    ensures
        x & 15 == x % 16,
{
    assert(x & 15 == x % 16) by (bit_vector);
}

} // verus!
