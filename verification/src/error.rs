use vstd::prelude::*;

verus! {

/// The conditions that stop the machine. None of them is recoverable: the
/// owner of the machine decides what to do once one is reported.
#[derive(Clone, Copy, Debug, PartialEq, Eq, Structural)]
pub enum CpuError {
    /// The halt line fired: the program running on the machine has ended.
    HaltAndCatchFire,
    /// A line read the bus in a micro-step in which no line had driven it.
    FloatingBus,
    /// A second line tried to drive the bus within one micro-step.
    BusContention,
    /// The control store has no entry at the index the machine asked for.
    IndexOutOfRange,
}

impl CpuError {
    /// The words that describe the condition.
    pub open spec fn message_text(self) -> Seq<char> {
        match self {
            CpuError::HaltAndCatchFire => "halt and catch fire"@,
            CpuError::FloatingBus => "attempt to use floating bus"@,
            CpuError::BusContention => "attempt to enter locked bus"@,
            CpuError::IndexOutOfRange => "control store index out of range"@,
        }
    }

    /// The words that describe the condition, for a report to a person.
    pub fn message(&self) -> (s: &'static str)
        ensures
            s@ == self.message_text(),
    {
        match self {
            CpuError::HaltAndCatchFire => "halt and catch fire",
            CpuError::FloatingBus => "attempt to use floating bus",
            CpuError::BusContention => "attempt to enter locked bus",
            CpuError::IndexOutOfRange => "control store index out of range",
        }
    }
}

} // verus!
