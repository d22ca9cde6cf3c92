use vstd::prelude::*;

use crate::error::CpuError;

verus! {

/// The shared data bus of one micro-step. It starts out floating, takes a
/// value from at most one driver, and is thrown away when the micro-step ends.
pub struct Bus {
    value: Option<u8>,
}

impl View for Bus {
    type V = Option<u8>;

    /// `None` while the bus floats, `Some(v)` once a line has driven `v`.
    closed spec fn view(&self) -> Option<u8> {
        self.value
    }
}

impl Bus {
    /// A floating bus.
    pub fn new() -> (bus: Bus)
        ensures
            bus@ is None,
    {
        Bus { value: None }
    }

    /// Reads the bus. A floating bus has no value to give.
    pub fn get(&self) -> (r: Result<u8, CpuError>)
        ensures
            r == match self@ {
                Some(v) => Ok::<u8, CpuError>(v),
                None => Err(CpuError::FloatingBus),
            },
    {
        match self.value {
            Some(v) => Ok(v),
            None => Err(CpuError::FloatingBus),
        }
    }

    /// Drives the bus with `value`. A bus that is already driven keeps the
    /// value it has and reports the contention.
    pub fn set(&mut self, value: u8) -> (r: Result<(), CpuError>)
        ensures
            old(self)@ is None ==> r is Ok && final(self)@ == Some(value),
            old(self)@ is Some ==> r == Err::<(), CpuError>(CpuError::BusContention) && final(self)@
                == old(self)@,
    {
        if self.value.is_some() {
            return Err(CpuError::BusContention);
        }
        self.value = Some(value);
        Ok(())
    }
}

impl Default for Bus {
    fn default() -> (bus: Bus)
        ensures
            bus@ is None,
    {
        Bus::new()
    }
}

} // verus!
