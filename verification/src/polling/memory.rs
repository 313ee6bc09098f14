//! Memory polling: route guest-memory reads and writes that fall inside a
//! declared address range to a polling-peripheral handler.

use vstd::prelude::*;
use crate::machine::GuestMem;
use crate::polling::Error as PollingHandlerError;
use crate::polling::PollingPeripheralHandler;

verus! {

/// Errors the memory-polling hooks can report.
#[derive(Debug)]
pub enum MyError {
    PCode,
    InvalidRegister(String),
    MemoryPoolingHandleInputFailed { source: PollingHandlerError },
    MemoryPoolingHandleOutputFailed { source: PollingHandlerError },
}

/// A peripheral polled through a guest-memory window `[min, max]`.
pub struct MemoryPollingPeripheral<P> {
    pub address_range: (u64, u64),
    pub peripheral: P,
}

impl<P: PollingPeripheralHandler<Input = u64, Output = u64>> MemoryPollingPeripheral<P> {
    pub fn peripheral(&self) -> (r: &P)
        ensures
            r == &self.peripheral,
    {
        &self.peripheral
    }

    pub fn peripheral_mut(&mut self) -> (r: &mut P)
        ensures
            *r == old(self).peripheral,
            *final(self) == (MemoryPollingPeripheral { peripheral: *final(r), ..*old(self) }),
    {
        &mut self.peripheral
    }

    /// Route a read at `address` to the handler when it falls inside the
    /// window; accesses outside it change nothing.
    pub fn hook_memory_read(&mut self, mem: &mut GuestMem, address: u64, size: usize) -> (r:
        Result<(), PollingHandlerError>)
        ensures
            !(old(self).address_range.0 <= address <= old(self).address_range.1) ==> *final(self)
                == *old(self) && (forall|b: u64| final(mem).byte(b) == old(mem).byte(b)) && r
                == Ok::<(), PollingHandlerError>(()),
            final(self).address_range == old(self).address_range,
    {
        let (min, max) = self.address_range;
        if min <= address && address <= max {
            self.peripheral.handle_input(mem, &address, size)?;
        }
        Ok(())
    }

    /// Route a write at `address` to the handler when it falls inside the
    /// window; accesses outside it change nothing.
    pub fn hook_memory_write(
        &mut self,
        mem: &mut GuestMem,
        address: u64,
        size: usize,
        value: &[u8],
    ) -> (r: Result<(), PollingHandlerError>)
        ensures
            !(old(self).address_range.0 <= address <= old(self).address_range.1) ==> *final(self)
                == *old(self) && (forall|b: u64| final(mem).byte(b) == old(mem).byte(b)) && r
                == Ok::<(), PollingHandlerError>(()),
            final(self).address_range == old(self).address_range,
    {
        let (min, max) = self.address_range;
        if min <= address && address <= max {
            self.peripheral.handle_output(mem, &address, value, size)?;
        }
        Ok(())
    }
}

/// Builds a memory-polling peripheral: holds the handler and its window
/// and runs the handler's one-shot initialization.
pub struct MemoryPollingPeripheralBuilder<P> {
    pub peripheral: P,
    pub address_range: (u64, u64),
}

impl<P: PollingPeripheralHandler<Input = u64, Output = u64>> MemoryPollingPeripheralBuilder<P> {
    /// Initialize the handler against guest memory and remember the
    /// window. A failing initialization surfaces as the handler's error.
    pub fn new(peripheral_in: P, mem: &mut GuestMem, address_range: (u64, u64)) -> (r: Result<
        Self,
        PollingHandlerError,
    >)
        ensures
            r matches Ok(b) ==> b.address_range == address_range,
    {
        let mut sel = Self { peripheral: peripheral_in, address_range };
        match sel.peripheral.init(mem) {
            Ok(()) => Ok(sel),
            Err(e) => Err(e),
        }
    }

    /// Replace the handler.
    pub fn peripheral(self, peripheral: P) -> (r: Self)
        ensures
            r.peripheral == peripheral,
            r.address_range == self.address_range,
    {
        Self { peripheral, ..self }
    }

    pub fn build(self) -> (r: Result<MemoryPollingPeripheral<P>, PollingHandlerError>)
        ensures
            r is Ok,
            r matches Ok(p) ==> p.address_range == self.address_range && p.peripheral
                == self.peripheral,
    {
        Ok(MemoryPollingPeripheral { address_range: self.address_range, peripheral: self.peripheral })
    }
}

} // verus!
