//! Device interrupt objects and the handler variants that resolve where an
//! accepted interrupt branches to.

use vstd::prelude::*;
use crate::machine::Endian;
use crate::machine::GuestMem;
use crate::machine::spec_word32;

verus! {

/// Errors an interrupt or an overriding handler can report.
#[derive(Clone, Debug, PartialEq, Eq, Structural)]
pub enum InterruptError {
    DefaultError,
}

/// How the entry address of an interrupt service routine is found:
/// directly (`Routine`), through a pointer table (`Vector`, the 32-bit word
/// at the stored address is the entry), or by a host-side override that the
/// embedder runs outside the firmware (`Override`).
#[derive(Clone, Copy, Debug, PartialEq, Eq, Structural)]
pub enum InterruptHandler {
    Routine(u64),
    Vector(u64),
    Override,
}

impl InterruptHandler {
    /// The routine address `get_routine_address` resolves against a memory.
    pub open spec fn spec_routine_address(self, m: GuestMem, e: Endian) -> Option<u64> {
        match self {
            InterruptHandler::Routine(a) => Some(a),
            InterruptHandler::Vector(a) => Some(spec_word32(m, a, e) as u64),
            InterruptHandler::Override => None,
        }
    }

    /// Resolve the ISR entry: a `Routine` is its own entry; a `Vector`
    /// dereferences the 32-bit pointer word in the peripheral's byte order;
    /// an `Override` resolves to nothing here, since routing through it must
    /// be requested explicitly.
    pub fn get_routine_address(&self, mem: &GuestMem, e: Endian) -> (r: Option<u64>)
        requires
            self matches InterruptHandler::Vector(a) ==> a + 3 <= u64::MAX,
        ensures
            r == self.spec_routine_address(*mem, e),
    {
        match self {
            InterruptHandler::Routine(a) => Some(*a),
            InterruptHandler::Vector(a) => Some(mem.read_u32(*a, e) as u64),
            InterruptHandler::Override => None,
        }
    }
}

/// One device interrupt line: its firmware-facing enable, the pending
/// (`triggered`) flag the peripheral raises, and bookkeeping.
pub struct Interrupt {
    pub name: String,
    pub enabled: bool,
    pub triggered: bool,
    pub trigger_count: u128,
    pub priority: i32,
}

impl Interrupt {
    pub fn new(name: &str) -> (r: Self)
        ensures
            r.name@ == name@,
            !r.enabled,
            !r.triggered,
            r.trigger_count == 0,
            r.priority == 0,
    {
        Self {
            name: name.to_owned(),
            enabled: false,
            triggered: false,
            trigger_count: 0,
            priority: 0,
        }
    }

    pub fn set_triggered(&mut self, val: bool)
        ensures
            *final(self) == (Interrupt { triggered: val, ..*old(self) }),
    {
        self.triggered = val;
    }

    pub fn is_triggered(&self) -> (r: bool)
        ensures
            r == self.triggered,
    {
        self.triggered
    }

    pub fn set_enable(&mut self, val: bool)
        ensures
            *final(self) == (Interrupt { enabled: val, ..*old(self) }),
    {
        self.enabled = val;
    }

    pub fn is_enabled(&self) -> (r: bool)
        ensures
            r == self.enabled,
    {
        self.enabled
    }

    pub fn set_priority(&mut self, val: i32)
        ensures
            *final(self) == (Interrupt { priority: val, ..*old(self) }),
    {
        self.priority = val;
    }

    pub fn get_priority(&self) -> (r: i32)
        ensures
            r == self.priority,
    {
        self.priority
    }

    pub fn add_trigger_count(&mut self)
        requires
            old(self).trigger_count < u128::MAX,
        ensures
            *final(self) == (Interrupt {
                trigger_count: (old(self).trigger_count + 1) as u128,
                ..*old(self)
            }),
    {
        self.trigger_count = self.trigger_count + 1;
    }

    pub fn get_trigger_count(&self) -> (r: u128)
        ensures
            r == self.trigger_count,
    {
        self.trigger_count
    }

    pub fn get_name(&self) -> (r: &str)
        ensures
            r@ == self.name@,
    {
        self.name.as_str()
    }
}

} // verus!
