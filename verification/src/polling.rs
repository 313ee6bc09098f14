//! Polling-peripheral protocol: a handler contract for peripherals that
//! firmware polls, and hooks that route memory or register accesses inside
//! a declared window to such a handler.

use vstd::prelude::*;
use crate::machine::GuestMem;

pub mod memory;
pub mod register;

verus! {

/// Errors a polling-peripheral handler can report.
#[derive(Clone, Debug)]
pub enum Error {
    InvalidRegister(String),
    HandleInputFailed,
    HandleOutputFailed,
    InitFailed,
    HandlerError(String),
}

/// The contract between a polling hook and the peripheral behind it:
/// `init` runs once at build time; `handle_input` runs before the emulator
/// completes a read of `input` and may fabricate the value in guest
/// memory; `handle_output` sees every write with its bytes.
pub trait PollingPeripheralHandler {
    type Input;

    type Output;

    fn init(&mut self, mem: &mut GuestMem) -> Result<(), Error>;

    fn handle_input(&mut self, mem: &mut GuestMem, input: &Self::Input, size: usize) -> Result<
        (),
        Error,
    >;

    fn handle_output(
        &mut self,
        mem: &mut GuestMem,
        output: &Self::Output,
        value: &[u8],
        size: usize,
    ) -> Result<(), Error>;
}

} // verus!
