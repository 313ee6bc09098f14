//! T6 core timer control-register decoder for a little-endian C166 core:
//! reads the mode, direction and run bits out of the 16-bit control word
//! in guest memory.

use vstd::prelude::*;
use crate::backend::CompareMatchTimer;
use crate::machine::Endian;
use crate::machine::GuestMem;
use crate::machine::spec_word16;

verus! {

/// Errors the timer's decoders can report.
#[derive(Clone, Copy, Debug, PartialEq, Eq, Structural)]
pub enum TimerError {
    OtherError,
}

/// T6 control register.
pub const T6_CONTROL: u64 = 0xFF48;

/// T6 count register.
pub const T6_VALUE: u64 = 0xFE48;

/// Operating mode held in the control word's mode field.
#[derive(Clone, Copy, Debug, PartialEq, Eq, Structural)]
pub enum T6Mode {
    Timer,
    Counter,
    GatedActiveLow,
    GatedActiveHigh,
}

/// Run bit of the control word.
#[derive(Clone, Copy, Debug, PartialEq, Eq, Structural)]
pub enum T6Run {
    Stopped,
    Running,
}

/// Counting direction bit of the control word.
#[derive(Clone, Copy, Debug, PartialEq, Eq, Structural)]
pub enum T6UpDown {
    Up,
    Down,
}

/// The mode field: the control word's bits 3..=5, folded most significant
/// first, so bit 3 carries weight 4 and bit 5 weight 1.
pub open spec fn t6_mode_value(val: u16) -> u16 {
    (((val >> 3) & 1) << 2) | (((val >> 4) & 1) << 1) | ((val >> 5) & 1)
}

/// The T6 timer: a counter backend and the one-register control window it
/// decodes.
pub struct Timer6 {
    pub backend: CompareMatchTimer,
    pub address_range: (u64, u64),
}

impl Timer6 {
    pub fn new() -> (r: Self)
        ensures
            crate::backend::compare_match_timer::fresh_counter(r.backend),
            r.address_range == (T6_CONTROL, (T6_CONTROL + 1) as u64),
    {
        Self { backend: CompareMatchTimer::default(), address_range: (T6_CONTROL, T6_CONTROL + 1) }
    }

    /// Decode the operating mode from the control word in guest memory.
    /// Mode-field values above the last defined mode do not name one.
    pub fn mode(&self, mem: &GuestMem) -> (r: Result<T6Mode, TimerError>)
        requires
            t6_mode_value(spec_word16(*mem, T6_CONTROL, Endian::Little)) <= 3,
        ensures
            ({
                let m = t6_mode_value(spec_word16(*mem, T6_CONTROL, Endian::Little));
                r == Ok::<T6Mode, TimerError>(
                    if m == 0 {
                        T6Mode::Timer
                    } else if m == 1 {
                        T6Mode::Counter
                    } else if m == 2 {
                        T6Mode::GatedActiveLow
                    } else {
                        T6Mode::GatedActiveHigh
                    },
                )
            }),
    {
        let val = mem.read_u16(T6_CONTROL, Endian::Little);
        let m = ((((val >> 3) & 1) << 2) | ((((val >> 4) & 1)) << 1)) | ((val >> 5) & 1);
        if m == 0 {
            Ok(T6Mode::Timer)
        } else if m == 1 {
            Ok(T6Mode::Counter)
        } else if m == 2 {
            Ok(T6Mode::GatedActiveLow)
        } else {
            Ok(T6Mode::GatedActiveHigh)
        }
    }

    /// Decode the counting direction from the control word's bit 7.
    pub fn up_down(&self, mem: &GuestMem) -> (r: Result<T6UpDown, TimerError>)
        ensures
            r == Ok::<T6UpDown, TimerError>(
                if (spec_word16(*mem, T6_CONTROL, Endian::Little) >> 7) & 1 == 1 {
                    T6UpDown::Down
                } else {
                    T6UpDown::Up
                },
            ),
    {
        let val = mem.read_u16(T6_CONTROL, Endian::Little);
        if (val >> 7) & 1 == 1 {
            Ok(T6UpDown::Down)
        } else {
            Ok(T6UpDown::Up)
        }
    }

    /// Decode the run state from the control word's bit 6.
    pub fn running(&self, mem: &GuestMem) -> (r: Result<T6Run, TimerError>)
        ensures
            r == Ok::<T6Run, TimerError>(
                if (spec_word16(*mem, T6_CONTROL, Endian::Little) >> 6) & 1 == 1 {
                    T6Run::Running
                } else {
                    T6Run::Stopped
                },
            ),
    {
        let val = mem.read_u16(T6_CONTROL, Endian::Little);
        if (val >> 6) & 1 == 1 {
            Ok(T6Run::Running)
        } else {
            Ok(T6Run::Stopped)
        }
    }
}

} // verus!
