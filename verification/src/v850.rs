//! V850 peripherals: the RSCAN controller backend.

pub mod rscan;
