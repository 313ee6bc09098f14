//! SuperH peripherals: the two-channel compare-match timer wired to the
//! CPU's interrupt semantics.

pub mod compare_match_timer;
