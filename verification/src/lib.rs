//! Verified peripheral models and interrupt mechanisms for a firmware
//! emulator: a bit-field register dispatcher, a compare-match timer backend,
//! an interrupt subsystem, polling-peripheral protocols, and a symbolic
//! bypass peripheral that back-solves polling loops.
//!
//! The embedding emulator owns the real CPU; this library works on plain
//! models of the pieces of machine state that the peripherals read and
//! mutate (guest memory bytes, register values, the program counter).

pub mod backend;
pub mod bypass;
pub mod c166;
pub mod interrupt;
pub mod machine;
pub mod polling;
pub mod superh;
pub mod v850;

use vstd::prelude::*;

verus! {

/// Mask with the low `bits` bits set; saturates at the full 64-bit mask.
pub open spec fn low_mask(bits: u32) -> u64 {
    if bits >= 64 {
        0xffff_ffff_ffff_ffffu64
    } else {
        ((1u64 << bits) - 1) as u64
    }
}

/// Truncate `value` to its low `bits` bits.
pub open spec fn truncate_bits(value: u64, bits: u32) -> u64 {
    value & low_mask(bits)
}

/// Executable truncation to a bit width, proved against `truncate_bits`.
pub fn mask_to_bits(value: u64, bits: u32) -> (r: u64)
    ensures
        r == truncate_bits(value, bits),
{
    if bits >= 64 {
        proof {
            assert(value & 0xffff_ffff_ffff_ffffu64 == value) by (bit_vector);
        }
        value
    } else {
        proof {
            assert((1u64 << bits) >= 1 && (1u64 << bits) <= 0xffff_ffff_ffff_ffffu64)
                by (bit_vector)
                requires
                    bits < 64,
            ;
        }
        value & ((1u64 << bits) - 1)
    }
}

} // verus!
