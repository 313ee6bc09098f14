//! Two-channel compare-match timer peripheral for a big-endian SuperH
//! core. Composes two counter backends with two interrupts and two
//! vector-table handlers, serves the memory-mapped register window at
//! `0xFFFEC000..=0xFFFEC00C`, and services a pending interrupt on each
//! architectural step by pushing `SR` and `PC` to the guest stack and
//! branching to the resolved service routine.

use vstd::prelude::*;
use crate::backend;
use crate::backend::compare_match_timer::FunName;
use crate::backend::compare_match_timer::fold_read;
use crate::backend::compare_match_timer::fold_write;
use crate::backend::compare_match_timer::idx_of_addr;
use crate::backend::compare_match_timer::lemma_bind_read_ok;
use crate::backend::compare_match_timer::lemma_idx_of_addr_at;
use crate::backend::compare_match_timer::lemma_table_bound_extend;
use crate::backend::compare_match_timer::lemma_table_bound_fresh;
use crate::backend::compare_match_timer::masks_disjoint;
use crate::backend::compare_match_timer::lemma_bind_write_ok;
use crate::backend::compare_match_timer::read_inner;
use crate::backend::compare_match_timer::read_table_ok;
use crate::backend::compare_match_timer::write_inner;
use crate::backend::compare_match_timer::write_table_ok;
use crate::backend::interrupt::Interrupt;
use crate::backend::interrupt::InterruptHandler;
use crate::machine::Endian;
use crate::machine::GuestMem;
use crate::machine::StepAction;
use crate::machine::spec_word32;

verus! {

/// Errors this peripheral's hooks can carry to the emulator.
#[derive(Debug)]
pub enum SuperHCMTError {
    PCode,
    InvalidRegister(String),
}

/// Channel start register (bit 0 starts channel 0, bit 1 channel 1).
pub const ADDR_CMSTR: u64 = 0xFFFEC000;

/// Channel 0 control/status register (bit 6 interrupt enable, bit 7 match).
pub const ADDR_CMCSR_0: u64 = 0xFFFEC002;

/// Channel 0 counter register.
pub const ADDR_CMCNT_0: u64 = 0xFFFEC004;

/// Channel 0 compare register.
pub const ADDR_CMCOR_0: u64 = 0xFFFEC006;

/// Channel 1 control/status register.
pub const ADDR_CMCSR_1: u64 = 0xFFFEC008;

/// Channel 1 counter register.
pub const ADDR_CMCNT_1: u64 = 0xFFFEC00A;

/// Channel 1 compare register.
pub const ADDR_CMCOR_1: u64 = 0xFFFEC00C;

/// The return-from-exception opcode the core scans for at the current PC.
pub const INST_RTE: u32 = 0x0000002B;

/// The two-channel compare-match timer: one counter backend, interrupt and
/// handler per channel, and the register window both channels share.
pub struct CompareMatchTimer {
    pub backend: (backend::CompareMatchTimer, backend::CompareMatchTimer),
    pub interrupt: (Interrupt, Interrupt),
    pub handler: (InterruptHandler, InterruptHandler),
    pub address_range: (u64, u64),
}

impl CompareMatchTimer {
    /// Both dispatch tables of both channels are well formed and serve the
    /// fixed register window.
    pub open spec fn tables_wf(self) -> bool {
        &&& read_table_ok(self.backend.0.reg_read_map@)
        &&& write_table_ok(self.backend.0.reg_write_map@)
        &&& read_table_ok(self.backend.1.reg_read_map@)
        &&& write_table_ok(self.backend.1.reg_write_map@)
        &&& idx_of_addr(self.backend.0.reg_read_map@, ADDR_CMSTR) >= 0
        &&& idx_of_addr(self.backend.0.reg_read_map@, ADDR_CMCSR_0) >= 0
        &&& idx_of_addr(self.backend.0.reg_read_map@, ADDR_CMCNT_0) >= 0
        &&& idx_of_addr(self.backend.0.reg_read_map@, ADDR_CMCOR_0) >= 0
        &&& idx_of_addr(self.backend.0.reg_write_map@, ADDR_CMSTR) >= 0
        &&& idx_of_addr(self.backend.0.reg_write_map@, ADDR_CMCSR_0) >= 0
        &&& idx_of_addr(self.backend.0.reg_write_map@, ADDR_CMCNT_0) >= 0
        &&& idx_of_addr(self.backend.0.reg_write_map@, ADDR_CMCOR_0) >= 0
        &&& idx_of_addr(self.backend.1.reg_read_map@, ADDR_CMSTR) >= 0
        &&& idx_of_addr(self.backend.1.reg_read_map@, ADDR_CMCSR_1) >= 0
        &&& idx_of_addr(self.backend.1.reg_read_map@, ADDR_CMCNT_1) >= 0
        &&& idx_of_addr(self.backend.1.reg_read_map@, ADDR_CMCOR_1) >= 0
        &&& idx_of_addr(self.backend.1.reg_write_map@, ADDR_CMSTR) >= 0
        &&& idx_of_addr(self.backend.1.reg_write_map@, ADDR_CMCSR_1) >= 0
        &&& idx_of_addr(self.backend.1.reg_write_map@, ADDR_CMCNT_1) >= 0
        &&& idx_of_addr(self.backend.1.reg_write_map@, ADDR_CMCOR_1) >= 0
    }

    /// What the architectural-step hook assumes of the peripheral: both
    /// channels count forward (this peripheral never maps the direction
    /// bit), the counters have headroom, and both handlers resolve in
    /// firmware (host-side overrides are not supported here).
    pub open spec fn step_wf(self) -> bool {
        &&& self.backend.0.count_forward
        &&& self.backend.1.count_forward
        &&& (self.backend.0.counter_start ==> self.backend.0.current_tick < u128::MAX)
        &&& (self.backend.1.counter_start ==> self.backend.1.current_tick < u128::MAX)
        &&& !(self.handler.0 is Override)
        &&& !(self.handler.1 is Override)
        &&& (self.handler.0 matches InterruptHandler::Vector(a) ==> a + 3 <= u64::MAX)
        &&& (self.handler.1 matches InterruptHandler::Vector(a) ==> a + 3 <= u64::MAX)
    }

    /// The peripheral with both counters advanced one tick.
    pub open spec fn ticked(self) -> Self {
        Self {
            backend: (self.backend.0.tick_spec().0, self.backend.1.tick_spec().0),
            ..self
        }
    }

    /// The interrupt-side decision of one architectural step, taken after
    /// both counters have ticked: either nothing is pending (the checks on
    /// matches and enables pass the step through), or a triggered channel
    /// sees the return-from-exception opcode and clears, or a match raises
    /// a channel's `triggered` flag and the step branches to its routine
    /// (channel 0 preferred). `Some(true)` means branch via channel 0's
    /// handler, `Some(false)` via channel 1's.
    ///
    /// Note that the first pending check reads channel 0's `triggered`
    /// flag twice, where the second read might be expected to consult
    /// channel 1's. Whether that guard is the intended one is an open
    /// question with the peripheral's author; the behaviour here is the
    /// one firmware currently observes.
    pub open spec fn step_core(t: Self, instr: u32) -> (Self, Option<bool>) {
        let c0 = t.backend.0;
        let c1 = t.backend.1;
        let i0 = t.interrupt.0;
        let i1 = t.interrupt.1;
        if !(c0.counter_start && c0.matched) && !i0.triggered && !(c1.counter_start && c1.matched)
            && !i0.triggered {
            (t, None)
        } else if !i0.enabled && !i0.triggered && !i1.enabled && !i1.triggered {
            (t, None)
        } else if i0.triggered {
            if instr == INST_RTE {
                (Self { interrupt: (Interrupt { triggered: false, ..i0 }, i1), ..t }, None)
            } else {
                (t, None)
            }
        } else {
            let t1 = if c0.counter_start && c0.matched {
                Self { interrupt: (Interrupt { triggered: true, ..i0 }, i1), ..t }
            } else {
                t
            };
            if t1.interrupt.1.triggered {
                if instr == INST_RTE {
                    (
                        Self {
                            interrupt: (
                                t1.interrupt.0,
                                Interrupt { triggered: false, ..t1.interrupt.1 },
                            ),
                            ..t1
                        },
                        None,
                    )
                } else {
                    (t1, None)
                }
            } else {
                let t2 = if c1.counter_start && c1.matched {
                    Self {
                        interrupt: (
                            t1.interrupt.0,
                            Interrupt { triggered: true, ..t1.interrupt.1 },
                        ),
                        ..t1
                    }
                } else {
                    t1
                };
                if t2.interrupt.0.triggered {
                    (t2, Some(true))
                } else if t2.interrupt.1.triggered {
                    (t2, Some(false))
                } else {
                    (t2, None)
                }
            }
        }
    }

    /// The routine address the chosen channel's handler resolves to.
    pub open spec fn resolved(self, m: GuestMem, is0: bool) -> u64 {
        let h = if is0 {
            self.handler.0
        } else {
            self.handler.1
        };
        match h.spec_routine_address(m, Endian::Big) {
            Some(a) => a,
            None => 0,
        }
    }
}

/// What one architectural step guarantees. The counters always tick; then
/// the interrupt decision (`step_core`, over the instruction word at the
/// current PC) fixes the new peripheral state. A passing step leaves guest
/// memory and the stack pointer alone; a branching step pushes `SR` then
/// `PC` as big-endian words below the old stack pointer, lowers it by 8,
/// and redirects the next fetch to the resolved routine with one delay
/// slot.
pub open spec fn arch_step_post(
    pre: CompareMatchTimer,
    post: CompareMatchTimer,
    m0: GuestMem,
    m1: GuestMem,
    address: u64,
    sp0: u64,
    sp1: u64,
    sr: u32,
    r: StepAction,
) -> bool {
    let instr = spec_word32(m0, address, Endian::Big);
    let core = CompareMatchTimer::step_core(pre.ticked(), instr);
    &&& post == core.0
    &&& match core.1 {
        None => {
            &&& r == StepAction::Pass
            &&& sp1 == sp0
            &&& forall|b: u64| m1.byte(b) == m0.byte(b)
        },
        Some(is0) => {
            &&& r == (StepAction::Branch { delay: 1, target: pre.resolved(m0, is0) })
            &&& sp1 == sp0 - 8
            &&& spec_word32(m1, (sp0 - 4) as u64, Endian::Big) == sr
            &&& spec_word32(m1, (sp0 - 8) as u64, Endian::Big) == address as u32
            &&& forall|b: u64| !(sp0 - 8 <= b < sp0) ==> m1.byte(b) == m0.byte(b)
        },
    }
}

/// The 32-bit value a write hook sees: hooks receive the written bytes
/// big-endian, one, two or four of them.
pub open spec fn be_word_from_bytes(bytes: Seq<u8>) -> u32 {
    if bytes.len() == 1 {
        bytes[0] as u32
    } else if bytes.len() == 2 {
        ((bytes[0] as u32) << 8) | (bytes[1] as u32)
    } else {
        ((bytes[0] as u32) << 24) | ((bytes[1] as u32) << 16) | ((bytes[2] as u32) << 8) | (
        bytes[3] as u32)
    }
}

/// Whether a register access at `address` belongs to channel 0.
pub open spec fn hits_channel_0(address: u64) -> bool {
    ADDR_CMSTR <= address <= ADDR_CMCOR_0
}

/// Whether a register access at `address` belongs to channel 1 (the shared
/// start register belongs to both).
pub open spec fn hits_channel_1(address: u64) -> bool {
    address == ADDR_CMSTR || (ADDR_CMCSR_1 <= address <= ADDR_CMCOR_1)
}

/// The addresses the memory hooks accept inside the register window.
pub open spec fn window_mapped(address: u64) -> bool {
    address == ADDR_CMSTR || address == ADDR_CMCSR_0 || address == ADDR_CMCNT_0 || address
        == ADDR_CMCOR_0 || address == ADDR_CMCSR_1 || address == ADDR_CMCNT_1 || address
        == ADDR_CMCOR_1
}

/// What a memory-read hook guarantees: an access outside the register
/// window leaves memory alone; inside it, the word at the accessed address
/// becomes the stored word with every bound bit field replaced by the
/// backend value of its channel — channel 0 first, then channel 1 over
/// channel 0's result where the address belongs to both.
pub open spec fn mem_read_post(
    pre: CompareMatchTimer,
    m0: GuestMem,
    m1: GuestMem,
    address: u64,
) -> bool {
    if !(pre.address_range.0 <= address <= pre.address_range.1) {
        forall|b: u64| m1.byte(b) == m0.byte(b)
    } else {
        let v0 = spec_word32(m0, address, Endian::Big);
        let v1 = if hits_channel_0(address) {
            fold_read(read_inner(pre.backend.0, address), pre.backend.0, v0)
        } else {
            v0
        };
        let v2 = if hits_channel_1(address) {
            fold_read(read_inner(pre.backend.1, address), pre.backend.1, v1)
        } else {
            v1
        };
        &&& spec_word32(m1, address, Endian::Big) == v2
        &&& forall|b: u64|
            b != address && b != address + 1 && b != address + 2 && b != address + 3 ==> m1.byte(b)
                == m0.byte(b)
    }
}

/// What a memory-write hook guarantees: an access outside the register
/// window changes nothing; inside it, each channel the address belongs to
/// folds the written word through its write-table bindings, and that
/// channel's interrupt enable is synced to the backend's interrupt-enable
/// bit afterwards. Guest memory is never touched.
pub open spec fn mem_write_post(
    pre: CompareMatchTimer,
    post: CompareMatchTimer,
    address: u64,
    bytes: Seq<u8>,
) -> bool {
    if !(pre.address_range.0 <= address <= pre.address_range.1) {
        post == pre
    } else {
        let wv = be_word_from_bytes(bytes);
        let c0p = if hits_channel_0(address) {
            fold_write(write_inner(pre.backend.0, address), pre.backend.0, wv)
        } else {
            pre.backend.0
        };
        let i0p = if hits_channel_0(address) {
            Interrupt { enabled: c0p.interrupt_enabled, ..pre.interrupt.0 }
        } else {
            pre.interrupt.0
        };
        let c1p = if hits_channel_1(address) {
            fold_write(write_inner(pre.backend.1, address), pre.backend.1, wv)
        } else {
            pre.backend.1
        };
        let i1p = if hits_channel_1(address) {
            Interrupt { enabled: c1p.interrupt_enabled, ..pre.interrupt.1 }
        } else {
            pre.interrupt.1
        };
        post == (CompareMatchTimer { backend: (c0p, c1p), interrupt: (i0p, i1p), ..pre })
    }
}

/// The register map this peripheral serves, binding for binding: the
/// shared start register carries each channel's enable bit, each channel's
/// control register carries its interrupt-enable and matched bits, and the
/// counter and compare registers carry 16-bit value fields. The masks
/// bound at one address are pairwise disjoint.
pub open spec fn register_map_exact(r: CompareMatchTimer) -> bool {
    &&& read_inner(r.backend.0, ADDR_CMSTR) == seq![(0x01u32, FunName::is_enabled)]
    &&& write_inner(r.backend.0, ADDR_CMSTR) == seq![(0x01u32, FunName::set_enable)]
    &&& read_inner(r.backend.0, ADDR_CMCSR_0) == seq![
        (0x40u32, FunName::is_interrupt_enabled),
        (0x80u32, FunName::is_matched),
    ]
    &&& write_inner(r.backend.0, ADDR_CMCSR_0) == seq![
        (0x40u32, FunName::set_interrupt_enabled),
        (0x80u32, FunName::clear_matched_flag),
    ]
    &&& read_inner(r.backend.0, ADDR_CMCNT_0) == seq![(0xFFFFu32, FunName::get_current_tick)]
    &&& write_inner(r.backend.0, ADDR_CMCNT_0) == seq![(0xFFFFu32, FunName::set_current_tick)]
    &&& read_inner(r.backend.0, ADDR_CMCOR_0) == seq![(0xFFFFu32, FunName::get_compare_against)]
    &&& write_inner(r.backend.0, ADDR_CMCOR_0) == seq![(0xFFFFu32, FunName::set_compare_against)]
    &&& read_inner(r.backend.1, ADDR_CMSTR) == seq![(0x02u32, FunName::is_enabled)]
    &&& write_inner(r.backend.1, ADDR_CMSTR) == seq![(0x02u32, FunName::set_enable)]
    &&& read_inner(r.backend.1, ADDR_CMCSR_1) == seq![
        (0x40u32, FunName::is_interrupt_enabled),
        (0x80u32, FunName::is_matched),
    ]
    &&& write_inner(r.backend.1, ADDR_CMCSR_1) == seq![
        (0x40u32, FunName::set_interrupt_enabled),
        (0x80u32, FunName::clear_matched_flag),
    ]
    &&& read_inner(r.backend.1, ADDR_CMCNT_1) == seq![(0xFFFFu32, FunName::get_current_tick)]
    &&& write_inner(r.backend.1, ADDR_CMCNT_1) == seq![(0xFFFFu32, FunName::set_current_tick)]
    &&& read_inner(r.backend.1, ADDR_CMCOR_1) == seq![(0xFFFFu32, FunName::get_compare_against)]
    &&& write_inner(r.backend.1, ADDR_CMCOR_1) == seq![(0xFFFFu32, FunName::set_compare_against)]
    &&& masks_disjoint(read_inner(r.backend.0, ADDR_CMCSR_0))
    &&& masks_disjoint(write_inner(r.backend.0, ADDR_CMCSR_0))
    &&& masks_disjoint(read_inner(r.backend.1, ADDR_CMCSR_1))
    &&& masks_disjoint(write_inner(r.backend.1, ADDR_CMCSR_1))
}

impl CompareMatchTimer {
    /// Build the peripheral with both channels mapped at their fixed
    /// registers, interrupts named CMT0 and CMT1, and the service routines
    /// taken from the interrupt vector table.
    pub fn new() -> (r: Self)
        ensures
            r.tables_wf(),
            register_map_exact(r),
            crate::backend::compare_match_timer::fresh_counter(r.backend.0),
            crate::backend::compare_match_timer::fresh_counter(r.backend.1),
            !r.interrupt.0.enabled && !r.interrupt.0.triggered,
            !r.interrupt.1.enabled && !r.interrupt.1.triggered,
            r.handler.0 == InterruptHandler::Vector(0x000002BC),
            r.handler.1 == InterruptHandler::Vector(0x000002C0),
            r.address_range == (0xFFFEC000u64, 0xFFFEC00Cu64),
            r.step_wf(),
    {
        let mut cmt = backend::CompareMatchTimer::default();
        let mut cmt1 = backend::CompareMatchTimer::default();
        proof {
            crate::backend::compare_match_timer::lemma_mask_bounds_ffff();
        }

        let ghost gr0 = cmt.reg_read_map@;
        cmt.map_function_addr_read(ADDR_CMSTR, 0x01, &FunName::is_enabled);
        proof {
            lemma_bind_read_ok(gr0, cmt.reg_read_map@, ADDR_CMSTR, 0x01, FunName::is_enabled);
            lemma_table_bound_fresh(gr0, cmt.reg_read_map@, ADDR_CMSTR, 0x01, FunName::is_enabled);
            assert(cmt.reg_read_map@[0].1@ =~= seq![(0x01u32, FunName::is_enabled)]);
            assert(cmt.reg_read_map@[0].0 == ADDR_CMSTR);
            assert(cmt.reg_read_map@.len() == 1);
        }
        let ghost gr1 = cmt.reg_read_map@;
        cmt.map_function_addr_read(ADDR_CMCSR_0, 0x40, &FunName::is_interrupt_enabled);
        proof {
            lemma_bind_read_ok(gr1, cmt.reg_read_map@, ADDR_CMCSR_0, 0x40, FunName::is_interrupt_enabled);
            lemma_table_bound_fresh(gr1, cmt.reg_read_map@, ADDR_CMCSR_0, 0x40, FunName::is_interrupt_enabled);
            assert(cmt.reg_read_map@[1].1@ =~= seq![(0x40u32, FunName::is_interrupt_enabled)]);
            assert(cmt.reg_read_map@[0].0 == ADDR_CMSTR);
            assert(cmt.reg_read_map@[1].0 == ADDR_CMCSR_0);
            assert(cmt.reg_read_map@.len() == 2);
        }
        let ghost gr2 = cmt.reg_read_map@;
        cmt.map_function_addr_read(ADDR_CMCSR_0, 0x80, &FunName::is_matched);
        proof {
            lemma_bind_read_ok(gr2, cmt.reg_read_map@, ADDR_CMCSR_0, 0x80, FunName::is_matched);
            lemma_table_bound_extend(gr2, cmt.reg_read_map@, ADDR_CMCSR_0, 0x80, FunName::is_matched, 1);
            assert(cmt.reg_read_map@[1].1@ =~= seq![(0x40u32, FunName::is_interrupt_enabled), (0x80u32, FunName::is_matched)]);
            assert(cmt.reg_read_map@[0].0 == ADDR_CMSTR);
            assert(cmt.reg_read_map@[1].0 == ADDR_CMCSR_0);
            assert(cmt.reg_read_map@.len() == 2);
        }
        let ghost gr3 = cmt.reg_read_map@;
        cmt.map_function_addr_read(ADDR_CMCNT_0, 0xFFFF, &FunName::get_current_tick);
        proof {
            lemma_bind_read_ok(gr3, cmt.reg_read_map@, ADDR_CMCNT_0, 0xFFFF, FunName::get_current_tick);
            lemma_table_bound_fresh(gr3, cmt.reg_read_map@, ADDR_CMCNT_0, 0xFFFF, FunName::get_current_tick);
            assert(cmt.reg_read_map@[2].1@ =~= seq![(0xFFFFu32, FunName::get_current_tick)]);
            assert(cmt.reg_read_map@[0].0 == ADDR_CMSTR);
            assert(cmt.reg_read_map@[1].0 == ADDR_CMCSR_0);
            assert(cmt.reg_read_map@[2].0 == ADDR_CMCNT_0);
            assert(cmt.reg_read_map@.len() == 3);
        }
        let ghost gr4 = cmt.reg_read_map@;
        cmt.map_function_addr_read(ADDR_CMCOR_0, 0xFFFF, &FunName::get_compare_against);
        proof {
            lemma_bind_read_ok(gr4, cmt.reg_read_map@, ADDR_CMCOR_0, 0xFFFF, FunName::get_compare_against);
            lemma_table_bound_fresh(gr4, cmt.reg_read_map@, ADDR_CMCOR_0, 0xFFFF, FunName::get_compare_against);
            assert(cmt.reg_read_map@[3].1@ =~= seq![(0xFFFFu32, FunName::get_compare_against)]);
            assert(cmt.reg_read_map@[0].0 == ADDR_CMSTR);
            assert(cmt.reg_read_map@[1].0 == ADDR_CMCSR_0);
            assert(cmt.reg_read_map@[2].0 == ADDR_CMCNT_0);
            assert(cmt.reg_read_map@[3].0 == ADDR_CMCOR_0);
            assert(cmt.reg_read_map@.len() == 4);
        }
        proof {
            lemma_idx_of_addr_at(cmt.reg_read_map@, ADDR_CMSTR, 0);
            lemma_idx_of_addr_at(cmt.reg_read_map@, ADDR_CMCSR_0, 1);
            lemma_idx_of_addr_at(cmt.reg_read_map@, ADDR_CMCNT_0, 2);
            lemma_idx_of_addr_at(cmt.reg_read_map@, ADDR_CMCOR_0, 3);
        }
        let ghost gw0 = cmt.reg_write_map@;
        cmt.map_function_addr_write(ADDR_CMSTR, 0x01, &FunName::set_enable);
        proof {
            lemma_bind_write_ok(gw0, cmt.reg_write_map@, ADDR_CMSTR, 0x01, FunName::set_enable);
            lemma_table_bound_fresh(gw0, cmt.reg_write_map@, ADDR_CMSTR, 0x01, FunName::set_enable);
            assert(cmt.reg_write_map@[0].1@ =~= seq![(0x01u32, FunName::set_enable)]);
            assert(cmt.reg_write_map@[0].0 == ADDR_CMSTR);
            assert(cmt.reg_write_map@.len() == 1);
        }
        let ghost gw1 = cmt.reg_write_map@;
        cmt.map_function_addr_write(ADDR_CMCSR_0, 0x40, &FunName::set_interrupt_enabled);
        proof {
            lemma_bind_write_ok(gw1, cmt.reg_write_map@, ADDR_CMCSR_0, 0x40, FunName::set_interrupt_enabled);
            lemma_table_bound_fresh(gw1, cmt.reg_write_map@, ADDR_CMCSR_0, 0x40, FunName::set_interrupt_enabled);
            assert(cmt.reg_write_map@[1].1@ =~= seq![(0x40u32, FunName::set_interrupt_enabled)]);
            assert(cmt.reg_write_map@[0].0 == ADDR_CMSTR);
            assert(cmt.reg_write_map@[1].0 == ADDR_CMCSR_0);
            assert(cmt.reg_write_map@.len() == 2);
        }
        let ghost gw2 = cmt.reg_write_map@;
        cmt.map_function_addr_write(ADDR_CMCSR_0, 0x80, &FunName::clear_matched_flag);
        proof {
            lemma_bind_write_ok(gw2, cmt.reg_write_map@, ADDR_CMCSR_0, 0x80, FunName::clear_matched_flag);
            lemma_table_bound_extend(gw2, cmt.reg_write_map@, ADDR_CMCSR_0, 0x80, FunName::clear_matched_flag, 1);
            assert(cmt.reg_write_map@[1].1@ =~= seq![(0x40u32, FunName::set_interrupt_enabled), (0x80u32, FunName::clear_matched_flag)]);
            assert(cmt.reg_write_map@[0].0 == ADDR_CMSTR);
            assert(cmt.reg_write_map@[1].0 == ADDR_CMCSR_0);
            assert(cmt.reg_write_map@.len() == 2);
        }
        let ghost gw3 = cmt.reg_write_map@;
        cmt.map_function_addr_write(ADDR_CMCNT_0, 0xFFFF, &FunName::set_current_tick);
        proof {
            lemma_bind_write_ok(gw3, cmt.reg_write_map@, ADDR_CMCNT_0, 0xFFFF, FunName::set_current_tick);
            lemma_table_bound_fresh(gw3, cmt.reg_write_map@, ADDR_CMCNT_0, 0xFFFF, FunName::set_current_tick);
            assert(cmt.reg_write_map@[2].1@ =~= seq![(0xFFFFu32, FunName::set_current_tick)]);
            assert(cmt.reg_write_map@[0].0 == ADDR_CMSTR);
            assert(cmt.reg_write_map@[1].0 == ADDR_CMCSR_0);
            assert(cmt.reg_write_map@[2].0 == ADDR_CMCNT_0);
            assert(cmt.reg_write_map@.len() == 3);
        }
        let ghost gw4 = cmt.reg_write_map@;
        cmt.map_function_addr_write(ADDR_CMCOR_0, 0xFFFF, &FunName::set_compare_against);
        proof {
            lemma_bind_write_ok(gw4, cmt.reg_write_map@, ADDR_CMCOR_0, 0xFFFF, FunName::set_compare_against);
            lemma_table_bound_fresh(gw4, cmt.reg_write_map@, ADDR_CMCOR_0, 0xFFFF, FunName::set_compare_against);
            assert(cmt.reg_write_map@[3].1@ =~= seq![(0xFFFFu32, FunName::set_compare_against)]);
            assert(cmt.reg_write_map@[0].0 == ADDR_CMSTR);
            assert(cmt.reg_write_map@[1].0 == ADDR_CMCSR_0);
            assert(cmt.reg_write_map@[2].0 == ADDR_CMCNT_0);
            assert(cmt.reg_write_map@[3].0 == ADDR_CMCOR_0);
            assert(cmt.reg_write_map@.len() == 4);
        }
        proof {
            lemma_idx_of_addr_at(cmt.reg_write_map@, ADDR_CMSTR, 0);
            lemma_idx_of_addr_at(cmt.reg_write_map@, ADDR_CMCSR_0, 1);
            lemma_idx_of_addr_at(cmt.reg_write_map@, ADDR_CMCNT_0, 2);
            lemma_idx_of_addr_at(cmt.reg_write_map@, ADDR_CMCOR_0, 3);
        }
        let ghost hr0 = cmt1.reg_read_map@;
        cmt1.map_function_addr_read(ADDR_CMSTR, 0x02, &FunName::is_enabled);
        proof {
            lemma_bind_read_ok(hr0, cmt1.reg_read_map@, ADDR_CMSTR, 0x02, FunName::is_enabled);
            lemma_table_bound_fresh(hr0, cmt1.reg_read_map@, ADDR_CMSTR, 0x02, FunName::is_enabled);
            assert(cmt1.reg_read_map@[0].1@ =~= seq![(0x02u32, FunName::is_enabled)]);
            assert(cmt1.reg_read_map@[0].0 == ADDR_CMSTR);
            assert(cmt1.reg_read_map@.len() == 1);
        }
        let ghost hr1 = cmt1.reg_read_map@;
        cmt1.map_function_addr_read(ADDR_CMCSR_1, 0x40, &FunName::is_interrupt_enabled);
        proof {
            lemma_bind_read_ok(hr1, cmt1.reg_read_map@, ADDR_CMCSR_1, 0x40, FunName::is_interrupt_enabled);
            lemma_table_bound_fresh(hr1, cmt1.reg_read_map@, ADDR_CMCSR_1, 0x40, FunName::is_interrupt_enabled);
            assert(cmt1.reg_read_map@[1].1@ =~= seq![(0x40u32, FunName::is_interrupt_enabled)]);
            assert(cmt1.reg_read_map@[0].0 == ADDR_CMSTR);
            assert(cmt1.reg_read_map@[1].0 == ADDR_CMCSR_1);
            assert(cmt1.reg_read_map@.len() == 2);
        }
        let ghost hr2 = cmt1.reg_read_map@;
        cmt1.map_function_addr_read(ADDR_CMCSR_1, 0x80, &FunName::is_matched);
        proof {
            lemma_bind_read_ok(hr2, cmt1.reg_read_map@, ADDR_CMCSR_1, 0x80, FunName::is_matched);
            lemma_table_bound_extend(hr2, cmt1.reg_read_map@, ADDR_CMCSR_1, 0x80, FunName::is_matched, 1);
            assert(cmt1.reg_read_map@[1].1@ =~= seq![(0x40u32, FunName::is_interrupt_enabled), (0x80u32, FunName::is_matched)]);
            assert(cmt1.reg_read_map@[0].0 == ADDR_CMSTR);
            assert(cmt1.reg_read_map@[1].0 == ADDR_CMCSR_1);
            assert(cmt1.reg_read_map@.len() == 2);
        }
        let ghost hr3 = cmt1.reg_read_map@;
        cmt1.map_function_addr_read(ADDR_CMCNT_1, 0xFFFF, &FunName::get_current_tick);
        proof {
            lemma_bind_read_ok(hr3, cmt1.reg_read_map@, ADDR_CMCNT_1, 0xFFFF, FunName::get_current_tick);
            lemma_table_bound_fresh(hr3, cmt1.reg_read_map@, ADDR_CMCNT_1, 0xFFFF, FunName::get_current_tick);
            assert(cmt1.reg_read_map@[2].1@ =~= seq![(0xFFFFu32, FunName::get_current_tick)]);
            assert(cmt1.reg_read_map@[0].0 == ADDR_CMSTR);
            assert(cmt1.reg_read_map@[1].0 == ADDR_CMCSR_1);
            assert(cmt1.reg_read_map@[2].0 == ADDR_CMCNT_1);
            assert(cmt1.reg_read_map@.len() == 3);
        }
        let ghost hr4 = cmt1.reg_read_map@;
        cmt1.map_function_addr_read(ADDR_CMCOR_1, 0xFFFF, &FunName::get_compare_against);
        proof {
            lemma_bind_read_ok(hr4, cmt1.reg_read_map@, ADDR_CMCOR_1, 0xFFFF, FunName::get_compare_against);
            lemma_table_bound_fresh(hr4, cmt1.reg_read_map@, ADDR_CMCOR_1, 0xFFFF, FunName::get_compare_against);
            assert(cmt1.reg_read_map@[3].1@ =~= seq![(0xFFFFu32, FunName::get_compare_against)]);
            assert(cmt1.reg_read_map@[0].0 == ADDR_CMSTR);
            assert(cmt1.reg_read_map@[1].0 == ADDR_CMCSR_1);
            assert(cmt1.reg_read_map@[2].0 == ADDR_CMCNT_1);
            assert(cmt1.reg_read_map@[3].0 == ADDR_CMCOR_1);
            assert(cmt1.reg_read_map@.len() == 4);
        }
        proof {
            lemma_idx_of_addr_at(cmt1.reg_read_map@, ADDR_CMSTR, 0);
            lemma_idx_of_addr_at(cmt1.reg_read_map@, ADDR_CMCSR_1, 1);
            lemma_idx_of_addr_at(cmt1.reg_read_map@, ADDR_CMCNT_1, 2);
            lemma_idx_of_addr_at(cmt1.reg_read_map@, ADDR_CMCOR_1, 3);
        }
        let ghost hw0 = cmt1.reg_write_map@;
        cmt1.map_function_addr_write(ADDR_CMSTR, 0x02, &FunName::set_enable);
        proof {
            lemma_bind_write_ok(hw0, cmt1.reg_write_map@, ADDR_CMSTR, 0x02, FunName::set_enable);
            lemma_table_bound_fresh(hw0, cmt1.reg_write_map@, ADDR_CMSTR, 0x02, FunName::set_enable);
            assert(cmt1.reg_write_map@[0].1@ =~= seq![(0x02u32, FunName::set_enable)]);
            assert(cmt1.reg_write_map@[0].0 == ADDR_CMSTR);
            assert(cmt1.reg_write_map@.len() == 1);
        }
        let ghost hw1 = cmt1.reg_write_map@;
        cmt1.map_function_addr_write(ADDR_CMCSR_1, 0x40, &FunName::set_interrupt_enabled);
        proof {
            lemma_bind_write_ok(hw1, cmt1.reg_write_map@, ADDR_CMCSR_1, 0x40, FunName::set_interrupt_enabled);
            lemma_table_bound_fresh(hw1, cmt1.reg_write_map@, ADDR_CMCSR_1, 0x40, FunName::set_interrupt_enabled);
            assert(cmt1.reg_write_map@[1].1@ =~= seq![(0x40u32, FunName::set_interrupt_enabled)]);
            assert(cmt1.reg_write_map@[0].0 == ADDR_CMSTR);
            assert(cmt1.reg_write_map@[1].0 == ADDR_CMCSR_1);
            assert(cmt1.reg_write_map@.len() == 2);
        }
        let ghost hw2 = cmt1.reg_write_map@;
        cmt1.map_function_addr_write(ADDR_CMCSR_1, 0x80, &FunName::clear_matched_flag);
        proof {
            lemma_bind_write_ok(hw2, cmt1.reg_write_map@, ADDR_CMCSR_1, 0x80, FunName::clear_matched_flag);
            lemma_table_bound_extend(hw2, cmt1.reg_write_map@, ADDR_CMCSR_1, 0x80, FunName::clear_matched_flag, 1);
            assert(cmt1.reg_write_map@[1].1@ =~= seq![(0x40u32, FunName::set_interrupt_enabled), (0x80u32, FunName::clear_matched_flag)]);
            assert(cmt1.reg_write_map@[0].0 == ADDR_CMSTR);
            assert(cmt1.reg_write_map@[1].0 == ADDR_CMCSR_1);
            assert(cmt1.reg_write_map@.len() == 2);
        }
        let ghost hw3 = cmt1.reg_write_map@;
        cmt1.map_function_addr_write(ADDR_CMCNT_1, 0xFFFF, &FunName::set_current_tick);
        proof {
            lemma_bind_write_ok(hw3, cmt1.reg_write_map@, ADDR_CMCNT_1, 0xFFFF, FunName::set_current_tick);
            lemma_table_bound_fresh(hw3, cmt1.reg_write_map@, ADDR_CMCNT_1, 0xFFFF, FunName::set_current_tick);
            assert(cmt1.reg_write_map@[2].1@ =~= seq![(0xFFFFu32, FunName::set_current_tick)]);
            assert(cmt1.reg_write_map@[0].0 == ADDR_CMSTR);
            assert(cmt1.reg_write_map@[1].0 == ADDR_CMCSR_1);
            assert(cmt1.reg_write_map@[2].0 == ADDR_CMCNT_1);
            assert(cmt1.reg_write_map@.len() == 3);
        }
        let ghost hw4 = cmt1.reg_write_map@;
        cmt1.map_function_addr_write(ADDR_CMCOR_1, 0xFFFF, &FunName::set_compare_against);
        proof {
            lemma_bind_write_ok(hw4, cmt1.reg_write_map@, ADDR_CMCOR_1, 0xFFFF, FunName::set_compare_against);
            lemma_table_bound_fresh(hw4, cmt1.reg_write_map@, ADDR_CMCOR_1, 0xFFFF, FunName::set_compare_against);
            assert(cmt1.reg_write_map@[3].1@ =~= seq![(0xFFFFu32, FunName::set_compare_against)]);
            assert(cmt1.reg_write_map@[0].0 == ADDR_CMSTR);
            assert(cmt1.reg_write_map@[1].0 == ADDR_CMCSR_1);
            assert(cmt1.reg_write_map@[2].0 == ADDR_CMCNT_1);
            assert(cmt1.reg_write_map@[3].0 == ADDR_CMCOR_1);
            assert(cmt1.reg_write_map@.len() == 4);
        }
        proof {
            lemma_idx_of_addr_at(cmt1.reg_write_map@, ADDR_CMSTR, 0);
            lemma_idx_of_addr_at(cmt1.reg_write_map@, ADDR_CMCSR_1, 1);
            lemma_idx_of_addr_at(cmt1.reg_write_map@, ADDR_CMCNT_1, 2);
            lemma_idx_of_addr_at(cmt1.reg_write_map@, ADDR_CMCOR_1, 3);
        }
        let r = Self {
            backend: (cmt, cmt1),
            interrupt: (Interrupt::new("CMT0"), Interrupt::new("CMT1")),
            handler: (
                InterruptHandler::Vector(0x000002BC),
                InterruptHandler::Vector(0x000002C0),
            ),
            address_range: (0xFFFEC000, 0xFFFEC00C),
        };
        proof {
            assert(0x40u32 & 0x80u32 == 0 && 0x80u32 & 0x40u32 == 0) by (bit_vector);
            assert(register_map_exact(r));
        }
        r
    }

    /// One architectural step: tick both channels, then service a pending
    /// interrupt. When a channel fires (or already holds a pending
    /// interrupt) and its interrupt is enabled, the step pushes `sr` and
    /// the current `address` onto the guest stack (big-endian, descending),
    /// lowers the stack pointer by 8, and branches to the handler's routine
    /// with one delay slot. The return-from-exception opcode at the current
    /// address clears a triggered channel instead.
    pub fn hook_architectural_step(
        &mut self,
        mem: &mut GuestMem,
        address: u64,
        sp: &mut u64,
        sr: u32,
    ) -> (r: StepAction)
        requires
            old(self).step_wf(),
            address <= u32::MAX,
            *old(sp) >= 8,
        ensures
            arch_step_post(
                *old(self),
                *final(self),
                *old(mem),
                *final(mem),
                address,
                *old(sp),
                *final(sp),
                sr,
                r,
            ),
    {
        self.backend.0.tick();
        self.backend.1.tick();
        let m0 = self.backend.0.is_matched();
        let m1 = self.backend.1.is_matched();
        // The second triggered test reads channel 0 again, not channel 1;
        // see the note on `step_core`.
        if !m0 && !self.interrupt.0.is_triggered() && !m1 && !self.interrupt.0.is_triggered() {
            return StepAction::Pass;
        }
        // If neither interrupt is enabled nor already pending, continue.
        if !self.interrupt.0.is_enabled() && !self.interrupt.0.is_triggered()
            && !self.interrupt.1.is_enabled() && !self.interrupt.1.is_triggered() {
            return StepAction::Pass;
        }
        let instruction = mem.read_u32(address, Endian::Big);
        // From this point the interrupt has been triggered; handle it.
        if self.interrupt.0.is_triggered() {
            if instruction == INST_RTE {
                // Return from interrupt: drop the triggered status.
                self.interrupt.0.set_triggered(false);
            }
            // Inside a service routine: do not branch to it again.
            return StepAction::Pass;
        }
        if self.backend.0.is_matched() && self.backend.0.is_enabled() {
            self.interrupt.0.set_triggered(true);
        }
        if self.interrupt.1.is_triggered() {
            if instruction == INST_RTE {
                self.interrupt.1.set_triggered(false);
            }
            return StepAction::Pass;
        }
        if self.backend.1.is_matched() && self.backend.1.is_enabled() {
            self.interrupt.1.set_triggered(true);
        }
        // Fetch the routine start address from the handling vector table,
        // channel 0 first.
        let routine_addr: u64;
        if self.interrupt.0.is_triggered() {
            routine_addr = match self.handler.0.get_routine_address(mem, Endian::Big) {
                Some(a) => a,
                None => vstd::pervasive::unreached(),
            };
        } else if self.interrupt.1.is_triggered() {
            routine_addr = match self.handler.1.get_routine_address(mem, Endian::Big) {
                Some(a) => a,
                None => vstd::pervasive::unreached(),
            };
        } else {
            return StepAction::Pass;
        }
        // Save SR to the stack, then PC, descending.
        let mut sp_val = *sp;
        sp_val = sp_val - 4;
        mem.write_u32(sp_val, sr, Endian::Big);
        let pc: u32 = address as u32;
        sp_val = sp_val - 4;
        mem.write_u32(sp_val, pc, Endian::Big);
        *sp = sp_val;
        // Jump to the routine start address after one delay slot.
        StepAction::Branch { delay: 1, target: routine_addr }
    }

    /// Serve a firmware read inside the register window: each channel the
    /// address belongs to refreshes the stored word from its backend.
    pub fn hook_memory_read(&mut self, mem: &mut GuestMem, address: u64, _size: usize)
        requires
            old(self).tables_wf(),
            old(self).address_range.0 <= address <= old(self).address_range.1 ==> window_mapped(
                address,
            ) && old(self).backend.0.compare_against <= u32::MAX && old(
                self,
            ).backend.0.current_tick <= u32::MAX && old(self).backend.1.compare_against
                <= u32::MAX && old(self).backend.1.current_tick <= u32::MAX && address + 3
                <= u64::MAX,
        ensures
            *final(self) == *old(self),
            mem_read_post(*old(self), *old(mem), *final(mem), address),
    {
        let (min, max) = self.address_range;
        if min <= address && address <= max {
            proof {
                crate::backend::compare_match_timer::lemma_idx_of_addr_props(
                    self.backend.0.reg_read_map@,
                    address,
                );
                crate::backend::compare_match_timer::lemma_idx_of_addr_props(
                    self.backend.1.reg_read_map@,
                    address,
                );
            }
            if address >= ADDR_CMSTR && address <= ADDR_CMCOR_0 {
                self.backend.0.handle_reg_read(mem, address, Endian::Big);
            }
            if address == ADDR_CMSTR || (address >= ADDR_CMCSR_1 && address <= ADDR_CMCOR_1) {
                self.backend.1.handle_reg_read(mem, address, Endian::Big);
            }
        }
    }

    /// Serve a firmware write inside the register window: the written
    /// bytes (big-endian; one, two or four of them) drive the bound
    /// backend operations of each channel the address belongs to, and that
    /// channel's interrupt enable follows the backend's interrupt-enable
    /// bit.
    pub fn hook_memory_write(&mut self, address: u64, _size: usize, value: &[u8])
        requires
            old(self).tables_wf(),
            old(self).address_range.0 <= address <= old(self).address_range.1 ==> window_mapped(
                address,
            ) && (value@.len() == 1 || value@.len() == 2 || value@.len() == 4),
        ensures
            mem_write_post(*old(self), *final(self), address, value@),
    {
        let (min, max) = self.address_range;
        if min <= address && address <= max {
            let write_val: u32 = if value.len() == 1 {
                value[0] as u32
            } else if value.len() == 2 {
                ((value[0] as u32) << 8) | (value[1] as u32)
            } else {
                ((value[0] as u32) << 24) | ((value[1] as u32) << 16) | ((value[2] as u32) << 8) | (
                value[3] as u32)
            };
            proof {
                crate::backend::compare_match_timer::lemma_idx_of_addr_props(
                    self.backend.0.reg_write_map@,
                    address,
                );
                crate::backend::compare_match_timer::lemma_idx_of_addr_props(
                    self.backend.1.reg_write_map@,
                    address,
                );
            }
            if address >= ADDR_CMSTR && address <= ADDR_CMCOR_0 {
                self.backend.0.handle_reg_write(address, write_val);
                if self.backend.0.is_interrupt_enabled() {
                    self.interrupt.0.set_enable(true);
                } else {
                    self.interrupt.0.set_enable(false);
                }
            }
            if address == ADDR_CMSTR || (address >= ADDR_CMCSR_1 && address <= ADDR_CMCOR_1) {
                self.backend.1.handle_reg_write(address, write_val);
                if self.backend.1.is_interrupt_enabled() {
                    self.interrupt.1.set_enable(true);
                } else {
                    self.interrupt.1.set_enable(false);
                }
            }
        }
    }
}

} // verus!
