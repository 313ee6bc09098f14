//! General-purpose timer for a little-endian C166 core: one compare-match
//! backend mapped at the T6 control and count registers, free-running
//! against a full 16-bit compare value.

use vstd::prelude::*;
use crate::backend;
use crate::backend::compare_match_timer::FunName;
use crate::backend::compare_match_timer::fold_read;
use crate::backend::compare_match_timer::fold_write;
use crate::backend::compare_match_timer::idx_of_addr;
use crate::backend::compare_match_timer::lemma_bind_read_ok;
use crate::backend::compare_match_timer::lemma_bind_write_ok;
use crate::backend::compare_match_timer::lemma_idx_of_addr_at;
use crate::backend::compare_match_timer::lemma_idx_of_addr_props;
use crate::backend::compare_match_timer::lemma_table_bound_extend;
use crate::backend::compare_match_timer::lemma_table_bound_fresh;
use crate::backend::compare_match_timer::masks_disjoint;
use crate::backend::compare_match_timer::read_inner;
use crate::backend::compare_match_timer::read_table_ok;
use crate::backend::compare_match_timer::write_inner;
use crate::backend::compare_match_timer::write_table_ok;
use crate::backend::interrupt::Interrupt;
use crate::backend::interrupt::InterruptHandler;
use crate::machine::Endian;
use crate::machine::GuestMem;
use crate::machine::StepAction;
use crate::machine::spec_word32;

verus! {

/// Errors this peripheral's hooks can report.
#[derive(Clone, Copy, Debug, PartialEq, Eq, Structural)]
pub enum C166GPTError {
    OtherError,
}

/// T6 control register.
pub const ADDR_T6CON: u64 = 0xFF48;

/// T6 count register.
pub const ADDR_T6: u64 = 0xFE48;

/// The general-purpose timer: one counter backend, its interrupt, and the
/// vector-table handler an accepted interrupt would branch through.
pub struct GeneralPurposeTimer {
    pub backend_cmt6: backend::CompareMatchTimer,
    pub interrupt: Interrupt,
    pub handler: InterruptHandler,
    pub address_range: (u64, u64),
}

/// The two registers this peripheral serves.
pub open spec fn gpt_mapped(address: u64) -> bool {
    address == ADDR_T6CON || address == ADDR_T6
}

/// The register map this timer serves, binding for binding: the control
/// register carries the enable bit and the toggle-output bit, and the
/// count register carries a 16-bit value field. The masks bound at one
/// address are pairwise disjoint.
pub open spec fn gpt_register_map_exact(r: GeneralPurposeTimer) -> bool {
    &&& read_inner(r.backend_cmt6, ADDR_T6CON) == seq![
        (0x40u32, FunName::is_enabled),
        (0x400u32, FunName::get_match_toggle),
    ]
    &&& write_inner(r.backend_cmt6, ADDR_T6CON) == seq![
        (0x40u32, FunName::set_enable),
        (0x400u32, FunName::set_match_toggle),
    ]
    &&& read_inner(r.backend_cmt6, ADDR_T6) == seq![(0xFFFFu32, FunName::get_current_tick)]
    &&& write_inner(r.backend_cmt6, ADDR_T6) == seq![(0xFFFFu32, FunName::set_current_tick)]
    &&& masks_disjoint(read_inner(r.backend_cmt6, ADDR_T6CON))
    &&& masks_disjoint(write_inner(r.backend_cmt6, ADDR_T6CON))
}

impl GeneralPurposeTimer {
    /// The backend's dispatch tables are well formed and serve both
    /// registers.
    pub open spec fn tables_wf(self) -> bool {
        &&& read_table_ok(self.backend_cmt6.reg_read_map@)
        &&& write_table_ok(self.backend_cmt6.reg_write_map@)
        &&& idx_of_addr(self.backend_cmt6.reg_read_map@, ADDR_T6CON) >= 0
        &&& idx_of_addr(self.backend_cmt6.reg_read_map@, ADDR_T6) >= 0
        &&& idx_of_addr(self.backend_cmt6.reg_write_map@, ADDR_T6CON) >= 0
        &&& idx_of_addr(self.backend_cmt6.reg_write_map@, ADDR_T6) >= 0
    }

    /// Build the timer with the T6 control and count registers mapped and
    /// the compare value at the full 16-bit wrap point.
    pub fn new() -> (r: Self)
        ensures
            r.tables_wf(),
            gpt_register_map_exact(r),
            !r.backend_cmt6.counter_start,
            r.backend_cmt6.current_tick == 0,
            r.backend_cmt6.compare_against == 0xffff,
            r.backend_cmt6.count_forward,
            !r.backend_cmt6.matched,
            !r.backend_cmt6.match_toggle,
            !r.interrupt.enabled && !r.interrupt.triggered,
            r.handler == InterruptHandler::Vector(0x000002BC),
            r.address_range == (0xFE48u64, 0xFF68u64),
    {
        let mut cmt6 = backend::CompareMatchTimer::default();
        proof {
            crate::backend::compare_match_timer::lemma_mask_bounds_ffff();
        }

        let ghost gr0 = cmt6.reg_read_map@;
        cmt6.map_function_addr_read(ADDR_T6CON, 0x40, &FunName::is_enabled);
        proof {
            lemma_bind_read_ok(gr0, cmt6.reg_read_map@, ADDR_T6CON, 0x40, FunName::is_enabled);
            lemma_table_bound_fresh(gr0, cmt6.reg_read_map@, ADDR_T6CON, 0x40, FunName::is_enabled);
            assert(cmt6.reg_read_map@[0].1@ =~= seq![(0x40u32, FunName::is_enabled)]);
            assert(cmt6.reg_read_map@[0].0 == ADDR_T6CON);
            assert(cmt6.reg_read_map@.len() == 1);
        }
        let ghost gr1 = cmt6.reg_read_map@;
        cmt6.map_function_addr_read(ADDR_T6CON, 0x400, &FunName::get_match_toggle);
        proof {
            lemma_bind_read_ok(gr1, cmt6.reg_read_map@, ADDR_T6CON, 0x400, FunName::get_match_toggle);
            lemma_table_bound_extend(gr1, cmt6.reg_read_map@, ADDR_T6CON, 0x400, FunName::get_match_toggle, 0);
            assert(cmt6.reg_read_map@[0].1@ =~= seq![(0x40u32, FunName::is_enabled), (0x400u32, FunName::get_match_toggle)]);
            assert(cmt6.reg_read_map@[0].0 == ADDR_T6CON);
            assert(cmt6.reg_read_map@.len() == 1);
        }
        let ghost gr2 = cmt6.reg_read_map@;
        cmt6.map_function_addr_read(ADDR_T6, 0xFFFF, &FunName::get_current_tick);
        proof {
            lemma_bind_read_ok(gr2, cmt6.reg_read_map@, ADDR_T6, 0xFFFF, FunName::get_current_tick);
            lemma_table_bound_fresh(gr2, cmt6.reg_read_map@, ADDR_T6, 0xFFFF, FunName::get_current_tick);
            assert(cmt6.reg_read_map@[1].1@ =~= seq![(0xFFFFu32, FunName::get_current_tick)]);
            assert(cmt6.reg_read_map@[0].0 == ADDR_T6CON);
            assert(cmt6.reg_read_map@[1].0 == ADDR_T6);
            assert(cmt6.reg_read_map@.len() == 2);
        }
        proof {
            lemma_idx_of_addr_at(cmt6.reg_read_map@, ADDR_T6CON, 0);
            lemma_idx_of_addr_at(cmt6.reg_read_map@, ADDR_T6, 1);
        }
        let ghost gw0 = cmt6.reg_write_map@;
        cmt6.map_function_addr_write(ADDR_T6CON, 0x40, &FunName::set_enable);
        proof {
            lemma_bind_write_ok(gw0, cmt6.reg_write_map@, ADDR_T6CON, 0x40, FunName::set_enable);
            lemma_table_bound_fresh(gw0, cmt6.reg_write_map@, ADDR_T6CON, 0x40, FunName::set_enable);
            assert(cmt6.reg_write_map@[0].1@ =~= seq![(0x40u32, FunName::set_enable)]);
            assert(cmt6.reg_write_map@[0].0 == ADDR_T6CON);
            assert(cmt6.reg_write_map@.len() == 1);
        }
        let ghost gw1 = cmt6.reg_write_map@;
        cmt6.map_function_addr_write(ADDR_T6CON, 0x400, &FunName::set_match_toggle);
        proof {
            lemma_bind_write_ok(gw1, cmt6.reg_write_map@, ADDR_T6CON, 0x400, FunName::set_match_toggle);
            lemma_table_bound_extend(gw1, cmt6.reg_write_map@, ADDR_T6CON, 0x400, FunName::set_match_toggle, 0);
            assert(cmt6.reg_write_map@[0].1@ =~= seq![(0x40u32, FunName::set_enable), (0x400u32, FunName::set_match_toggle)]);
            assert(cmt6.reg_write_map@[0].0 == ADDR_T6CON);
            assert(cmt6.reg_write_map@.len() == 1);
        }
        let ghost gw2 = cmt6.reg_write_map@;
        cmt6.map_function_addr_write(ADDR_T6, 0xFFFF, &FunName::set_current_tick);
        proof {
            lemma_bind_write_ok(gw2, cmt6.reg_write_map@, ADDR_T6, 0xFFFF, FunName::set_current_tick);
            lemma_table_bound_fresh(gw2, cmt6.reg_write_map@, ADDR_T6, 0xFFFF, FunName::set_current_tick);
            assert(cmt6.reg_write_map@[1].1@ =~= seq![(0xFFFFu32, FunName::set_current_tick)]);
            assert(cmt6.reg_write_map@[0].0 == ADDR_T6CON);
            assert(cmt6.reg_write_map@[1].0 == ADDR_T6);
            assert(cmt6.reg_write_map@.len() == 2);
        }
        proof {
            lemma_idx_of_addr_at(cmt6.reg_write_map@, ADDR_T6CON, 0);
            lemma_idx_of_addr_at(cmt6.reg_write_map@, ADDR_T6, 1);
        }
        cmt6.set_compare_against(0xffff);

        let r = Self {
            backend_cmt6: cmt6,
            interrupt: Interrupt::new("GPT"),
            handler: InterruptHandler::Vector(0x000002BC),
            address_range: (0xFE48, 0xFF68),
        };
        proof {
            assert(0x40u32 & 0x400u32 == 0 && 0x400u32 & 0x40u32 == 0) by (bit_vector);
            assert(gpt_register_map_exact(r));
        }
        r
    }

    /// One architectural step only advances the counter one clock cycle.
    pub fn hook_architectural_step(&mut self) -> (r: StepAction)
        requires
            old(self).backend_cmt6.counter_start && old(self).backend_cmt6.count_forward ==> old(
                self,
            ).backend_cmt6.current_tick < u128::MAX,
            old(self).backend_cmt6.counter_start && !old(self).backend_cmt6.count_forward ==> old(
                self,
            ).backend_cmt6.current_tick > 0,
        ensures
            *final(self) == (GeneralPurposeTimer {
                backend_cmt6: old(self).backend_cmt6.tick_spec().0,
                ..*old(self)
            }),
            r == StepAction::Pass,
    {
        self.backend_cmt6.tick();
        StepAction::Pass
    }

    /// Serve a firmware read of one of the two mapped registers: the
    /// stored little-endian word is refreshed from the backend.
    pub fn hook_memory_read(&mut self, mem: &mut GuestMem, address: u64, _size: usize)
        requires
            old(self).tables_wf(),
            old(self).backend_cmt6.compare_against <= u32::MAX,
            old(self).backend_cmt6.current_tick <= u32::MAX,
        ensures
            *final(self) == *old(self),
            !gpt_mapped(address) ==> forall|b: u64| final(mem).byte(b) == old(mem).byte(b),
            gpt_mapped(address) ==> spec_word32(*final(mem), address, Endian::Little) == fold_read(
                read_inner(old(self).backend_cmt6, address),
                old(self).backend_cmt6,
                spec_word32(*old(mem), address, Endian::Little),
            ),
            gpt_mapped(address) ==> forall|b: u64|
                b != address && b != address + 1 && b != address + 2 && b != address + 3
                    ==> #[trigger] final(mem).byte(b) == old(mem).byte(b),
    {
        if address == ADDR_T6CON || address == ADDR_T6 {
            proof {
                lemma_idx_of_addr_props(self.backend_cmt6.reg_read_map@, address);
            }
            self.backend_cmt6.handle_reg_read(mem, address, Endian::Little);
        }
    }

    /// Serve a firmware write to one of the two mapped registers: the
    /// little-endian bytes (one or two of them) drive the bound backend
    /// operations, and the interrupt enable follows the backend's
    /// interrupt-enable bit.
    pub fn hook_memory_write(&mut self, address: u64, _size: usize, value: &[u8])
        requires
            old(self).tables_wf(),
            gpt_mapped(address) ==> value@.len() == 1 || value@.len() == 2,
        ensures
            !gpt_mapped(address) ==> *final(self) == *old(self),
            gpt_mapped(address) ==> ({
                let wv = if value@.len() == 1 {
                    value@[0] as u32
                } else {
                    ((value@[1] as u32) << 8) | (value@[0] as u32)
                };
                let c = fold_write(
                    write_inner(old(self).backend_cmt6, address),
                    old(self).backend_cmt6,
                    wv,
                );
                *final(self) == (GeneralPurposeTimer {
                    backend_cmt6: c,
                    interrupt: (Interrupt { enabled: c.interrupt_enabled, ..old(self).interrupt }),
                    ..*old(self)
                })
            }),
    {
        if address == ADDR_T6CON || address == ADDR_T6 {
            let write_val: u32 = if value.len() == 1 {
                value[0] as u32
            } else {
                ((value[1] as u32) << 8) | (value[0] as u32)
            };
            proof {
                lemma_idx_of_addr_props(self.backend_cmt6.reg_write_map@, address);
            }
            self.backend_cmt6.handle_reg_write(address, write_val);
            if self.backend_cmt6.is_interrupt_enabled() {
                self.interrupt.set_enable(true);
            } else {
                self.interrupt.set_enable(false);
            }
        }
    }
}

} // verus!
