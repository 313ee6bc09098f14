//! The bypass ("dummy") peripheral: watches every low-level operation,
//! notices when firmware polls an address inside one of its declared
//! ranges, reconstructs the polled condition's expression tree, detects
//! the polling loop, and asks an external solver for a register value that
//! exits it. A proposed assignment is only written back to guest memory
//! after this module has checked, by evaluating the reconstructed
//! constraint, that it really exits the loop; accepted values can be
//! cached so later runs skip the solve.

use vstd::prelude::*;
use crate::bypass::expr::Binding;
use crate::bypass::expr::Expr;
use crate::bypass::expr::BinOp;
use crate::bypass::expr::VarKey;
use crate::bypass::expr::eval;
use crate::bypass::expr::eval_expr;
use crate::bypass::expr::key_matches;
use crate::bypass::expr::key_eq;
use crate::bypass::solver::ConstraintSolver;
use crate::bypass::solver::PCodeOp;
use crate::bypass::solver::SolveRequest;
use crate::bypass::solver::SolverError;
use crate::bypass::solver::SolverModel;
use crate::bypass::solver::model_add_pcode;
use crate::bypass::solver::model_operand_read;
use crate::bypass::solver::op_size;
use crate::bypass::solver::operand_size;
use crate::bypass::solver::pcode_sizes_ok;
use crate::bypass::solver::defaults_lookup;
use crate::machine::Endian;
use crate::machine::GuestMem;
use crate::machine::RegBank;
use crate::machine::StepAction;
use crate::machine::spec_word16;
use crate::machine::spec_word32;
use crate::machine::spec_word64;

verus! {

/// One cached answer: the value the solver found for the register at
/// `target_addr`, and how many bytes of it the firmware loads.
#[derive(Debug)]
pub struct SolvingResult {
    pub target_addr: u64,
    pub value: u64,
    pub size: usize,
}

impl PartialEq for SolvingResult {
    /// Two results are the same answer when address and value agree; the
    /// load size does not enter the comparison.
    fn eq(&self, other: &SolvingResult) -> (r: bool) {
        self.target_addr == other.target_addr && self.value == other.value
    }
}

impl vstd::std_specs::cmp::PartialEqSpecImpl for SolvingResult {
    open spec fn obeys_eq_spec() -> bool {
        true
    }

    open spec fn eq_spec(&self, other: &SolvingResult) -> bool {
        self.target_addr == other.target_addr && self.value == other.value
    }
}

/// A solve the peripheral has requested and not yet applied: the request
/// handed out, plus which address the polled value was loaded from and at
/// what size it must be written back.
pub struct PendingSolve {
    pub request: SolveRequest,
    pub last_addr: u64,
    pub last_size: usize,
}

/// What one operation step asks of the embedder: nothing, or an external
/// solver run against the pending request.
#[derive(Clone, Copy, Debug, PartialEq, Eq, Structural)]
pub enum BypassStep {
    Pass,
    SolveNeeded,
}

/// First cached result for an address, if any.
pub open spec fn cache_lookup(s: Seq<(u64, SolvingResult)>, addr: u64) -> Option<SolvingResult>
    decreases s.len(),
{
    if s.len() == 0 {
        None
    } else if s[0].0 == addr {
        Some(s[0].1)
    } else {
        cache_lookup(s.drop_first(), addr)
    }
}

/// Whether an address falls inside any declared bypass range.
pub open spec fn in_ranges(rs: Seq<(u64, u64)>, addr: u64) -> bool {
    exists|i: int| 0 <= i < rs.len() && (#[trigger] rs[i]).0 <= addr <= rs[i].1
}

/// Memory holds `v` at `addr`, read back at `size` bytes in order `e`.
pub open spec fn mem_holds(m: GuestMem, addr: u64, size: usize, v: u64, e: Endian) -> bool {
    if size == 1 {
        m.byte(addr) == v as u8
    } else if size == 2 {
        spec_word16(m, addr, e) == v as u16
    } else if size == 4 {
        spec_word32(m, addr, e) == v as u32
    } else {
        spec_word64(m, addr, e) == v
    }
}

/// Spec-level image of the pending solve.
pub struct PendingModel {
    pub constraint: Expr,
    pub targets: Seq<(VarKey, Expr, u64)>,
    pub last_addr: u64,
    pub last_size: usize,
}

/// Spec-level image of the whole bypass peripheral.
#[verifier::ext_equal]
pub struct BypassModel {
    pub ranges: Seq<(u64, u64)>,
    pub event_counter: u128,
    pub pcode_counter: u128,
    pub solving_started: bool,
    pub cache_enable: bool,
    pub cache: Seq<(u64, SolvingResult)>,
    pub defaults: Seq<(VarKey, u128)>,
    pub solver: SolverModel,
    pub forgive_jump: u32,
    pub forgive_fun_call: i32,
    pub forgive_branch_condition: u32,
    pub last_read: (u64, u64, usize, u128),
    pub last_reg_write: (u64, u128),
    pub endian: Endian,
    pub pending: Option<PendingModel>,
}

/// A fresh solver carrying the peripheral's default-variable table.
pub open spec fn fresh_solver_model(defaults: Seq<(VarKey, u128)>) -> SolverModel {
    SolverModel {
        defaults,
        vars: Seq::<(VarKey, u64, Seq<Expr>)>::empty(),
        to_solve: Seq::<(VarKey, Expr, u64)>::empty(),
    }
}

/// Whether a `Load`'s cached answer is served instead of starting a solve.
pub open spec fn load_cache_hit(m: BypassModel, op: PCodeOp, resolved: u64) -> bool {
    op is Load && in_ranges(m.ranges, resolved) && m.cache_enable && cache_lookup(
        m.cache,
        resolved,
    ) is Some
}

/// The per-operation phase of one operation step, before the common tree
/// extension: a `Load` inside a declared range either serves the cache or
/// opens a new solve (fresh solver, read event recorded); a `Store` back
/// to the last-polled address abandons the solve; a conditional branch
/// while solving classifies the jump (backward or to the load: the loop is
/// found and a solve request is pended; forward: forgiven once, recording
/// the concrete condition, abandoned the second time); call and return
/// adjust the call-boundary forgiveness and abandon the solve when it
/// leaves zero.
pub open spec fn bypass_phase(
    m: BypassModel,
    bank: Seq<(String, u64)>,
    pc: u64,
    op: PCodeOp,
    resolved: u64,
    cond: u8,
) -> (BypassModel, Result<BypassStep, SolverError>) {
    match op {
        PCodeOp::Load { source, destination } => {
            if in_ranges(m.ranges, resolved) {
                if m.cache_enable && cache_lookup(m.cache, resolved) is Some {
                    (m, Ok(BypassStep::Pass))
                } else {
                    (
                        BypassModel {
                            pcode_counter: 0,
                            last_read: (pc, resolved, op_size(destination), m.event_counter),
                            solving_started: true,
                            forgive_jump: 0,
                            solver: fresh_solver_model(m.defaults),
                            ..m
                        },
                        Ok(BypassStep::Pass),
                    )
                }
            } else {
                (m, Ok(BypassStep::Pass))
            }
        },
        PCodeOp::Store { .. } => {
            if m.last_read.1 == resolved {
                (BypassModel { solving_started: false, ..m }, Ok(BypassStep::Pass))
            } else {
                (m, Ok(BypassStep::Pass))
            }
        },
        PCodeOp::CBranch { destination, condition } => {
            if !m.solving_started {
                (m, Ok(BypassStep::Pass))
            } else {
                let dest_addr = match destination {
                    crate::bypass::solver::Operand::Address { value, .. } => value,
                    _ => 0,
                };
                let last_pc = m.last_read.0;
                if dest_addr == last_pc || dest_addr < last_pc {
                    let m1 = BypassModel { solving_started: false, ..m };
                    let expected: u64 = if m.forgive_jump == 0 {
                        0
                    } else if m.forgive_branch_condition == 0 {
                        1
                    } else {
                        0
                    };
                    match model_operand_read(m1.solver, bank, condition) {
                        Err(e) => (m1, Err(e)),
                        Ok((sm, ce)) => {
                            let constraint = Expr::Bin {
                                op: BinOp::Eq,
                                lhs: Box::new(ce),
                                rhs: Box::new(
                                    Expr::Val {
                                        value: expected,
                                        bits: crate::bypass::expr::expr_bits(ce),
                                    },
                                ),
                            };
                            (
                                BypassModel {
                                    solver: sm,
                                    pending: Some(
                                        PendingModel {
                                            constraint,
                                            targets: sm.to_solve,
                                            last_addr: m.last_read.1,
                                            last_size: m.last_read.2,
                                        },
                                    ),
                                    ..m1
                                },
                                Ok(BypassStep::SolveNeeded),
                            )
                        },
                    }
                } else {
                    let fj = (m.forgive_jump + 1) as u32;
                    if fj > 1 {
                        (
                            BypassModel { forgive_jump: fj, solving_started: false, ..m },
                            Ok(BypassStep::Pass),
                        )
                    } else {
                        (
                            BypassModel {
                                forgive_jump: fj,
                                forgive_branch_condition: cond as u32,
                                ..m
                            },
                            Ok(BypassStep::Pass),
                        )
                    }
                }
            }
        },
        PCodeOp::ICall { .. } => {
            let f = (m.forgive_fun_call + 1) as i32;
            if f != 0 {
                (
                    BypassModel { forgive_fun_call: f, solving_started: false, ..m },
                    Ok(BypassStep::Pass),
                )
            } else {
                (BypassModel { forgive_fun_call: f, ..m }, Ok(BypassStep::Pass))
            }
        },
        PCodeOp::Return { .. } => {
            let f = (m.forgive_fun_call - 1) as i32;
            if f != 0 {
                (
                    BypassModel { forgive_fun_call: f, solving_started: false, ..m },
                    Ok(BypassStep::Pass),
                )
            } else {
                (BypassModel { forgive_fun_call: f, ..m }, Ok(BypassStep::Pass))
            }
        },
        _ => (m, Ok(BypassStep::Pass)),
    }
}

/// One whole operation step: the per-operation phase, then — while a solve
/// is open, no forward jump has been forgiven, and no unmatched call
/// boundary was crossed — the operation extends the expression tree, and
/// the operation counter advances.
pub open spec fn bypass_step(
    m: BypassModel,
    bank: Seq<(String, u64)>,
    pc: u64,
    op: PCodeOp,
    resolved: u64,
    cond: u8,
) -> (BypassModel, Result<BypassStep, SolverError>) {
    let phase = bypass_phase(m, bank, pc, op, resolved, cond);
    let m1 = phase.0;
    match phase.1 {
        Err(e) => (m1, Err(e)),
        Ok(step) => {
            if m1.solving_started && m1.forgive_jump == 0 && m1.forgive_fun_call >= 0 {
                let added = model_add_pcode(m1.solver, bank, op, resolved);
                let m2 = BypassModel { solver: added.0, ..m1 };
                match added.1 {
                    Some(e) => (m2, Err(e)),
                    None => (
                        BypassModel { pcode_counter: (m2.pcode_counter + 1) as u128, ..m2 },
                        Ok(step),
                    ),
                }
            } else {
                (
                    BypassModel { pcode_counter: (m1.pcode_counter + 1) as u128, ..m1 },
                    Ok(step),
                )
            }
        },
    }
}

/// The bypass peripheral's working state. The solving-result cache is
/// shared across execution forks in spirit: the embedder that forks
/// execution is expected to seed each clone's cache from the shared one.
pub struct DummyPeripheral {
    pub address_range_list: Vec<(u64, u64)>,
    pub event_counter: u128,
    pub pcode_counter: u128,
    pub solving_started: bool,
    pub solving_results_cache_enable: bool,
    pub solving_results: Vec<(u64, SolvingResult)>,
    pub solver_default_vars: Vec<(VarKey, u128)>,
    pub solver: ConstraintSolver,
    pub forgive_jump: u32,
    pub forgive_fun_call: i32,
    pub forgive_branch_condition: u32,
    pub last_mem_read_event: (u64, u64, usize, u128),
    pub last_reg_write_event: (u64, u128),
    pub endian: Endian,
    pub pending_solve: Option<PendingSolve>,
}

impl DummyPeripheral {
    /// The peripheral's spec-level image.
    pub open spec fn model(self) -> BypassModel {
        BypassModel {
            ranges: self.address_range_list@,
            event_counter: self.event_counter,
            pcode_counter: self.pcode_counter,
            solving_started: self.solving_started,
            cache_enable: self.solving_results_cache_enable,
            cache: self.solving_results@,
            defaults: self.solver_default_vars@,
            solver: self.solver.model(),
            forgive_jump: self.forgive_jump,
            forgive_fun_call: self.forgive_fun_call,
            forgive_branch_condition: self.forgive_branch_condition,
            last_read: self.last_mem_read_event,
            last_reg_write: self.last_reg_write_event,
            endian: self.endian,
            pending: match self.pending_solve {
                Some(p) => Some(
                    PendingModel {
                        constraint: p.request.constraint,
                        targets: p.request.targets@,
                        last_addr: p.last_addr,
                        last_size: p.last_size,
                    },
                ),
                None => None,
            },
        }
    }

    pub open spec fn wf(self) -> bool {
        self.solver.wf()
    }

    /// A fresh bypass peripheral with no ranges, no cache, and the given
    /// byte order for its write-backs.
    pub fn new(endian: Endian) -> (r: Self)
        ensures
            r.wf(),
            r.model().ranges.len() == 0,
            r.model().event_counter == 0,
            r.model().pcode_counter == 0,
            !r.model().solving_started,
            !r.model().cache_enable,
            r.model().cache.len() == 0,
            r.model().defaults.len() == 0,
            r.model().solver.vars.len() == 0,
            r.model().solver.to_solve.len() == 0,
            r.model().forgive_jump == 0,
            r.model().forgive_fun_call == 0,
            r.model().forgive_branch_condition == 0,
            r.model().last_read == (0u64, 0u64, 0usize, 0u128),
            r.model().endian == endian,
            r.model().pending is None,
    {
        Self {
            address_range_list: Vec::new(),
            event_counter: 0,
            pcode_counter: 0,
            solving_started: false,
            solving_results_cache_enable: false,
            solving_results: Vec::new(),
            solver_default_vars: Vec::new(),
            solver: ConstraintSolver::new(),
            forgive_jump: 0,
            forgive_fun_call: 0,
            forgive_branch_condition: 0,
            last_mem_read_event: (0, 0, 0, 0),
            last_reg_write_event: (0, 0),
            endian,
            pending_solve: None,
        }
    }

    /// Turn result caching on or off.
    pub fn enable_solving_result_cache(&mut self, enable: bool)
        requires
            old(self).wf(),
        ensures
            final(self).wf(),
            final(self).model() == (BypassModel { cache_enable: enable, ..old(self).model() }),
    {
        self.solving_results_cache_enable = enable;
    }

    /// Declare one guest-address range this peripheral bypasses.
    pub fn add_address_range(&mut self, addr_range: (u64, u64))
        requires
            old(self).wf(),
        ensures
            final(self).wf(),
            final(self).model() == (BypassModel {
                ranges: old(self).model().ranges.push(addr_range),
                ..old(self).model()
            }),
    {
        self.address_range_list.push(addr_range);
    }

    /// Record the default value an untracked register seeds from: lookups
    /// of that register's key afterwards answer `value`; every other key is
    /// unaffected.
    pub fn add_default_reg(&mut self, name: &str, value: u128)
        requires
            old(self).wf(),
        ensures
            final(self).wf(),
            final(self).model() == (BypassModel {
                defaults: final(self).model().defaults,
                ..old(self).model()
            }),
            forall|k: VarKey|
                defaults_lookup(final(self).model().defaults, k) == if key_is_reg(k, name@) {
                    Some(value)
                } else {
                    defaults_lookup(old(self).model().defaults, k)
                },
    {
        let key = VarKey::Reg(name.to_owned());
        let ghost gkey = key;
        let n = self.solver_default_vars.len();
        let mut j: usize = 0;
        while j < n
            invariant
                j <= n,
                n == self.solver_default_vars@.len(),
                *self == *old(self),
                old(self).wf(),
                key_is_reg(gkey, name@),
                key == gkey,
                forall|i: int|
                    0 <= i < j ==> !key_matches((#[trigger] self.solver_default_vars@[i]).0, gkey),
            decreases n - j,
        {
            if key_eq(&self.solver_default_vars[j].0, &key) {
                let ghost pre = self.solver_default_vars@;
                let pair = (key, value);
                let ghost gp = pair;
                self.solver_default_vars.set(j, pair);
                proof {
                    assert forall|k: VarKey|
                        defaults_lookup(self.solver_default_vars@, k) == if key_is_reg(k, name@) {
                            Some(value)
                        } else {
                            defaults_lookup(pre, k)
                        } by {
                        lemma_defaults_update_one(pre, j as int, name@, value, k, gp);
                    }
                }
                return ;
            }
            j += 1;
        }
        let ghost pre = self.solver_default_vars@;
        let pair = (key, value);
        let ghost gp = pair;
        self.solver_default_vars.push(pair);
        proof {
            assert forall|k: VarKey|
                defaults_lookup(self.solver_default_vars@, k) == if key_is_reg(k, name@) {
                    Some(value)
                } else {
                    defaults_lookup(pre, k)
                } by {
                lemma_defaults_push_one(pre, name@, value, k, gp);
            }
        }
    }

    /// The accumulated solving results.
    pub fn get_solving_result(&self) -> (r: &Vec<(u64, SolvingResult)>)
        ensures
            r == &self.solving_results,
    {
        &self.solving_results
    }

    /// An architectural step only advances the event counter.
    pub fn hook_architectural_step(&mut self) -> (r: StepAction)
        requires
            old(self).wf(),
            old(self).event_counter < u128::MAX,
        ensures
            final(self).wf(),
            final(self).model() == (BypassModel {
                event_counter: (old(self).event_counter + 1) as u128,
                ..old(self).model()
            }),
            r == StepAction::Pass,
    {
        self.event_counter = self.event_counter + 1;
        StepAction::Pass
    }
}

impl DummyPeripheral {
    /// Whether an address falls inside any declared bypass range.
    fn range_contains(&self, addr: u64) -> (r: bool)
        ensures
            r == in_ranges(self.address_range_list@, addr),
    {
        let n = self.address_range_list.len();
        let mut i: usize = 0;
        while i < n
            invariant
                i <= n,
                n == self.address_range_list@.len(),
                forall|j: int|
                    0 <= j < i ==> !((#[trigger] self.address_range_list@[j]).0 <= addr
                        && addr <= self.address_range_list@[j].1),
            decreases n - i,
        {
            let (min, max) = self.address_range_list[i];
            if min <= addr && addr <= max {
                return true;
            }
            i += 1;
        }
        false
    }

    /// The cached value for an address, if one is stored.
    fn cache_find(&self, addr: u64) -> (r: Option<u64>)
        ensures
            r == match cache_lookup(self.solving_results@, addr) {
                Some(sr) => Some(sr.value),
                None => None::<u64>,
            },
    {
        let ghost c = self.solving_results@;
        proof {
            assert(c.skip(0) =~= c);
        }
        let n = self.solving_results.len();
        let mut i: usize = 0;
        while i < n
            invariant
                i <= n,
                n == self.solving_results@.len(),
                c == self.solving_results@,
                cache_lookup(c, addr) == cache_lookup(c.skip(i as int), addr),
            decreases n - i,
        {
            proof {
                assert(c.skip(i as int).drop_first() =~= c.skip(i + 1));
                assert(c.skip(i as int)[0] == c[i as int]);
            }
            if self.solving_results[i].0 == addr {
                return Some(self.solving_results[i].1.value);
            }
            i += 1;
        }
        proof {
            assert(c.skip(n as int) =~= Seq::<(u64, SolvingResult)>::empty());
        }
        None
    }

    /// Cache one solving result, overwriting any earlier answer for the
    /// same address.
    fn cache_insert(&mut self, addr: u64, sr: SolvingResult)
        ensures
            *final(self) == (DummyPeripheral {
                solving_results: final(self).solving_results,
                ..*old(self)
            }),
            forall|a: u64|
                cache_lookup(final(self).solving_results@, a) == if a == addr {
                    Some(sr)
                } else {
                    cache_lookup(old(self).solving_results@, a)
                },
    {
        let n = self.solving_results.len();
        let mut i: usize = 0;
        while i < n
            invariant
                i <= n,
                n == self.solving_results@.len(),
                *self == *old(self),
                forall|j: int| 0 <= j < i ==> (#[trigger] self.solving_results@[j]).0 != addr,
            decreases n - i,
        {
            if self.solving_results[i].0 == addr {
                let ghost pre = self.solving_results@;
                let pair = (addr, sr);
                let ghost gp = pair;
                self.solving_results.set(i, pair);
                proof {
                    assert forall|a: u64|
                        cache_lookup(self.solving_results@, a) == if a == addr {
                            Some(gp.1)
                        } else {
                            cache_lookup(pre, a)
                        } by {
                        lemma_cache_update_one(pre, i as int, addr, a, gp.1);
                    }
                }
                return ;
            }
            i += 1;
        }
        let ghost pre = self.solving_results@;
        let pair = (addr, sr);
        let ghost gp = pair;
        self.solving_results.push(pair);
        proof {
            assert forall|a: u64|
                cache_lookup(self.solving_results@, a) == if a == addr {
                    Some(gp.1)
                } else {
                    cache_lookup(pre, a)
                } by {
                lemma_cache_push_one(pre, addr, a, gp.1);
            }
        }
    }

    /// One observed low-level operation, exactly as `bypass_step`
    /// describes. `resolved_addr` is the guest address the emulator
    /// resolved for a `Load`'s source or a `Store`'s destination;
    /// `cond_value` is the concrete value of a conditional branch's
    /// condition operand. A cache-served `Load` writes the cached value
    /// back into the polled address at the load's width; no other step
    /// touches guest memory. A `SolveNeeded` outcome means a solve request
    /// is pending and `apply_solution` expects the external solver's
    /// answer.
    pub fn hook_operation_step(
        &mut self,
        mem: &mut GuestMem,
        regs: &RegBank,
        pc: u64,
        operation: &PCodeOp,
        resolved_addr: u64,
        cond_value: u8,
    ) -> (r: Result<BypassStep, SolverError>)
        requires
            old(self).wf(),
            pcode_sizes_ok(*operation),
            old(self).pcode_counter < u128::MAX,
            old(self).forgive_jump < u32::MAX,
            i32::MIN < old(self).forgive_fun_call < i32::MAX,
            load_cache_hit(old(self).model(), *operation, resolved_addr) ==> resolved_addr + 7
                <= u64::MAX && (*operation matches PCodeOp::Load { destination, .. } ==> (op_size(
                destination,
            ) == 1 || op_size(destination) == 2 || op_size(destination) == 4 || op_size(
                destination,
            ) == 8)),
        ensures
            final(self).wf(),
            final(self).model() == bypass_step(
                old(self).model(),
                regs.regs@,
                pc,
                *operation,
                resolved_addr,
                cond_value,
            ).0,
            r == bypass_step(
                old(self).model(),
                regs.regs@,
                pc,
                *operation,
                resolved_addr,
                cond_value,
            ).1,
            if load_cache_hit(old(self).model(), *operation, resolved_addr) {
                &&& (*operation matches PCodeOp::Load { destination, .. } ==> mem_holds(
                    *final(mem),
                    resolved_addr,
                    op_size(destination),
                    cache_value(old(self).model().cache, resolved_addr),
                    old(self).endian,
                ))
                &&& forall|b: u64|
                    !(resolved_addr <= b <= resolved_addr + 7) ==> final(mem).byte(b) == old(
                        mem,
                    ).byte(b)
            } else {
                forall|b: u64| final(mem).byte(b) == old(mem).byte(b)
            },
    {
        let mut action = BypassStep::Pass;
        match operation {
            PCodeOp::Load { source: _, destination } => {
                if self.range_contains(resolved_addr) {
                    let cached = if self.solving_results_cache_enable {
                        self.cache_find(resolved_addr)
                    } else {
                        None
                    };
                    match cached {
                        Some(value) => {
                            // A previous solve answered this register:
                            // materialize the cached value for the load.
                            let dsz = operand_size(destination);
                            if dsz == 1 {
                                mem.write_byte(resolved_addr, value as u8);
                            } else if dsz == 2 {
                                mem.write_u16(resolved_addr, value as u16, self.endian);
                            } else if dsz == 4 {
                                mem.write_u32(resolved_addr, value as u32, self.endian);
                            } else {
                                mem.write_u64(resolved_addr, value, self.endian);
                            }
                        },
                        None => {
                            self.pcode_counter = 0;
                            self.last_mem_read_event = (
                                pc,
                                resolved_addr,
                                operand_size(destination),
                                self.event_counter,
                            );
                            self.solving_started = true;
                            self.forgive_jump = 0;
                            self.solver = ConstraintSolver::new();
                            self.solver.set_default_variables(&self.solver_default_vars);
                            proof {
                                assert(self.solver.model() =~= fresh_solver_model(
                                    self.solver_default_vars@,
                                ));
                            }
                        },
                    }
                }
            },
            PCodeOp::Store { .. } => {
                if self.last_mem_read_event.1 == resolved_addr {
                    self.solving_started = false;
                }
            },
            PCodeOp::CBranch { destination, condition } => {
                if self.solving_started {
                    let dest_addr: u64 = match destination {
                        crate::bypass::solver::Operand::Address { value, .. } => *value,
                        _ => 0,
                    };
                    let last_pc = self.last_mem_read_event.0;
                    if dest_addr == last_pc || dest_addr < last_pc {
                        // Branching back to (or before) the load: a polling
                        // loop. Solve for a value that exits it.
                        self.solving_started = false;
                        let expected: u64 = if self.forgive_jump == 0 {
                            0
                        } else if self.forgive_branch_condition == 0 {
                            1
                        } else {
                            0
                        };
                        let req = match self.solver.solve(regs, condition, expected) {
                            Ok(q) => q,
                            Err(e) => {
                                return Err(e);
                            },
                        };
                        self.pending_solve = Some(
                            PendingSolve {
                                request: req,
                                last_addr: self.last_mem_read_event.1,
                                last_size: self.last_mem_read_event.2,
                            },
                        );
                        action = BypassStep::SolveNeeded;
                    } else {
                        // Forward jump: tolerate one, remembering the
                        // concrete condition; a second abandons the solve.
                        self.forgive_jump = self.forgive_jump + 1;
                        if self.forgive_jump > 1 {
                            self.solving_started = false;
                        } else {
                            self.forgive_branch_condition = cond_value as u32;
                        }
                    }
                }
            },
            PCodeOp::ICall { .. } => {
                self.forgive_fun_call = self.forgive_fun_call + 1;
                if self.forgive_fun_call != 0 {
                    self.solving_started = false;
                }
            },
            PCodeOp::Return { .. } => {
                self.forgive_fun_call = self.forgive_fun_call - 1;
                if self.forgive_fun_call != 0 {
                    self.solving_started = false;
                }
            },
            _ => {},
        }
        if self.solving_started && self.forgive_jump == 0 && self.forgive_fun_call >= 0 {
            // While the loop hypothesis stands, the operation extends the
            // expression tree.
            match self.solver.add_pcode(operation, regs, resolved_addr) {
                Ok(()) => {},
                Err(e) => {
                    return Err(e);
                },
            }
        }
        self.pcode_counter = self.pcode_counter + 1;
        proof {
            assert(self.model() =~= bypass_step(
                old(self).model(),
                regs.regs@,
                pc,
                *operation,
                resolved_addr,
                cond_value,
            ).0);
        }
        Ok(action)
    }

    /// Apply an external solver's answer to the pending request. The
    /// assignment is accepted only when evaluating the reconstructed
    /// loop-exit constraint under it yields true; each solve target whose
    /// expression the assignment determines then has that value written to
    /// its guest address at the recorded width, and cached when caching is
    /// on. Returns the (address, value) pairs written; with no pending
    /// request, or an unsatisfying assignment, nothing is written.
    pub fn apply_solution(&mut self, mem: &mut GuestMem, solution: &Vec<Binding>) -> (r: Vec<
        (u64, u64),
    >)
        requires
            old(self).wf(),
            old(self).model().pending matches Some(pm) ==> (pm.last_size == 1 || pm.last_size == 2
                || pm.last_size == 4 || pm.last_size == 8) && forall|i: int|
                0 <= i < pm.targets.len() ==> (#[trigger] pm.targets[i]).2 + 7 <= u64::MAX,
        ensures
            final(self).wf(),
            final(self).pending_solve is None,
            r@.len() > 0 ==> (old(self).model().pending matches Some(pm) && eval_expr(
                pm.constraint,
                solution@,
            ) == Some(1u64)),
            r@.len() > 0 ==> (old(self).model().pending matches Some(pm) ==> mem_holds(
                *final(mem),
                r@.last().0,
                pm.last_size,
                r@.last().1,
                old(self).endian,
            )),
            r@.len() == 0 ==> forall|b: u64| final(mem).byte(b) == old(mem).byte(b),
            r@.len() == 0 || !old(self).solving_results_cache_enable
                ==> final(self).solving_results@ == old(self).solving_results@,
            r@.len() > 0 && old(self).solving_results_cache_enable
                ==> (old(self).model().pending matches Some(pm) ==> cache_lookup(
                final(self).solving_results@,
                pm.last_addr,
            ) == Some(
                SolvingResult { target_addr: pm.last_addr, value: r@.last().1, size: pm.last_size },
            )),
            forall|i: int|
                0 <= i < r@.len() ==> (old(self).model().pending matches Some(pm) && exists|j: int|
                    0 <= j < pm.targets.len() && (#[trigger] r@[i]).0 == pm.targets[j].2
                        && eval_expr(pm.targets[j].1, solution@) == Some(r@[i].1)),
    {
        let pending = self.pending_solve.take();
        let mut written: Vec<(u64, u64)> = Vec::new();
        match pending {
            None => written,
            Some(p) => {
                proof {
                    let pm = PendingModel {
                        constraint: p.request.constraint,
                        targets: p.request.targets@,
                        last_addr: p.last_addr,
                        last_size: p.last_size,
                    };
                    assert(old(self).model().pending == Some(pm));
                    assert forall|j: int|
                        0 <= j < p.request.targets@.len() implies (#[trigger] p.request.targets@[j]).2
                        + 7 <= u64::MAX by {
                        let z = old(self).model().pending->0;
                        assert(z.targets[j].2 + 7 <= u64::MAX);
                    }
                }
                let sat = match eval(&p.request.constraint, solution) {
                    Some(v) => v == 1,
                    None => false,
                };
                if !sat {
                    // The proposed assignment does not exit the loop (or
                    // leaves it undetermined): leave the firmware alone.
                    return written;
                }
                let n = p.request.targets.len();
                let mut i: usize = 0;
                while i < n
                    invariant
                        i <= n,
                        n == p.request.targets@.len(),
                        old(self).model().pending matches Some(pm) && pm.targets
                            == p.request.targets@ && pm.last_size == p.last_size && pm.last_addr
                            == p.last_addr && (pm.last_size == 1 || pm.last_size == 2
                            || pm.last_size == 4 || pm.last_size == 8),
                        forall|j: int|
                            0 <= j < p.request.targets@.len() ==> (#[trigger] p.request.targets@[j]).2
                                + 7 <= u64::MAX,
                        eval_expr(p.request.constraint, solution@) == Some(1u64),
                        self.wf(),
                        self.pending_solve is None,
                        self.endian == old(self).endian,
                        written@.len() == 0 ==> (forall|b: u64|
                            mem.byte(b) == old(mem).byte(b)),
                        self.solving_results_cache_enable == old(self).solving_results_cache_enable,
                        written@.len() == 0 || !self.solving_results_cache_enable
                            ==> self.solving_results@ == old(self).solving_results@,
                        written@.len() > 0 && self.solving_results_cache_enable ==> cache_lookup(
                            self.solving_results@,
                            p.last_addr,
                        ) == Some(
                            SolvingResult {
                                target_addr: p.last_addr,
                                value: written@.last().1,
                                size: p.last_size,
                            },
                        ),
                        written@.len() > 0 ==> mem_holds(
                            *mem,
                            written@.last().0,
                            p.last_size,
                            written@.last().1,
                            old(self).endian,
                        ),
                        forall|k: int|
                            0 <= k < written@.len() ==> exists|j: int|
                                0 <= j < p.request.targets@.len() && (#[trigger] written@[k]).0
                                    == p.request.targets@[j].2 && eval_expr(
                                    p.request.targets@[j].1,
                                    solution@,
                                ) == Some(written@[k].1),
                    decreases n - i,
                {
                    let addr = p.request.targets[i].2;
                    match eval(&p.request.targets[i].1, solution) {
                        None => {
                            // The assignment does not determine this
                            // variable: leave it untouched.
                        },
                        Some(value) => {
                            if p.last_size == 1 {
                                mem.write_byte(addr, value as u8);
                            } else if p.last_size == 2 {
                                mem.write_u16(addr, value as u16, self.endian);
                            } else if p.last_size == 4 {
                                mem.write_u32(addr, value as u32, self.endian);
                            } else {
                                mem.write_u64(addr, value, self.endian);
                            }
                            if self.solving_results_cache_enable {
                                self.cache_insert(
                                    p.last_addr,
                                    SolvingResult {
                                        target_addr: p.last_addr,
                                        value,
                                        size: p.last_size,
                                    },
                                );
                            }
                            written.push((addr, value));
                        },
                    }
                    i += 1;
                }
                written
            },
        }
    }
}

/// The cached value for an address (0 when none is cached).
pub open spec fn cache_value(s: Seq<(u64, SolvingResult)>, addr: u64) -> u64 {
    match cache_lookup(s, addr) {
        Some(sr) => sr.value,
        None => 0,
    }
}

proof fn lemma_cache_update_one(
    s: Seq<(u64, SolvingResult)>,
    i: int,
    addr: u64,
    a: u64,
    sr: SolvingResult,
)
    requires
        0 <= i < s.len(),
        s[i].0 == addr,
        forall|j: int| 0 <= j < i ==> (#[trigger] s[j]).0 != addr,
    ensures
        cache_lookup(s.update(i, (addr, sr)), a) == if a == addr {
            Some(sr)
        } else {
            cache_lookup(s, a)
        },
    decreases i,
{
    let t = s.update(i, (addr, sr));
    if i == 0 {
        if a != addr {
            assert(t.drop_first() =~= s.drop_first());
        }
    } else {
        assert(t.drop_first() =~= s.drop_first().update(i - 1, (addr, sr)));
        lemma_cache_update_one(s.drop_first(), i - 1, addr, a, sr);
    }
}

proof fn lemma_cache_push_one(s: Seq<(u64, SolvingResult)>, addr: u64, a: u64, sr: SolvingResult)
    requires
        forall|j: int| 0 <= j < s.len() ==> (#[trigger] s[j]).0 != addr,
    ensures
        cache_lookup(s.push((addr, sr)), a) == if a == addr {
            Some(sr)
        } else {
            cache_lookup(s, a)
        },
    decreases s.len(),
{
    let t = s.push((addr, sr));
    if s.len() == 0 {
        assert(t.drop_first() =~= Seq::<(u64, SolvingResult)>::empty());
        assert(cache_lookup(Seq::<(u64, SolvingResult)>::empty(), a) is None);
    } else {
        assert(t.drop_first() =~= s.drop_first().push((addr, sr)));
        assert(forall|j: int|
            0 <= j < s.drop_first().len() ==> (#[trigger] s.drop_first()[j]) == s[j + 1]);
        lemma_cache_push_one(s.drop_first(), addr, a, sr);
    }
}

/// Whether a key names the register called `name`.
pub open spec fn key_is_reg(k: VarKey, name: Seq<char>) -> bool {
    match k {
        VarKey::Reg(s) => s@ == name,
        _ => false,
    }
}

proof fn lemma_defaults_update_one(
    s: Seq<(VarKey, u128)>,
    j: int,
    name: Seq<char>,
    value: u128,
    k: VarKey,
    p: (VarKey, u128),
)
    requires
        0 <= j < s.len(),
        key_is_reg(s[j].0, name),
        forall|i: int| 0 <= i < j ==> !key_is_reg((#[trigger] s[i]).0, name),
        key_is_reg(p.0, name),
        p.1 == value,
    ensures
        defaults_lookup(s.update(j, p), k) == if key_is_reg(k, name) {
            Some(value)
        } else {
            defaults_lookup(s, k)
        },
    decreases j,
{
    let t = s.update(j, p);
    if j == 0 {
        if !key_matches(t[0].0, k) {
            assert(t.drop_first() =~= s.drop_first());
        }
    } else {
        assert(t.drop_first() =~= s.drop_first().update(j - 1, p));
        assert(forall|i: int|
            0 <= i < s.drop_first().len() ==> (#[trigger] s.drop_first()[i]) == s[i + 1]);
        lemma_defaults_update_one(s.drop_first(), j - 1, name, value, k, p);
    }
}

proof fn lemma_defaults_push_one(
    s: Seq<(VarKey, u128)>,
    name: Seq<char>,
    value: u128,
    k: VarKey,
    p: (VarKey, u128),
)
    requires
        forall|i: int| 0 <= i < s.len() ==> !key_is_reg((#[trigger] s[i]).0, name),
        key_is_reg(p.0, name),
        p.1 == value,
    ensures
        defaults_lookup(s.push(p), k) == if key_is_reg(k, name) {
            Some(value)
        } else {
            defaults_lookup(s, k)
        },
    decreases s.len(),
{
    let t = s.push(p);
    if s.len() == 0 {
        assert(t.drop_first() =~= Seq::<(VarKey, u128)>::empty());
        assert(defaults_lookup(Seq::<(VarKey, u128)>::empty(), k) is None);
    } else {
        assert(t.drop_first() =~= s.drop_first().push(p));
        assert(forall|i: int|
            0 <= i < s.drop_first().len() ==> (#[trigger] s.drop_first()[i]) == s[i + 1]);
        lemma_defaults_push_one(s.drop_first(), name, value, k, p);
    }
}

} // verus!
