//! Constraint-solver bridge: tracks the symbolic expression of every guest
//! variable a polling loop touches, builds the expression tree one observed
//! operation at a time, and turns a detected loop's branch condition into a
//! solve request that an external solver answers.

use vstd::prelude::*;
use crate::bypass::expr::Expr;
use crate::bypass::expr::BinOp;
use crate::bypass::expr::UnOp;
use crate::bypass::expr::VarKey;
use crate::bypass::expr::expr_clone;
use crate::bypass::expr::expr_bits_of;
use crate::bypass::expr::key_clone;
use crate::bypass::expr::key_eq;
use crate::bypass::expr::key_matches;
use crate::machine::RegBank;
use crate::machine::bank_lookup;

verus! {

/// Errors the solver bridge can report. `Unsupported` marks an operation
/// or operand shape the bridge cannot model — a programming error in the
/// peripheral map, fatal to the current solve. `InvalidRegister` names a
/// register the register snapshot does not hold.
#[derive(Debug)]
pub enum SolverError {
    InvalidRegister(String),
    UnknownVariable,
    UnexpectedSize,
    Unsupported,
}

/// One p-code operand: a sized constant, a memory address, a named CPU
/// register, or a temporary in a p-code space. Sizes are in bytes.
pub enum Operand {
    Constant { value: u64, size: usize },
    Address { value: u64, size: usize },
    Register { name: String, offset: u64, size: usize },
    Variable { space: u64, offset: u64, size: usize },
}

/// The key under which an operand's variable is tracked. Constants are
/// never tracked.
pub open spec fn var_key_spec(op: Operand) -> VarKey {
    match op {
        Operand::Address { value, .. } => VarKey::Mem(value),
        Operand::Register { name, .. } => VarKey::Reg(name),
        Operand::Variable { space, offset, .. } => VarKey::Tmp(space, offset),
        Operand::Constant { .. } => VarKey::Mem(0),
    }
}

/// Byte size of an operand.
pub open spec fn op_size(op: Operand) -> usize {
    match op {
        Operand::Constant { size, .. } => size,
        Operand::Address { size, .. } => size,
        Operand::Register { size, .. } => size,
        Operand::Variable { size, .. } => size,
    }
}

/// Bit width of an operand.
pub open spec fn op_bits(op: Operand) -> u32 {
    (op_size(op) * 8) as u32
}

pub fn operand_size(op: &Operand) -> (r: usize)
    ensures
        r == op_size(*op),
{
    match op {
        Operand::Constant { size, .. } => *size,
        Operand::Address { size, .. } => *size,
        Operand::Register { size, .. } => *size,
        Operand::Variable { size, .. } => *size,
    }
}

pub fn operand_clone(op: &Operand) -> (r: Operand)
    ensures
        r == *op,
{
    match op {
        Operand::Constant { value, size } => Operand::Constant { value: *value, size: *size },
        Operand::Address { value, size } => Operand::Address { value: *value, size: *size },
        Operand::Register { name, offset, size } => Operand::Register {
            name: name.clone(),
            offset: *offset,
            size: *size,
        },
        Operand::Variable { space, offset, size } => Operand::Variable {
            space: *space,
            offset: *offset,
            size: *size,
        },
    }
}

/// The low-level operations the bridge understands, mirroring the
/// emulator's p-code. `Other` stands for any operation outside this set;
/// feeding one to the tree builder is a fatal `Unsupported` error.
pub enum PCodeOp {
    Load { source: Operand, destination: Operand },
    Copy { source: Operand, destination: Operand },
    Store { source: Operand, destination: Operand },
    Branch { destination: Operand },
    CBranch { destination: Operand, condition: Operand },
    Call { destination: Operand },
    ICall { destination: Operand },
    Return { destination: Operand },
    Skip,
    IntAnd { result: Operand, op1: Operand, op2: Operand },
    BoolAnd { result: Operand, op1: Operand, op2: Operand },
    IntOr { result: Operand, op1: Operand, op2: Operand },
    BoolXor { result: Operand, op1: Operand, op2: Operand },
    IntXor { result: Operand, op1: Operand, op2: Operand },
    IntLeftShift { result: Operand, op1: Operand, op2: Operand },
    IntRightShift { result: Operand, op1: Operand, op2: Operand },
    IntSRightShift { result: Operand, op1: Operand, op2: Operand },
    IntNot { result: Operand, operand: Operand },
    IntZExt { result: Operand, operand: Operand },
    IntSExt { result: Operand, operand: Operand },
    Subpiece { result: Operand, operand: Operand, amount: Operand },
    IntEq { result: Operand, op1: Operand, op2: Operand },
    IntNotEq { result: Operand, op1: Operand, op2: Operand },
    IntSLess { result: Operand, op1: Operand, op2: Operand },
    IntLess { result: Operand, op1: Operand, op2: Operand },
    IntSub { result: Operand, op1: Operand, op2: Operand },
    IntAdd { result: Operand, op1: Operand, op2: Operand },
    IntNeg { result: Operand, operand: Operand },
    IntCarry { result: Operand, op1: Operand, op2: Operand },
    IntSCarry { result: Operand, op1: Operand, op2: Operand },
    BoolOr { result: Operand, op1: Operand, op2: Operand },
    Other,
}

/// One tracked guest variable: its key, how many times it has been
/// written, and the symbolic expression of each version (the last entry is
/// its current value).
pub struct Variables {
    pub key: VarKey,
    pub version: u64,
    pub sym_expr: Vec<Expr>,
}

impl Variables {
    /// The key an operand's variable is tracked under; constants are not
    /// tracked.
    pub fn gen_variable_name(operand: &Operand) -> (r: Option<VarKey>)
        ensures
            r == if operand is Constant {
                Option::<VarKey>::None
            } else {
                Option::<VarKey>::Some(var_key_spec(*operand))
            },
    {
        match operand {
            Operand::Address { value, .. } => Some(VarKey::Mem(*value)),
            Operand::Register { name, .. } => Some(VarKey::Reg(name.clone())),
            Operand::Variable { space, offset, .. } => Some(VarKey::Tmp(*space, *offset)),
            Operand::Constant { .. } => None,
        }
    }

    /// Start tracking an operand's variable with its first expression.
    pub fn new(operand: &Operand, sym_expr: Expr) -> (r: Self)
        requires
            !(operand is Constant),
        ensures
            r.key == var_key_spec(*operand),
            r.version == 0,
            r.sym_expr@ == seq![sym_expr],
    {
        let key = match Self::gen_variable_name(operand) {
            Some(k) => k,
            None => vstd::pervasive::unreached(),
        };
        let mut history: Vec<Expr> = Vec::new();
        history.push(sym_expr);
        proof {
            assert(history@ =~= seq![history@[0]]);
        }
        Self { key, version: 0, sym_expr: history }
    }

    /// Record one more write: the version bumps and the expression joins
    /// the history.
    pub fn update(&mut self, sym_expr: Expr)
        requires
            old(self).version < u64::MAX,
        ensures
            final(self).key == old(self).key,
            final(self).version == old(self).version + 1,
            final(self).sym_expr@ == old(self).sym_expr@.push(sym_expr),
    {
        self.version = self.version + 1;
        self.sym_expr.push(sym_expr);
    }

    /// Identity of the symbolic variable that will stand for this guest
    /// variable's next write.
    pub fn get_sym_var_name_next(&self) -> (r: (VarKey, u64))
        requires
            self.version < u64::MAX,
        ensures
            r.0 == self.key,
            r.1 == self.version + 1,
    {
        (key_clone(&self.key), self.version + 1)
    }

    /// The variable's current expression.
    pub fn get_sym_expr(&self) -> (r: &Expr)
        requires
            self.sym_expr@.len() > 0,
        ensures
            *r == self.sym_expr@.last(),
    {
        &self.sym_expr[self.sym_expr.len() - 1]
    }
}

/// Spec-level image of the solver: default values, tracked variables with
/// their histories, and the variables marked to be solved with the
/// peripheral address each was loaded from.
#[verifier::ext_equal]
pub struct SolverModel {
    pub defaults: Seq<(VarKey, u128)>,
    pub vars: Seq<(VarKey, u64, Seq<Expr>)>,
    pub to_solve: Seq<(VarKey, Expr, u64)>,
}

/// First tracked variable matching a key, or -1.
pub open spec fn model_var_idx(vars: Seq<(VarKey, u64, Seq<Expr>)>, key: VarKey) -> int
    decreases vars.len(),
{
    if vars.len() == 0 {
        -1
    } else if key_matches(vars[0].0, key) {
        0
    } else {
        let r = model_var_idx(vars.drop_first(), key);
        if r < 0 {
            -1
        } else {
            r + 1
        }
    }
}

/// First default value bound to a key, if any.
pub open spec fn defaults_lookup(s: Seq<(VarKey, u128)>, key: VarKey) -> Option<u128>
    decreases s.len(),
{
    if s.len() == 0 {
        None
    } else if key_matches(s[0].0, key) {
        Some(s[0].1)
    } else {
        defaults_lookup(s.drop_first(), key)
    }
}

/// First solve target matching a key, or -1.
pub open spec fn to_solve_idx(s: Seq<(VarKey, Expr, u64)>, key: VarKey) -> int
    decreases s.len(),
{
    if s.len() == 0 {
        -1
    } else if key_matches(s[0].0, key) {
        0
    } else {
        let r = to_solve_idx(s.drop_first(), key);
        if r < 0 {
            -1
        } else {
            r + 1
        }
    }
}

/// Tracking a write to an operand's variable: an already-tracked variable
/// gains a version whose expression is the given one, or a fresh symbolic
/// variable of that version when none is given; an untracked variable
/// starts at version 0. Returns the model and the expression recorded.
pub open spec fn model_insert(m: SolverModel, op: Operand, oe: Option<Expr>) -> (SolverModel, Expr) {
    let key = var_key_spec(op);
    let i = model_var_idx(m.vars, key);
    if i >= 0 {
        let ver = (m.vars[i].1 + 1) as u64;
        let e = match oe {
            Some(e) => e,
            None => Expr::Var { key: m.vars[i].0, version: ver, bits: op_bits(op) },
        };
        (
            SolverModel {
                vars: m.vars.update(i, (m.vars[i].0, ver, m.vars[i].2.push(e))),
                ..m
            },
            e,
        )
    } else {
        let e = match oe {
            Some(e) => e,
            None => Expr::Var { key: key, version: 0, bits: op_bits(op) },
        };
        (SolverModel { vars: m.vars.push((key, 0, seq![e])), ..m }, e)
    }
}

/// Reading an operand's variable: a tracked variable answers with its
/// current expression; an untracked one is seeded from the default table
/// (as a sized constant) or, for a register, from its concrete value in
/// the register snapshot, and recorded; anything else is unknown.
pub open spec fn model_read(m: SolverModel, bank: Seq<(String, u64)>, op: Operand) -> Result<
    (SolverModel, Expr),
    SolverError,
> {
    let key = var_key_spec(op);
    let i = model_var_idx(m.vars, key);
    if i >= 0 {
        Ok((m, m.vars[i].2.last()))
    } else {
        match defaults_lookup(m.defaults, key) {
            Some(dv) => Ok(
                model_insert(m, op, Some(Expr::Val { value: dv as u64, bits: op_bits(op) })),
            ),
            None => match op {
                Operand::Register { name, size, .. } => match bank_lookup(bank, name@) {
                    Some(v) => if size == 1 || size == 2 || size == 4 || size == 8 {
                        Ok(
                            model_insert(
                                m,
                                op,
                                Some(
                                    Expr::Val {
                                        value: crate::truncate_bits(v, op_bits(op)),
                                        bits: op_bits(op),
                                    },
                                ),
                            ),
                        )
                    } else {
                        Err(SolverError::UnexpectedSize)
                    },
                    None => Err(SolverError::InvalidRegister(name)),
                },
                _ => Err(SolverError::UnknownVariable),
            },
        }
    }
}

/// Reading any operand: constants are sized symbolic values; everything
/// else goes through `model_read`.
pub open spec fn model_operand_read(m: SolverModel, bank: Seq<(String, u64)>, op: Operand) -> Result<
    (SolverModel, Expr),
    SolverError,
> {
    match op {
        Operand::Constant { value, size } => Ok(
            (m, Expr::Val { value: value, bits: op_bits(op) }),
        ),
        _ => model_read(m, bank, op),
    }
}

/// A two-operand operation: read both operands and record the combined
/// expression as the result operand's new value.
pub open spec fn model_bin(
    m: SolverModel,
    bank: Seq<(String, u64)>,
    bop: BinOp,
    o1: Operand,
    o2: Operand,
    result: Operand,
) -> (SolverModel, Option<SolverError>) {
    match model_operand_read(m, bank, o1) {
        Err(e) => (m, Some(e)),
        Ok((m1, e1)) => match model_operand_read(m1, bank, o2) {
            Err(e) => (m1, Some(e)),
            Ok((m2, e2)) => if result is Constant {
                (m2, Some(SolverError::Unsupported))
            } else {
                (
                    model_insert(
                        m2,
                        result,
                        Some(Expr::Bin { op: bop, lhs: Box::new(e1), rhs: Box::new(e2) }),
                    ).0,
                    None,
                )
            },
        },
    }
}

/// A one-operand operation, recorded like `model_bin`.
pub open spec fn model_un(
    m: SolverModel,
    bank: Seq<(String, u64)>,
    uop: UnOp,
    o: Operand,
    result: Operand,
) -> (SolverModel, Option<SolverError>) {
    match model_operand_read(m, bank, o) {
        Err(e) => (m, Some(e)),
        Ok((m1, e1)) => if result is Constant {
            (m1, Some(SolverError::Unsupported))
        } else {
            (model_insert(m1, result, Some(Expr::Un { op: uop, e: Box::new(e1) })).0, None)
        },
    }
}

/// A widening operation (zero or sign extension) to the result's width.
pub open spec fn model_ext(
    m: SolverModel,
    bank: Seq<(String, u64)>,
    signed: bool,
    o: Operand,
    result: Operand,
) -> (SolverModel, Option<SolverError>) {
    match model_operand_read(m, bank, o) {
        Err(e) => (m, Some(e)),
        Ok((m1, e1)) => if result is Constant {
            (m1, Some(SolverError::Unsupported))
        } else {
            let ext = if signed {
                Expr::SExt { bits: op_bits(result), e: Box::new(e1) }
            } else {
                Expr::ZExt { bits: op_bits(result), e: Box::new(e1) }
            };
            (model_insert(m1, result, Some(ext)).0, None)
        },
    }
}

/// What one observed operation does to the solver model. A `Load` whose
/// resolved source address is `resolved_addr` creates a fresh symbolic
/// variable for the source, marks it to be solved against that address,
/// and binds the destination to the variable's low destination-width bits.
/// `Copy` and `Store` propagate the source expression. The plain
/// control-flow operations build nothing. Every other operation maps to
/// its symbolic counterpart; an operation outside the supported set is a
/// fatal `Unsupported` error.
pub open spec fn model_add_pcode(
    m: SolverModel,
    bank: Seq<(String, u64)>,
    op: PCodeOp,
    resolved_addr: u64,
) -> (SolverModel, Option<SolverError>) {
    match op {
        PCodeOp::Load { source, destination } => {
            if source is Constant || destination is Constant {
                (m, Some(SolverError::Unsupported))
            } else {
                let key = var_key_spec(source);
                let (m1, var_src) = model_insert(m, source, None);
                let i = to_solve_idx(m1.to_solve, key);
                let ts = if i >= 0 {
                    m1.to_solve.update(i, (key, var_src, resolved_addr))
                } else {
                    m1.to_solve.push((key, var_src, resolved_addr))
                };
                let m2 = SolverModel { to_solve: ts, ..m1 };
                let dest = Expr::Extract {
                    lo: 0,
                    len: op_bits(destination),
                    e: Box::new(var_src),
                };
                (model_insert(m2, destination, Some(dest)).0, None)
            }
        },
        PCodeOp::Copy { source, destination } => {
            if destination is Constant {
                (m, Some(SolverError::Unsupported))
            } else {
                match model_operand_read(m, bank, source) {
                    Err(e) => (m, Some(e)),
                    Ok((m1, e1)) => (model_insert(m1, destination, Some(e1)).0, None),
                }
            }
        },
        PCodeOp::Store { source, destination } => {
            if destination is Constant {
                (m, Some(SolverError::Unsupported))
            } else {
                match model_operand_read(m, bank, source) {
                    Err(e) => (m, Some(e)),
                    Ok((m1, e1)) => (model_insert(m1, destination, Some(e1)).0, None),
                }
            }
        },
        PCodeOp::CBranch { .. } => (m, None),
        PCodeOp::Branch { .. } => (m, None),
        PCodeOp::Call { .. } => (m, None),
        PCodeOp::Return { .. } => (m, None),
        PCodeOp::Skip => (m, None),
        PCodeOp::IntAnd { result, op1, op2 } => model_bin(m, bank, BinOp::And, op1, op2, result),
        PCodeOp::BoolAnd { result, op1, op2 } => model_bin(
            m,
            bank,
            BinOp::BoolAnd,
            op1,
            op2,
            result,
        ),
        PCodeOp::IntOr { result, op1, op2 } => model_bin(m, bank, BinOp::Or, op1, op2, result),
        PCodeOp::BoolXor { result, op1, op2 } => model_bin(
            m,
            bank,
            BinOp::BoolXor,
            op1,
            op2,
            result,
        ),
        PCodeOp::IntXor { result, op1, op2 } => model_bin(m, bank, BinOp::Xor, op1, op2, result),
        PCodeOp::IntLeftShift { result, op1, op2 } => model_bin(
            m,
            bank,
            BinOp::Shl,
            op1,
            op2,
            result,
        ),
        PCodeOp::IntRightShift { result, op1, op2 } => model_bin(
            m,
            bank,
            BinOp::Shr,
            op1,
            op2,
            result,
        ),
        PCodeOp::IntSRightShift { result, op1, op2 } => model_bin(
            m,
            bank,
            BinOp::Sar,
            op1,
            op2,
            result,
        ),
        PCodeOp::IntNot { result, operand } => model_un(m, bank, UnOp::Not, operand, result),
        PCodeOp::IntZExt { result, operand } => model_ext(m, bank, false, operand, result),
        PCodeOp::IntSExt { result, operand } => model_ext(m, bank, true, operand, result),
        PCodeOp::Subpiece { result, operand, amount } => {
            match amount {
                Operand::Constant { value, .. } => {
                    if value > op_size(operand) as u64 || result is Constant {
                        (m, Some(SolverError::Unsupported))
                    } else {
                        match model_operand_read(m, bank, operand) {
                            Err(e) => (m, Some(e)),
                            Ok((m1, e1)) => {
                                let bits_preserve = (op_size(operand) as u64 - value) * 8;
                                let bits_result = op_size(result) as u64 * 8;
                                let bits_smaller = if bits_preserve < bits_result {
                                    bits_preserve
                                } else {
                                    bits_result
                                };
                                let ext = Expr::Extract {
                                    lo: 0,
                                    len: bits_smaller as u32,
                                    e: Box::new(e1),
                                };
                                (model_insert(m1, result, Some(ext)).0, None)
                            },
                        }
                    }
                },
                _ => (m, Some(SolverError::Unsupported)),
            }
        },
        PCodeOp::IntEq { result, op1, op2 } => model_bin(m, bank, BinOp::Eq, op1, op2, result),
        PCodeOp::IntNotEq { result, op1, op2 } => model_bin(m, bank, BinOp::Ne, op1, op2, result),
        PCodeOp::IntSLess { result, op1, op2 } => model_bin(m, bank, BinOp::Slt, op1, op2, result),
        PCodeOp::IntLess { result, op1, op2 } => model_bin(m, bank, BinOp::Lt, op1, op2, result),
        PCodeOp::IntSub { result, op1, op2 } => model_bin(m, bank, BinOp::Sub, op1, op2, result),
        PCodeOp::IntAdd { result, op1, op2 } => model_bin(m, bank, BinOp::Add, op1, op2, result),
        PCodeOp::IntNeg { result, operand } => model_un(m, bank, UnOp::Neg, operand, result),
        PCodeOp::IntCarry { result, op1, op2 } => model_bin(
            m,
            bank,
            BinOp::Carry,
            op1,
            op2,
            result,
        ),
        PCodeOp::IntSCarry { result, op1, op2 } => model_bin(
            m,
            bank,
            BinOp::SCarry,
            op1,
            op2,
            result,
        ),
        PCodeOp::BoolOr { result, op1, op2 } => model_bin(m, bank, BinOp::Or, op1, op2, result),
        _ => (m, Some(SolverError::Unsupported)),
    }
}

/// Everything an external solver needs about one detected polling loop:
/// the loop-exit constraint (already phrased as an equality at the
/// condition's width) and the variables to solve, each with the guest
/// address it was loaded from.
pub struct SolveRequest {
    pub constraint: Expr,
    pub targets: Vec<(VarKey, Expr, u64)>,
}

/// The solver bridge's working state.
pub struct ConstraintSolver {
    pub default_variables: Vec<(VarKey, u128)>,
    pub var_list: Vec<Variables>,
    pub var_to_solve: Vec<(VarKey, Expr, u64)>,
}

proof fn lemma_model_var_idx_props(vars: Seq<(VarKey, u64, Seq<Expr>)>, key: VarKey)
    ensures
        model_var_idx(vars, key) >= 0 ==> model_var_idx(vars, key) < vars.len() && key_matches(
            vars[model_var_idx(vars, key)].0,
            key,
        ),
        model_var_idx(vars, key) >= 0 ==> forall|j: int|
            0 <= j < model_var_idx(vars, key) ==> !key_matches((#[trigger] vars[j]).0, key),
        model_var_idx(vars, key) < 0 ==> forall|j: int|
            0 <= j < vars.len() ==> !key_matches((#[trigger] vars[j]).0, key),
    decreases vars.len(),
{
    if vars.len() > 0 && !key_matches(vars[0].0, key) {
        lemma_model_var_idx_props(vars.drop_first(), key);
        assert(forall|j: int|
            1 <= j < vars.len() ==> (#[trigger] vars[j]) == vars.drop_first()[j - 1]);
    }
}

proof fn lemma_to_solve_idx_props(s: Seq<(VarKey, Expr, u64)>, key: VarKey)
    ensures
        to_solve_idx(s, key) >= 0 ==> to_solve_idx(s, key) < s.len() && key_matches(
            s[to_solve_idx(s, key)].0,
            key,
        ),
        to_solve_idx(s, key) >= 0 ==> forall|j: int|
            0 <= j < to_solve_idx(s, key) ==> !key_matches((#[trigger] s[j]).0, key),
        to_solve_idx(s, key) < 0 ==> forall|j: int|
            0 <= j < s.len() ==> !key_matches((#[trigger] s[j]).0, key),
    decreases s.len(),
{
    if s.len() > 0 && !key_matches(s[0].0, key) {
        lemma_to_solve_idx_props(s.drop_first(), key);
        assert(forall|j: int| 1 <= j < s.len() ==> (#[trigger] s[j]) == s.drop_first()[j - 1]);
    }
}

fn var_rec_mut(v: &mut Vec<Variables>, i: usize) -> (e: &mut Variables)
    requires
        i < old(v).len(),
    ensures
        *e == old(v)@[i as int],
        final(v)@ == old(v)@.update(i as int, *final(e)),
{
    &mut v[i]
}

impl ConstraintSolver {
    /// Find the tracked record of a key, as `model_var_idx` names it.
    fn find_var_idx(&self, key: &VarKey) -> (r: Option<usize>)
        ensures
            r matches Some(i) ==> i == model_var_idx(self.model().vars, *key),
            r is None ==> model_var_idx(self.model().vars, *key) < 0,
    {
        proof {
            lemma_model_var_idx_props(self.model().vars, *key);
        }
        let n = self.var_list.len();
        let mut j: usize = 0;
        while j < n
            invariant
                j <= n,
                n == self.var_list@.len(),
                forall|k: int|
                    0 <= k < j ==> !key_matches((#[trigger] self.model().vars[k]).0, *key),
            decreases n - j,
        {
            if key_eq(&self.var_list[j].key, key) {
                proof {
                    lemma_model_var_idx_props(self.model().vars, *key);
                    let mi = model_var_idx(self.model().vars, *key);
                    assert(self.model().vars[j as int].0 == self.var_list@[j as int].key);
                    if mi < 0 {
                        assert(!key_matches(self.model().vars[j as int].0, *key));
                    }
                    if 0 <= mi < j as int {
                        assert(!key_matches(self.model().vars[mi].0, *key));
                    }
                }
                return Some(j);
            }
            proof {
                assert(self.model().vars[j as int].0 == self.var_list@[j as int].key);
            }
            j += 1;
        }
        proof {
            lemma_model_var_idx_props(self.model().vars, *key);
            let mi = model_var_idx(self.model().vars, *key);
            if mi >= 0 {
                assert(!key_matches(self.model().vars[mi].0, *key));
            }
        }
        None
    }

    /// Track a write to an operand's variable and return the expression
    /// recorded for it, exactly as `model_insert` describes.
    fn var_list_insert(&mut self, operand: &Operand, expr: Option<Expr>) -> (r: Expr)
        requires
            old(self).wf(),
            !(operand is Constant),
            op_size(*operand) <= 8,
        ensures
            final(self).wf(),
            final(self).model() == model_insert(old(self).model(), *operand, expr).0,
            r == model_insert(old(self).model(), *operand, expr).1,
    {
        let ghost m0 = self.model();
        let key = match Variables::gen_variable_name(operand) {
            Some(k) => k,
            None => vstd::pervasive::unreached(),
        };
        let bits: u32 = (operand_size(operand) * 8) as u32;
        match self.find_var_idx(&key) {
            Some(i) => {
                proof {
                    lemma_model_var_idx_props(m0.vars, key);
                    vstd::std_specs::vec::axiom_spec_len(&self.var_list[i as int].sym_expr);
                }
                let ver_next = self.var_list[i].version + 1;
                let var_updated = match expr {
                    Some(e) => e,
                    None => Expr::Var {
                        key: key_clone(&self.var_list[i].key),
                        version: ver_next,
                        bits,
                    },
                };
                let stored = expr_clone(&var_updated);
                let rec = var_rec_mut(&mut self.var_list, i);
                rec.update(stored);
                proof {
                    let iv = i as int;
                    assert(self.model().vars =~= m0.vars.update(
                        iv,
                        (m0.vars[iv].0, (m0.vars[iv].1 + 1) as u64, m0.vars[iv].2.push(
                            var_updated,
                        )),
                    ));
                }
                var_updated
            },
            None => {
                let e = match expr {
                    Some(e) => e,
                    None => Expr::Var { key: key_clone(&key), version: 0, bits },
                };
                let stored = expr_clone(&e);
                let rec = Variables::new(operand, stored);
                self.var_list.push(rec);
                proof {
                    assert(self.model().vars =~= m0.vars.push(
                        (var_key_spec(*operand), 0u64, seq![e]),
                    ));
                }
                e
            },
        }
    }

    /// Read an operand's variable, seeding it from the default table or the
    /// register snapshot when it is untracked, exactly as `model_read`
    /// describes.
    fn var_list_get(&mut self, regs: &RegBank, operand: &Operand) -> (r: Result<Expr, SolverError>)
        requires
            old(self).wf(),
            !(operand is Constant),
            op_size(*operand) <= 8,
        ensures
            final(self).wf(),
            match model_read(old(self).model(), regs.regs@, *operand) {
                Ok(p) => r matches Ok(e) && final(self).model() == p.0 && e == p.1,
                Err(er) => r == Err::<Expr, SolverError>(er) && *final(self) == *old(self),
            },
    {
        let ghost m0 = self.model();
        let key = match Variables::gen_variable_name(operand) {
            Some(k) => k,
            None => vstd::pervasive::unreached(),
        };
        match self.find_var_idx(&key) {
            Some(i) => {
                proof {
                    lemma_model_var_idx_props(m0.vars, key);
                }
                let e = expr_clone(self.var_list[i].get_sym_expr());
                Ok(e)
            },
            None => {
                // Not tracked yet: try the default-variable table.
                let dfound = self.find_default(&key);
                match dfound {
                    Some(dv) => {
                        let bits: u32 = (operand_size(operand) * 8) as u32;
                        let seeded = Expr::Val { value: dv as u64, bits };
                        let e = self.var_list_insert(operand, Some(seeded));
                        Ok(e)
                    },
                    None => {
                        match operand {
                            Operand::Register { name, size, .. } => {
                                match regs.get(name) {
                                    Some(v) => {
                                        if *size == 1 || *size == 2 || *size == 4 || *size == 8 {
                                            let bits: u32 = (*size * 8) as u32;
                                            let val = crate::mask_to_bits(v, bits);
                                            let seeded = Expr::Val { value: val, bits };
                                            let e = self.var_list_insert(operand, Some(seeded));
                                            Ok(e)
                                        } else {
                                            Err(SolverError::UnexpectedSize)
                                        }
                                    },
                                    None => Err(SolverError::InvalidRegister(name.clone())),
                                }
                            },
                            _ => Err(SolverError::UnknownVariable),
                        }
                    },
                }
            },
        }
    }

    /// The default value recorded for a key, if any.
    fn find_default(&self, key: &VarKey) -> (r: Option<u128>)
        ensures
            r == defaults_lookup(self.model().defaults, *key),
    {
        let ghost d = self.model().defaults;
        let nd = self.default_variables.len();
        proof {
            assert(d.skip(0) =~= d);
        }
        let mut di: usize = 0;
        while di < nd
            invariant
                di <= nd,
                nd == self.default_variables@.len(),
                d == self.model().defaults,
                defaults_lookup(d, *key) == defaults_lookup(d.skip(di as int), *key),
            decreases nd - di,
        {
            proof {
                assert(d.skip(di as int).drop_first() =~= d.skip(di + 1));
                assert(d.skip(di as int)[0] == d[di as int]);
            }
            if key_eq(&self.default_variables[di].0, key) {
                return Some(self.default_variables[di].1);
            }
            di += 1;
        }
        proof {
            assert(d.skip(nd as int) =~= Seq::<(VarKey, u128)>::empty());
        }
        None
    }

    /// The symbolic expression an operand reads as: constants are sized
    /// values, variables go through the tracked list.
    fn symexpr_from_operand_read(&mut self, regs: &RegBank, operand: &Operand) -> (r: Result<
        Expr,
        SolverError,
    >)
        requires
            old(self).wf(),
            op_size(*operand) <= 8,
        ensures
            final(self).wf(),
            match model_operand_read(old(self).model(), regs.regs@, *operand) {
                Ok(p) => r matches Ok(e) && final(self).model() == p.0 && e == p.1,
                Err(er) => r == Err::<Expr, SolverError>(er) && *final(self) == *old(self),
            },
    {
        match operand {
            Operand::Constant { value, size } => Ok(
                Expr::Val { value: *value, bits: (*size * 8) as u32 },
            ),
            _ => self.var_list_get(regs, operand),
        }
    }
}

impl ConstraintSolver {
    /// The solver's spec-level image.
    pub open spec fn model(self) -> SolverModel {
        SolverModel {
            defaults: self.default_variables@,
            vars: self.var_list@.map(|i: int, v: Variables| (v.key, v.version, v.sym_expr@)),
            to_solve: self.var_to_solve@,
        }
    }

    /// Every tracked variable's version counts its recorded expressions:
    /// the history holds one expression per version, so it is never empty
    /// and the version number cannot overflow.
    pub open spec fn wf(self) -> bool {
        forall|i: int|
            0 <= i < self.var_list@.len() ==> (#[trigger] self.var_list@[i]).sym_expr@.len()
                == self.var_list@[i].version + 1
    }

    pub fn new() -> (r: Self)
        ensures
            r.model().defaults.len() == 0,
            r.model().vars.len() == 0,
            r.model().to_solve.len() == 0,
            r.wf(),
    {
        let r = Self {
            default_variables: Vec::new(),
            var_list: Vec::new(),
            var_to_solve: Vec::new(),
        };
        proof {
            assert(r.model().vars =~= Seq::<(VarKey, u64, Seq<Expr>)>::empty());
        }
        r
    }

    /// Replace the default-variable table.
    pub fn set_default_variables(&mut self, vars: &Vec<(VarKey, u128)>)
        requires
            old(self).wf(),
        ensures
            final(self).wf(),
            final(self).model() == (SolverModel { defaults: vars@, ..old(self).model() }),
    {
        let n = vars.len();
        let mut copy: Vec<(VarKey, u128)> = Vec::new();
        let mut i: usize = 0;
        while i < n
            invariant
                i <= n,
                n == vars@.len(),
                copy@ == vars@.take(i as int),
            decreases n - i,
        {
            copy.push((key_clone(&vars[i].0), vars[i].1));
            proof {
                assert(vars@.take(i + 1) =~= vars@.take(i as int).push(vars@[i as int]));
            }
            i += 1;
        }
        proof {
            assert(vars@.take(n as int) =~= vars@);
        }
        self.default_variables = copy;
    }
}

impl ConstraintSolver {
    fn add_bin(&mut self, regs: &RegBank, bop: BinOp, o1: &Operand, o2: &Operand, result: &Operand)
        -> (r: Result<(), SolverError>)
        requires
            old(self).wf(),
            op_size(*o1) <= 8,
            op_size(*o2) <= 8,
            op_size(*result) <= 8,
        ensures
            final(self).wf(),
            ({
                let (m2, oe) = model_bin(old(self).model(), regs.regs@, bop, *o1, *o2, *result);
                final(self).model() == m2 && r == (match oe {
                    None => Ok::<(), SolverError>(()),
                    Some(e) => Err(e),
                })
            }),
    {
        let e1 = match self.symexpr_from_operand_read(regs, o1) {
            Ok(e) => e,
            Err(e) => {
                return Err(e);
            },
        };
        let e2 = match self.symexpr_from_operand_read(regs, o2) {
            Ok(e) => e,
            Err(e) => {
                return Err(e);
            },
        };
        if let Operand::Constant { .. } = result {
            return Err(SolverError::Unsupported);
        }
        self.var_list_insert(
            result,
            Some(Expr::Bin { op: bop, lhs: Box::new(e1), rhs: Box::new(e2) }),
        );
        Ok(())
    }

    fn add_un(&mut self, regs: &RegBank, uop: UnOp, o: &Operand, result: &Operand) -> (r: Result<
        (),
        SolverError,
    >)
        requires
            old(self).wf(),
            op_size(*o) <= 8,
            op_size(*result) <= 8,
        ensures
            final(self).wf(),
            ({
                let (m2, oe) = model_un(old(self).model(), regs.regs@, uop, *o, *result);
                final(self).model() == m2 && r == (match oe {
                    None => Ok::<(), SolverError>(()),
                    Some(e) => Err(e),
                })
            }),
    {
        let e1 = match self.symexpr_from_operand_read(regs, o) {
            Ok(e) => e,
            Err(e) => {
                return Err(e);
            },
        };
        if let Operand::Constant { .. } = result {
            return Err(SolverError::Unsupported);
        }
        self.var_list_insert(result, Some(Expr::Un { op: uop, e: Box::new(e1) }));
        Ok(())
    }

    fn add_ext(&mut self, regs: &RegBank, signed: bool, o: &Operand, result: &Operand) -> (r:
        Result<(), SolverError>)
        requires
            old(self).wf(),
            op_size(*o) <= 8,
            op_size(*result) <= 8,
        ensures
            final(self).wf(),
            ({
                let (m2, oe) = model_ext(old(self).model(), regs.regs@, signed, *o, *result);
                final(self).model() == m2 && r == (match oe {
                    None => Ok::<(), SolverError>(()),
                    Some(e) => Err(e),
                })
            }),
    {
        let e1 = match self.symexpr_from_operand_read(regs, o) {
            Ok(e) => e,
            Err(e) => {
                return Err(e);
            },
        };
        if let Operand::Constant { .. } = result {
            return Err(SolverError::Unsupported);
        }
        let bits: u32 = (operand_size(result) * 8) as u32;
        let ext = if signed {
            Expr::SExt { bits, e: Box::new(e1) }
        } else {
            Expr::ZExt { bits, e: Box::new(e1) }
        };
        self.var_list_insert(result, Some(ext));
        Ok(())
    }

    /// Record one more solve target: the first entry of the same key is
    /// overwritten, a new key is appended.
    fn to_solve_insert(&mut self, key: VarKey, e: Expr, addr: u64)
        requires
            old(self).wf(),
        ensures
            final(self).wf(),
            final(self).model() == (SolverModel {
                to_solve: ({
                    let i = to_solve_idx(old(self).model().to_solve, key);
                    if i >= 0 {
                        old(self).model().to_solve.update(i, (key, e, addr))
                    } else {
                        old(self).model().to_solve.push((key, e, addr))
                    }
                }),
                ..old(self).model()
            }),
    {
        proof {
            lemma_to_solve_idx_props(self.var_to_solve@, key);
        }
        let n = self.var_to_solve.len();
        let mut j: usize = 0;
        while j < n
            invariant
                j <= n,
                n == self.var_to_solve@.len(),
                *self == *old(self),
                old(self).wf(),
                forall|k: int|
                    0 <= k < j ==> !key_matches((#[trigger] self.var_to_solve@[k]).0, key),
            decreases n - j,
        {
            if key_eq(&self.var_to_solve[j].0, &key) {
                proof {
                    lemma_to_solve_idx_props(self.var_to_solve@, key);
                    let ti = to_solve_idx(self.var_to_solve@, key);
                    if ti < 0 {
                        assert(!key_matches(self.var_to_solve@[j as int].0, key));
                    }
                    if 0 <= ti < j as int {
                        assert(!key_matches(self.var_to_solve@[ti].0, key));
                    }
                }
                self.var_to_solve.set(j, (key, e, addr));
                proof {
                    assert(self.var_list == old(self).var_list);
                    assert(self.wf());
                }
                return ;
            }
            j += 1;
        }
        proof {
            lemma_to_solve_idx_props(self.var_to_solve@, key);
            let ti = to_solve_idx(self.var_to_solve@, key);
            if ti >= 0 {
                assert(!key_matches(self.var_to_solve@[ti].0, key));
            }
        }
        self.var_to_solve.push((key, e, addr));
    }

    /// Feed one observed operation into the expression tree, exactly as
    /// `model_add_pcode` describes. `resolved_addr` is the guest address the
    /// emulator resolved for a `Load`'s source; other operations ignore it.
    pub fn add_pcode(&mut self, operation: &PCodeOp, regs: &RegBank, resolved_addr: u64) -> (r:
        Result<(), SolverError>)
        requires
            old(self).wf(),
            pcode_sizes_ok(*operation),
        ensures
            final(self).wf(),
            ({
                let (m2, oe) = model_add_pcode(
                    old(self).model(),
                    regs.regs@,
                    *operation,
                    resolved_addr,
                );
                final(self).model() == m2 && r == (match oe {
                    None => Ok::<(), SolverError>(()),
                    Some(e) => Err(e),
                })
            }),
    {
        match operation {
            PCodeOp::Load { source, destination } => {
                let src_const = matches!(source, Operand::Constant { .. });
                let dst_const = matches!(destination, Operand::Constant { .. });
                if src_const || dst_const {
                    return Err(SolverError::Unsupported);
                }
                let key = match Variables::gen_variable_name(source) {
                    Some(k) => k,
                    None => vstd::pervasive::unreached(),
                };
                let var_src = self.var_list_insert(source, None);
                self.to_solve_insert(key, expr_clone(&var_src), resolved_addr);
                let bits: u32 = (operand_size(destination) * 8) as u32;
                let dest = Expr::Extract { lo: 0, len: bits, e: Box::new(var_src) };
                self.var_list_insert(destination, Some(dest));
                Ok(())
            },
            PCodeOp::Copy { source, destination } => {
                if let Operand::Constant { .. } = destination {
                    return Err(SolverError::Unsupported);
                }
                let e1 = match self.symexpr_from_operand_read(regs, source) {
                    Ok(e) => e,
                    Err(e) => {
                        return Err(e);
                    },
                };
                self.var_list_insert(destination, Some(e1));
                Ok(())
            },
            PCodeOp::Store { source, destination } => {
                if let Operand::Constant { .. } = destination {
                    return Err(SolverError::Unsupported);
                }
                let e1 = match self.symexpr_from_operand_read(regs, source) {
                    Ok(e) => e,
                    Err(e) => {
                        return Err(e);
                    },
                };
                self.var_list_insert(destination, Some(e1));
                Ok(())
            },
            PCodeOp::CBranch { .. } => Ok(()),
            PCodeOp::Branch { .. } => Ok(()),
            PCodeOp::Call { .. } => Ok(()),
            PCodeOp::Return { .. } => Ok(()),
            PCodeOp::Skip => Ok(()),
            PCodeOp::IntAnd { result, op1, op2 } => self.add_bin(regs, BinOp::And, op1, op2, result),
            PCodeOp::BoolAnd { result, op1, op2 } => self.add_bin(
                regs,
                BinOp::BoolAnd,
                op1,
                op2,
                result,
            ),
            PCodeOp::IntOr { result, op1, op2 } => self.add_bin(regs, BinOp::Or, op1, op2, result),
            PCodeOp::BoolXor { result, op1, op2 } => self.add_bin(
                regs,
                BinOp::BoolXor,
                op1,
                op2,
                result,
            ),
            PCodeOp::IntXor { result, op1, op2 } => self.add_bin(regs, BinOp::Xor, op1, op2, result),
            PCodeOp::IntLeftShift { result, op1, op2 } => self.add_bin(
                regs,
                BinOp::Shl,
                op1,
                op2,
                result,
            ),
            PCodeOp::IntRightShift { result, op1, op2 } => self.add_bin(
                regs,
                BinOp::Shr,
                op1,
                op2,
                result,
            ),
            PCodeOp::IntSRightShift { result, op1, op2 } => self.add_bin(
                regs,
                BinOp::Sar,
                op1,
                op2,
                result,
            ),
            PCodeOp::IntNot { result, operand } => self.add_un(regs, UnOp::Not, operand, result),
            PCodeOp::IntZExt { result, operand } => self.add_ext(regs, false, operand, result),
            PCodeOp::IntSExt { result, operand } => self.add_ext(regs, true, operand, result),
            PCodeOp::Subpiece { result, operand, amount } => {
                match amount {
                    Operand::Constant { value, .. } => {
                        let rs_const = matches!(result, Operand::Constant { .. });
                        if *value > operand_size(operand) as u64 || rs_const {
                            return Err(SolverError::Unsupported);
                        }
                        let e1 = match self.symexpr_from_operand_read(regs, operand) {
                            Ok(e) => e,
                            Err(e) => {
                                return Err(e);
                            },
                        };
                        let bits_preserve = (operand_size(operand) as u64 - *value) * 8;
                        let bits_result = operand_size(result) as u64 * 8;
                        let bits_smaller = if bits_preserve < bits_result {
                            bits_preserve
                        } else {
                            bits_result
                        };
                        let ext = Expr::Extract {
                            lo: 0,
                            len: bits_smaller as u32,
                            e: Box::new(e1),
                        };
                        self.var_list_insert(result, Some(ext));
                        Ok(())
                    },
                    _ => Err(SolverError::Unsupported),
                }
            },
            PCodeOp::IntEq { result, op1, op2 } => self.add_bin(regs, BinOp::Eq, op1, op2, result),
            PCodeOp::IntNotEq { result, op1, op2 } => self.add_bin(
                regs,
                BinOp::Ne,
                op1,
                op2,
                result,
            ),
            PCodeOp::IntSLess { result, op1, op2 } => self.add_bin(
                regs,
                BinOp::Slt,
                op1,
                op2,
                result,
            ),
            PCodeOp::IntLess { result, op1, op2 } => self.add_bin(regs, BinOp::Lt, op1, op2, result),
            PCodeOp::IntSub { result, op1, op2 } => self.add_bin(regs, BinOp::Sub, op1, op2, result),
            PCodeOp::IntAdd { result, op1, op2 } => self.add_bin(regs, BinOp::Add, op1, op2, result),
            PCodeOp::IntNeg { result, operand } => self.add_un(regs, UnOp::Neg, operand, result),
            PCodeOp::IntCarry { result, op1, op2 } => self.add_bin(
                regs,
                BinOp::Carry,
                op1,
                op2,
                result,
            ),
            PCodeOp::IntSCarry { result, op1, op2 } => self.add_bin(
                regs,
                BinOp::SCarry,
                op1,
                op2,
                result,
            ),
            PCodeOp::BoolOr { result, op1, op2 } => self.add_bin(regs, BinOp::Or, op1, op2, result),
            PCodeOp::Other => Err(SolverError::Unsupported),
            PCodeOp::ICall { .. } => Err(SolverError::Unsupported),
        }
    }

    /// Turn the operand the loop branches on into a solve request: the
    /// constraint pins the operand's expression to `expected_value` at the
    /// operand's width, and the targets are every variable recorded for
    /// solving, each with the guest address it was loaded from.
    pub fn solve(&mut self, regs: &RegBank, operand: &Operand, expected_value: u64) -> (r: Result<
        SolveRequest,
        SolverError,
    >)
        requires
            old(self).wf(),
            op_size(*operand) <= 8,
        ensures
            final(self).wf(),
            match model_operand_read(old(self).model(), regs.regs@, *operand) {
                Ok(p) => {
                    &&& final(self).model() == p.0
                    &&& r matches Ok(req)
                    &&& (r matches Ok(req) ==> req.constraint == (Expr::Bin {
                        op: BinOp::Eq,
                        lhs: Box::new(p.1),
                        rhs: Box::new(
                            Expr::Val { value: expected_value, bits: crate::bypass::expr::expr_bits(p.1) },
                        ),
                    }) && req.targets@ == p.0.to_solve)
                },
                Err(er) => r == Err::<SolveRequest, SolverError>(er) && *final(self) == *old(self),
            },
    {
        let op_sym = match self.symexpr_from_operand_read(regs, operand) {
            Ok(e) => e,
            Err(e) => {
                return Err(e);
            },
        };
        let size_op_sym = expr_bits_of(&op_sym);
        let expected_sym = Expr::Val { value: expected_value, bits: size_op_sym };
        let constraint = Expr::Bin {
            op: BinOp::Eq,
            lhs: Box::new(op_sym),
            rhs: Box::new(expected_sym),
        };
        let n = self.var_to_solve.len();
        let mut targets: Vec<(VarKey, Expr, u64)> = Vec::new();
        let mut i: usize = 0;
        while i < n
            invariant
                i <= n,
                n == self.var_to_solve@.len(),
                targets@ == self.var_to_solve@.take(i as int),
            decreases n - i,
        {
            targets.push(
                (
                    key_clone(&self.var_to_solve[i].0),
                    expr_clone(&self.var_to_solve[i].1),
                    self.var_to_solve[i].2,
                ),
            );
            proof {
                assert(self.var_to_solve@.take(i + 1) =~= self.var_to_solve@.take(i as int).push(
                    self.var_to_solve@[i as int],
                ));
            }
            i += 1;
        }
        proof {
            assert(self.var_to_solve@.take(n as int) =~= self.var_to_solve@);
        }
        Ok(SolveRequest { constraint, targets })
    }
}

/// Every operand of an operation is at most eight bytes wide.
pub open spec fn pcode_sizes_ok(op: PCodeOp) -> bool {
    match op {
        PCodeOp::Load { source, destination } => op_size(source) <= 8 && op_size(destination) <= 8,
        PCodeOp::Copy { source, destination } => op_size(source) <= 8 && op_size(destination) <= 8,
        PCodeOp::Store { source, destination } => op_size(source) <= 8 && op_size(destination) <= 8,
        PCodeOp::Branch { .. } => true,
        PCodeOp::CBranch { condition, .. } => op_size(condition) <= 8,
        PCodeOp::Call { .. } => true,
        PCodeOp::ICall { .. } => true,
        PCodeOp::Return { .. } => true,
        PCodeOp::Skip => true,
        PCodeOp::IntAnd { result, op1, op2 } => op_size(result) <= 8 && op_size(op1) <= 8 && op_size(
            op2,
        ) <= 8,
        PCodeOp::BoolAnd { result, op1, op2 } => op_size(result) <= 8 && op_size(op1) <= 8
            && op_size(op2) <= 8,
        PCodeOp::IntOr { result, op1, op2 } => op_size(result) <= 8 && op_size(op1) <= 8 && op_size(
            op2,
        ) <= 8,
        PCodeOp::BoolXor { result, op1, op2 } => op_size(result) <= 8 && op_size(op1) <= 8
            && op_size(op2) <= 8,
        PCodeOp::IntXor { result, op1, op2 } => op_size(result) <= 8 && op_size(op1) <= 8
            && op_size(op2) <= 8,
        PCodeOp::IntLeftShift { result, op1, op2 } => op_size(result) <= 8 && op_size(op1) <= 8
            && op_size(op2) <= 8,
        PCodeOp::IntRightShift { result, op1, op2 } => op_size(result) <= 8 && op_size(op1) <= 8
            && op_size(op2) <= 8,
        PCodeOp::IntSRightShift { result, op1, op2 } => op_size(result) <= 8 && op_size(op1) <= 8
            && op_size(op2) <= 8,
        PCodeOp::IntNot { result, operand } => op_size(result) <= 8 && op_size(operand) <= 8,
        PCodeOp::IntZExt { result, operand } => op_size(result) <= 8 && op_size(operand) <= 8,
        PCodeOp::IntSExt { result, operand } => op_size(result) <= 8 && op_size(operand) <= 8,
        PCodeOp::Subpiece { result, operand, .. } => op_size(result) <= 8 && op_size(operand) <= 8,
        PCodeOp::IntEq { result, op1, op2 } => op_size(result) <= 8 && op_size(op1) <= 8 && op_size(
            op2,
        ) <= 8,
        PCodeOp::IntNotEq { result, op1, op2 } => op_size(result) <= 8 && op_size(op1) <= 8
            && op_size(op2) <= 8,
        PCodeOp::IntSLess { result, op1, op2 } => op_size(result) <= 8 && op_size(op1) <= 8
            && op_size(op2) <= 8,
        PCodeOp::IntLess { result, op1, op2 } => op_size(result) <= 8 && op_size(op1) <= 8
            && op_size(op2) <= 8,
        PCodeOp::IntSub { result, op1, op2 } => op_size(result) <= 8 && op_size(op1) <= 8 && op_size(
            op2,
        ) <= 8,
        PCodeOp::IntAdd { result, op1, op2 } => op_size(result) <= 8 && op_size(op1) <= 8 && op_size(
            op2,
        ) <= 8,
        PCodeOp::IntNeg { result, operand } => op_size(result) <= 8 && op_size(operand) <= 8,
        PCodeOp::IntCarry { result, op1, op2 } => op_size(result) <= 8 && op_size(op1) <= 8
            && op_size(op2) <= 8,
        PCodeOp::IntSCarry { result, op1, op2 } => op_size(result) <= 8 && op_size(op1) <= 8
            && op_size(op2) <= 8,
        PCodeOp::BoolOr { result, op1, op2 } => op_size(result) <= 8 && op_size(op1) <= 8 && op_size(
            op2,
        ) <= 8,
        PCodeOp::Other => true,
    }
}

} // verus!
