//! Symbolic expressions over guest variables, and their evaluation under a
//! concrete assignment. The bypass builds these trees from observed
//! operations; an external solver proposes assignments, and evaluation is
//! how a proposed assignment is checked before anything is written back.

use vstd::prelude::*;
use vstd::wrapping::u64_specs;
use crate::low_mask;
use crate::mask_to_bits;
use crate::truncate_bits;

verus! {

/// Identity of a guest variable: a memory cell, a named CPU register, or a
/// p-code temporary identified by its space and offset.
pub enum VarKey {
    Mem(u64),
    Reg(String),
    Tmp(u64, u64),
}

/// Two keys name the same guest variable.
pub open spec fn key_matches(a: VarKey, b: VarKey) -> bool {
    match (a, b) {
        (VarKey::Mem(x), VarKey::Mem(y)) => x == y,
        (VarKey::Reg(x), VarKey::Reg(y)) => x@ == y@,
        (VarKey::Tmp(s1, o1), VarKey::Tmp(s2, o2)) => s1 == s2 && o1 == o2,
        _ => false,
    }
}

pub fn key_eq(a: &VarKey, b: &VarKey) -> (r: bool)
    ensures
        r == key_matches(*a, *b),
{
    match (a, b) {
        (VarKey::Mem(x), VarKey::Mem(y)) => x == y,
        (VarKey::Reg(x), VarKey::Reg(y)) => *x == *y,
        (VarKey::Tmp(s1, o1), VarKey::Tmp(s2, o2)) => s1 == s2 && o1 == o2,
        _ => false,
    }
}

pub fn key_clone(k: &VarKey) -> (r: VarKey)
    ensures
        r == *k,
{
    match k {
        VarKey::Mem(x) => VarKey::Mem(*x),
        VarKey::Reg(x) => VarKey::Reg(x.clone()),
        VarKey::Tmp(s, o) => VarKey::Tmp(*s, *o),
    }
}

/// Two-operand symbolic operations. The comparison and carry operations
/// produce a 1-bit result; the rest keep the left operand's width.
#[derive(Clone, Copy, Debug, PartialEq, Eq, Structural)]
pub enum BinOp {
    And,
    Or,
    Xor,
    BoolAnd,
    BoolOr,
    BoolXor,
    Shl,
    Shr,
    Sar,
    Eq,
    Ne,
    Slt,
    Lt,
    Add,
    Sub,
    Carry,
    SCarry,
}

/// One-operand symbolic operations: bitwise complement and two's-complement
/// negation, both at the operand's width.
#[derive(Clone, Copy, Debug, PartialEq, Eq, Structural)]
pub enum UnOp {
    Not,
    Neg,
}

/// A symbolic expression over guest variables. `Val` is a sized constant;
/// `Var` is one version of a guest variable; `ZExt`/`SExt` widen to `bits`;
/// `Extract` takes `len` bits starting at bit `lo`.
pub enum Expr {
    Val { value: u64, bits: u32 },
    Var { key: VarKey, version: u64, bits: u32 },
    Un { op: UnOp, e: Box<Expr> },
    Bin { op: BinOp, lhs: Box<Expr>, rhs: Box<Expr> },
    ZExt { bits: u32, e: Box<Expr> },
    SExt { bits: u32, e: Box<Expr> },
    Extract { lo: u32, len: u32, e: Box<Expr> },
}

/// Bit width of an expression's value.
pub open spec fn expr_bits(e: Expr) -> u32
    decreases e,
{
    match e {
        Expr::Val { bits, .. } => bits,
        Expr::Var { bits, .. } => bits,
        Expr::Un { e, .. } => expr_bits(*e),
        Expr::Bin { op, lhs, .. } => match op {
            BinOp::Eq | BinOp::Ne | BinOp::Slt | BinOp::Lt | BinOp::Carry | BinOp::SCarry
                | BinOp::BoolAnd | BinOp::BoolOr | BinOp::BoolXor => 1,
            _ => expr_bits(*lhs),
        },
        Expr::ZExt { bits, .. } => bits,
        Expr::SExt { bits, .. } => bits,
        Expr::Extract { len, .. } => len,
    }
}

pub fn expr_bits_of(e: &Expr) -> (r: u32)
    ensures
        r == expr_bits(*e),
    decreases *e,
{
    match e {
        Expr::Val { bits, .. } => *bits,
        Expr::Var { bits, .. } => *bits,
        Expr::Un { e, .. } => expr_bits_of(e),
        Expr::Bin { op, lhs, .. } => match op {
            BinOp::Eq | BinOp::Ne | BinOp::Slt | BinOp::Lt | BinOp::Carry | BinOp::SCarry
                | BinOp::BoolAnd | BinOp::BoolOr | BinOp::BoolXor => 1,
            _ => expr_bits_of(lhs),
        },
        Expr::ZExt { bits, .. } => *bits,
        Expr::SExt { bits, .. } => *bits,
        Expr::Extract { len, .. } => *len,
    }
}

/// Deep copy of an expression.
pub fn expr_clone(e: &Expr) -> (r: Expr)
    ensures
        r == *e,
    decreases *e,
{
    match e {
        Expr::Val { value, bits } => Expr::Val { value: *value, bits: *bits },
        Expr::Var { key, version, bits } => Expr::Var {
            key: key_clone(key),
            version: *version,
            bits: *bits,
        },
        Expr::Un { op, e } => Expr::Un { op: *op, e: Box::new(expr_clone(e)) },
        Expr::Bin { op, lhs, rhs } => Expr::Bin {
            op: *op,
            lhs: Box::new(expr_clone(lhs)),
            rhs: Box::new(expr_clone(rhs)),
        },
        Expr::ZExt { bits, e } => Expr::ZExt { bits: *bits, e: Box::new(expr_clone(e)) },
        Expr::SExt { bits, e } => Expr::SExt { bits: *bits, e: Box::new(expr_clone(e)) },
        Expr::Extract { lo, len, e } => Expr::Extract {
            lo: *lo,
            len: *len,
            e: Box::new(expr_clone(e)),
        },
    }
}

/// One concrete value for one version of one guest variable.
pub struct Binding {
    pub key: VarKey,
    pub version: u64,
    pub value: u64,
}

/// The value an assignment gives a variable version (first match wins).
pub open spec fn env_lookup(s: Seq<Binding>, key: VarKey, version: u64) -> Option<u64>
    decreases s.len(),
{
    if s.len() == 0 {
        None
    } else if key_matches(s[0].key, key) && s[0].version == version {
        Some(s[0].value)
    } else {
        env_lookup(s.drop_first(), key, version)
    }
}

fn env_get(env: &Vec<Binding>, key: &VarKey, version: u64) -> (r: Option<u64>)
    ensures
        r == env_lookup(env@, *key, version),
{
    let n = env.len();
    proof {
        assert(env@.skip(0) =~= env@);
    }
    let mut i: usize = 0;
    while i < n
        invariant
            i <= n,
            n == env@.len(),
            env_lookup(env@, *key, version) == env_lookup(env@.skip(i as int), *key, version),
        decreases n - i,
    {
        proof {
            assert(env@.skip(i as int).drop_first() =~= env@.skip(i + 1));
            assert(env@.skip(i as int)[0] == env@[i as int]);
        }
        if key_eq(&env[i].key, key) && env[i].version == version {
            return Some(env[i].value);
        }
        i += 1;
    }
    proof {
        assert(env@.skip(n as int) =~= Seq::<Binding>::empty());
    }
    None
}

/// Signed less-than of two values read at width `bits`.
pub open spec fn spec_slt(x: u64, y: u64, bits: u32) -> bool {
    if bits == 0 || bits > 64 {
        x < y
    } else {
        let sign = 1u64 << ((bits - 1) as u32);
        (x ^ sign) < (y ^ sign)
    }
}

/// Arithmetic right shift of `x` (read at width `bits`) by `y`.
pub open spec fn spec_sar(x: u64, y: u64, bits: u32) -> u64 {
    if bits == 0 || bits > 64 {
        if y >= 64 {
            0
        } else {
            x >> y
        }
    } else {
        let negative = (x >> ((bits - 1) as u32)) & 1 == 1;
        if !negative {
            if y >= 64 {
                0
            } else {
                x >> y
            }
        } else {
            if y == 0 {
                x
            } else if y >= bits as u64 {
                low_mask(bits)
            } else {
                truncate_bits((x >> y) | (low_mask(bits) << ((bits as u64 - y) as u32)), bits)
            }
        }
    }
}

/// Evaluate an expression under an assignment; `None` when it mentions a
/// variable version the assignment does not bind. Every intermediate value
/// is truncated to its expression's width.
pub open spec fn eval_expr(e: Expr, env: Seq<Binding>) -> Option<u64>
    decreases e,
{
    match e {
        Expr::Val { value, bits } => Some(truncate_bits(value, bits)),
        Expr::Var { key, version, bits } => match env_lookup(env, key, version) {
            Some(v) => Some(truncate_bits(v, bits)),
            None => None,
        },
        Expr::Un { op, e } => {
            let b = expr_bits(*e);
            match eval_expr(*e, env) {
                Some(x) => Some(
                    match op {
                        UnOp::Not => truncate_bits(!x, b),
                        UnOp::Neg => truncate_bits(u64_specs::wrapping_sub(0, x), b),
                    },
                ),
                None => None,
            }
        },
        Expr::Bin { op, lhs, rhs } => {
            let b = expr_bits(*lhs);
            match (eval_expr(*lhs, env), eval_expr(*rhs, env)) {
                (Some(x), Some(y)) => Some(
                    match op {
                        BinOp::And => x & y,
                        BinOp::Or => x | y,
                        BinOp::Xor => x ^ y,
                        BinOp::BoolAnd => if x != 0 && y != 0 {
                            1u64
                        } else {
                            0u64
                        },
                        BinOp::BoolOr => if x != 0 || y != 0 {
                            1u64
                        } else {
                            0u64
                        },
                        BinOp::BoolXor => if (x != 0) != (y != 0) {
                            1u64
                        } else {
                            0u64
                        },
                        BinOp::Shl => if y >= 64 {
                            0u64
                        } else {
                            truncate_bits(x << y, b)
                        },
                        BinOp::Shr => if y >= 64 {
                            0u64
                        } else {
                            x >> y
                        },
                        BinOp::Sar => spec_sar(x, y, b),
                        BinOp::Eq => if x == y {
                            1u64
                        } else {
                            0u64
                        },
                        BinOp::Ne => if x != y {
                            1u64
                        } else {
                            0u64
                        },
                        BinOp::Slt => if spec_slt(x, y, b) {
                            1u64
                        } else {
                            0u64
                        },
                        BinOp::Lt => if x < y {
                            1u64
                        } else {
                            0u64
                        },
                        BinOp::Add => truncate_bits(u64_specs::wrapping_add(x, y), b),
                        BinOp::Sub => truncate_bits(u64_specs::wrapping_sub(x, y), b),
                        BinOp::Carry => if x + y > low_mask(b) {
                            1u64
                        } else {
                            0u64
                        },
                        BinOp::SCarry => {
                            let sx = spec_sign_bit(x, b);
                            let sy = spec_sign_bit(y, b);
                            let sr = spec_sign_bit(truncate_bits(u64_specs::wrapping_add(x, y), b), b);
                            if sx == sy && sr != sx {
                                1u64
                            } else {
                                0u64
                            }
                        },
                    },
                ),
                _ => None,
            }
        },
        Expr::ZExt { bits, e } => match eval_expr(*e, env) {
            Some(x) => Some(truncate_bits(x, bits)),
            None => None,
        },
        Expr::SExt { bits, e } => {
            let ib = expr_bits(*e);
            match eval_expr(*e, env) {
                Some(x) => Some(
                    if spec_sign_bit(x, ib) == 1 {
                        truncate_bits(x | (low_mask(bits) & !low_mask(ib)), bits)
                    } else {
                        truncate_bits(x, bits)
                    },
                ),
                None => None,
            }
        },
        Expr::Extract { lo, len, e } => match eval_expr(*e, env) {
            Some(x) => Some(
                if lo >= 64 {
                    0u64
                } else {
                    truncate_bits(x >> lo, len)
                },
            ),
            None => None,
        },
    }
}

/// The sign bit of a value read at width `bits`.
pub open spec fn spec_sign_bit(x: u64, bits: u32) -> u64 {
    if bits == 0 || bits > 64 {
        0
    } else {
        (x >> ((bits - 1) as u32)) & 1
    }
}

fn sign_bit(x: u64, bits: u32) -> (r: u64)
    ensures
        r == spec_sign_bit(x, bits),
{
    if bits == 0 || bits > 64 {
        0
    } else {
        (x >> (bits - 1)) & 1
    }
}

/// Evaluate an expression under an assignment, exactly as `eval_expr`
/// describes.
pub fn eval(e: &Expr, env: &Vec<Binding>) -> (r: Option<u64>)
    ensures
        r == eval_expr(*e, env@),
    decreases *e,
{
    match e {
        Expr::Val { value, bits } => Some(mask_to_bits(*value, *bits)),
        Expr::Var { key, version, bits } => match env_get(env, key, *version) {
            Some(v) => Some(mask_to_bits(v, *bits)),
            None => None,
        },
        Expr::Un { op, e } => {
            let b = expr_bits_of(e);
            match eval(e, env) {
                Some(x) => Some(
                    match op {
                        UnOp::Not => mask_to_bits(!x, b),
                        UnOp::Neg => mask_to_bits(0u64.wrapping_sub(x), b),
                    },
                ),
                None => None,
            }
        },
        Expr::Bin { op, lhs, rhs } => {
            let b = expr_bits_of(lhs);
            let xo = eval(lhs, env);
            let yo = eval(rhs, env);
            match (xo, yo) {
                (Some(x), Some(y)) => Some(
                    match op {
                        BinOp::And => x & y,
                        BinOp::Or => x | y,
                        BinOp::Xor => x ^ y,
                        BinOp::BoolAnd => if x != 0 && y != 0 {
                            1u64
                        } else {
                            0u64
                        },
                        BinOp::BoolOr => if x != 0 || y != 0 {
                            1u64
                        } else {
                            0u64
                        },
                        BinOp::BoolXor => if (x != 0) != (y != 0) {
                            1u64
                        } else {
                            0u64
                        },
                        BinOp::Shl => if y >= 64 {
                            0u64
                        } else {
                            mask_to_bits(x << y, b)
                        },
                        BinOp::Shr => if y >= 64 {
                            0u64
                        } else {
                            x >> y
                        },
                        BinOp::Sar => sar_exec(x, y, b),
                        BinOp::Eq => if x == y {
                            1u64
                        } else {
                            0u64
                        },
                        BinOp::Ne => if x != y {
                            1u64
                        } else {
                            0u64
                        },
                        BinOp::Slt => {
                            let c = if b == 0 || b > 64 {
                                x < y
                            } else {
                                let sign = 1u64 << (b - 1);
                                (x ^ sign) < (y ^ sign)
                            };
                            if c {
                                1u64
                            } else {
                                0u64
                            }
                        },
                        BinOp::Lt => if x < y {
                            1u64
                        } else {
                            0u64
                        },
                        BinOp::Add => mask_to_bits(x.wrapping_add(y), b),
                        BinOp::Sub => mask_to_bits(x.wrapping_sub(y), b),
                        BinOp::Carry => {
                            let m = if b >= 64 {
                                0xffff_ffff_ffff_ffffu64
                            } else {
                                proof {
                                    assert((1u64 << b) >= 1) by (bit_vector)
                                        requires
                                            b < 64,
                                    ;
                                }
                                (1u64 << b) - 1
                            };
                            if x as u128 + y as u128 > m as u128 {
                                1u64
                            } else {
                                0u64
                            }
                        },
                        BinOp::SCarry => {
                            let sx = sign_bit(x, b);
                            let sy = sign_bit(y, b);
                            let sr = sign_bit(mask_to_bits(x.wrapping_add(y), b), b);
                            if sx == sy && sr != sx {
                                1u64
                            } else {
                                0u64
                            }
                        },
                    },
                ),
                _ => None,
            }
        },
        Expr::ZExt { bits, e } => match eval(e, env) {
            Some(x) => Some(mask_to_bits(x, *bits)),
            None => None,
        },
        Expr::SExt { bits, e } => {
            let ib = expr_bits_of(e);
            match eval(e, env) {
                Some(x) => {
                    if sign_bit(x, ib) == 1 {
                        let ext = x | (low_mask_exec(*bits) & !low_mask_exec(ib));
                        Some(mask_to_bits(ext, *bits))
                    } else {
                        Some(mask_to_bits(x, *bits))
                    }
                },
                None => None,
            }
        },
        Expr::Extract { lo, len, e } => match eval(e, env) {
            Some(x) => Some(
                if *lo >= 64 {
                    0u64
                } else {
                    mask_to_bits(x >> *lo, *len)
                },
            ),
            None => None,
        },
    }
}

fn low_mask_exec(bits: u32) -> (r: u64)
    ensures
        r == low_mask(bits),
{
    if bits >= 64 {
        0xffff_ffff_ffff_ffffu64
    } else {
        proof {
            assert((1u64 << bits) >= 1) by (bit_vector)
                requires
                    bits < 64,
            ;
        }
        (1u64 << bits) - 1
    }
}

fn sar_exec(x: u64, y: u64, bits: u32) -> (r: u64)
    ensures
        r == spec_sar(x, y, bits),
{
    if bits == 0 || bits > 64 {
        if y >= 64 {
            0
        } else {
            x >> y
        }
    } else {
        let negative = (x >> (bits - 1)) & 1 == 1;
        if !negative {
            if y >= 64 {
                0
            } else {
                x >> y
            }
        } else {
            if y == 0 {
                x
            } else if y >= bits as u64 {
                low_mask_exec(bits)
            } else {
                let fill_shift = (bits - y as u32);
                mask_to_bits((x >> y) | (low_mask_exec(bits) << fill_shift), bits)
            }
        }
    }
}

} // verus!
