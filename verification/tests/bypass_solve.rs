use periphemu::bypass::dummy_peripheral::BypassStep;
use periphemu::bypass::dummy_peripheral::DummyPeripheral;
use periphemu::bypass::expr::Binding;
use periphemu::bypass::expr::BinOp;
use periphemu::bypass::expr::Expr;
use periphemu::bypass::expr::VarKey;
use periphemu::bypass::expr::eval;
use periphemu::bypass::solver::Operand;
use periphemu::bypass::solver::PCodeOp;
use periphemu::machine::Endian;
use periphemu::machine::GuestMem;
use periphemu::machine::RegBank;

const REG_ADDR: u64 = 0x1000;
const LOAD_PC: u64 = 0x95E;

fn polling_ops() -> (PCodeOp, PCodeOp, PCodeOp) {
    // r0 <- load [0x1000]; t0 <- (r0 == 0); if t0 goto LOAD_PC
    let load = PCodeOp::Load {
        source: Operand::Address { value: REG_ADDR, size: 4 },
        destination: Operand::Register { name: String::from("r0"), offset: 0, size: 4 },
    };
    let cmp = PCodeOp::IntEq {
        result: Operand::Variable { space: 1, offset: 0, size: 1 },
        op1: Operand::Register { name: String::from("r0"), offset: 0, size: 4 },
        op2: Operand::Constant { value: 0, size: 4 },
    };
    let branch = PCodeOp::CBranch {
        destination: Operand::Address { value: LOAD_PC, size: 8 },
        condition: Operand::Variable { space: 1, offset: 0, size: 1 },
    };
    (load, cmp, branch)
}

fn run_polling_loop(p: &mut DummyPeripheral, mem: &mut GuestMem) -> BypassStep {
    let regs = RegBank::new();
    let (load, cmp, branch) = polling_ops();
    p.hook_architectural_step();
    let s1 = p.hook_operation_step(mem, &regs, LOAD_PC, &load, REG_ADDR, 0).unwrap();
    assert_eq!(s1, BypassStep::Pass);
    let s2 = p.hook_operation_step(mem, &regs, LOAD_PC + 4, &cmp, 0, 0).unwrap();
    assert_eq!(s2, BypassStep::Pass);
    p.hook_operation_step(mem, &regs, LOAD_PC + 8, &branch, 0, 1).unwrap()
}

#[test]
fn bypass_loop_solve() {
    // A straight-line polling loop over one register: the backward branch
    // is detected, a solve is requested, and an assignment that exits the
    // loop is written back to the polled register.
    let mut p = DummyPeripheral::new(Endian::Little);
    p.add_address_range((0x1000, 0x10FF));
    let mut mem = GuestMem::new();
    let step = run_polling_loop(&mut p, &mut mem);
    assert_eq!(step, BypassStep::SolveNeeded);
    assert!(p.pending_solve.is_some());

    // An external solver proposes 5 for the loaded variable.
    let solution = vec![Binding { key: VarKey::Mem(REG_ADDR), version: 0, value: 5 }];
    let written = p.apply_solution(&mut mem, &solution);
    assert_eq!(written, vec![(REG_ADDR, 5)]);
    assert_eq!(mem.read_u32(REG_ADDR, Endian::Little), 5);
    assert!(p.pending_solve.is_none());
    // The value exits the loop: the polled condition (r0 == 0) is false.
    assert_ne!(mem.read_u32(REG_ADDR, Endian::Little), 0);
}

#[test]
fn unsatisfying_assignment_writes_nothing() {
    // Zero keeps the loop spinning (the exit needs the condition false),
    // so the peripheral refuses to write it.
    let mut p = DummyPeripheral::new(Endian::Little);
    p.add_address_range((0x1000, 0x10FF));
    let mut mem = GuestMem::new();
    run_polling_loop(&mut p, &mut mem);
    let solution = vec![Binding { key: VarKey::Mem(REG_ADDR), version: 0, value: 0 }];
    let written = p.apply_solution(&mut mem, &solution);
    assert!(written.is_empty());
    assert_eq!(mem.read_u32(REG_ADDR, Endian::Little), 0);
}

#[test]
fn written_value_satisfies_constraint() {
    // Whatever assignment the solver proposes, a value only lands in
    // memory when the reconstructed loop-exit constraint evaluates true
    // under it.
    let mut p = DummyPeripheral::new(Endian::Little);
    p.add_address_range((0x1000, 0x10FF));
    let mut mem = GuestMem::new();
    run_polling_loop(&mut p, &mut mem);
    let constraint = match &p.pending_solve {
        Some(pending) => periphemu::bypass::expr::expr_clone(&pending.request.constraint),
        None => panic!("no pending solve"),
    };
    let solution = vec![Binding { key: VarKey::Mem(REG_ADDR), version: 0, value: 0x77 }];
    assert_eq!(eval(&constraint, &solution), Some(1));
    let written = p.apply_solution(&mut mem, &solution);
    assert_eq!(written.len(), 1);
    assert_eq!(mem.read_u32(REG_ADDR, Endian::Little), 0x77);
}

#[test]
fn cache_hit_skips_second_solve() {
    // With caching on, rerunning the loop serves the stored value straight
    // from the cache: the load reads it and no new solve starts.
    let mut p = DummyPeripheral::new(Endian::Little);
    p.enable_solving_result_cache(true);
    p.add_address_range((0x1000, 0x10FF));
    let mut mem = GuestMem::new();
    let step = run_polling_loop(&mut p, &mut mem);
    assert_eq!(step, BypassStep::SolveNeeded);
    let solution = vec![Binding { key: VarKey::Mem(REG_ADDR), version: 0, value: 9 }];
    p.apply_solution(&mut mem, &solution);
    assert_eq!(p.get_solving_result().len(), 1);

    // Second run: the load is answered from the cache.
    mem.write_u32(REG_ADDR, 0, Endian::Little);
    let regs = RegBank::new();
    let (load, _, _) = polling_ops();
    let s = p.hook_operation_step(&mut mem, &regs, LOAD_PC, &load, REG_ADDR, 0).unwrap();
    assert_eq!(s, BypassStep::Pass);
    assert!(!p.solving_started);
    assert!(p.pending_solve.is_none());
    assert_eq!(mem.read_u32(REG_ADDR, Endian::Little), 9);
}

#[test]
fn second_forward_branch_abandons_solve() {
    let mut p = DummyPeripheral::new(Endian::Little);
    p.add_address_range((0x1000, 0x10FF));
    let mut mem = GuestMem::new();
    let regs = RegBank::new();
    let (load, _, _) = polling_ops();
    p.hook_operation_step(&mut mem, &regs, LOAD_PC, &load, REG_ADDR, 0).unwrap();
    let forward = PCodeOp::CBranch {
        destination: Operand::Address { value: LOAD_PC + 0x40, size: 8 },
        condition: Operand::Constant { value: 1, size: 1 },
    };
    p.hook_operation_step(&mut mem, &regs, LOAD_PC + 4, &forward, 0, 1).unwrap();
    assert!(p.solving_started);
    assert_eq!(p.forgive_jump, 1);
    p.hook_operation_step(&mut mem, &regs, LOAD_PC + 8, &forward, 0, 0).unwrap();
    assert!(!p.solving_started);
    assert!(p.pending_solve.is_none());
}

#[test]
fn store_back_abandons_solve() {
    let mut p = DummyPeripheral::new(Endian::Little);
    p.add_address_range((0x1000, 0x10FF));
    let mut mem = GuestMem::new();
    let regs = RegBank::new();
    let (load, _, _) = polling_ops();
    p.hook_operation_step(&mut mem, &regs, LOAD_PC, &load, REG_ADDR, 0).unwrap();
    assert!(p.solving_started);
    let store = PCodeOp::Store {
        source: Operand::Constant { value: 1, size: 4 },
        destination: Operand::Address { value: REG_ADDR, size: 4 },
    };
    p.hook_operation_step(&mut mem, &regs, LOAD_PC + 4, &store, REG_ADDR, 0).unwrap();
    assert!(!p.solving_started);
}

#[test]
fn default_register_seeds_expression() {
    // A register no operation has written yet reads as its declared
    // default; the solved loop exit then depends only on the loaded value.
    let mut p = DummyPeripheral::new(Endian::Little);
    p.add_address_range((0x1000, 0x10FF));
    p.add_default_reg("r5", 0);
    let mut mem = GuestMem::new();
    let regs = RegBank::new();
    let load = PCodeOp::Load {
        source: Operand::Address { value: REG_ADDR, size: 4 },
        destination: Operand::Register { name: String::from("r0"), offset: 0, size: 4 },
    };
    let orr = PCodeOp::IntOr {
        result: Operand::Register { name: String::from("r0"), offset: 0, size: 4 },
        op1: Operand::Register { name: String::from("r0"), offset: 0, size: 4 },
        op2: Operand::Register { name: String::from("r5"), offset: 5, size: 4 },
    };
    let cmp = PCodeOp::IntEq {
        result: Operand::Variable { space: 1, offset: 0, size: 1 },
        op1: Operand::Register { name: String::from("r0"), offset: 0, size: 4 },
        op2: Operand::Constant { value: 0, size: 4 },
    };
    let branch = PCodeOp::CBranch {
        destination: Operand::Address { value: LOAD_PC, size: 8 },
        condition: Operand::Variable { space: 1, offset: 0, size: 1 },
    };
    p.hook_operation_step(&mut mem, &regs, LOAD_PC, &load, REG_ADDR, 0).unwrap();
    p.hook_operation_step(&mut mem, &regs, LOAD_PC + 4, &orr, 0, 0).unwrap();
    p.hook_operation_step(&mut mem, &regs, LOAD_PC + 8, &cmp, 0, 0).unwrap();
    let s = p.hook_operation_step(&mut mem, &regs, LOAD_PC + 12, &branch, 0, 1).unwrap();
    assert_eq!(s, BypassStep::SolveNeeded);
    let solution = vec![Binding { key: VarKey::Mem(REG_ADDR), version: 0, value: 3 }];
    let written = p.apply_solution(&mut mem, &solution);
    assert_eq!(written, vec![(REG_ADDR, 3)]);
}

#[test]
fn unknown_register_is_reported() {
    // A register that is neither tracked, nor defaulted, nor in the
    // snapshot surfaces as an invalid-register error.
    let mut p = DummyPeripheral::new(Endian::Little);
    p.add_address_range((0x1000, 0x10FF));
    let mut mem = GuestMem::new();
    let regs = RegBank::new();
    let (load, _, _) = polling_ops();
    p.hook_operation_step(&mut mem, &regs, LOAD_PC, &load, REG_ADDR, 0).unwrap();
    let use_unknown = PCodeOp::IntAdd {
        result: Operand::Register { name: String::from("r0"), offset: 0, size: 4 },
        op1: Operand::Register { name: String::from("r0"), offset: 0, size: 4 },
        op2: Operand::Register { name: String::from("r9"), offset: 9, size: 4 },
    };
    let r = p.hook_operation_step(&mut mem, &regs, LOAD_PC + 4, &use_unknown, 0, 0);
    assert!(matches!(
        r,
        Err(periphemu::bypass::solver::SolverError::InvalidRegister(_))
    ));
    // A snapshot holding the register lets the same operation through.
    let mut bank = RegBank::new();
    bank.set("r9", 0x10);
    let mut p2 = DummyPeripheral::new(Endian::Little);
    p2.add_address_range((0x1000, 0x10FF));
    let (load2, _, _) = polling_ops();
    p2.hook_operation_step(&mut mem, &bank, LOAD_PC, &load2, REG_ADDR, 0).unwrap();
    assert!(p2.hook_operation_step(&mut mem, &bank, LOAD_PC + 4, &use_unknown, 0, 0).is_ok());
}

#[test]
fn unsupported_operation_is_fatal() {
    let mut p = DummyPeripheral::new(Endian::Little);
    p.add_address_range((0x1000, 0x10FF));
    let mut mem = GuestMem::new();
    let regs = RegBank::new();
    let (load, _, _) = polling_ops();
    p.hook_operation_step(&mut mem, &regs, LOAD_PC, &load, REG_ADDR, 0).unwrap();
    let r = p.hook_operation_step(&mut mem, &regs, LOAD_PC + 4, &PCodeOp::Other, 0, 0);
    assert!(matches!(r, Err(periphemu::bypass::solver::SolverError::Unsupported)));
}

#[test]
fn expression_evaluation_masks_to_width() {
    // An 8-bit addition wraps at the expression's width.
    let e = Expr::Bin {
        op: BinOp::Add,
        lhs: Box::new(Expr::Val { value: 0xF0, bits: 8 }),
        rhs: Box::new(Expr::Val { value: 0x20, bits: 8 }),
    };
    assert_eq!(eval(&e, &Vec::new()), Some(0x10));
    // A variable the assignment does not bind leaves the whole expression
    // undetermined.
    let open_var = Expr::Var { key: VarKey::Mem(4), version: 0, bits: 8 };
    assert_eq!(eval(&open_var, &Vec::new()), None);
}

#[test]
fn odd_register_size_is_rejected() {
    // A register of a width the bridge cannot size is a fatal error.
    let mut p = DummyPeripheral::new(Endian::Little);
    p.add_address_range((0x1000, 0x10FF));
    let mut mem = GuestMem::new();
    let mut bank = RegBank::new();
    bank.set("r3", 1);
    let (load, _, _) = polling_ops();
    p.hook_operation_step(&mut mem, &bank, LOAD_PC, &load, REG_ADDR, 0).unwrap();
    let odd = PCodeOp::IntAdd {
        result: Operand::Register { name: String::from("r0"), offset: 0, size: 4 },
        op1: Operand::Register { name: String::from("r0"), offset: 0, size: 4 },
        op2: Operand::Register { name: String::from("r3"), offset: 3, size: 3 },
    };
    let r = p.hook_operation_step(&mut mem, &bank, LOAD_PC + 4, &odd, 0, 0);
    assert!(matches!(
        r,
        Err(periphemu::bypass::solver::SolverError::UnexpectedSize)
    ));
}

#[test]
fn unknown_temporary_is_rejected() {
    // A p-code temporary never written, with no default and no concrete
    // source, cannot be read.
    let mut p = DummyPeripheral::new(Endian::Little);
    p.add_address_range((0x1000, 0x10FF));
    let mut mem = GuestMem::new();
    let regs = RegBank::new();
    let (load, _, _) = polling_ops();
    p.hook_operation_step(&mut mem, &regs, LOAD_PC, &load, REG_ADDR, 0).unwrap();
    let use_temp = PCodeOp::IntNot {
        result: Operand::Register { name: String::from("r0"), offset: 0, size: 4 },
        operand: Operand::Variable { space: 2, offset: 8, size: 4 },
    };
    let r = p.hook_operation_step(&mut mem, &regs, LOAD_PC + 4, &use_temp, 0, 0);
    assert!(matches!(
        r,
        Err(periphemu::bypass::solver::SolverError::UnknownVariable)
    ));
}
