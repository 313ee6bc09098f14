use periphemu::backend::interrupt::InterruptHandler;
use periphemu::machine::Endian;
use periphemu::machine::GuestMem;
use periphemu::machine::StepAction;
use periphemu::superh::compare_match_timer::CompareMatchTimer;

const VEC0: u64 = 0x000002BC;
const ISR: u32 = 0x0000ABCD;

fn armed_timer(mem: &mut GuestMem) -> CompareMatchTimer {
    let mut p = CompareMatchTimer::new();
    mem.write_u32(VEC0, ISR, Endian::Big);
    // Enable the channel 0 interrupt, set the compare value to 3, start
    // channel 0.
    p.hook_memory_write(0xFFFEC002, 1, &[0x40]);
    p.hook_memory_write(0xFFFEC006, 2, &[0x00, 0x03]);
    p.hook_memory_write(0xFFFEC000, 1, &[0x01]);
    p
}

#[test]
fn single_channel_timer_fires() {
    let mut mem = GuestMem::new();
    let mut p = armed_timer(&mut mem);
    let pc: u64 = 0x100;
    let sr: u32 = 0x12345678;
    let mut sp: u64 = 0x8000;

    assert_eq!(p.hook_architectural_step(&mut mem, pc, &mut sp, sr), StepAction::Pass);
    assert_eq!(p.hook_architectural_step(&mut mem, pc, &mut sp, sr), StepAction::Pass);
    // The compare value is reached on the third tick; the accepted
    // interrupt redirects the following fetch.
    let act = p.hook_architectural_step(&mut mem, pc, &mut sp, sr);
    assert_eq!(act, StepAction::Branch { delay: 1, target: ISR as u64 });
    assert_eq!(sp, 0x8000 - 8);
    // Top of stack is the interrupted PC, the next word the saved SR.
    assert_eq!(mem.read_u32(sp, Endian::Big), pc as u32);
    assert_eq!(mem.read_u32(sp + 4, Endian::Big), sr);
    assert!(p.interrupt.0.triggered);
    // The step at the handler entry stays inside the routine.
    let act2 = p.hook_architectural_step(&mut mem, ISR as u64, &mut sp, sr);
    assert_eq!(act2, StepAction::Pass);
    assert_eq!(sp, 0x8000 - 8);
}

#[test]
fn isr_return_clears_triggered() {
    let mut mem = GuestMem::new();
    let mut p = armed_timer(&mut mem);
    let pc: u64 = 0x100;
    let sr: u32 = 0x5555AAAA;
    let mut sp: u64 = 0x8000;
    for _ in 0..2 {
        p.hook_architectural_step(&mut mem, pc, &mut sp, sr);
    }
    let act = p.hook_architectural_step(&mut mem, pc, &mut sp, sr);
    assert!(matches!(act, StepAction::Branch { .. }));
    // The handler ends in the return-from-exception opcode.
    let isr_pc = ISR as u64;
    mem.write_u32(isr_pc, 0x0000002B, Endian::Big);
    let act2 = p.hook_architectural_step(&mut mem, isr_pc, &mut sp, sr);
    assert_eq!(act2, StepAction::Pass);
    assert!(!p.interrupt.0.triggered);
    assert_eq!(sp, 0x8000 - 8);
}

#[test]
fn w1c_semantics() {
    // Bit 7 of the control register is write-one-to-clear: a written word
    // with the bit high clears the matched flag, one with it low leaves
    // the flag alone.
    let mut p = CompareMatchTimer::new();
    p.backend.0.matched = true;
    p.hook_memory_write(0xFFFEC002, 1, &[0x00]);
    assert!(p.backend.0.matched);
    p.hook_memory_write(0xFFFEC002, 1, &[0x80]);
    assert!(!p.backend.0.matched);
}

#[test]
fn vector_indirection() {
    let mut mem = GuestMem::new();
    mem.write_u32(VEC0, 0x0000ABCD, Endian::Big);
    let handler = InterruptHandler::Vector(VEC0);
    assert_eq!(handler.get_routine_address(&mem, Endian::Big), Some(0x0000ABCD));
    let routine = InterruptHandler::Routine(0x4242);
    assert_eq!(routine.get_routine_address(&mem, Endian::Big), Some(0x4242));
    assert_eq!(InterruptHandler::Override.get_routine_address(&mem, Endian::Big), None);
}

#[test]
fn register_window_read_reflects_backend() {
    let mut mem = GuestMem::new();
    let mut p = armed_timer(&mut mem);
    p.backend.0.current_tick = 0x0042;
    p.hook_memory_read(&mut mem, 0xFFFEC004, 2);
    assert_eq!(mem.read_u32(0xFFFEC004, Endian::Big), 0x0042);
    // An access outside the window changes nothing.
    p.hook_memory_read(&mut mem, 0xFFFE0000, 2);
    assert_eq!(mem.read_u32(0xFFFE0000, Endian::Big), 0);
}

#[test]
fn shared_start_register_serves_both_channels() {
    let mut mem = GuestMem::new();
    let mut p = CompareMatchTimer::new();
    // Bit 0 starts channel 0, bit 1 starts channel 1.
    p.hook_memory_write(0xFFFEC000, 1, &[0x03]);
    assert!(p.backend.0.counter_start);
    assert!(p.backend.1.counter_start);
    p.hook_memory_write(0xFFFEC000, 1, &[0x02]);
    assert!(!p.backend.0.counter_start);
    assert!(p.backend.1.counter_start);
    p.hook_memory_read(&mut mem, 0xFFFEC000, 1);
    assert_eq!(mem.read_u32(0xFFFEC000, Endian::Big) & 0x03, 0x02);
}
