use periphemu::c166::general_purpose_timer::GeneralPurposeTimer;
use periphemu::c166::timer6::T6Mode;
use periphemu::c166::timer6::T6Run;
use periphemu::c166::timer6::T6UpDown;
use periphemu::c166::timer6::Timer6;
use periphemu::machine::Endian;
use periphemu::machine::GuestMem;
use periphemu::machine::StepAction;

const T6CON: u64 = 0xFF48;
const T6: u64 = 0xFE48;

#[test]
fn gpt_enable_and_count_through_registers() {
    let mut gpt = GeneralPurposeTimer::new();
    let mut mem = GuestMem::new();
    // Writing bit 6 of the control register (little-endian bytes) starts
    // the counter and (bit 6 is also the enable the interrupt follows)
    // syncs the interrupt enable.
    gpt.hook_memory_write(T6CON, 1, &[0x40]);
    assert!(gpt.backend_cmt6.counter_start);
    assert_eq!(gpt.hook_architectural_step(), StepAction::Pass);
    assert_eq!(gpt.hook_architectural_step(), StepAction::Pass);
    assert_eq!(gpt.backend_cmt6.current_tick, 2);
    // Reading the count register lands the tick value in guest memory.
    gpt.hook_memory_read(&mut mem, T6, 2);
    assert_eq!(mem.read_u32(T6, Endian::Little) & 0xFFFF, 2);
}

#[test]
fn gpt_count_register_write_sets_tick() {
    let mut gpt = GeneralPurposeTimer::new();
    // A two-byte little-endian write of 0x0102 sets the counter.
    gpt.hook_memory_write(T6, 2, &[0x02, 0x01]);
    assert_eq!(gpt.backend_cmt6.current_tick, 0x0102);
    // Accesses to other addresses change nothing.
    gpt.hook_memory_write(0x1234, 1, &[0xFF]);
    assert_eq!(gpt.backend_cmt6.current_tick, 0x0102);
}

#[test]
fn gpt_match_toggle_via_register() {
    let mut gpt = GeneralPurposeTimer::new();
    gpt.hook_memory_write(T6CON, 2, &[0x00, 0x04]);
    assert!(gpt.backend_cmt6.match_toggle);
    gpt.hook_memory_write(T6CON, 2, &[0x00, 0x00]);
    assert!(!gpt.backend_cmt6.match_toggle);
}

#[test]
fn timer6_decodes_control_word() {
    let t6 = Timer6::new();
    let mut mem = GuestMem::new();
    // Run bit (6) set, direction bit (7) set, mode field (3..=5) = 001
    // read most-significant-first, so only bit 5 set.
    let control: u16 = (1 << 6) | (1 << 7) | (1 << 5);
    mem.write_u16(T6CON, control, Endian::Little);
    assert_eq!(t6.running(&mem).unwrap(), T6Run::Running);
    assert_eq!(t6.up_down(&mem).unwrap(), T6UpDown::Down);
    assert_eq!(t6.mode(&mem).unwrap(), T6Mode::Counter);
}

#[test]
fn timer6_default_control_reads_stopped_up_timer() {
    let t6 = Timer6::new();
    let mem = GuestMem::new();
    assert_eq!(t6.running(&mem).unwrap(), T6Run::Stopped);
    assert_eq!(t6.up_down(&mem).unwrap(), T6UpDown::Up);
    assert_eq!(t6.mode(&mem).unwrap(), T6Mode::Timer);
}

#[test]
fn timer6_mode_field_weights_bit3_highest() {
    let t6 = Timer6::new();
    let mut mem = GuestMem::new();
    // Bits 4 and 5 set: the fold reads the field most significant first,
    // giving 0b011 = gated active high.
    mem.write_u16(T6CON, (1 << 4) | (1 << 5), Endian::Little);
    assert_eq!(t6.mode(&mem).unwrap(), T6Mode::GatedActiveHigh);
}
