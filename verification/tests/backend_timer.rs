use periphemu::backend::CompareMatchTimer;
use periphemu::backend::FunName;
use periphemu::machine::Endian;
use periphemu::machine::GuestMem;

#[test]
fn tick_match_test() -> Result<(), String> {
    let mut cmt = CompareMatchTimer::default();
    cmt.set_compare_against(0x2);
    cmt.set_enable(true);

    let t1 = cmt.tick();
    let t2 = cmt.tick();

    if t1 == false && t2 == true {
        Ok(())
    } else {
        Err(String::from("Tick counting error"))
    }
}

#[test]
fn tick_count_test() -> Result<(), String> {
    let mut cmt = CompareMatchTimer::default();
    cmt.set_compare_against(0x2);
    cmt.set_enable(false);

    cmt.tick();

    if cmt.get_current_tick() != 0 {
        return Err(String::from("Ticked counted when not enabled"));
    }
    cmt.set_enable(true);
    cmt.tick();

    if cmt.get_current_tick() != 1 {
        return Err(String::from("Tick counting error"));
    }

    let f = cmt.tick();
    // should fired and reset now
    if f == true && cmt.get_current_tick() == 0 {
        return Ok(());
    } else {
        return Err(String::from("Tick not reset after fired"));
    }
}

#[test]
fn fires_exactly_once_over_compare_window() {
    // Compare value 5: among the first five ticks exactly the fifth fires,
    // and the counter resets to zero.
    let mut cmt = CompareMatchTimer::default();
    cmt.set_compare_against(5);
    cmt.set_enable(true);
    let mut fires = 0;
    let mut last = false;
    for _ in 0..5 {
        last = cmt.tick();
        if last {
            fires += 1;
        }
    }
    assert_eq!(fires, 1);
    assert!(last);
    assert_eq!(cmt.get_current_tick(), 0);
    assert!(cmt.is_matched());
}

#[test]
fn match_toggle_follows_parity() {
    // With compare value 1 every tick matches, so after n ticks the toggle
    // reads true exactly when n is odd.
    let mut cmt = CompareMatchTimer::default();
    cmt.set_compare_against(1);
    cmt.set_enable(true);
    let mut toggles = Vec::new();
    for _ in 0..6 {
        cmt.tick();
        toggles.push(cmt.get_match_toggle());
    }
    assert_eq!(toggles, vec![true, false, true, false, true, false]);
}

#[test]
fn disabled_counter_ignores_ticks() {
    let mut cmt = CompareMatchTimer::default();
    cmt.set_compare_against(1);
    cmt.set_enable(false);
    for _ in 0..4 {
        assert!(!cmt.tick());
    }
    assert_eq!(cmt.get_current_tick(), 0);
    assert!(!cmt.is_matched());
}

#[test]
fn counts_backward_when_configured() {
    let mut cmt = CompareMatchTimer::default();
    cmt.set_count_forward(false);
    cmt.set_current_tick(3);
    cmt.set_compare_against(1);
    cmt.set_enable(true);
    assert!(!cmt.tick());
    assert_eq!(cmt.get_current_tick(), 2);
    assert!(cmt.tick());
    assert_eq!(cmt.get_current_tick(), 0);
}

#[test]
fn overunderflow_reads_overflow_only() {
    // The combined flag OR's the overflow flag with itself, so a raised
    // underflow flag alone does not show through.
    let mut cmt = CompareMatchTimer::default();
    cmt.set_flag_underflow(true);
    assert!(!cmt.get_flag_overunderflow());
    cmt.set_flag_overflow(true);
    assert!(cmt.get_flag_overunderflow());
}

#[test]
fn register_read_composes_bound_fields() {
    // Bind an enable bit and a 16-bit counter field at one address; the
    // read-back word carries both, and lands in guest memory.
    let mut cmt = CompareMatchTimer::default();
    cmt.map_function_addr_read(0x100, 0x0001_0000, &FunName::is_enabled);
    cmt.map_function_addr_read(0x100, 0xFFFF, &FunName::get_current_tick);
    cmt.set_enable(true);
    cmt.set_current_tick(0xBEEF);
    let mut mem = GuestMem::new();
    let word = cmt.handle_reg_read(&mut mem, 0x100, Endian::Big);
    assert_eq!(word, 0x0001_BEEF);
    assert_eq!(mem.read_u32(0x100, Endian::Big), 0x0001_BEEF);
}

#[test]
fn register_write_drives_bound_operations() {
    let mut cmt = CompareMatchTimer::default();
    cmt.map_function_addr_write(0x200, 0x01, &FunName::set_enable);
    cmt.map_function_addr_write(0x204, 0xFFFF, &FunName::set_compare_against);
    cmt.handle_reg_write(0x200, 0x01);
    assert!(cmt.is_enabled());
    cmt.handle_reg_write(0x204, 0x1234);
    assert_eq!(cmt.get_compare_against(), 0x1234);
    // Writing zero drives the clearing branch.
    cmt.handle_reg_write(0x200, 0x00);
    assert!(!cmt.is_enabled());
    cmt.handle_reg_write(0x204, 0x0000);
    assert_eq!(cmt.get_compare_against(), 0);
}

#[test]
fn dispatch_idempotence_on_zero_write() {
    // Write zero, then read back: every bound bit field reads as the
    // cleared backend state.
    let mut cmt = CompareMatchTimer::default();
    cmt.map_function_addr_write(0x300, 0x01, &FunName::set_enable);
    cmt.map_function_addr_write(0x300, 0x40, &FunName::set_interrupt_enabled);
    cmt.map_function_addr_read(0x300, 0x01, &FunName::is_enabled);
    cmt.map_function_addr_read(0x300, 0x40, &FunName::is_interrupt_enabled);
    cmt.set_enable(true);
    cmt.set_interrupt_enabled(true);
    cmt.handle_reg_write(0x300, 0);
    let mut mem = GuestMem::new();
    mem.write_u32(0x300, 0xFFFF_FFFF, Endian::Big);
    let word = cmt.handle_reg_read(&mut mem, 0x300, Endian::Big);
    assert_eq!(word & 0x01, 0);
    assert_eq!(word & 0x40, 0);
    // Bits no mask covers keep their stored value.
    assert_eq!(word & 0xFFFF_FFBE, 0xFFFF_FFBE);
}

#[test]
fn binding_same_mask_overwrites() {
    let mut cmt = CompareMatchTimer::default();
    cmt.map_function_addr_read(0x400, 0x01, &FunName::is_enabled);
    cmt.map_function_addr_read(0x400, 0x01, &FunName::get_match_toggle);
    cmt.set_match_toggle(true);
    cmt.set_enable(false);
    let mut mem = GuestMem::new();
    let word = cmt.handle_reg_read(&mut mem, 0x400, Endian::Big);
    assert_eq!(word & 0x01, 0x01);
}

#[test]
fn matched_flag_is_write_one_to_clear() {
    // With the matched bit bound at 0x80, a written word carrying the bit
    // clears the flag and a written word without it leaves the flag alone.
    let mut cmt = CompareMatchTimer::default();
    cmt.map_function_addr_write(0x500, 0x80, &FunName::clear_matched_flag);
    cmt.set_compare_against(1);
    cmt.set_enable(true);
    cmt.tick();
    assert!(cmt.is_matched());
    cmt.handle_reg_write(0x500, 0x00);
    assert!(cmt.is_matched());
    cmt.handle_reg_write(0x500, 0x80);
    assert!(!cmt.is_matched());
}
