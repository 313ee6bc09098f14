use periphemu::backend::interrupt::Interrupt;
use periphemu::backend::interrupt::InterruptError;
use periphemu::interrupt::EmptyInterruptHandlerOverrider;
use periphemu::interrupt::InterruptHandlerOverrider;
use periphemu::interrupt::InterruptWrapper;
use periphemu::interrupt::Status;
use periphemu::machine::GuestMem;
use periphemu::machine::StepAction;

/// Fires once at a fixed address, branching to a fixed handler.
struct OneShot {
    handler: u64,
    armed: bool,
}

impl InterruptHandlerOverrider for OneShot {
    fn fire(
        &mut self,
        _trigger_count: u128,
        _mem: &mut GuestMem,
        _address: u64,
    ) -> Result<Option<u64>, InterruptError> {
        if self.armed {
            self.armed = false;
            Ok(Some(self.handler))
        } else {
            Ok(None)
        }
    }
}

#[test]
fn status_fire_unfire_ladder() {
    // `fire` never moves a status down the ladder; `unfire` never moves it
    // up; `Disabled` is a fixed point of both.
    assert_eq!(Status::Disabled.fire(), Status::Disabled);
    assert_eq!(Status::Disabled.unfire(), Status::Disabled);
    assert_eq!(Status::Pending.fire(), Status::Fired(1));
    assert_eq!(Status::Pending.unfire(), Status::Pending);
    assert_eq!(Status::Fired(1).fire(), Status::Fired(2));
    assert_eq!(Status::Fired(2).unfire(), Status::Fired(1));
    assert_eq!(Status::Fired(1).unfire(), Status::Pending);
    assert!(Status::Fired(3).has_fired());
    assert!(!Status::Pending.has_fired());
}

#[test]
fn push_then_pop_restores_status() {
    // Firing pushes the interrupted address; stepping at that address
    // again pops it and restores the pre-fire status with empty stacks.
    let mut mem = GuestMem::new();
    let mut w = InterruptWrapper::new(OneShot { handler: 0x2000, armed: true }, false);
    assert!(w.is_pending());
    let act = w.hook_architectural_step(&mut mem, 0x100).unwrap();
    assert_eq!(act, StepAction::Branch { delay: 1, target: 0x2000 });
    assert!(w.has_fired());
    assert_eq!(w.returns_stack, vec![0x100]);
    assert_eq!(w.handler_stack, vec![0x2000]);
    // At the handler entry the wrapper passes and retires the entry.
    let act2 = w.hook_architectural_step(&mut mem, 0x2000).unwrap();
    assert_eq!(act2, StepAction::Pass);
    assert!(w.handler_stack.is_empty());
    // Returning to the interrupted address unfires.
    let act3 = w.hook_architectural_step(&mut mem, 0x100).unwrap();
    assert_eq!(act3, StepAction::Pass);
    assert!(w.returns_stack.is_empty());
    assert!(w.is_pending());
}

#[test]
fn empty_overrider_never_fires() {
    let mut mem = GuestMem::new();
    let mut w = InterruptWrapper::new(EmptyInterruptHandlerOverrider, true);
    for a in 0..8u64 {
        assert_eq!(w.hook_architectural_step(&mut mem, a).unwrap(), StepAction::Pass);
    }
    assert!(w.is_pending());
}

#[test]
fn enable_restores_depth_from_returns_stack() {
    let mut mem = GuestMem::new();
    let mut w = InterruptWrapper::new(OneShot { handler: 0x2000, armed: true }, false);
    w.hook_architectural_step(&mut mem, 0x100).unwrap();
    w.disable();
    assert!(w.is_disabled());
    assert!(!w.is_enabled());
    w.enable();
    assert_eq!(w.status, Status::Fired(1));
    let mut fresh = InterruptWrapper::new(EmptyInterruptHandlerOverrider, false);
    fresh.disable();
    fresh.enable();
    assert_eq!(fresh.status, Status::Pending);
}

#[test]
fn can_fire_honours_nesting() {
    let mut nested = InterruptWrapper::new(EmptyInterruptHandlerOverrider, true);
    nested.status = Status::Fired(1);
    assert!(nested.can_fire());
    let mut flat = InterruptWrapper::new(EmptyInterruptHandlerOverrider, false);
    flat.status = Status::Fired(1);
    assert!(!flat.can_fire());
    assert!(InterruptWrapper::new(EmptyInterruptHandlerOverrider, false).can_fire());
}

#[test]
fn interrupt_accessors_track_state() {
    let mut i = Interrupt::new("CMT0");
    assert_eq!(i.get_name(), "CMT0");
    assert!(!i.is_enabled());
    assert!(!i.is_triggered());
    assert_eq!(i.get_trigger_count(), 0);
    assert_eq!(i.get_priority(), 0);
    i.set_enable(true);
    i.set_triggered(true);
    i.set_priority(-3);
    i.add_trigger_count();
    i.add_trigger_count();
    assert!(i.is_enabled());
    assert!(i.is_triggered());
    assert_eq!(i.get_priority(), -3);
    assert_eq!(i.get_trigger_count(), 2);
}
