//! Interrupt wrapper: tracks whether an overridable interrupt has fired,
//! how deeply its handlers nest, and which addresses return from them.
//!
//! The wrapper serves both "soft" interrupts, handled by redirecting
//! control to a routine in firmware, and "hard" ones handled by host code:
//! the overriding handler a wrapper is built around decides, on each
//! architectural step, whether to fire and where to branch.

use vstd::prelude::*;
use crate::backend::interrupt::InterruptError;
use crate::machine::GuestMem;
use crate::machine::StepAction;

verus! {

/// Status of an interrupt: disabled, waiting to fire, or fired with the
/// current nesting depth.
#[derive(Clone, Copy, Debug, PartialEq, Eq, Structural)]
pub enum Status {
    Disabled,
    Fired(usize),
    Pending,
}

impl Status {
    /// The status after firing once more.
    pub open spec fn fire_spec(self) -> Status {
        match self {
            Status::Disabled => Status::Disabled,
            Status::Fired(n) => Status::Fired((n + 1) as usize),
            Status::Pending => Status::Fired(1),
        }
    }

    /// The status after one handler return.
    pub open spec fn unfire_spec(self) -> Status {
        match self {
            Status::Disabled => Status::Disabled,
            Status::Pending => Status::Pending,
            Status::Fired(n) => if n == 1 {
                Status::Pending
            } else {
                Status::Fired((n - 1) as usize)
            },
        }
    }

    pub open spec fn has_fired_spec(self) -> bool {
        self is Fired
    }

    pub fn fire(self) -> (r: Self)
        requires
            self matches Status::Fired(n) ==> n < usize::MAX,
        ensures
            r == self.fire_spec(),
    {
        match self {
            Self::Disabled => Self::Disabled,
            Self::Fired(n) => Self::Fired(n + 1),
            Self::Pending => Self::Fired(1),
        }
    }

    pub fn unfire(self) -> (r: Self)
        requires
            self matches Status::Fired(n) ==> n >= 1,
        ensures
            r == self.unfire_spec(),
    {
        match self {
            Self::Disabled => Self::Disabled,
            Self::Pending => Self::Pending,
            Self::Fired(1usize) => Self::Pending,
            Self::Fired(n) => Self::Fired(n - 1),
        }
    }

    pub fn has_fired(&self) -> (r: bool)
        ensures
            r == self.has_fired_spec(),
    {
        matches!(self, Self::Fired(_))
    }
}

/// Position of a status on the disabled / pending / fired-depth ladder.
pub open spec fn status_ordinal(s: Status) -> int {
    match s {
        Status::Disabled => 0,
        Status::Pending => 1,
        Status::Fired(n) => 2 + n,
    }
}

/// Status monotonicity, firing side: `fire` never decreases the status
/// ordinal, and `Disabled` is a fixed point of it.
pub proof fn lemma_fire_monotone(s: Status)
    requires
        s matches Status::Fired(n) ==> n < usize::MAX,
    ensures
        status_ordinal(s.fire_spec()) >= status_ordinal(s),
        Status::Disabled.fire_spec() == Status::Disabled,
{
}

/// Status monotonicity, returning side: `unfire` never increases the
/// status ordinal, and `Disabled` is a fixed point of it.
pub proof fn lemma_unfire_monotone(s: Status)
    requires
        s matches Status::Fired(n) ==> n >= 1,
    ensures
        status_ordinal(s.unfire_spec()) <= status_ordinal(s),
        Status::Disabled.unfire_spec() == Status::Disabled,
{
}

/// The overriding handler an interrupt wrapper is built around. On each
/// architectural step it sees the current fire depth, the machine state
/// and the current address, and answers with the handler entry to branch
/// to, or `None` to pass.
pub trait InterruptHandlerOverrider {
    fn fire(&mut self, trigger_count: u128, mem: &mut GuestMem, address: u64) -> Result<
        Option<u64>,
        InterruptError,
    >;
}

/// An overrider that never fires.
#[derive(Clone)]
pub struct EmptyInterruptHandlerOverrider;

impl InterruptHandlerOverrider for EmptyInterruptHandlerOverrider {
    fn fire(&mut self, _trigger_count: u128, _mem: &mut GuestMem, _address: u64) -> Result<
        Option<u64>,
        InterruptError,
    > {
        Ok(None)
    }
}

/// Wraps an overriding interrupt handler with the state it needs: its
/// status, the stack of handler entries currently executing, and the stack
/// of addresses to return to.
pub struct InterruptWrapper<I> {
    pub interrupt: I,
    pub status: Status,
    pub handler_stack: Vec<u64>,
    pub returns_stack: Vec<u64>,
    pub allow_nesting: bool,
}

/// Whether the step at `address` pops the returns stack and unfires.
pub open spec fn returns_pop_hit<I>(w: InterruptWrapper<I>, address: u64) -> bool {
    w.status.has_fired_spec() && w.returns_stack@.len() > 0 && w.returns_stack@.last() == address
}

/// The status and returns stack after the return-address check at
/// `address`, before the handler check and the overrider run.
pub open spec fn after_returns_pop<I>(w: InterruptWrapper<I>, address: u64) -> (Status, Seq<u64>) {
    if returns_pop_hit(w, address) {
        (w.status.unfire_spec(), w.returns_stack@.drop_last())
    } else {
        (w.status, w.returns_stack@)
    }
}

/// Whether, after the return-address check, the step at `address` is at
/// the top of the handler stack and passes without consulting the overrider.
pub open spec fn handler_pop_hit<I>(w: InterruptWrapper<I>, address: u64) -> bool {
    after_returns_pop(w, address).0.has_fired_spec() && w.handler_stack@.len() > 0
        && w.handler_stack@.last() == address
}

/// What one architectural step of the wrapper guarantees: `pre` and `post`
/// are the wrapper before and after, `r` its outcome. After the
/// return-address check (`after_returns_pop`), either the handler-stack top
/// matched and was popped with a `Pass`, or the overrider ran: a `Pass`
/// leaves the stacks as the check left them, a `Branch` records its target
/// on the handler stack and the interrupted address on the returns stack
/// and fires the status, and an error changes neither stack.
pub open spec fn step_post<I>(
    pre: InterruptWrapper<I>,
    post: InterruptWrapper<I>,
    address: u64,
    r: Result<StepAction, InterruptError>,
) -> bool {
    let st1 = after_returns_pop(pre, address).0;
    let rs1 = after_returns_pop(pre, address).1;
    let pass_state = post.status == st1 && post.returns_stack@ == rs1 && post.handler_stack@
        == pre.handler_stack@;
    &&& post.allow_nesting == pre.allow_nesting
    &&& if handler_pop_hit(pre, address) {
        &&& r == Ok::<StepAction, InterruptError>(StepAction::Pass)
        &&& post.status == st1
        &&& post.returns_stack@ == rs1
        &&& post.handler_stack@ == pre.handler_stack@.drop_last()
        &&& post.interrupt == pre.interrupt
    } else {
        &&& (r == Ok::<StepAction, InterruptError>(StepAction::Pass) ==> pass_state)
        &&& (r is Err ==> pass_state)
        &&& match r {
            Ok(StepAction::Branch { delay, target }) => {
                &&& delay == 1
                &&& post.status == st1.fire_spec()
                &&& post.returns_stack@ == rs1.push(address)
                &&& post.handler_stack@ == pre.handler_stack@.push(target)
            },
            _ => true,
        }
    }
}

impl<I: InterruptHandlerOverrider> InterruptWrapper<I> {
    #[inline]
    pub fn is_disabled(&self) -> (r: bool)
        ensures
            r == (self.status is Disabled),
    {
        self.status == Status::Disabled
    }

    #[inline]
    pub fn disable(&mut self)
        ensures
            *final(self) == (InterruptWrapper { status: Status::Disabled, ..*old(self) }),
    {
        self.status = Status::Disabled;
    }

    #[inline]
    pub fn is_enabled(&self) -> (r: bool)
        ensures
            r == !(self.status is Disabled),
    {
        self.status != Status::Disabled
    }

    /// Enabling a disabled wrapper makes it pending, or restores the fired
    /// depth recorded by the returns stack when handlers are still live.
    #[inline]
    pub fn enable(&mut self)
        ensures
            *final(self) == (InterruptWrapper {
                status: if old(self).status is Disabled {
                    if old(self).returns_stack@.len() == 0 {
                        Status::Pending
                    } else {
                        Status::Fired(old(self).returns_stack@.len() as usize)
                    }
                } else {
                    old(self).status
                },
                ..*old(self)
            }),
    {
        if self.is_disabled() {
            self.status = if self.returns_stack.is_empty() {
                Status::Pending
            } else {
                Status::Fired(self.returns_stack.len())
            };
        }
    }

    #[inline]
    pub fn is_pending(&self) -> (r: bool)
        ensures
            r == (self.status is Pending),
    {
        self.status == Status::Pending
    }

    #[inline]
    pub fn has_fired(&self) -> (r: bool)
        ensures
            r == self.status.has_fired_spec(),
    {
        self.status.has_fired()
    }

    /// Whether a new fire may be accepted: always when pending, and while
    /// fired only if the wrapper was built to allow nesting.
    #[inline]
    pub fn can_fire(&self) -> (r: bool)
        ensures
            r == ((self.status.has_fired_spec() && self.allow_nesting) || self.status is Pending),
    {
        (self.status.has_fired() && self.allow_nesting) || self.is_pending()
    }

    pub fn new(interrupt: I, allow_nesting: bool) -> (r: Self)
        ensures
            r.interrupt == interrupt,
            r.status == Status::Pending,
            r.handler_stack@.len() == 0,
            r.returns_stack@.len() == 0,
            r.allow_nesting == allow_nesting,
    {
        Self {
            interrupt,
            status: Status::Pending,
            handler_stack: Vec::new(),
            returns_stack: Vec::new(),
            allow_nesting,
        }
    }

    pub fn interrupt(&self) -> (r: &I)
        ensures
            r == &self.interrupt,
    {
        &self.interrupt
    }

    pub fn interrupt_mut(&mut self) -> (r: &mut I)
        ensures
            *r == old(self).interrupt,
            *final(self) == (InterruptWrapper { interrupt: *final(r), ..*old(self) }),
    {
        &mut self.interrupt
    }

    /// One architectural step at `address`. First, a fired wrapper whose
    /// returns-stack top equals `address` pops it and unfires: the handler
    /// has returned. Second, a fired wrapper whose handler-stack top equals
    /// `address` pops it and passes, so the handler's own first address
    /// cannot re-enter. Otherwise the overrider runs with the current fire
    /// depth; if it answers with a handler entry, both stacks are pushed,
    /// the status fires, and the step branches there after one delay slot.
    pub fn hook_architectural_step(&mut self, mem: &mut GuestMem, address: u64) -> (r: Result<
        StepAction,
        InterruptError,
    >)
        requires
            old(self).status matches Status::Fired(n) ==> 1 <= n < usize::MAX,
        ensures
            step_post(*old(self), *final(self), address, r),
    {
        // We are back at the point we got fired from; pop.
        if self.has_fired() && self.returns_stack.len() > 0 && self.returns_stack[
            self.returns_stack.len() - 1] == address {
            self.returns_stack.pop();
            self.status = self.status.unfire();
        }
        // We are in the handler; do not allow any nesting on this address.
        if self.has_fired() && self.handler_stack.len() > 0 && self.handler_stack[
            self.handler_stack.len() - 1] == address {
            self.handler_stack.pop();
            return Ok(StepAction::Pass);
        }
        let depth: u128 = match self.status {
            Status::Fired(v) => v as u128,
            _ => 0,
        };
        match self.interrupt.fire(depth, mem, address) {
            Err(e) => Err(e),
            Ok(None) => Ok(StepAction::Pass),
            Ok(Some(handler_address)) => {
                self.handler_stack.push(handler_address);
                self.returns_stack.push(address);
                self.status = self.status.fire();
                // Skip to the handler: the next fetch is redirected.
                Ok(StepAction::Branch { delay: 1, target: handler_address })
            },
        }
    }
}

/// Interrupt stack discipline: a fire from an enabled wrapper with no
/// pending returns pushes the current address and fires the status; the
/// very next step at that address then hits the return-address pop, which
/// leaves the returns stack empty again and the status equal to the
/// pre-fire status.
pub proof fn lemma_interrupt_stack_discipline(st: Status, rs: Seq<u64>, address: u64)
    requires
        rs.len() == 0,
        !(st is Disabled),
        st matches Status::Fired(n) ==> 1 <= n < usize::MAX,
    ensures
        st.fire_spec().has_fired_spec(),
        rs.push(address).last() == address,
        rs.push(address).drop_last() == rs,
        st.fire_spec().unfire_spec() == st,
{
    assert(rs.push(address).drop_last() =~= rs);
}

} // verus!
