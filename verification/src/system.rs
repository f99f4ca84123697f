//! The system state flags and the decision taken when a service call ends.
//!
//! A service call runs with the CPU locked. When it ends, a task switch that
//! was reserved is carried out unless the kernel is in an interrupt, dispatch is
//! disabled or the CPU is locked by the application; the CPU is unlocked again
//! unless the application locked it.
use vstd::prelude::*;

verus! {

/// The kernel's state flags.
#[derive(Clone, Copy, PartialEq, Eq, Structural, Debug)]
pub struct SystemControlBlock {
    /// An interrupt handler is running.
    pub interrupt: bool,
    /// The application has locked the CPU.
    pub cpu_lock: bool,
    /// The application has disabled dispatching.
    pub dispatch_disable: bool,
    /// A task switch is due as soon as it is allowed.
    pub dispatch_reserve: bool,
}

/// What the end of a service call asks of the CPU.
#[derive(Clone, Copy, PartialEq, Eq, Structural, Debug)]
pub struct LeaveAction {
    /// Switch to the task at the head of the ready queue.
    pub dispatch: bool,
    /// Unlock the CPU.
    pub cpu_unlock: bool,
}

/// A task switch can take place in this state.
pub open spec fn dispatch_allowed(s: SystemControlBlock) -> bool {
    !s.interrupt && !s.dispatch_disable && !s.cpu_lock
}

impl SystemControlBlock {
    /// All flags clear: task context, CPU unlocked, dispatch enabled.
    pub fn new() -> (s: Self)
        ensures
            !s.interrupt,
            !s.cpu_lock,
            !s.dispatch_disable,
            !s.dispatch_reserve,
    {
        SystemControlBlock { interrupt: false, cpu_lock: false, dispatch_disable: false, dispatch_reserve: false }
    }
}

/// A service call in progress. It is ended by `leave`.
pub struct SystemCall {}

impl SystemCall {
    /// Begins a service call.
    pub fn new() -> (sc: Self) {
        SystemCall {}
    }

    /// Ends a service call; see `leave_system_call`.
    pub fn leave(self, sys: &mut SystemControlBlock) -> (a: LeaveAction)
        ensures
            a.dispatch == (old(sys).dispatch_reserve && dispatch_allowed(*old(sys))),
            a.cpu_unlock == !old(sys).cpu_lock,
            *final(sys) == (SystemControlBlock {
                dispatch_reserve: old(sys).dispatch_reserve && !a.dispatch,
                ..*old(sys)
            }),
    {
        leave_system_call(sys)
    }
}

/// Ends a service call: a reserved task switch is carried out (and no longer
/// reserved) when it is allowed; the CPU is unlocked unless the application
/// holds it locked.
pub fn leave_system_call(sys: &mut SystemControlBlock) -> (a: LeaveAction)
    ensures
        a.dispatch == (old(sys).dispatch_reserve && dispatch_allowed(*old(sys))),
        a.cpu_unlock == !old(sys).cpu_lock,
        *final(sys) == (SystemControlBlock { dispatch_reserve: old(sys).dispatch_reserve && !a.dispatch, ..*old(sys) }),
{
    let mut dispatch = false;
    if sys.dispatch_reserve && !sys.interrupt && !sys.dispatch_disable && !sys.cpu_lock {
        sys.dispatch_reserve = false;
        dispatch = true;
    }
    LeaveAction { dispatch, cpu_unlock: !sys.cpu_lock }
}

/// Locks the CPU on behalf of the application.
pub fn lock_cpu(sys: &mut SystemControlBlock)
    ensures
        *final(sys) == (SystemControlBlock { cpu_lock: true, ..*old(sys) }),
{
    sys.cpu_lock = true;
}

/// Releases the application's CPU lock.
pub fn unlock_cpu(sys: &mut SystemControlBlock)
    ensures
        *final(sys) == (SystemControlBlock { cpu_lock: false, ..*old(sys) }),
{
    sys.cpu_lock = false;
}

/// The whole `lock_cpu` service call: the CPU lock flag is set, and the call
/// ends with the CPU still locked and no task switch.
pub fn lock_cpu_service(sys: &mut SystemControlBlock) -> (a: LeaveAction)
    ensures
        !a.dispatch,
        !a.cpu_unlock,
        *final(sys) == (SystemControlBlock { cpu_lock: true, ..*old(sys) }),
{
    lock_cpu(sys);
    leave_system_call(sys)
}

/// The whole `unlock_cpu` service call: the CPU lock flag is cleared, a
/// reserved task switch is carried out (and no longer reserved) unless an
/// interrupt is running or dispatching is disabled, and the CPU is unlocked.
pub fn unlock_cpu_service(sys: &mut SystemControlBlock) -> (a: LeaveAction)
    ensures
        a.dispatch == (old(sys).dispatch_reserve && !old(sys).interrupt && !old(sys).dispatch_disable),
        a.cpu_unlock,
        *final(sys) == (SystemControlBlock {
            cpu_lock: false,
            dispatch_reserve: old(sys).dispatch_reserve && !a.dispatch,
            ..*old(sys)
        }),
{
    unlock_cpu(sys);
    leave_system_call(sys)
}

/// Whether the application holds the CPU locked.
pub fn is_cpu_locked(sys: &SystemControlBlock) -> (b: bool)
    ensures
        b == sys.cpu_lock,
{
    sys.cpu_lock
}

/// Disables dispatching.
pub fn disable_dispatch(sys: &mut SystemControlBlock)
    ensures
        *final(sys) == (SystemControlBlock { dispatch_disable: true, ..*old(sys) }),
{
    sys.dispatch_disable = true;
}

/// Enables dispatching.
pub fn enable_dispatch(sys: &mut SystemControlBlock)
    ensures
        *final(sys) == (SystemControlBlock { dispatch_disable: false, ..*old(sys) }),
{
    sys.dispatch_disable = false;
}

/// The whole `disable_dispatch` service call: the dispatch-disable flag is
/// set, the call ends with no task switch (a reserved one stays reserved), and
/// the CPU is unlocked unless the application holds it locked.
pub fn disable_dispatch_service(sys: &mut SystemControlBlock) -> (a: LeaveAction)
    ensures
        !a.dispatch,
        a.cpu_unlock == !old(sys).cpu_lock,
        *final(sys) == (SystemControlBlock { dispatch_disable: true, ..*old(sys) }),
{
    disable_dispatch(sys);
    leave_system_call(sys)
}

/// The whole `enable_dispatch` service call: the dispatch-disable flag is
/// cleared, a reserved task switch is carried out (and no longer reserved)
/// unless an interrupt is running or the CPU is locked, and the CPU is unlocked
/// unless the application holds it locked.
pub fn enable_dispatch_service(sys: &mut SystemControlBlock) -> (a: LeaveAction)
    ensures
        a.dispatch == (old(sys).dispatch_reserve && !old(sys).interrupt && !old(sys).cpu_lock),
        a.cpu_unlock == !old(sys).cpu_lock,
        *final(sys) == (SystemControlBlock {
            dispatch_disable: false,
            dispatch_reserve: old(sys).dispatch_reserve && !a.dispatch,
            ..*old(sys)
        }),
{
    enable_dispatch(sys);
    leave_system_call(sys)
}

/// Whether dispatching is disabled.
pub fn is_dispatch_disabled(sys: &SystemControlBlock) -> (b: bool)
    ensures
        b == sys.dispatch_disable,
{
    sys.dispatch_disable
}

/// Whether a task switch would be held back by the application: the CPU is
/// locked or dispatching is disabled.
pub fn is_dispatch_pending_state(sys: &SystemControlBlock) -> (b: bool)
    ensures
        b == (sys.cpu_lock || sys.dispatch_disable),
{
    sys.cpu_lock || sys.dispatch_disable
}

/// Whether an interrupt handler is running.
pub fn is_interrupt_state(sys: &SystemControlBlock) -> (b: bool)
    ensures
        b == sys.interrupt,
{
    sys.interrupt
}

/// Entry into interrupt context.
pub fn interrupt_start(sys: &mut SystemControlBlock)
    ensures
        *final(sys) == (SystemControlBlock { interrupt: true, ..*old(sys) }),
{
    sys.interrupt = true;
}

/// Exit from interrupt context: a reserved task switch is carried out (and no
/// longer reserved) unless dispatching is disabled. Returns whether to switch.
pub fn interrupt_end(sys: &mut SystemControlBlock) -> (dispatch: bool)
    ensures
        dispatch == (old(sys).dispatch_reserve && !old(sys).dispatch_disable),
        *final(sys) == (SystemControlBlock {
            interrupt: false,
            dispatch_reserve: old(sys).dispatch_reserve && !dispatch,
            ..*old(sys)
        }),
{
    sys.interrupt = false;
    if sys.dispatch_reserve && !sys.dispatch_disable {
        sys.dispatch_reserve = false;
        true
    } else {
        false
    }
}

/// Reserves a task switch.
pub fn set_dispatch_reserve_flag(sys: &mut SystemControlBlock)
    ensures
        *final(sys) == (SystemControlBlock { dispatch_reserve: true, ..*old(sys) }),
{
    sys.dispatch_reserve = true;
}

} // verus!
