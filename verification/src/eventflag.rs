//! Event flags.
use crate::priority_queue::{
    has_id, is_first_position, lemma_position_of_unique, lemma_priority_insert_index_exists, priority_insert_index,
    PriorityQueue, QueueEntry,
};
use crate::task::{
    lemma_current_task, lemma_running_task_leaves_ready, lemma_task_enters_wait_queue, lemma_task_gets_timeout, Kernel,
    KernelModel, QueueId, Task,
};
use crate::{Error, FlagPattern, Order, RelativeTime};
use vstd::prelude::*;

verus! {

/// How a waiting pattern is matched against the flags.
#[derive(Clone, Copy, PartialEq, Eq, Structural, Debug)]
pub enum WaitFlagMode {
    /// Every bit of the waiting pattern is set.
    AndWait,
    /// Some bit of the waiting pattern is set.
    OrWait,
}

/// An event flag: its bit pattern, the pattern and mode of the last wait, and
/// the task waiting on it.
pub struct Eventflag {
    pub queue: PriorityQueue,
    pub flg_ptn: FlagPattern,
    pub wait_ptn: FlagPattern,
    pub wait_mode: WaitFlagMode,
}

/// The state of an event flag.
#[verifier::ext_equal]
pub struct EventflagModel {
    pub queue: Seq<QueueEntry>,
    pub flg_ptn: FlagPattern,
    pub wait_ptn: FlagPattern,
    pub wait_mode: WaitFlagMode,
}

/// Whether `flg_ptn` satisfies a wait for `wait_ptn` in the given mode.
pub open spec fn pattern_matches(flg_ptn: FlagPattern, wait_ptn: FlagPattern, mode: WaitFlagMode) -> bool {
    match mode {
        WaitFlagMode::AndWait => (flg_ptn & wait_ptn) == wait_ptn,
        WaitFlagMode::OrWait => (flg_ptn & wait_ptn) != 0,
    }
}

/// Whether `flg_ptn` satisfies a wait for `wait_ptn` in the given mode.
pub fn is_match_pattern(flg_ptn: FlagPattern, wait_ptn: FlagPattern, mode: WaitFlagMode) -> (b: bool)
    ensures
        b == pattern_matches(flg_ptn, wait_ptn, mode),
{
    match mode {
        WaitFlagMode::AndWait => (flg_ptn & wait_ptn) == wait_ptn,
        WaitFlagMode::OrWait => (flg_ptn & wait_ptn) != 0,
    }
}

/// What a wait condition means, bit by bit. An AND wait is satisfied exactly
/// when every bit of the wait pattern is set in the flags (adding the wait
/// pattern's bits to the flags changes nothing), so any flags that contain the
/// wait pattern satisfy it and an empty wait pattern is always satisfied. An OR
/// wait is satisfied exactly when not every bit of the wait pattern is missing
/// from the flags, so flags containing a non-empty wait pattern satisfy it. A
/// satisfied AND wait on a non-empty pattern is a satisfied OR wait.
pub proof fn lemma_wait_condition_meaning(f: FlagPattern, w: FlagPattern, p: FlagPattern)
    ensures
        pattern_matches(f, w, WaitFlagMode::AndWait) <==> (f | w) == f,
        pattern_matches(w | p, w, WaitFlagMode::AndWait),
        pattern_matches(f, 0, WaitFlagMode::AndWait),
        pattern_matches(f, w, WaitFlagMode::OrWait) <==> (w & !f) != w,
        pattern_matches(w | p, w, WaitFlagMode::OrWait) <==> w != 0,
        !pattern_matches(f, 0, WaitFlagMode::OrWait),
        pattern_matches(f, w, WaitFlagMode::AndWait) && w != 0 ==> pattern_matches(f, w, WaitFlagMode::OrWait),
{
    assert(((f & w) == w) <==> ((f | w) == f)) by (bit_vector);
    assert(((w | p) & w) == w) by (bit_vector);
    assert((f & 0) == 0) by (bit_vector);
    assert(((f & w) != 0) <==> ((w & !f) != w)) by (bit_vector);
    assert((((w | p) & w) != 0) <==> (w != 0)) by (bit_vector);
    assert(((f & w) == w && w != 0) ==> (f & w) != 0) by (bit_vector);
}

/// A wait for the single flag `i` is satisfied, in either mode, exactly when
/// that flag is set; and setting more flags never breaks a satisfied wait.
pub proof fn lemma_wait_condition_single_flag(f: FlagPattern, w: FlagPattern, p: FlagPattern, i: u32)
    requires
        i < 32,
    ensures
        pattern_matches(f, (1u32 << i) as u32, WaitFlagMode::AndWait) <==> (f >> i) & 1 == 1,
        pattern_matches(f, (1u32 << i) as u32, WaitFlagMode::OrWait) <==> (f >> i) & 1 == 1,
        pattern_matches(f, w, WaitFlagMode::AndWait) ==> pattern_matches(f | p, w, WaitFlagMode::AndWait),
        pattern_matches(f, w, WaitFlagMode::OrWait) ==> pattern_matches(f | p, w, WaitFlagMode::OrWait),
{
    assert(((f & ((1u32 << i) as u32)) == ((1u32 << i) as u32)) <==> ((f >> i) & 1 == 1)) by (bit_vector)
        requires
            i < 32,
    ;
    assert(((f & ((1u32 << i) as u32)) != 0) <==> ((f >> i) & 1 == 1)) by (bit_vector)
        requires
            i < 32,
    ;
    assert((f & w) == w ==> ((f | p) & w) == w) by (bit_vector);
    assert((f & w) != 0 ==> ((f | p) & w) != 0) by (bit_vector);
}

impl Eventflag {
    /// The state of this event flag.
    pub open spec fn model(&self) -> EventflagModel {
        EventflagModel { queue: self.queue@, flg_ptn: self.flg_ptn, wait_ptn: self.wait_ptn, wait_mode: self.wait_mode }
    }

    /// An event flag with the given initial pattern and no waiting task.
    pub fn new(init_pattern: FlagPattern) -> (f: Self)
        ensures
            f.model() == (EventflagModel {
                queue: Seq::empty(),
                flg_ptn: init_pattern,
                wait_ptn: 0,
                wait_mode: WaitFlagMode::AndWait,
            }),
    {
        Eventflag { queue: PriorityQueue::new(), flg_ptn: init_pattern, wait_ptn: 0, wait_mode: WaitFlagMode::AndWait }
    }
}

/// Setting bits of event flag `f`: the pattern gains the bits of `pattern`;
/// a waiting task whose condition now holds stops waiting and becomes ready
/// (a task switch is reserved).
pub open spec fn set_flag_model(m: KernelModel, f: usize, pattern: FlagPattern) -> KernelModel {
    let ef = m.eventflags[f as int];
    let flg = ef.flg_ptn | pattern;
    let m1 = m.with_eventflag(f, flg, ef.wait_ptn, ef.wait_mode);
    if ef.queue.len() > 0 && pattern_matches(flg, ef.wait_ptn, ef.wait_mode) {
        let t = ef.queue[0].id;
        m1.detach_from_queue(t).detach_from_timeout(t).attach_to_ready_queue(t).reserve_dispatch()
    } else {
        m1
    }
}

/// Records a wait condition on event flag `f`.
pub open spec fn with_wait_condition(m: KernelModel, f: usize, wait_ptn: FlagPattern, wait_mode: WaitFlagMode) -> KernelModel {
    m.with_eventflag(f, m.eventflags[f as int].flg_ptn, wait_ptn, wait_mode)
}

/// Waiting on event flag `f`: the condition is recorded; unless the pattern
/// already satisfies it, the running task leaves the ready queue for the
/// flag's queue and a task switch is reserved.
pub open spec fn wait_model(m: KernelModel, f: usize, wait_ptn: FlagPattern, wait_mode: WaitFlagMode) -> KernelModel {
    let m1 = with_wait_condition(m, f, wait_ptn, wait_mode);
    if pattern_matches(m.eventflags[f as int].flg_ptn, wait_ptn, wait_mode) {
        m1
    } else {
        let t = m.ready[0].id;
        m1.detach_from_queue(t).attach_to_queue(t, QueueId::Eventflag(f), Order::Fifo).reserve_dispatch()
    }
}

/// Waiting on event flag `f` for at most `time` ticks: the condition is
/// recorded; when the pattern satisfies it the running task's outcome is
/// success, otherwise it waits in the flag's queue with a timeout and a task
/// switch is reserved.
pub open spec fn wait_with_timeout_model(
    m: KernelModel,
    f: usize,
    wait_ptn: FlagPattern,
    wait_mode: WaitFlagMode,
    time: RelativeTime,
) -> KernelModel {
    let m1 = with_wait_condition(m, f, wait_ptn, wait_mode);
    let t = m.ready[0].id;
    if pattern_matches(m.eventflags[f as int].flg_ptn, wait_ptn, wait_mode) {
        m1.with_result(t, Ok(()))
    } else {
        m1.detach_from_queue(t).attach_to_queue(t, QueueId::Eventflag(f), Order::Fifo).attach_to_timeout(
            t,
            time,
        ).reserve_dispatch()
    }
}

/// Setting bits releases the task waiting on the flag exactly when its
/// condition then holds: it leaves the flag's queue, loses its pending timeout,
/// stands in the ready queue and a task switch is reserved. Otherwise the
/// waiting task, its control block and the ready queue stay as they were.
pub proof fn lemma_set_flag_releases_waiter(m: KernelModel, f: usize, pattern: FlagPattern)
    requires
        m.inv(),
        f < m.eventflags.len(),
        m.eventflags[f as int].queue.len() > 0,
    ensures
        ({
            let ef = m.eventflags[f as int];
            let t = ef.queue[0].id;
            let m2 = set_flag_model(m, f, pattern);
            &&& m2.eventflags[f as int].flg_ptn == ef.flg_ptn | pattern
            &&& pattern_matches(ef.flg_ptn | pattern, ef.wait_ptn, ef.wait_mode) ==> {
                &&& m2.eventflags[f as int].queue.len() == 0
                &&& m2.tasks[t as int].queue == Some(QueueId::Ready)
                &&& !m2.tasks[t as int].timeout
                &&& has_id(m2.ready, t)
                &&& m2.system.dispatch_reserve
            }
            &&& !pattern_matches(ef.flg_ptn | pattern, ef.wait_ptn, ef.wait_mode) ==> {
                &&& m2.eventflags[f as int].queue == ef.queue
                &&& m2.tasks == m.tasks
                &&& m2.ready == m.ready
            }
        }),
{
    let ef = m.eventflags[f as int];
    let t = ef.queue[0].id;
    let q = QueueId::Eventflag(f);
    assert(m.valid_queue(q));
    assert(m.queue(q)[0] == ef.queue[0]);
    assert(m.tasks[t as int].queue == Some(q));
    let m1 = m.with_eventflag(f, ef.flg_ptn | pattern, ef.wait_ptn, ef.wait_mode);
    assert(m1.tasks == m.tasks);
    assert(m1.eventflags[f as int].queue == ef.queue);
    if pattern_matches(ef.flg_ptn | pattern, ef.wait_ptn, ef.wait_mode) {
        assert(is_first_position(ef.queue, t, 0));
        lemma_position_of_unique(ef.queue, t, 0);
        assert(m1.queue(q) == ef.queue);
        let m2 = m1.detach_from_queue(t);
        assert(m2.eventflags[f as int].queue == ef.queue.remove(0));
        assert(m2.eventflags[f as int].queue.len() == 0);
        let m3 = m2.detach_from_timeout(t);
        assert(m3.eventflags[f as int].queue.len() == 0);
        assert(!m3.tasks[t as int].timeout);
        let e = m3.task_entry(t);
        let k = priority_insert_index(m3.ready, e.priority);
        lemma_priority_insert_index_exists(m3.ready, e.priority);
        let m4 = m3.attach_to_ready_queue(t);
        assert(m4.ready[k] == e);
        assert(has_id(m4.ready, t));
        assert(m4.eventflags == m3.eventflags);
    }
}

/// What a wait on an event flag does. The flag records the wait pattern and
/// mode and keeps its bits. When the flags already satisfy the condition the
/// running task stays ready and nothing else changes (a timed wait records
/// success for it). Otherwise the running task stops being ready and waits in
/// the flag's queue, a task switch is reserved, and a timed wait also gives it a
/// timeout of exactly `time` ticks.
pub proof fn lemma_eventflag_wait_effects(
    m: KernelModel,
    f: usize,
    wait_ptn: FlagPattern,
    wait_mode: WaitFlagMode,
    time: RelativeTime,
)
    requires
        m.inv(),
        f < m.eventflags.len(),
        m.eventflags[f as int].queue.len() == 0,
        m.ready.len() > 0,
    ensures
        ({
            let ef = m.eventflags[f as int];
            let t = m.ready[0].id;
            let w = wait_model(m, f, wait_ptn, wait_mode);
            let wt = wait_with_timeout_model(m, f, wait_ptn, wait_mode, time);
            &&& w.eventflags[f as int].flg_ptn == ef.flg_ptn
            &&& wt.eventflags[f as int].flg_ptn == ef.flg_ptn
            &&& w.eventflags[f as int].wait_ptn == wait_ptn
            &&& wt.eventflags[f as int].wait_ptn == wait_ptn
            &&& w.eventflags[f as int].wait_mode == wait_mode
            &&& wt.eventflags[f as int].wait_mode == wait_mode
            &&& pattern_matches(ef.flg_ptn, wait_ptn, wait_mode) ==> {
                &&& w.tasks == m.tasks
                &&& w.ready == m.ready
                &&& w.timers == m.timers
                &&& w.system == m.system
                &&& w.eventflags[f as int].queue.len() == 0
                &&& wt.tasks[t as int] == (Task { result: Ok(()), ..m.tasks[t as int] })
                &&& wt.ready == m.ready
                &&& wt.timers == m.timers
                &&& wt.system == m.system
                &&& wt.eventflags[f as int].queue.len() == 0
            }
            &&& !pattern_matches(ef.flg_ptn, wait_ptn, wait_mode) ==> {
                &&& !has_id(w.ready, t)
                &&& !has_id(wt.ready, t)
                &&& w.tasks[t as int].queue == Some(QueueId::Eventflag(f))
                &&& wt.tasks[t as int].queue == Some(QueueId::Eventflag(f))
                &&& has_id(w.eventflags[f as int].queue, t)
                &&& has_id(wt.eventflags[f as int].queue, t)
                &&& !w.tasks[t as int].timeout
                &&& w.timers == m.timers
                &&& wt.tasks[t as int].timeout
                &&& wt.timers.contains((t, time as int))
                &&& wt.timers.len() == m.timers.len() + 1
                &&& w.system.dispatch_reserve
                &&& wt.system.dispatch_reserve
            }
        }),
{
    let ef = m.eventflags[f as int];
    let t = m.ready[0].id;
    let m0 = with_wait_condition(m, f, wait_ptn, wait_mode);
    assert(m0.tasks == m.tasks && m0.ready == m.ready && m0.timers == m.timers);
    lemma_current_task(m);
    if !pattern_matches(ef.flg_ptn, wait_ptn, wait_mode) {
        let q = QueueId::Eventflag(f);
        assert(m0.inv()) by {
            lemma_wait_condition_keeps_inv(m, f, wait_ptn, wait_mode);
        }
        assert(m0.ready[0].id == t);
        lemma_running_task_leaves_ready(m0);
        let m1 = m0.detach_from_queue(t);
        assert(m1.valid_queue(q));
        lemma_task_enters_wait_queue(m1, t, q, Order::Fifo);
        let m2 = m1.attach_to_queue(t, q, Order::Fifo);
        assert(m2.queue(q) == m2.eventflags[f as int].queue);
        lemma_task_gets_timeout(m2, t, time);
        let m3 = m2.attach_to_timeout(t, time);
        assert(m3.eventflags[f as int] == m2.eventflags[f as int]);
    }
}

/// Recording a wait condition keeps the kernel invariant.
proof fn lemma_wait_condition_keeps_inv(m: KernelModel, f: usize, wait_ptn: FlagPattern, wait_mode: WaitFlagMode)
    requires
        m.inv(),
        f < m.eventflags.len(),
    ensures
        with_wait_condition(m, f, wait_ptn, wait_mode).inv(),
{
    let m0 = with_wait_condition(m, f, wait_ptn, wait_mode);
    crate::task::lemma_object_data_inv(m, m0, Set::empty());
}

impl Eventflag {
    /// Sets the bits of `pattern` in event flag `flg`, releasing its waiting
    /// task when its condition now holds.
    pub fn set_flag(kernel: &mut Kernel, flg: usize, pattern: FlagPattern)
        requires
            old(kernel).wf(),
            flg < old(kernel)@.eventflags.len(),
        ensures
            final(kernel).wf(),
            final(kernel)@ == set_flag_model(old(kernel)@, flg, pattern),
    {
        let (flg_ptn, wait_ptn, wait_mode) = kernel.eventflag_state(flg);
        let new_ptn = flg_ptn | pattern;
        kernel.set_eventflag_state(flg, new_ptn, wait_ptn, wait_mode, Ghost(Set::empty()));
        match kernel.queue_front(QueueId::Eventflag(flg)) {
            None => {},
            Some(e) => {
                if is_match_pattern(new_ptn, wait_ptn, wait_mode) {
                    let t = e.id;
                    kernel.detach_queue(t, Ghost(Set::empty()));
                    kernel.detach_timeout(t, Ghost(Set::empty()));
                    kernel.attach_to_ready_queue(t, Ghost(Set::empty()));
                    kernel.reserve_dispatch();
                }
            },
        }
    }

    /// Keeps only the bits of event flag `flg` that are set in `pattern`.
    pub fn clear_flag(kernel: &mut Kernel, flg: usize, pattern: FlagPattern)
        requires
            old(kernel).wf(),
            flg < old(kernel)@.eventflags.len(),
        ensures
            final(kernel).wf(),
            final(kernel)@ == old(kernel)@.with_eventflag(
                flg,
                old(kernel)@.eventflags[flg as int].flg_ptn & pattern,
                old(kernel)@.eventflags[flg as int].wait_ptn,
                old(kernel)@.eventflags[flg as int].wait_mode,
            ),
    {
        let (flg_ptn, wait_ptn, wait_mode) = kernel.eventflag_state(flg);
        kernel.set_eventflag_state(flg, flg_ptn & pattern, wait_ptn, wait_mode, Ghost(Set::empty()));
    }

    /// The running task waits until event flag `flg` satisfies `wait_ptn` in
    /// `wait_mode`. Only one task may wait on a flag at a time.
    pub fn wait(kernel: &mut Kernel, flg: usize, wait_ptn: FlagPattern, wait_mode: WaitFlagMode)
        requires
            old(kernel).wf(),
            flg < old(kernel)@.eventflags.len(),
            old(kernel)@.eventflags[flg as int].queue.len() == 0,
            !pattern_matches(old(kernel)@.eventflags[flg as int].flg_ptn, wait_ptn, wait_mode) ==> old(kernel)@.ready.len() > 0,
        ensures
            final(kernel).wf(),
            final(kernel)@ == wait_model(old(kernel)@, flg, wait_ptn, wait_mode),
    {
        let (flg_ptn, _, _) = kernel.eventflag_state(flg);
        kernel.set_eventflag_state(flg, flg_ptn, wait_ptn, wait_mode, Ghost(Set::empty()));
        if !is_match_pattern(flg_ptn, wait_ptn, wait_mode) {
            let t = kernel.current_task().unwrap();
            proof {
                crate::task::lemma_current_task(old(kernel)@);
            }
            kernel.detach_queue(t, Ghost(Set::empty()));
            kernel.attach_to_queue(t, QueueId::Eventflag(flg), Order::Fifo, Ghost(Set::empty()));
            kernel.reserve_dispatch();
        }
    }

    /// Records a wait condition on event flag `flg` and tells whether the
    /// pattern satisfies it (`Error::Timeout` if not). Only one task may wait on
    /// a flag at a time.
    pub fn polling(kernel: &mut Kernel, flg: usize, wait_ptn: FlagPattern, wait_mode: WaitFlagMode) -> (r: Result<(), Error>)
        requires
            old(kernel).wf(),
            flg < old(kernel)@.eventflags.len(),
            old(kernel)@.eventflags[flg as int].queue.len() == 0,
        ensures
            final(kernel).wf(),
            final(kernel)@ == with_wait_condition(old(kernel)@, flg, wait_ptn, wait_mode),
            r == (if pattern_matches(old(kernel)@.eventflags[flg as int].flg_ptn, wait_ptn, wait_mode) {
                Ok::<(), Error>(())
            } else {
                Err(Error::Timeout)
            }),
    {
        let (flg_ptn, _, _) = kernel.eventflag_state(flg);
        kernel.set_eventflag_state(flg, flg_ptn, wait_ptn, wait_mode, Ghost(Set::empty()));
        if is_match_pattern(flg_ptn, wait_ptn, wait_mode) {
            Ok(())
        } else {
            Err(Error::Timeout)
        }
    }

    /// The running task waits at most `time` ticks until event flag `flg`
    /// satisfies `wait_ptn` in `wait_mode`. Returns `Some(Ok(()))` when the
    /// condition holds at once, and `None` when the task has to wait: its
    /// outcome is the task's `result` when it runs again.
    pub fn wait_with_timeout(
        kernel: &mut Kernel,
        flg: usize,
        wait_ptn: FlagPattern,
        wait_mode: WaitFlagMode,
        time: RelativeTime,
    ) -> (r: Option<Result<(), Error>>)
        requires
            old(kernel).wf(),
            flg < old(kernel)@.eventflags.len(),
            old(kernel)@.eventflags[flg as int].queue.len() == 0,
            old(kernel)@.ready.len() > 0,
        ensures
            final(kernel).wf(),
            final(kernel)@ == wait_with_timeout_model(old(kernel)@, flg, wait_ptn, wait_mode, time),
            r == (if pattern_matches(old(kernel)@.eventflags[flg as int].flg_ptn, wait_ptn, wait_mode) {
                Some(Ok::<(), Error>(()))
            } else {
                None
            }),
    {
        let t = kernel.current_task().unwrap();
        proof {
            crate::task::lemma_current_task(old(kernel)@);
        }
        let (flg_ptn, _, _) = kernel.eventflag_state(flg);
        kernel.set_eventflag_state(flg, flg_ptn, wait_ptn, wait_mode, Ghost(Set::empty()));
        if is_match_pattern(flg_ptn, wait_ptn, wait_mode) {
            kernel.set_result(t, Ok(()), Ghost(Set::empty()));
            Some(Ok(()))
        } else {
            kernel.detach_queue(t, Ghost(Set::empty()));
            kernel.attach_to_queue(t, QueueId::Eventflag(flg), Order::Fifo, Ghost(Set::empty()));
            kernel.attach_timeout(t, time, Ghost(Set::empty()));
            kernel.reserve_dispatch();
            None
        }
    }
}

} // verus!
