//! Counting semaphores.
use crate::priority_queue::{
    has_id, is_first_position, lemma_position_of_unique, lemma_priority_insert_index_exists, priority_insert_index,
    PriorityQueue, QueueEntry,
};
use crate::task::{
    lemma_current_task, lemma_running_task_leaves_ready, lemma_task_enters_wait_queue, lemma_task_gets_timeout, Kernel,
    KernelModel, QueueId,
};
use crate::{Error, Order, RelativeTime, SemCount};
use vstd::prelude::*;

verus! {

/// A semaphore: its resource count and the tasks waiting for a resource.
pub struct Semaphore {
    pub queue: PriorityQueue,
    pub order: Order,
    pub count: SemCount,
}

/// The state of a semaphore.
#[verifier::ext_equal]
pub struct SemaphoreModel {
    pub queue: Seq<QueueEntry>,
    pub order: Order,
    pub count: SemCount,
}

impl Semaphore {
    /// The state of this semaphore.
    pub open spec fn model(&self) -> SemaphoreModel {
        SemaphoreModel { queue: self.queue@, order: self.order, count: self.count }
    }

    /// A semaphore holding `init_count` resources, with no waiting task; its
    /// waiting tasks are served in the given order.
    pub fn new(init_count: SemCount, order: Order) -> (s: Self)
        ensures
            s.model() == (SemaphoreModel { queue: Seq::empty(), order, count: init_count }),
    {
        Semaphore { queue: PriorityQueue::new(), order, count: init_count }
    }
}

/// Signalling semaphore `s`: the first waiting task, if any, stops waiting and
/// becomes ready (a task switch is reserved); otherwise the count grows by one.
pub open spec fn signal_model(m: KernelModel, s: usize) -> KernelModel {
    let sem = m.semaphores[s as int];
    if sem.queue.len() == 0 {
        m.with_semaphore_count(s, (sem.count + 1) as SemCount)
    } else {
        let t = sem.queue[0].id;
        m.detach_from_queue(t).detach_from_timeout(t).attach_to_ready_queue(t).reserve_dispatch()
    }
}

/// Waiting on semaphore `s`: a positive count is taken by one; otherwise the
/// running task leaves the ready queue for the semaphore's queue and a task
/// switch is reserved.
pub open spec fn wait_model(m: KernelModel, s: usize) -> KernelModel {
    let sem = m.semaphores[s as int];
    if sem.count > 0 {
        m.with_semaphore_count(s, (sem.count - 1) as SemCount)
    } else {
        let t = m.ready[0].id;
        m.detach_from_queue(t).attach_to_queue(t, QueueId::Semaphore(s), sem.order).reserve_dispatch()
    }
}

/// Waiting on semaphore `s` for at most `time` ticks: as `wait_model`, and a
/// task that has to wait also gets a timeout.
pub open spec fn wait_with_timeout_model(m: KernelModel, s: usize, time: RelativeTime) -> KernelModel {
    let sem = m.semaphores[s as int];
    if sem.count > 0 {
        m.with_semaphore_count(s, (sem.count - 1) as SemCount)
    } else {
        let t = m.ready[0].id;
        m.detach_from_queue(t).attach_to_queue(t, QueueId::Semaphore(s), sem.order).attach_to_timeout(
            t,
            time,
        ).reserve_dispatch()
    }
}

/// With no task waiting, a signal followed by a wait leaves the kernel as it
/// was.
pub proof fn lemma_signal_then_wait(m: KernelModel, s: usize)
    requires
        m.inv(),
        s < m.semaphores.len(),
        m.semaphores[s as int].queue.len() == 0,
        m.semaphores[s as int].count < SemCount::MAX,
    ensures
        wait_model(signal_model(m, s), s) == m,
{
    let m1 = signal_model(m, s);
    assert(m1.semaphores[s as int].count > 0);
    let m2 = wait_model(m1, s);
    assert(m2.semaphores =~= m.semaphores);
    assert(m2 =~= m);
}

/// On a semaphore that holds resources, a wait followed by a signal leaves the
/// kernel as it was.
pub proof fn lemma_wait_then_signal(m: KernelModel, s: usize)
    requires
        m.inv(),
        s < m.semaphores.len(),
        m.semaphores[s as int].count > 0,
    ensures
        signal_model(wait_model(m, s), s) == m,
{
    assert(m.semaphores[s as int].queue.len() == 0);
    let m1 = wait_model(m, s);
    assert(m1.semaphores[s as int].queue.len() == 0);
    let m2 = signal_model(m1, s);
    assert(m2.semaphores =~= m.semaphores);
    assert(m2 =~= m);
}

/// A signal releases the waiting task that a wait by priority order put
/// first: among waiting tasks the one with the smallest priority value, and
/// among equals the one that waited longest.
pub proof fn lemma_signal_releases_first(m: KernelModel, s: usize)
    requires
        m.inv(),
        s < m.semaphores.len(),
        m.semaphores[s as int].order == Order::Priority,
        m.semaphores[s as int].queue.len() > 0,
    ensures
        forall|i: int| 0 <= i < m.semaphores[s as int].queue.len() ==> m.semaphores[s as int].queue[0].priority
            <= #[trigger] m.semaphores[s as int].queue[i].priority,
{
    assert(crate::priority_queue::sorted_by_priority(m.semaphores[s as int].queue));
}

/// A signal on a semaphore with waiting tasks hands the resource to the first
/// of them: it leaves the semaphore's queue (the others keep their order), loses
/// its pending timeout, stands in the ready queue, the count stays as it was,
/// and a task switch is reserved.
pub proof fn lemma_signal_releases_waiter(m: KernelModel, s: usize)
    requires
        m.inv(),
        s < m.semaphores.len(),
        m.semaphores[s as int].queue.len() > 0,
    ensures
        ({
            let sem = m.semaphores[s as int];
            let t = sem.queue[0].id;
            let m2 = signal_model(m, s);
            &&& m2.semaphores[s as int].queue == sem.queue.drop_first()
            &&& m2.semaphores[s as int].count == sem.count
            &&& m2.tasks[t as int].queue == Some(QueueId::Ready)
            &&& !m2.tasks[t as int].timeout
            &&& has_id(m2.ready, t)
            &&& m2.system.dispatch_reserve
        }),
{
    let sem = m.semaphores[s as int];
    let t = sem.queue[0].id;
    let q = QueueId::Semaphore(s);
    assert(m.valid_queue(q));
    assert(m.queue(q)[0] == sem.queue[0]);
    assert(m.tasks[t as int].queue == Some(q));
    assert(is_first_position(sem.queue, t, 0));
    lemma_position_of_unique(sem.queue, t, 0);
    let m2 = m.detach_from_queue(t);
    assert(m2.semaphores[s as int].queue =~= sem.queue.drop_first());
    let m3 = m2.detach_from_timeout(t);
    let e = m3.task_entry(t);
    let k = priority_insert_index(m3.ready, e.priority);
    lemma_priority_insert_index_exists(m3.ready, e.priority);
    let m4 = m3.attach_to_ready_queue(t);
    assert(m4.ready[k] == e);
    assert(has_id(m4.ready, t));
    assert(m4.semaphores == m3.semaphores);
}

/// What a wait takes. On a semaphore that holds resources, a wait and a timed
/// wait take exactly one resource and change nothing else. On an empty
/// semaphore the running task stops being ready and waits in the semaphore's
/// queue, the count stays zero and a task switch is reserved; a timed wait
/// also gives it a timeout of exactly `time` ticks, a plain wait none.
pub proof fn lemma_semaphore_wait_effects(m: KernelModel, s: usize, time: RelativeTime)
    requires
        m.inv(),
        s < m.semaphores.len(),
        m.semaphores[s as int].count > 0 || m.ready.len() > 0,
    ensures
        ({
            let sem = m.semaphores[s as int];
            let w = wait_model(m, s);
            let wt = wait_with_timeout_model(m, s, time);
            &&& sem.count > 0 ==> {
                &&& w.semaphores[s as int].count == sem.count - 1
                &&& wt.semaphores[s as int].count == sem.count - 1
                &&& w.semaphores[s as int].queue == sem.queue
                &&& wt.semaphores[s as int].queue == sem.queue
                &&& w.semaphores.len() == m.semaphores.len()
                &&& wt.semaphores.len() == m.semaphores.len()
                &&& forall|j: int| 0 <= j < m.semaphores.len() && j != s ==> #[trigger] w.semaphores[j] == m.semaphores[j]
                &&& forall|j: int| 0 <= j < m.semaphores.len() && j != s ==> #[trigger] wt.semaphores[j] == m.semaphores[j]
                &&& w.tasks == m.tasks && wt.tasks == m.tasks
                &&& w.ready == m.ready && wt.ready == m.ready
                &&& w.timers == m.timers && wt.timers == m.timers
                &&& w.eventflags == m.eventflags && wt.eventflags == m.eventflags
                &&& w.system == m.system && wt.system == m.system
            }
            &&& sem.count == 0 ==> {
                let t = m.ready[0].id;
                &&& !has_id(w.ready, t)
                &&& !has_id(wt.ready, t)
                &&& w.tasks[t as int].queue == Some(QueueId::Semaphore(s))
                &&& wt.tasks[t as int].queue == Some(QueueId::Semaphore(s))
                &&& has_id(w.semaphores[s as int].queue, t)
                &&& has_id(wt.semaphores[s as int].queue, t)
                &&& w.semaphores[s as int].count == 0
                &&& wt.semaphores[s as int].count == 0
                &&& !w.tasks[t as int].timeout
                &&& w.timers == m.timers
                &&& wt.tasks[t as int].timeout
                &&& wt.timers.contains((t, time as int))
                &&& wt.timers.len() == m.timers.len() + 1
                &&& w.system.dispatch_reserve
                &&& wt.system.dispatch_reserve
            }
        }),
{
    let sem = m.semaphores[s as int];
    if sem.count == 0 {
        let t = m.ready[0].id;
        let q = QueueId::Semaphore(s);
        lemma_current_task(m);
        lemma_running_task_leaves_ready(m);
        let m1 = m.detach_from_queue(t);
        assert(m1.valid_queue(q));
        lemma_task_enters_wait_queue(m1, t, q, sem.order);
        let m2 = m1.attach_to_queue(t, q, sem.order);
        assert(m2.queue(q) == m2.semaphores[s as int].queue);
        lemma_task_gets_timeout(m2, t, time);
        let m3 = m2.attach_to_timeout(t, time);
        assert(m3.semaphores[s as int] == m2.semaphores[s as int]);
    }
}

/// A signal on a semaphore with no waiting task returns exactly one resource
/// and changes nothing else.
pub proof fn lemma_signal_without_waiter(m: KernelModel, s: usize)
    requires
        s < m.semaphores.len(),
        m.semaphores[s as int].queue.len() == 0,
        m.semaphores[s as int].count < SemCount::MAX,
    ensures
        ({
            let m2 = signal_model(m, s);
            &&& m2.semaphores[s as int].count == m.semaphores[s as int].count + 1
            &&& m2.semaphores[s as int].queue == m.semaphores[s as int].queue
            &&& m2.semaphores[s as int].order == m.semaphores[s as int].order
            &&& m2.semaphores.len() == m.semaphores.len()
            &&& forall|j: int| 0 <= j < m.semaphores.len() && j != s ==> #[trigger] m2.semaphores[j] == m.semaphores[j]
            &&& m2.tasks == m.tasks
            &&& m2.ready == m.ready
            &&& m2.timers == m.timers
            &&& m2.eventflags == m.eventflags
            &&& m2.system == m.system
        }),
{
}

impl Semaphore {
    /// Returns a resource to semaphore `sem`.
    pub fn signal(kernel: &mut Kernel, sem: usize)
        requires
            old(kernel).wf(),
            sem < old(kernel)@.semaphores.len(),
            old(kernel)@.semaphores[sem as int].queue.len() == 0 ==> old(kernel)@.semaphores[sem as int].count < SemCount::MAX,
        ensures
            final(kernel).wf(),
            final(kernel)@ == signal_model(old(kernel)@, sem),
    {
        let (count, _) = kernel.semaphore_state(sem);
        match kernel.queue_front(QueueId::Semaphore(sem)) {
            None => {
                kernel.set_semaphore_count(sem, count + 1, Ghost(Set::empty()));
            },
            Some(e) => {
                let t = e.id;
                kernel.detach_queue(t, Ghost(Set::empty()));
                kernel.detach_timeout(t, Ghost(Set::empty()));
                kernel.attach_to_ready_queue(t, Ghost(Set::empty()));
                kernel.reserve_dispatch();
            },
        }
    }

    /// Takes a resource from semaphore `sem`; without one, the running task
    /// waits for it.
    pub fn wait(kernel: &mut Kernel, sem: usize)
        requires
            old(kernel).wf(),
            sem < old(kernel)@.semaphores.len(),
            old(kernel)@.semaphores[sem as int].count == 0 ==> old(kernel)@.ready.len() > 0,
        ensures
            final(kernel).wf(),
            final(kernel)@ == wait_model(old(kernel)@, sem),
    {
        let (count, order) = kernel.semaphore_state(sem);
        if count > 0 {
            kernel.set_semaphore_count(sem, count - 1, Ghost(Set::empty()));
        } else {
            let t = kernel.current_task().unwrap();
            proof {
                crate::task::lemma_current_task(old(kernel)@);
            }
            kernel.detach_queue(t, Ghost(Set::empty()));
            kernel.attach_to_queue(t, QueueId::Semaphore(sem), order, Ghost(Set::empty()));
            kernel.reserve_dispatch();
        }
    }

    /// Takes a resource from semaphore `sem` if one is there; fails with
    /// `Error::Timeout` otherwise, leaving the kernel unchanged.
    pub fn polling(kernel: &mut Kernel, sem: usize) -> (r: Result<(), Error>)
        requires
            old(kernel).wf(),
            sem < old(kernel)@.semaphores.len(),
        ensures
            final(kernel).wf(),
            r == (if old(kernel)@.semaphores[sem as int].count > 0 {
                Ok::<(), Error>(())
            } else {
                Err(Error::Timeout)
            }),
            final(kernel)@ == (if old(kernel)@.semaphores[sem as int].count > 0 {
                old(kernel)@.with_semaphore_count(sem, (old(kernel)@.semaphores[sem as int].count - 1) as SemCount)
            } else {
                old(kernel)@
            }),
    {
        let (count, _) = kernel.semaphore_state(sem);
        if count > 0 {
            kernel.set_semaphore_count(sem, count - 1, Ghost(Set::empty()));
            Ok(())
        } else {
            Err(Error::Timeout)
        }
    }

    /// Takes a resource from semaphore `sem`; without one, the running task
    /// waits for it at most `time` ticks. Returns `Ok(())` when the resource was
    /// taken at once. When the task has to wait, the result is read before the
    /// task switch: it is the outcome recorded for the task's previous timed
    /// wait, not that of this one, whose outcome is left in the task's `result`.
    pub fn wait_with_timeout(kernel: &mut Kernel, sem: usize, time: RelativeTime) -> (r: Result<(), Error>)
        requires
            old(kernel).wf(),
            sem < old(kernel)@.semaphores.len(),
            old(kernel)@.semaphores[sem as int].count == 0 ==> old(kernel)@.ready.len() > 0,
        ensures
            final(kernel).wf(),
            r == (if old(kernel)@.semaphores[sem as int].count > 0 {
                Ok::<(), Error>(())
            } else {
                old(kernel)@.tasks[old(kernel)@.ready[0].id as int].result
            }),
            final(kernel)@ == wait_with_timeout_model(old(kernel)@, sem, time),
    {
        let (count, order) = kernel.semaphore_state(sem);
        if count > 0 {
            kernel.set_semaphore_count(sem, count - 1, Ghost(Set::empty()));
            Ok(())
        } else {
            let t = kernel.current_task().unwrap();
            proof {
                crate::task::lemma_current_task(old(kernel)@);
            }
            let previous = kernel.task(t).result;
            kernel.detach_queue(t, Ghost(Set::empty()));
            kernel.attach_to_queue(t, QueueId::Semaphore(sem), order, Ghost(Set::empty()));
            kernel.attach_timeout(t, time, Ghost(Set::empty()));
            kernel.reserve_dispatch();
            previous
        }
    }
}

} // verus!
