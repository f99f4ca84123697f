//! Task control blocks and the kernel state that links them: the ready queue,
//! the wait queues of semaphores and event flags, and the timeout queue.
//!
//! The task at the head of the ready queue is the running task. Every kernel
//! state is described by a `KernelModel`; each service is specified as a
//! transition of that model.
use crate::eventflag::{Eventflag, EventflagModel};
use crate::priority_queue::{self, PriorityQueue, QueueEntry};
use crate::semaphore::{Semaphore, SemaphoreModel};
use crate::system::SystemControlBlock;
use crate::timeout_queue::{self, TimeoutQueue};
use crate::eventflag::WaitFlagMode;
use crate::{ActivateCount, Error, FlagPattern, Order, Priority, RelativeTime, SemCount, SystemTime};
use vstd::prelude::*;

verus! {

/// Names a task queue of the kernel.
#[derive(Clone, Copy, PartialEq, Eq, Structural, Debug)]
pub enum QueueId {
    /// The ready queue.
    Ready,
    /// The wait queue of a semaphore.
    Semaphore(usize),
    /// The wait queue of an event flag.
    Eventflag(usize),
}

/// A task control block.
#[derive(Clone, Copy, Debug)]
pub struct Task {
    pub priority: Priority,
    pub exinf: isize,
    pub actcnt: ActivateCount,
    /// The queue the task is in, if any.
    pub queue: Option<QueueId>,
    /// Whether the task has a pending timeout.
    pub timeout: bool,
    /// The outcome of the task's last timed wait.
    pub result: Result<(), Error>,
}

impl Task {
    /// A task control block in no queue, with no pending activation.
    pub fn new() -> (t: Self)
        ensures
            t.priority == 0,
            t.exinf == 0,
            t.actcnt == 0,
            t.queue is None,
            !t.timeout,
            t.result == Ok::<(), Error>(()),
    {
        Task { priority: 0, exinf: 0, actcnt: 0, queue: None, timeout: false, result: Ok(()) }
    }

    /// Sets the task's extended information and priority.
    pub fn create(&mut self, exinf: isize, priority: Priority)
        ensures
            *final(self) == (Task { exinf, priority, ..*old(self) }),
    {
        self.exinf = exinf;
        self.priority = priority;
    }

    /// Activates task `id`: one more pending activation; a task in no queue is
    /// queued in the ready queue by priority and a task switch is reserved.
    pub fn activate(kernel: &mut Kernel, id: usize)
        requires
            old(kernel).wf(),
            id < old(kernel)@.tasks.len(),
            old(kernel)@.tasks[id as int].actcnt < ActivateCount::MAX,
            !(old(kernel)@.tasks[id as int].queue is None && old(kernel)@.tasks[id as int].timeout),
        ensures
            final(kernel).wf(),
            final(kernel)@ == old(kernel)@.activate(id),
    {
        let ghost m = old(kernel)@;
        let ghost task = Task { actcnt: (m.tasks[id as int].actcnt + 1) as ActivateCount, ..m.tasks[id as int] };
        proof {
            lemma_task_data_inv(m, id, task, Set::empty());
        }
        kernel.tasks[id].actcnt = kernel.tasks[id].actcnt + 1;
        proof {
            assert(kernel@ =~= m.with_task(id, task));
        }
        match kernel.tasks[id].queue {
            None => {
                kernel.attach_to_ready_queue(id, Ghost(Set::empty()));
                kernel.reserve_dispatch();
            },
            Some(_) => {},
        }
    }

    /// The task's priority.
    pub fn priority(&self) -> (p: Priority)
        ensures
            p == self.priority,
    {
        self.priority
    }
}

/// The whole kernel state.
#[verifier::ext_equal]
pub struct KernelModel {
    pub tasks: Seq<Task>,
    pub ready: Seq<QueueEntry>,
    pub timers: Seq<(usize, int)>,
    pub semaphores: Seq<SemaphoreModel>,
    pub eventflags: Seq<EventflagModel>,
    pub system: SystemControlBlock,
    pub time: SystemTime,
}

/// Every timed-out task of `ids` in turn, from the first.
pub open spec fn timeout_all(m: KernelModel, ids: Seq<usize>) -> KernelModel
    decreases ids.len(),
{
    if ids.len() == 0 {
        m
    } else {
        timeout_all(m.timeout_task(ids[0]), ids.drop_first())
    }
}

impl KernelModel {
    /// `q` names an existing queue.
    pub open spec fn valid_queue(self, q: QueueId) -> bool {
        match q {
            QueueId::Ready => true,
            QueueId::Semaphore(s) => s < self.semaphores.len(),
            QueueId::Eventflag(f) => f < self.eventflags.len(),
        }
    }

    /// The entries of queue `q`.
    pub open spec fn queue(self, q: QueueId) -> Seq<QueueEntry> {
        match q {
            QueueId::Ready => self.ready,
            QueueId::Semaphore(s) => self.semaphores[s as int].queue,
            QueueId::Eventflag(f) => self.eventflags[f as int].queue,
        }
    }

    /// The entry that stands for task `t` in a queue.
    pub open spec fn task_entry(self, t: usize) -> QueueEntry {
        QueueEntry { id: t, priority: self.tasks[t as int].priority as i64 }
    }

    /// The running task: the head of the ready queue.
    pub open spec fn current_task(self) -> Option<usize> {
        if self.ready.len() == 0 {
            None
        } else {
            Some(self.ready[0].id)
        }
    }

    /// Queue entries and task control blocks agree.
    pub open spec fn queues_consistent(self) -> bool {
        &&& self.tasks.len() <= usize::MAX
        &&& forall|q: QueueId| self.valid_queue(q) ==> priority_queue::ids_distinct(#[trigger] self.queue(q))
        &&& forall|q: QueueId, i: int|
            self.valid_queue(q) && 0 <= i < self.queue(q).len() ==> {
                let e = #[trigger] self.queue(q)[i];
                &&& e.id < self.tasks.len()
                &&& self.tasks[e.id as int].queue == Some(q)
                &&& e.priority == self.tasks[e.id as int].priority as i64
            }
        &&& forall|t: int|
            0 <= t < self.tasks.len() && (#[trigger] self.tasks[t]).queue is Some ==> {
                let q = self.tasks[t].queue.unwrap();
                &&& self.valid_queue(q)
                &&& priority_queue::has_id(self.queue(q), t as usize)
            }
    }

    /// The timeout queue and the task control blocks agree, except that the
    /// tasks of `pending` have timed out but are not yet handled.
    pub open spec fn timers_consistent(self, pending: Set<usize>) -> bool {
        &&& timeout_queue::timers_valid(self.timers)
        &&& forall|i: int|
            0 <= i < self.timers.len() ==> {
                let id = (#[trigger] self.timers[i]).0;
                &&& id < self.tasks.len()
                &&& self.tasks[id as int].timeout
                &&& !pending.contains(id)
            }
        &&& forall|t: int|
            0 <= t < self.tasks.len() && (#[trigger] self.tasks[t]).timeout ==> (timeout_queue::has_timer(self.timers, t as usize)
                || pending.contains(t as usize))
        &&& forall|t: int| 0 <= t < self.tasks.len() && (#[trigger] self.tasks[t]).timeout ==> self.tasks[t].queue != Some(QueueId::Ready)
    }

    /// Facts about the kernel objects.
    pub open spec fn objects_consistent(self) -> bool {
        &&& priority_queue::sorted_by_priority(self.ready)
        &&& forall|s: int|
            0 <= s < self.semaphores.len() && (#[trigger] self.semaphores[s]).order == Order::Priority ==> priority_queue::sorted_by_priority(
                self.semaphores[s].queue,
            )
        &&& forall|s: int| 0 <= s < self.semaphores.len() && (#[trigger] self.semaphores[s]).count > 0 ==> self.semaphores[s].queue.len() == 0
        &&& forall|f: int| 0 <= f < self.eventflags.len() ==> (#[trigger] self.eventflags[f]).queue.len() <= 1
    }

    /// The kernel invariant, with the tasks of `pending` timed out but not yet handled.
    pub open spec fn inv_with(self, pending: Set<usize>) -> bool {
        &&& self.queues_consistent()
        &&& self.timers_consistent(pending)
        &&& self.objects_consistent()
    }

    /// The kernel invariant.
    pub open spec fn inv(self) -> bool {
        self.inv_with(Set::empty())
    }

    /// Replaces the entries of queue `q`.
    pub open spec fn with_queue(self, q: QueueId, s: Seq<QueueEntry>) -> KernelModel {
        match q {
            QueueId::Ready => KernelModel { ready: s, ..self },
            QueueId::Semaphore(i) => KernelModel {
                semaphores: self.semaphores.update(i as int, SemaphoreModel { queue: s, ..self.semaphores[i as int] }),
                ..self
            },
            QueueId::Eventflag(i) => KernelModel {
                eventflags: self.eventflags.update(i as int, EventflagModel { queue: s, ..self.eventflags[i as int] }),
                ..self
            },
        }
    }

    /// Sets the resource count of semaphore `s`.
    pub open spec fn with_semaphore_count(self, s: usize, count: SemCount) -> KernelModel {
        KernelModel {
            semaphores: self.semaphores.update(s as int, SemaphoreModel { count, ..self.semaphores[s as int] }),
            ..self
        }
    }

    /// Sets the pattern and the wait condition of event flag `f`.
    pub open spec fn with_eventflag(
        self,
        f: usize,
        flg_ptn: FlagPattern,
        wait_ptn: FlagPattern,
        wait_mode: WaitFlagMode,
    ) -> KernelModel {
        KernelModel {
            eventflags: self.eventflags.update(
                f as int,
                EventflagModel { flg_ptn, wait_ptn, wait_mode, ..self.eventflags[f as int] },
            ),
            ..self
        }
    }

    /// Activates task `t`: one more pending activation, and a task in no queue
    /// becomes ready with a task switch reserved.
    pub open spec fn activate(self, t: usize) -> KernelModel {
        let m1 = self.with_task(t, Task { actcnt: (self.tasks[t as int].actcnt + 1) as ActivateCount, ..self.tasks[t as int] });
        if self.tasks[t as int].queue is None {
            m1.attach_to_ready_queue(t).reserve_dispatch()
        } else {
            m1
        }
    }

    /// Task `t` starts one pending activation, if it has one.
    pub open spec fn consume_activation(self, t: usize) -> KernelModel {
        if self.tasks[t as int].actcnt > 0 {
            self.with_task(t, Task { actcnt: (self.tasks[t as int].actcnt - 1) as ActivateCount, ..self.tasks[t as int] })
        } else {
            self
        }
    }

    /// Replaces the control block of task `t`.
    pub open spec fn with_task(self, t: usize, task: Task) -> KernelModel {
        KernelModel { tasks: self.tasks.update(t as int, task), ..self }
    }

    /// Queues task `t` in the ready queue by priority.
    pub open spec fn attach_to_ready_queue(self, t: usize) -> KernelModel {
        let e = self.task_entry(t);
        self.with_queue(QueueId::Ready, self.ready.insert(priority_queue::priority_insert_index(self.ready, e.priority), e)).with_task(
            t,
            Task { queue: Some(QueueId::Ready), ..self.tasks[t as int] },
        )
    }

    /// Queues task `t` in queue `q`, by priority or at the tail.
    pub open spec fn attach_to_queue(self, t: usize, q: QueueId, order: Order) -> KernelModel {
        let e = self.task_entry(t);
        let s = self.queue(q);
        let s2 = match order {
            Order::Priority => s.insert(priority_queue::priority_insert_index(s, e.priority), e),
            Order::Fifo => s.push(e),
        };
        self.with_queue(q, s2).with_task(t, Task { queue: Some(q), ..self.tasks[t as int] })
    }

    /// Takes task `t` out of the queue it is in, if any.
    pub open spec fn detach_from_queue(self, t: usize) -> KernelModel {
        match self.tasks[t as int].queue {
            None => self,
            Some(q) => self.with_queue(q, self.queue(q).remove(priority_queue::position_of(self.queue(q), t))).with_task(
                t,
                Task { queue: None, ..self.tasks[t as int] },
            ),
        }
    }

    /// Cancels the pending timeout of task `t`, if any.
    pub open spec fn detach_from_timeout(self, t: usize) -> KernelModel {
        if self.tasks[t as int].timeout {
            KernelModel { timers: self.timers.remove(timeout_queue::timer_position(self.timers, t)), ..self }.with_task(
                t,
                Task { timeout: false, ..self.tasks[t as int] },
            )
        } else {
            self
        }
    }

    /// Gives task `t` a timeout after `time` ticks.
    pub open spec fn attach_to_timeout(self, t: usize, time: RelativeTime) -> KernelModel {
        KernelModel {
            timers: self.timers.insert(timeout_queue::split_index(self.timers, time as int), (t, time as int)),
            ..self
        }.with_task(t, Task { timeout: true, ..self.tasks[t as int] })
    }

    /// Records the outcome of task `t`'s timed wait.
    pub open spec fn with_result(self, t: usize, r: Result<(), Error>) -> KernelModel {
        self.with_task(t, Task { result: r, ..self.tasks[t as int] })
    }

    /// Reserves a task switch.
    pub open spec fn reserve_dispatch(self) -> KernelModel {
        KernelModel { system: SystemControlBlock { dispatch_reserve: true, ..self.system }, ..self }
    }

    /// What happens to task `t` when its timeout expires: it leaves the queue it
    /// waits in, becomes ready, its wait fails with `Error::Timeout`, and a task
    /// switch is reserved.
    pub open spec fn timeout_task(self, t: usize) -> KernelModel {
        self.with_task(t, Task { timeout: false, ..self.tasks[t as int] }).detach_from_queue(t).attach_to_ready_queue(
            t,
        ).with_result(t, Err(Error::Timeout)).reserve_dispatch()
    }

    /// `tick` ticks pass for the timeout queue: the due timeouts leave it in
    /// order of expiry and their tasks time out.
    pub open spec fn supply_tick(self, tick: RelativeTime) -> KernelModel {
        let k = timeout_queue::split_index(self.timers, tick as int);
        let expired = timeout_queue::timer_ids(self.timers.subrange(0, k));
        timeout_all(
            KernelModel { timers: timeout_queue::timers_elapsed(self.timers.subrange(k, self.timers.len() as int), tick as int), ..self },
            expired,
        )
    }
}

/// Models that agree on tasks and queues agree on the queue and object parts
/// of the invariant.
proof fn lemma_queues_frame(m: KernelModel, m2: KernelModel)
    requires
        m2.tasks == m.tasks,
        m2.ready == m.ready,
        m2.semaphores == m.semaphores,
        m2.eventflags == m.eventflags,
    ensures
        m2.queues_consistent() == m.queues_consistent(),
        m2.objects_consistent() == m.objects_consistent(),
        forall|q: QueueId| #[trigger] m2.queue(q) == m.queue(q) && m2.valid_queue(q) == m.valid_queue(q),
{
    assert forall|q: QueueId| #[trigger] m2.queue(q) == m.queue(q) && m2.valid_queue(q) == m.valid_queue(q) by {}
    if m.queues_consistent() {
        assert forall|q: QueueId| m2.valid_queue(q) implies priority_queue::ids_distinct(#[trigger] m2.queue(q)) by {
            assert(m2.queue(q) == m.queue(q));
        }
        assert forall|q: QueueId, i: int| m2.valid_queue(q) && 0 <= i < m2.queue(q).len() implies {
            let e = #[trigger] m2.queue(q)[i];
            &&& e.id < m2.tasks.len()
            &&& m2.tasks[e.id as int].queue == Some(q)
            &&& e.priority == m2.tasks[e.id as int].priority as i64
        } by {
            assert(m2.queue(q) == m.queue(q));
            let e = m.queue(q)[i];
        }
        assert forall|t: int| 0 <= t < m2.tasks.len() && (#[trigger] m2.tasks[t]).queue is Some implies {
            let q = m2.tasks[t].queue.unwrap();
            &&& m2.valid_queue(q)
            &&& priority_queue::has_id(m2.queue(q), t as usize)
        } by {
            assert(m.tasks[t].queue is Some);
            let q = m.tasks[t].queue.unwrap();
            assert(m2.queue(q) == m.queue(q));
        }
    }
    if m2.queues_consistent() {
        assert forall|q: QueueId| m.valid_queue(q) implies priority_queue::ids_distinct(#[trigger] m.queue(q)) by {
            assert(m2.queue(q) == m.queue(q));
        }
        assert forall|q: QueueId, i: int| m.valid_queue(q) && 0 <= i < m.queue(q).len() implies {
            let e = #[trigger] m.queue(q)[i];
            &&& e.id < m.tasks.len()
            &&& m.tasks[e.id as int].queue == Some(q)
            &&& e.priority == m.tasks[e.id as int].priority as i64
        } by {
            assert(m2.queue(q) == m.queue(q));
            let e = m2.queue(q)[i];
        }
        assert forall|t: int| 0 <= t < m.tasks.len() && (#[trigger] m.tasks[t]).queue is Some implies {
            let q = m.tasks[t].queue.unwrap();
            &&& m.valid_queue(q)
            &&& priority_queue::has_id(m.queue(q), t as usize)
        } by {
            assert(m2.tasks[t].queue is Some);
            let q = m.tasks[t].queue.unwrap();
            assert(m2.queue(q) == m.queue(q));
        }
    }
}

/// Models that agree on everything the invariant speaks of agree on the invariant.
proof fn lemma_inv_frame(m: KernelModel, m2: KernelModel, pending: Set<usize>)
    requires
        m2.tasks == m.tasks,
        m2.ready == m.ready,
        m2.timers == m.timers,
        m2.semaphores == m.semaphores,
        m2.eventflags == m.eventflags,
    ensures
        m2.inv_with(pending) == m.inv_with(pending),
{
    lemma_queues_frame(m, m2);
}

/// Setting the count or the state of a kernel object, within what the
/// invariant allows, keeps the invariant.
pub(crate) proof fn lemma_object_data_inv(m: KernelModel, m2: KernelModel, pending: Set<usize>)
    requires
        m.inv_with(pending),
        m2.tasks == m.tasks,
        m2.ready == m.ready,
        m2.timers == m.timers,
        m2.semaphores.len() == m.semaphores.len(),
        m2.eventflags.len() == m.eventflags.len(),
        forall|s: int| 0 <= s < m.semaphores.len() ==> (#[trigger] m2.semaphores[s]).queue == m.semaphores[s].queue
            && m2.semaphores[s].order == m.semaphores[s].order,
        forall|s: int| 0 <= s < m.semaphores.len() && (#[trigger] m2.semaphores[s]).count > 0 ==> m.semaphores[s].queue.len() == 0,
        forall|f: int| 0 <= f < m.eventflags.len() ==> (#[trigger] m2.eventflags[f]).queue == m.eventflags[f].queue,
    ensures
        m2.inv_with(pending),
{
    assert forall|q: QueueId| #[trigger] m2.valid_queue(q) == m.valid_queue(q) by {}
    assert forall|q: QueueId| m.valid_queue(q) implies #[trigger] m2.queue(q) == m.queue(q) by {
        match q {
            QueueId::Semaphore(i) => {
                if i < m.semaphores.len() {
                    assert(m2.semaphores[i as int].queue == m.semaphores[i as int].queue);
                }
            },
            QueueId::Eventflag(i) => {
                if i < m.eventflags.len() {
                    assert(m2.eventflags[i as int].queue == m.eventflags[i as int].queue);
                }
            },
            _ => {},
        }
    }
    assert forall|q: QueueId| m2.valid_queue(q) implies priority_queue::ids_distinct(#[trigger] m2.queue(q)) by {
        assert(m2.queue(q) == m.queue(q));
    }
    assert forall|q: QueueId, i: int| m2.valid_queue(q) && 0 <= i < m2.queue(q).len() implies {
        let e = #[trigger] m2.queue(q)[i];
        &&& e.id < m2.tasks.len()
        &&& m2.tasks[e.id as int].queue == Some(q)
        &&& e.priority == m2.tasks[e.id as int].priority as i64
    } by {
        assert(m2.queue(q) == m.queue(q));
        let e = m.queue(q)[i];
    }
    assert forall|t: int| 0 <= t < m2.tasks.len() && (#[trigger] m2.tasks[t]).queue is Some implies {
        let q = m2.tasks[t].queue.unwrap();
        &&& m2.valid_queue(q)
        &&& priority_queue::has_id(m2.queue(q), t as usize)
    } by {
        assert(m.tasks[t].queue is Some);
        let q = m.tasks[t].queue.unwrap();
        assert(m2.queue(q) == m.queue(q));
    }
    assert forall|i: int|
        0 <= i < m2.semaphores.len() && (#[trigger] m2.semaphores[i]).order == Order::Priority implies priority_queue::sorted_by_priority(
        m2.semaphores[i].queue,
    ) by {
        assert(m.semaphores[i].order == Order::Priority);
    }
    assert forall|f: int| 0 <= f < m2.eventflags.len() implies (#[trigger] m2.eventflags[f]).queue.len() <= 1 by {
        assert(m.eventflags[f].queue.len() <= 1);
    }
}

/// Adding a kernel object with an empty wait queue keeps the invariant.
proof fn lemma_new_object_inv(m: KernelModel, m2: KernelModel)
    requires
        m.inv(),
        m2.tasks == m.tasks,
        m2.ready == m.ready,
        m2.timers == m.timers,
        m2.semaphores.len() >= m.semaphores.len(),
        m2.eventflags.len() >= m.eventflags.len(),
        forall|s: int| 0 <= s < m.semaphores.len() ==> #[trigger] m2.semaphores[s] == m.semaphores[s],
        forall|f: int| 0 <= f < m.eventflags.len() ==> #[trigger] m2.eventflags[f] == m.eventflags[f],
        forall|s: int| m.semaphores.len() <= s < m2.semaphores.len() ==> (#[trigger] m2.semaphores[s]).queue.len() == 0,
        forall|f: int| m.eventflags.len() <= f < m2.eventflags.len() ==> (#[trigger] m2.eventflags[f]).queue.len() == 0,
    ensures
        m2.inv(),
{
    assert forall|q: QueueId| m.valid_queue(q) implies #[trigger] m2.queue(q) == m.queue(q) && m2.valid_queue(q) by {
        match q {
            QueueId::Semaphore(i) => {
                assert(m2.semaphores[i as int] == m.semaphores[i as int]);
            },
            QueueId::Eventflag(i) => {
                assert(m2.eventflags[i as int] == m.eventflags[i as int]);
            },
            _ => {},
        }
    }
    assert forall|q: QueueId| m2.valid_queue(q) && !m.valid_queue(q) implies #[trigger] m2.queue(q).len() == 0 by {
        match q {
            QueueId::Semaphore(i) => {
                assert(m2.semaphores[i as int].queue.len() == 0);
            },
            QueueId::Eventflag(i) => {
                assert(m2.eventflags[i as int].queue.len() == 0);
            },
            _ => {},
        }
    }
    assert forall|q: QueueId| m2.valid_queue(q) implies priority_queue::ids_distinct(#[trigger] m2.queue(q)) by {
        if m.valid_queue(q) {
            assert(m2.queue(q) == m.queue(q));
        } else {
            assert(m2.queue(q).len() == 0);
        }
    }
    assert forall|q: QueueId, i: int| m2.valid_queue(q) && 0 <= i < m2.queue(q).len() implies {
        let e = #[trigger] m2.queue(q)[i];
        &&& e.id < m2.tasks.len()
        &&& m2.tasks[e.id as int].queue == Some(q)
        &&& e.priority == m2.tasks[e.id as int].priority as i64
    } by {
        if m.valid_queue(q) {
            assert(m2.queue(q) == m.queue(q));
            let e = m.queue(q)[i];
        } else {
            assert(m2.queue(q).len() == 0);
        }
    }
    assert forall|t: int| 0 <= t < m2.tasks.len() && (#[trigger] m2.tasks[t]).queue is Some implies {
        let q = m2.tasks[t].queue.unwrap();
        &&& m2.valid_queue(q)
        &&& priority_queue::has_id(m2.queue(q), t as usize)
    } by {
        assert(m.tasks[t].queue is Some);
        let q = m.tasks[t].queue.unwrap();
        assert(m2.queue(q) == m.queue(q));
    }
    assert forall|i: int|
        0 <= i < m2.semaphores.len() && (#[trigger] m2.semaphores[i]).order == Order::Priority implies priority_queue::sorted_by_priority(
        m2.semaphores[i].queue,
    ) by {
        if i < m.semaphores.len() {
            assert(m2.semaphores[i] == m.semaphores[i]);
        }
    }
    assert forall|i: int| 0 <= i < m2.semaphores.len() && (#[trigger] m2.semaphores[i]).count > 0 implies m2.semaphores[i].queue.len() == 0 by {
        if i < m.semaphores.len() {
            assert(m2.semaphores[i] == m.semaphores[i]);
        }
    }
    assert forall|f: int| 0 <= f < m2.eventflags.len() implies (#[trigger] m2.eventflags[f]).queue.len() <= 1 by {
        if f < m.eventflags.len() {
            assert(m2.eventflags[f] == m.eventflags[f]);
        }
    }
}

/// The running task is a registered task, stands in the ready queue, has no
/// pending timeout, and no ready task has a smaller priority value.
pub proof fn lemma_current_task(m: KernelModel)
    requires
        m.inv(),
        m.ready.len() > 0,
    ensures
        m.ready[0].id < m.tasks.len(),
        m.tasks[m.ready[0].id as int].queue == Some(QueueId::Ready),
        !m.tasks[m.ready[0].id as int].timeout,
        forall|i: int| 0 <= i < m.ready.len() ==> m.ready[0].priority <= #[trigger] m.ready[i].priority,
{
    assert(m.queue(QueueId::Ready)[0] == m.ready[0]);
    let t = m.ready[0].id;
    if m.tasks[t as int].timeout {
        assert(m.tasks[t as int].queue != Some(QueueId::Ready));
    }
}

/// Taking the running task out of the ready queue: it is in no queue, no
/// longer ready, the rest of the ready queue keeps its order, and nothing else
/// changes.
pub proof fn lemma_running_task_leaves_ready(m: KernelModel)
    requires
        m.inv(),
        m.ready.len() > 0,
    ensures
        ({
            let t = m.ready[0].id;
            let m1 = m.detach_from_queue(t);
            &&& m1.tasks.len() == m.tasks.len()
            &&& m1.tasks[t as int].queue is None
            &&& !m1.tasks[t as int].timeout
            &&& m1.tasks[t as int].actcnt == m.tasks[t as int].actcnt
            &&& m1.ready == m.ready.drop_first()
            &&& !priority_queue::has_id(m1.ready, t)
            &&& m1.timers == m.timers
            &&& m1.semaphores == m.semaphores
            &&& m1.eventflags == m.eventflags
            &&& m1.system == m.system
            &&& m1.time == m.time
            &&& forall|x: int| 0 <= x < m.tasks.len() && x != t ==> #[trigger] m1.tasks[x] == m.tasks[x]
        }),
{
    lemma_current_task(m);
    let t = m.ready[0].id;
    assert(priority_queue::is_first_position(m.ready, t, 0));
    priority_queue::lemma_position_of_unique(m.ready, t, 0);
    assert(m.queue(QueueId::Ready) == m.ready);
    assert(priority_queue::ids_distinct(m.queue(QueueId::Ready)));
    priority_queue::lemma_remove_keeps_distinct(m.ready, 0);
    assert(m.ready.remove(0) =~= m.ready.drop_first());
}

/// Queueing a task that is in no queue into a wait queue `q`: it stands in
/// `q` and nowhere else is touched but its control block's queue.
pub proof fn lemma_task_enters_wait_queue(m: KernelModel, t: usize, q: QueueId, order: Order)
    requires
        t < m.tasks.len(),
        q != QueueId::Ready,
        m.valid_queue(q),
    ensures
        ({
            let m2 = m.attach_to_queue(t, q, order);
            &&& m2.tasks.len() == m.tasks.len()
            &&& m2.tasks[t as int].queue == Some(q)
            &&& m2.tasks[t as int].timeout == m.tasks[t as int].timeout
            &&& m2.tasks[t as int].actcnt == m.tasks[t as int].actcnt
            &&& priority_queue::has_id(m2.queue(q), t)
            &&& m2.queue(q).len() == m.queue(q).len() + 1
            &&& m2.ready == m.ready
            &&& m2.timers == m.timers
            &&& m2.system == m.system
            &&& m2.time == m.time
            &&& forall|x: int| 0 <= x < m.tasks.len() && x != t ==> #[trigger] m2.tasks[x] == m.tasks[x]
        }),
{
    let e = m.task_entry(t);
    let sq = m.queue(q);
    match order {
        Order::Priority => {
            priority_queue::lemma_priority_insert_index_exists(sq, e.priority);
            let k = priority_queue::priority_insert_index(sq, e.priority);
            assert(sq.insert(k, e)[k] == e);
            assert(m.attach_to_queue(t, q, order).queue(q) == sq.insert(k, e));
        },
        Order::Fifo => {
            assert(sq.push(e)[sq.len() as int] == e);
            assert(m.attach_to_queue(t, q, order).queue(q) == sq.push(e));
        },
    }
}

/// Giving task `t` a timeout of `time` ticks: the timeout queue holds `t` with
/// exactly `time` ticks remaining, and gains that one entry.
pub proof fn lemma_task_gets_timeout(m: KernelModel, t: usize, time: RelativeTime)
    requires
        t < m.tasks.len(),
    ensures
        ({
            let m2 = m.attach_to_timeout(t, time);
            &&& m2.tasks.len() == m.tasks.len()
            &&& m2.tasks[t as int].timeout
            &&& m2.tasks[t as int].queue == m.tasks[t as int].queue
            &&& m2.tasks[t as int].actcnt == m.tasks[t as int].actcnt
            &&& m2.timers.contains((t, time as int))
            &&& m2.timers.len() == m.timers.len() + 1
            &&& m2.ready == m.ready
            &&& m2.semaphores == m.semaphores
            &&& m2.eventflags == m.eventflags
            &&& m2.system == m.system
            &&& forall|x: int| 0 <= x < m.tasks.len() && x != t ==> #[trigger] m2.tasks[x] == m.tasks[x]
        }),
{
    timeout_queue::lemma_split_index_exists(m.timers, time as int);
    let k = timeout_queue::split_index(m.timers, time as int);
    assert(m.timers.insert(k, (t, time as int))[k] == (t, time as int));
}

/// Activation always counts: the task's pending activations grow by one
/// whatever queue it is in. A task that waits or is ready keeps its queue and
/// nothing else changes; a task in no queue becomes ready and a task switch is
/// reserved. No other task is touched.
pub proof fn lemma_activate_effects(m: KernelModel, t: usize)
    requires
        m.inv(),
        t < m.tasks.len(),
        m.tasks[t as int].actcnt < ActivateCount::MAX,
    ensures
        ({
            let m2 = m.activate(t);
            &&& m2.tasks.len() == m.tasks.len()
            &&& m2.tasks[t as int].actcnt == m.tasks[t as int].actcnt + 1
            &&& m2.tasks[t as int].priority == m.tasks[t as int].priority
            &&& forall|x: int| 0 <= x < m.tasks.len() && x != t ==> #[trigger] m2.tasks[x] == m.tasks[x]
            &&& m2.timers == m.timers
            &&& m.tasks[t as int].queue is Some ==> {
                &&& m2.tasks[t as int].queue == m.tasks[t as int].queue
                &&& m2.ready == m.ready
                &&& m2.semaphores == m.semaphores
                &&& m2.eventflags == m.eventflags
                &&& m2.system == m.system
            }
            &&& m.tasks[t as int].queue is None ==> {
                &&& m2.tasks[t as int].queue == Some(QueueId::Ready)
                &&& priority_queue::has_id(m2.ready, t)
                &&& m2.ready.len() == m.ready.len() + 1
                &&& m2.semaphores == m.semaphores
                &&& m2.eventflags == m.eventflags
                &&& m2.system.dispatch_reserve
            }
        }),
{
    let m1 = m.with_task(t, Task { actcnt: (m.tasks[t as int].actcnt + 1) as ActivateCount, ..m.tasks[t as int] });
    if m.tasks[t as int].queue is None {
        let e = m1.task_entry(t);
        priority_queue::lemma_priority_insert_index_exists(m1.ready, e.priority);
        let k = priority_queue::priority_insert_index(m1.ready, e.priority);
        assert(m1.ready.insert(k, e)[k] == e);
        assert(m1.attach_to_ready_queue(t).ready == m1.ready.insert(k, e));
    }
}

/// Starting an activation uses up exactly one pending activation, if there is
/// one, and changes nothing else; with none pending nothing changes.
pub proof fn lemma_consume_activation_effects(m: KernelModel, t: usize)
    requires
        t < m.tasks.len(),
    ensures
        ({
            let m2 = m.consume_activation(t);
            &&& m2.tasks.len() == m.tasks.len()
            &&& m2.tasks[t as int].actcnt == (if m.tasks[t as int].actcnt > 0 {
                m.tasks[t as int].actcnt - 1
            } else {
                0
            })
            &&& m2.tasks[t as int].queue == m.tasks[t as int].queue
            &&& m2.tasks[t as int].timeout == m.tasks[t as int].timeout
            &&& forall|x: int| 0 <= x < m.tasks.len() && x != t ==> #[trigger] m2.tasks[x] == m.tasks[x]
            &&& m2.ready == m.ready
            &&& m2.timers == m.timers
            &&& m2.semaphores == m.semaphores
            &&& m2.eventflags == m.eventflags
            &&& m2.system == m.system
        }),
{
}

/// Timeouts change the system state only by reserving a task switch, once
/// any task has timed out.
proof fn lemma_timeout_all_system(m: KernelModel, ids: Seq<usize>)
    ensures
        timeout_all(m, ids).system == (if ids.len() > 0 {
            SystemControlBlock { dispatch_reserve: true, ..m.system }
        } else {
            m.system
        }),
    decreases ids.len(),
{
    if ids.len() > 0 {
        let m1 = m.timeout_task(ids[0]);
        assert(m1.system == SystemControlBlock { dispatch_reserve: true, ..m.system });
        lemma_timeout_all_system(m1, ids.drop_first());
    }
}

/// A tick that makes any timeout fall due reserves a task switch, so the woken
/// task is switched to as soon as that is allowed; a tick that makes none fall
/// due leaves the system state and every task as they were.
pub proof fn lemma_timeout_reserves_dispatch(m: KernelModel, tick: RelativeTime)
    requires
        m.inv(),
    ensures
        (exists|i: int| 0 <= i < m.timers.len() && #[trigger] m.timers[i].1 <= tick) ==> m.supply_tick(tick).system.dispatch_reserve,
        !(exists|i: int| 0 <= i < m.timers.len() && #[trigger] m.timers[i].1 <= tick) ==> {
            &&& m.supply_tick(tick).system == m.system
            &&& m.supply_tick(tick).tasks == m.tasks
        },
{
    timeout_queue::lemma_tick_expires_exactly_due(m.timers, tick as int);
    timeout_queue::lemma_split_index_exists(m.timers, tick as int);
    let k = timeout_queue::split_index(m.timers, tick as int);
    let expired = timeout_queue::timer_ids(m.timers.subrange(0, k));
    let m1 = KernelModel {
        timers: timeout_queue::timers_elapsed(m.timers.subrange(k, m.timers.len() as int), tick as int),
        ..m
    };
    lemma_timeout_all_system(m1, expired);
    assert(expired.len() == k);
    if exists|i: int| 0 <= i < m.timers.len() && #[trigger] m.timers[i].1 <= tick {
        let i = choose|i: int| 0 <= i < m.timers.len() && #[trigger] m.timers[i].1 <= tick;
        assert(i < k);
    } else {
        if k > 0 {
            assert(m.timers[0].1 <= tick);
        }
        assert(expired.len() == 0);
        assert(timeout_all(m1, expired) == m1);
    }
}

/// Timeouts do not touch the clock.
proof fn lemma_timeout_all_time(m: KernelModel, ids: Seq<usize>)
    ensures
        timeout_all(m, ids).time == m.time,
    decreases ids.len(),
{
    if ids.len() > 0 {
        lemma_timeout_all_time(m.timeout_task(ids[0]), ids.drop_first());
    }
}

/// A task in no queue does not occur in any queue.
proof fn lemma_unqueued_absent(m: KernelModel, t: usize, q: QueueId)
    requires
        m.queues_consistent(),
        t < m.tasks.len(),
        m.tasks[t as int].queue is None,
        m.valid_queue(q),
    ensures
        !priority_queue::has_id(m.queue(q), t),
{
    if priority_queue::has_id(m.queue(q), t) {
        let i = choose|i: int| 0 <= i < m.queue(q).len() && m.queue(q)[i].id == t;
        assert(m.queue(q)[i].id == t);
    }
}

/// A queued task occurs only in its own queue.
proof fn lemma_queued_only_in_own(m: KernelModel, t: usize, q: QueueId)
    requires
        m.queues_consistent(),
        m.valid_queue(q),
        priority_queue::has_id(m.queue(q), t),
    ensures
        t < m.tasks.len(),
        m.tasks[t as int].queue == Some(q),
{
    let i = choose|i: int| 0 <= i < m.queue(q).len() && m.queue(q)[i].id == t;
    assert(m.queue(q)[i].id == t);
}

/// The queues of a model with queue `q` replaced.
proof fn lemma_with_queue(m: KernelModel, q: QueueId, s: Seq<QueueEntry>)
    requires
        m.valid_queue(q),
    ensures
        forall|r: QueueId| #[trigger] m.with_queue(q, s).valid_queue(r) == m.valid_queue(r),
        forall|r: QueueId| m.valid_queue(r) ==> #[trigger] m.with_queue(q, s).queue(r) == (if r == q { s } else { m.queue(r) }),
        m.with_queue(q, s).tasks == m.tasks,
        m.with_queue(q, s).timers == m.timers,
        m.with_queue(q, s).system == m.system,
        m.with_queue(q, s).time == m.time,
        m.with_queue(q, s).semaphores.len() == m.semaphores.len(),
        m.with_queue(q, s).eventflags.len() == m.eventflags.len(),
        forall|i: int| 0 <= i < m.semaphores.len() ==> #[trigger] m.with_queue(q, s).semaphores[i].order == m.semaphores[i].order
            && m.with_queue(q, s).semaphores[i].count == m.semaphores[i].count,
{
}

/// Queueing a task that is in no queue keeps the invariant, given the
/// conditions each kind of queue sets.
proof fn lemma_attach_inv(m: KernelModel, t: usize, q: QueueId, order: Order, pending: Set<usize>)
    requires
        m.inv_with(pending),
        t < m.tasks.len(),
        m.tasks[t as int].queue is None,
        m.valid_queue(q),
        q == QueueId::Ready ==> order == Order::Priority && !m.tasks[t as int].timeout,
        q matches QueueId::Semaphore(s) ==> order == m.semaphores[s as int].order && m.semaphores[s as int].count == 0,
        q matches QueueId::Eventflag(f) ==> m.eventflags[f as int].queue.len() == 0,
    ensures
        m.attach_to_queue(t, q, order).inv_with(pending),
{
    let e = m.task_entry(t);
    let s = m.queue(q);
    let k = match order {
        Order::Priority => priority_queue::priority_insert_index(s, e.priority),
        Order::Fifo => s.len() as int,
    };
    priority_queue::lemma_priority_insert_index_exists(s, e.priority);
    let s2 = s.insert(k, e);
    assert(match order {
        Order::Priority => s.insert(priority_queue::priority_insert_index(s, e.priority), e),
        Order::Fifo => s.push(e),
    } =~= s2);
    let m1 = m.with_queue(q, s2);
    let m2 = m1.with_task(t, Task { queue: Some(q), ..m.tasks[t as int] });
    assert(m.attach_to_queue(t, q, order) == m2);
    lemma_with_queue(m, q, s2);
    lemma_unqueued_absent(m, t, q);
    priority_queue::lemma_insert_keeps_distinct(s, k, e);
    assert forall|r: QueueId| m2.valid_queue(r) implies priority_queue::ids_distinct(#[trigger] m2.queue(r)) by {
        assert(m2.queue(r) == m1.queue(r));
        if r != q {
            assert(priority_queue::ids_distinct(m.queue(r)));
        }
    }
    assert forall|r: QueueId, i: int| m2.valid_queue(r) && 0 <= i < m2.queue(r).len() implies {
        let x = #[trigger] m2.queue(r)[i];
        &&& x.id < m2.tasks.len()
        &&& m2.tasks[x.id as int].queue == Some(r)
        &&& x.priority == m2.tasks[x.id as int].priority as i64
    } by {
        assert(m2.queue(r) == m1.queue(r));
        if r == q {
            if i < k {
                assert(s2[i] == s[i]);
                assert(m.queue(q)[i] == s[i]);
                if s[i].id == t {
                    assert(priority_queue::has_id(s, t));
                }
            } else if i > k {
                assert(s2[i] == s[i - 1]);
                assert(m.queue(q)[i - 1] == s[i - 1]);
                if s[i - 1].id == t {
                    assert(priority_queue::has_id(s, t));
                }
            }
        } else {
            let x = m.queue(r)[i];
            assert(m2.queue(r)[i] == x);
            lemma_unqueued_absent(m, t, r);
            if x.id == t {
                assert(priority_queue::has_id(m.queue(r), t));
            }
        }
    }
    assert forall|x: int| 0 <= x < m2.tasks.len() && (#[trigger] m2.tasks[x]).queue is Some implies {
        let r = m2.tasks[x].queue.unwrap();
        &&& m2.valid_queue(r)
        &&& priority_queue::has_id(m2.queue(r), x as usize)
    } by {
        if x == t {
            assert(s2[k] == e);
        } else {
            let r = m.tasks[x].queue.unwrap();
            assert(m2.tasks[x] == m.tasks[x]);
            assert(priority_queue::has_id(m.queue(r), x as usize));
        }
    }
    assert forall|i: int| 0 <= i < m2.timers.len() implies {
        let id = (#[trigger] m2.timers[i]).0;
        &&& id < m2.tasks.len()
        &&& m2.tasks[id as int].timeout
        &&& !pending.contains(id)
    } by {
        let id = m.timers[i].0;
        assert(m.tasks[id as int].timeout);
    }
    assert forall|x: int| 0 <= x < m2.tasks.len() && (#[trigger] m2.tasks[x]).timeout implies (timeout_queue::has_timer(m2.timers, x as usize)
        || pending.contains(x as usize)) by {
        assert(m.tasks[x].timeout);
    }
    assert forall|x: int| 0 <= x < m2.tasks.len() && (#[trigger] m2.tasks[x]).timeout implies m2.tasks[x].queue != Some(QueueId::Ready) by {
        assert(m.tasks[x].timeout);
    }
    if q == QueueId::Ready {
        priority_queue::lemma_insert_keeps_sorted(s, e);
    }
    assert forall|i: int|
        0 <= i < m2.semaphores.len() && (#[trigger] m2.semaphores[i]).order == Order::Priority implies priority_queue::sorted_by_priority(
        m2.semaphores[i].queue,
    ) by {
        match q {
            QueueId::Semaphore(j) => {
                if j as int == i {
                    assert(m2.semaphores[i].queue == s2);
                    priority_queue::lemma_insert_keeps_sorted(s, e);
                } else {
                    assert(m2.semaphores[i] == m.semaphores[i]);
                }
            },
            _ => {
                assert(m2.semaphores[i] == m.semaphores[i]);
            },
        }
    }
    assert forall|i: int| 0 <= i < m2.semaphores.len() && (#[trigger] m2.semaphores[i]).count > 0 implies m2.semaphores[i].queue.len() == 0 by {
        match q {
            QueueId::Semaphore(j) => {
                if j as int != i {
                    assert(m2.semaphores[i] == m.semaphores[i]);
                }
            },
            _ => {
                assert(m2.semaphores[i] == m.semaphores[i]);
            },
        }
    }
    assert forall|f: int| 0 <= f < m2.eventflags.len() implies (#[trigger] m2.eventflags[f]).queue.len() <= 1 by {
        match q {
            QueueId::Eventflag(j) => {
                if j as int != f {
                    assert(m2.eventflags[f] == m.eventflags[f]);
                }
            },
            _ => {
                assert(m2.eventflags[f] == m.eventflags[f]);
            },
        }
    }
}

/// Taking a task out of its queue keeps the invariant.
proof fn lemma_detach_queue_inv(m: KernelModel, t: usize, pending: Set<usize>)
    requires
        m.inv_with(pending),
        t < m.tasks.len(),
    ensures
        m.detach_from_queue(t).inv_with(pending),
{
    if m.tasks[t as int].queue is None {
        return;
    }
    let q = m.tasks[t as int].queue.unwrap();
    let s = m.queue(q);
    assert(m.tasks[t as int].queue is Some);
    assert(priority_queue::has_id(s, t));
    priority_queue::lemma_position_of_exists(s, t);
    let p = priority_queue::position_of(s, t);
    let s2 = s.remove(p);
    let m1 = m.with_queue(q, s2);
    let m2 = m1.with_task(t, Task { queue: None, ..m.tasks[t as int] });
    assert(m.detach_from_queue(t) == m2);
    lemma_with_queue(m, q, s2);
    priority_queue::lemma_remove_keeps_distinct(s, p);
    assert forall|r: QueueId| m2.valid_queue(r) implies priority_queue::ids_distinct(#[trigger] m2.queue(r)) by {
        assert(m2.queue(r) == m1.queue(r));
        if r != q {
            assert(priority_queue::ids_distinct(m.queue(r)));
        }
    }
    assert forall|r: QueueId, i: int| m2.valid_queue(r) && 0 <= i < m2.queue(r).len() implies {
        let x = #[trigger] m2.queue(r)[i];
        &&& x.id < m2.tasks.len()
        &&& m2.tasks[x.id as int].queue == Some(r)
        &&& x.priority == m2.tasks[x.id as int].priority as i64
    } by {
        assert(m2.queue(r) == m1.queue(r));
        if r == q {
            let oi = if i < p { i } else { i + 1 };
            assert(s2[i] == s[oi]);
            assert(m.queue(q)[oi] == s[oi]);
            assert(oi != p);
        } else {
            let x = m.queue(r)[i];
            assert(m2.queue(r)[i] == x);
            if x.id == t {
                assert(m.tasks[t as int].queue == Some(r));
            }
        }
    }
    assert forall|x: int| 0 <= x < m2.tasks.len() && (#[trigger] m2.tasks[x]).queue is Some implies {
        let r = m2.tasks[x].queue.unwrap();
        &&& m2.valid_queue(r)
        &&& priority_queue::has_id(m2.queue(r), x as usize)
    } by {
        let r = m.tasks[x].queue.unwrap();
        assert(m2.tasks[x] == m.tasks[x]);
        assert(priority_queue::has_id(m.queue(r), x as usize));
    }
    assert forall|i: int| 0 <= i < m2.timers.len() implies {
        let id = (#[trigger] m2.timers[i]).0;
        &&& id < m2.tasks.len()
        &&& m2.tasks[id as int].timeout
        &&& !pending.contains(id)
    } by {
        let id = m.timers[i].0;
        assert(m.tasks[id as int].timeout);
    }
    assert forall|x: int| 0 <= x < m2.tasks.len() && (#[trigger] m2.tasks[x]).timeout implies (timeout_queue::has_timer(m2.timers, x as usize)
        || pending.contains(x as usize)) by {
        assert(m.tasks[x].timeout);
    }
    assert forall|x: int| 0 <= x < m2.tasks.len() && (#[trigger] m2.tasks[x]).timeout implies m2.tasks[x].queue != Some(QueueId::Ready) by {
        assert(m.tasks[x].timeout);
    }
    if q == QueueId::Ready {
        priority_queue::lemma_remove_keeps_sorted(s, p);
    }
    assert forall|i: int|
        0 <= i < m2.semaphores.len() && (#[trigger] m2.semaphores[i]).order == Order::Priority implies priority_queue::sorted_by_priority(
        m2.semaphores[i].queue,
    ) by {
        match q {
            QueueId::Semaphore(j) => {
                if j as int == i {
                    assert(m2.semaphores[i].queue == s2);
                    priority_queue::lemma_remove_keeps_sorted(s, p);
                } else {
                    assert(m2.semaphores[i] == m.semaphores[i]);
                }
            },
            _ => {
                assert(m2.semaphores[i] == m.semaphores[i]);
            },
        }
    }
    assert forall|i: int| 0 <= i < m2.semaphores.len() && (#[trigger] m2.semaphores[i]).count > 0 implies m2.semaphores[i].queue.len() == 0 by {
        match q {
            QueueId::Semaphore(j) => {
                if j as int != i {
                    assert(m2.semaphores[i] == m.semaphores[i]);
                } else {
                    assert(m.semaphores[i].count > 0);
                }
            },
            _ => {
                assert(m2.semaphores[i] == m.semaphores[i]);
            },
        }
    }
    assert forall|f: int| 0 <= f < m2.eventflags.len() implies (#[trigger] m2.eventflags[f]).queue.len() <= 1 by {
        match q {
            QueueId::Eventflag(j) => {
                if j as int != f {
                    assert(m2.eventflags[f] == m.eventflags[f]);
                } else {
                    assert(m.eventflags[f].queue.len() <= 1);
                }
            },
            _ => {
                assert(m2.eventflags[f] == m.eventflags[f]);
            },
        }
    }
}

/// Changing only fields of a task control block that the invariant does not
/// speak of keeps the invariant.
proof fn lemma_task_data_inv(m: KernelModel, t: usize, task: Task, pending: Set<usize>)
    requires
        m.inv_with(pending),
        t < m.tasks.len(),
        task.queue == m.tasks[t as int].queue,
        task.timeout == m.tasks[t as int].timeout,
        task.priority == m.tasks[t as int].priority,
    ensures
        m.with_task(t, task).inv_with(pending),
{
    let m2 = m.with_task(t, task);
    assert forall|r: QueueId, i: int| m2.valid_queue(r) && 0 <= i < m2.queue(r).len() implies {
        let x = #[trigger] m2.queue(r)[i];
        &&& x.id < m2.tasks.len()
        &&& m2.tasks[x.id as int].queue == Some(r)
        &&& x.priority == m2.tasks[x.id as int].priority as i64
    } by {
        assert(m2.queue(r) == m.queue(r));
        let x = m.queue(r)[i];
    }
    assert forall|x: int| 0 <= x < m2.tasks.len() && (#[trigger] m2.tasks[x]).queue is Some implies {
        let r = m2.tasks[x].queue.unwrap();
        &&& m2.valid_queue(r)
        &&& priority_queue::has_id(m2.queue(r), x as usize)
    } by {
        assert(m.tasks[x].queue is Some);
    }
    assert forall|i: int| 0 <= i < m2.timers.len() implies {
        let id = (#[trigger] m2.timers[i]).0;
        &&& id < m2.tasks.len()
        &&& m2.tasks[id as int].timeout
        &&& !pending.contains(id)
    } by {
        let id = m.timers[i].0;
        assert(m.tasks[id as int].timeout);
    }
    assert forall|x: int| 0 <= x < m2.tasks.len() && (#[trigger] m2.tasks[x]).timeout implies (timeout_queue::has_timer(m2.timers, x as usize)
        || pending.contains(x as usize)) by {
        assert(m.tasks[x].timeout);
    }
    assert forall|x: int| 0 <= x < m2.tasks.len() && (#[trigger] m2.tasks[x]).timeout implies m2.tasks[x].queue != Some(QueueId::Ready) by {
        assert(m.tasks[x].timeout);
    }
}

/// Cancelling the pending timeout of a task keeps the invariant.
proof fn lemma_detach_timeout_inv(m: KernelModel, t: usize, pending: Set<usize>)
    requires
        m.inv_with(pending),
        t < m.tasks.len(),
        !pending.contains(t),
    ensures
        m.detach_from_timeout(t).inv_with(pending),
{
    if !m.tasks[t as int].timeout {
        return;
    }
    assert(m.tasks[t as int].timeout);
    assert(timeout_queue::has_timer(m.timers, t));
    let p = timeout_queue::timer_position(m.timers, t);
    let ts = m.timers.remove(p);
    let m1 = KernelModel { timers: ts, ..m };
    let m2 = m1.with_task(t, Task { timeout: false, ..m.tasks[t as int] });
    timeout_queue::lemma_remove_timer_valid(m.timers, p);
    assert forall|r: QueueId, i: int| m2.valid_queue(r) && 0 <= i < m2.queue(r).len() implies {
        let x = #[trigger] m2.queue(r)[i];
        &&& x.id < m2.tasks.len()
        &&& m2.tasks[x.id as int].queue == Some(r)
        &&& x.priority == m2.tasks[x.id as int].priority as i64
    } by {
        assert(m2.queue(r) == m.queue(r));
        let x = m.queue(r)[i];
    }
    assert forall|x: int| 0 <= x < m2.tasks.len() && (#[trigger] m2.tasks[x]).queue is Some implies {
        let r = m2.tasks[x].queue.unwrap();
        &&& m2.valid_queue(r)
        &&& priority_queue::has_id(m2.queue(r), x as usize)
    } by {
        assert(m.tasks[x].queue is Some);
    }
    assert forall|i: int| 0 <= i < m2.timers.len() implies {
        let id = (#[trigger] m2.timers[i]).0;
        &&& id < m2.tasks.len()
        &&& m2.tasks[id as int].timeout
        &&& !pending.contains(id)
    } by {
        let oi = if i < p { i } else { i + 1 };
        assert(ts[i] == m.timers[oi]);
        assert(m.timers[oi].0 != m.timers[p].0);
        let id = m.timers[oi].0;
        assert(m.tasks[id as int].timeout);
    }
    assert forall|x: int| 0 <= x < m2.tasks.len() && (#[trigger] m2.tasks[x]).timeout implies (timeout_queue::has_timer(m2.timers, x as usize)
        || pending.contains(x as usize)) by {
        assert(m.tasks[x].timeout);
        assert(x != t);
        if timeout_queue::has_timer(m.timers, x as usize) {
            let j = choose|j: int| 0 <= j < m.timers.len() && m.timers[j].0 == x as usize;
            if j < p {
                assert(ts[j] == m.timers[j]);
            } else {
                assert(j != p);
                assert(ts[j - 1] == m.timers[j]);
            }
        }
    }
    assert forall|x: int| 0 <= x < m2.tasks.len() && (#[trigger] m2.tasks[x]).timeout implies m2.tasks[x].queue != Some(QueueId::Ready) by {
        assert(m.tasks[x].timeout);
    }
}

/// Giving a task in no timeout and not ready a timeout keeps the invariant.
proof fn lemma_attach_timeout_inv(m: KernelModel, t: usize, time: RelativeTime, pending: Set<usize>)
    requires
        m.inv_with(pending),
        t < m.tasks.len(),
        !m.tasks[t as int].timeout,
        m.tasks[t as int].queue != Some(QueueId::Ready),
        !pending.contains(t),
    ensures
        m.attach_to_timeout(t, time).inv_with(pending),
{
    let k = timeout_queue::split_index(m.timers, time as int);
    timeout_queue::lemma_split_index_exists(m.timers, time as int);
    let ts = m.timers.insert(k, (t, time as int));
    let m1 = KernelModel { timers: ts, ..m };
    let m2 = m1.with_task(t, Task { timeout: true, ..m.tasks[t as int] });
    if timeout_queue::has_timer(m.timers, t) {
        let j = choose|j: int| 0 <= j < m.timers.len() && m.timers[j].0 == t;
        assert(m.timers[j].0 == t);
    }
    timeout_queue::lemma_insert_timer_valid(m.timers, k, t, time as int);
    assert forall|r: QueueId, i: int| m2.valid_queue(r) && 0 <= i < m2.queue(r).len() implies {
        let x = #[trigger] m2.queue(r)[i];
        &&& x.id < m2.tasks.len()
        &&& m2.tasks[x.id as int].queue == Some(r)
        &&& x.priority == m2.tasks[x.id as int].priority as i64
    } by {
        assert(m2.queue(r) == m.queue(r));
        let x = m.queue(r)[i];
    }
    assert forall|x: int| 0 <= x < m2.tasks.len() && (#[trigger] m2.tasks[x]).queue is Some implies {
        let r = m2.tasks[x].queue.unwrap();
        &&& m2.valid_queue(r)
        &&& priority_queue::has_id(m2.queue(r), x as usize)
    } by {
        assert(m.tasks[x].queue is Some);
    }
    assert forall|i: int| 0 <= i < m2.timers.len() implies {
        let id = (#[trigger] m2.timers[i]).0;
        &&& id < m2.tasks.len()
        &&& m2.tasks[id as int].timeout
        &&& !pending.contains(id)
    } by {
        if i < k {
            assert(ts[i] == m.timers[i]);
            let id = m.timers[i].0;
            assert(m.tasks[id as int].timeout);
        } else if i > k {
            assert(ts[i] == m.timers[i - 1]);
            let id = m.timers[i - 1].0;
            assert(m.tasks[id as int].timeout);
        }
    }
    assert forall|x: int| 0 <= x < m2.tasks.len() && (#[trigger] m2.tasks[x]).timeout implies (timeout_queue::has_timer(m2.timers, x as usize)
        || pending.contains(x as usize)) by {
        if x == t {
            assert(ts[k].0 == t);
        } else {
            assert(m.tasks[x].timeout);
            if timeout_queue::has_timer(m.timers, x as usize) {
                let j = choose|j: int| 0 <= j < m.timers.len() && m.timers[j].0 == x as usize;
                if j < k {
                    assert(ts[j] == m.timers[j]);
                } else {
                    assert(ts[j + 1] == m.timers[j]);
                }
            }
        }
    }
    assert forall|x: int| 0 <= x < m2.tasks.len() && (#[trigger] m2.tasks[x]).timeout implies m2.tasks[x].queue != Some(QueueId::Ready) by {
        if x != t {
            assert(m.tasks[x].timeout);
        }
    }
}

/// Marking a timed-out task as handled keeps the invariant with one task
/// fewer pending.
proof fn lemma_clear_pending_inv(m: KernelModel, t: usize, pending: Set<usize>)
    requires
        m.inv_with(pending),
        t < m.tasks.len(),
        pending.contains(t),
    ensures
        m.with_task(t, Task { timeout: false, ..m.tasks[t as int] }).inv_with(pending.remove(t)),
{
    let m2 = m.with_task(t, Task { timeout: false, ..m.tasks[t as int] });
    let p2 = pending.remove(t);
    assert forall|r: QueueId, i: int| m2.valid_queue(r) && 0 <= i < m2.queue(r).len() implies {
        let x = #[trigger] m2.queue(r)[i];
        &&& x.id < m2.tasks.len()
        &&& m2.tasks[x.id as int].queue == Some(r)
        &&& x.priority == m2.tasks[x.id as int].priority as i64
    } by {
        assert(m2.queue(r) == m.queue(r));
        let x = m.queue(r)[i];
    }
    assert forall|x: int| 0 <= x < m2.tasks.len() && (#[trigger] m2.tasks[x]).queue is Some implies {
        let r = m2.tasks[x].queue.unwrap();
        &&& m2.valid_queue(r)
        &&& priority_queue::has_id(m2.queue(r), x as usize)
    } by {
        assert(m.tasks[x].queue is Some);
    }
    assert forall|i: int| 0 <= i < m2.timers.len() implies {
        let id = (#[trigger] m2.timers[i]).0;
        &&& id < m2.tasks.len()
        &&& m2.tasks[id as int].timeout
        &&& !p2.contains(id)
    } by {
        let id = m.timers[i].0;
        assert(m.tasks[id as int].timeout);
        assert(!pending.contains(id));
    }
    assert forall|x: int| 0 <= x < m2.tasks.len() && (#[trigger] m2.tasks[x]).timeout implies (timeout_queue::has_timer(m2.timers, x as usize)
        || p2.contains(x as usize)) by {
        assert(m.tasks[x].timeout);
    }
    assert forall|x: int| 0 <= x < m2.tasks.len() && (#[trigger] m2.tasks[x]).timeout implies m2.tasks[x].queue != Some(QueueId::Ready) by {
        assert(m.tasks[x].timeout);
    }
}

/// Right after the timeout queue has let `tick` ticks pass, the invariant holds
/// with the expired tasks pending.
proof fn lemma_after_tick_inv(m: KernelModel, tick: RelativeTime)
    requires
        m.inv(),
    ensures
        ({
            let k = timeout_queue::split_index(m.timers, tick as int);
            let expired = timeout_queue::timer_ids(m.timers.subrange(0, k));
            let m1 = KernelModel {
                timers: timeout_queue::timers_elapsed(m.timers.subrange(k, m.timers.len() as int), tick as int),
                ..m
            };
            &&& m1.inv_with(Set::new(|x: usize| expired.contains(x)))
            &&& forall|i: int, j: int| 0 <= i < expired.len() && 0 <= j < expired.len() && i != j ==> expired[i] != expired[j]
            &&& forall|i: int| 0 <= i < expired.len() ==> #[trigger] expired[i] < m.tasks.len()
        }),
{
    let k = timeout_queue::split_index(m.timers, tick as int);
    timeout_queue::lemma_split_index_exists(m.timers, tick as int);
    let expired = timeout_queue::timer_ids(m.timers.subrange(0, k));
    let rest = m.timers.subrange(k, m.timers.len() as int);
    let ts = timeout_queue::timers_elapsed(rest, tick as int);
    let m1 = KernelModel { timers: ts, ..m };
    let pending = Set::new(|x: usize| expired.contains(x));
    lemma_queues_frame(m, m1);
    timeout_queue::lemma_elapsed_timer_valid(m.timers, k, tick as int);
    assert forall|i: int| 0 <= i < expired.len() implies #[trigger] expired[i] == m.timers[i].0 && expired[i] < m.tasks.len() by {
        assert(m.timers[i].0 < m.tasks.len());
    }
    assert forall|i: int, j: int| 0 <= i < expired.len() && 0 <= j < expired.len() && i != j implies expired[i] != expired[j] by {
        assert(expired[i] == m.timers[i].0);
        assert(expired[j] == m.timers[j].0);
    }
    assert forall|i: int| 0 <= i < m1.timers.len() implies {
        let id = (#[trigger] m1.timers[i]).0;
        &&& id < m1.tasks.len()
        &&& m1.tasks[id as int].timeout
        &&& !pending.contains(id)
    } by {
        let id = m.timers[i + k].0;
        assert(ts[i].0 == id);
        assert(m.tasks[id as int].timeout);
        if expired.contains(id) {
            let j = choose|j: int| 0 <= j < expired.len() && expired[j] == id;
            assert(expired[j] == m.timers[j].0);
        }
    }
    assert forall|x: int| 0 <= x < m1.tasks.len() && (#[trigger] m1.tasks[x]).timeout implies (timeout_queue::has_timer(m1.timers, x as usize)
        || pending.contains(x as usize)) by {
        assert(timeout_queue::has_timer(m.timers, x as usize));
        let j = choose|j: int| 0 <= j < m.timers.len() && m.timers[j].0 == x as usize;
        if j < k {
            assert(expired[j] == x as usize);
        } else {
            assert(ts[j - k].0 == x as usize);
        }
    }
}

/// A task stands in at most one queue.
pub proof fn lemma_task_in_one_queue(m: KernelModel, t: usize, q1: QueueId, q2: QueueId)
    requires
        m.inv(),
        m.valid_queue(q1),
        m.valid_queue(q2),
        priority_queue::has_id(m.queue(q1), t),
        priority_queue::has_id(m.queue(q2), t),
    ensures
        q1 == q2,
{
    lemma_queued_only_in_own(m, t, q1);
    lemma_queued_only_in_own(m, t, q2);
}

/// A semaphore that holds resources has no waiting task, and an event flag
/// has at most one.
pub proof fn lemma_object_waiters(m: KernelModel)
    requires
        m.inv(),
    ensures
        forall|s: int| 0 <= s < m.semaphores.len() && #[trigger] m.semaphores[s].count > 0 ==> m.semaphores[s].queue.len() == 0,
        forall|f: int| 0 <= f < m.eventflags.len() ==> #[trigger] m.eventflags[f].queue.len() <= 1,
{
}

/// The timeout of task `t` leaves the other task control blocks and the
/// timeout queue as they were.
proof fn lemma_timeout_task_frame(m: KernelModel, t: usize)
    requires
        t < m.tasks.len(),
    ensures
        m.timeout_task(t).tasks.len() == m.tasks.len(),
        forall|x: int| 0 <= x < m.tasks.len() && x != t ==> #[trigger] m.timeout_task(t).tasks[x] == m.tasks[x],
        m.timeout_task(t).timers == m.timers,
        m.timeout_task(t).tasks[t as int].queue == Some(QueueId::Ready),
        m.timeout_task(t).tasks[t as int].result == Err::<(), Error>(Error::Timeout),
        !m.timeout_task(t).tasks[t as int].timeout,
{
    let m1 = m.with_task(t, Task { timeout: false, ..m.tasks[t as int] });
    let m2 = m1.detach_from_queue(t);
    let q = m1.tasks[t as int].queue;
    if q is Some {
        lemma_with_queue_any(m1, q.unwrap(), m1.queue(q.unwrap()).remove(priority_queue::position_of(m1.queue(q.unwrap()), t)));
    }
    let e = m2.task_entry(t);
    lemma_with_queue_any(m2, QueueId::Ready, m2.ready.insert(priority_queue::priority_insert_index(m2.ready, e.priority), e));
}

/// Replacing a queue's entries leaves the tasks and the timers as they were.
proof fn lemma_with_queue_any(m: KernelModel, q: QueueId, s: Seq<QueueEntry>)
    ensures
        m.with_queue(q, s).tasks == m.tasks,
        m.with_queue(q, s).timers == m.timers,
{
}

/// Handling the timeouts of distinct tasks leaves every other task as it was
/// and makes each of them ready, with its wait failed by `Error::Timeout`.
proof fn lemma_timeout_all_readies(m: KernelModel, ids: Seq<usize>)
    requires
        forall|i: int| 0 <= i < ids.len() ==> #[trigger] ids[i] < m.tasks.len(),
        forall|i: int, j: int| 0 <= i < ids.len() && 0 <= j < ids.len() && i != j ==> ids[i] != ids[j],
    ensures
        timeout_all(m, ids).tasks.len() == m.tasks.len(),
        timeout_all(m, ids).timers == m.timers,
        forall|x: int| 0 <= x < m.tasks.len() && !ids.contains(x as usize) ==> #[trigger] timeout_all(m, ids).tasks[x] == m.tasks[x],
        forall|i: int| 0 <= i < ids.len() ==> {
            let t = timeout_all(m, ids).tasks[#[trigger] ids[i] as int];
            &&& t.queue == Some(QueueId::Ready)
            &&& t.result == Err::<(), Error>(Error::Timeout)
            &&& !t.timeout
        },
    decreases ids.len(),
{
    if ids.len() > 0 {
        let t = ids[0];
        let m1 = m.timeout_task(t);
        let rest = ids.drop_first();
        lemma_timeout_task_frame(m, t);
        assert forall|i: int| 0 <= i < rest.len() implies #[trigger] rest[i] < m1.tasks.len() by {
            assert(rest[i] == ids[i + 1]);
        }
        assert forall|i: int, j: int| 0 <= i < rest.len() && 0 <= j < rest.len() && i != j implies rest[i] != rest[j] by {
            assert(rest[i] == ids[i + 1]);
            assert(rest[j] == ids[j + 1]);
        }
        lemma_timeout_all_readies(m1, rest);
        let f = timeout_all(m, ids);
        assert(f == timeout_all(m1, rest));
        assert(!rest.contains(t)) by {
            if rest.contains(t) {
                let j = choose|j: int| 0 <= j < rest.len() && rest[j] == t;
                assert(ids[j + 1] == t);
            }
        }
        assert forall|x: int| 0 <= x < m.tasks.len() && !ids.contains(x as usize) implies #[trigger] f.tasks[x] == m.tasks[x] by {
            assert(x != t as int) by {
                if x == t as int {
                    assert(ids[0] == t);
                }
            }
            if rest.contains(x as usize) {
                let j = choose|j: int| 0 <= j < rest.len() && rest[j] == x as usize;
                assert(ids[j + 1] == x as usize);
            }
        }
        assert forall|i: int| 0 <= i < ids.len() implies {
            let u = f.tasks[#[trigger] ids[i] as int];
            &&& u.queue == Some(QueueId::Ready)
            &&& u.result == Err::<(), Error>(Error::Timeout)
            &&& !u.timeout
        } by {
            if i > 0 {
                assert(ids[i] == rest[i - 1]);
            }
        }
    }
}

/// When `tick` ticks pass, every task whose timeout falls due within them is
/// made ready with its wait failed by `Error::Timeout`; the other timeouts stay
/// pending, `tick` ticks nearer; tasks without a due timeout keep their control
/// blocks.
pub proof fn lemma_supply_tick_wakes_due_tasks(m: KernelModel, tick: RelativeTime)
    requires
        m.inv(),
    ensures
        ({
            let m2 = m.supply_tick(tick);
            let k = timeout_queue::split_index(m.timers, tick as int);
            &&& m2.timers == timeout_queue::timers_elapsed(m.timers.subrange(k, m.timers.len() as int), tick as int)
            &&& forall|i: int| 0 <= i < m.timers.len() && #[trigger] m.timers[i].1 <= tick ==> {
                let t = m2.tasks[m.timers[i].0 as int];
                &&& t.queue == Some(QueueId::Ready)
                &&& t.result == Err::<(), Error>(Error::Timeout)
                &&& !t.timeout
            }
            &&& forall|x: int| 0 <= x < m.tasks.len() && !(m.tasks[x].timeout && exists|i: int| 0 <= i < m.timers.len() && m.timers[i].0 == x && m.timers[i].1 <= tick)
                ==> #[trigger] m2.tasks[x] == m.tasks[x]
        }),
{
    lemma_after_tick_inv(m, tick);
    timeout_queue::lemma_tick_expires_exactly_due(m.timers, tick as int);
    timeout_queue::lemma_split_index_exists(m.timers, tick as int);
    let k = timeout_queue::split_index(m.timers, tick as int);
    let expired = timeout_queue::timer_ids(m.timers.subrange(0, k));
    let m1 = KernelModel {
        timers: timeout_queue::timers_elapsed(m.timers.subrange(k, m.timers.len() as int), tick as int),
        ..m
    };
    lemma_timeout_all_readies(m1, expired);
    let m2 = m.supply_tick(tick);
    assert(m2 == timeout_all(m1, expired));
    assert forall|i: int| 0 <= i < m.timers.len() && #[trigger] m.timers[i].1 <= tick implies {
        let t = m2.tasks[m.timers[i].0 as int];
        &&& t.queue == Some(QueueId::Ready)
        &&& t.result == Err::<(), Error>(Error::Timeout)
        &&& !t.timeout
    } by {
        assert(i < k);
        assert(expired[i] == m.timers[i].0);
    }
    assert forall|x: int| 0 <= x < m.tasks.len() && !(m.tasks[x].timeout && exists|i: int| 0 <= i < m.timers.len() && m.timers[i].0 == x && m.timers[i].1 <= tick)
        implies #[trigger] m2.tasks[x] == m.tasks[x] by {
        if expired.contains(x as usize) {
            let j = choose|j: int| 0 <= j < expired.len() && expired[j] == x as usize;
            assert(expired[j] == m.timers[j].0);
            assert(j < k);
            assert(m.timers[j].1 <= tick);
            assert(m.tasks[x].timeout);
        }
    }
}

/// The kernel: tasks, kernel objects, queues and system state.
pub struct Kernel {
    tasks: Vec<Task>,
    ready_queue: PriorityQueue,
    timeout_queue: TimeoutQueue,
    semaphores: Vec<Semaphore>,
    eventflags: Vec<Eventflag>,
    system: SystemControlBlock,
    system_time: SystemTime,
}

impl View for Kernel {
    type V = KernelModel;

    closed spec fn view(&self) -> KernelModel {
        KernelModel {
            tasks: self.tasks@,
            ready: self.ready_queue@,
            timers: self.timeout_queue@,
            semaphores: self.semaphores@.map_values(|s: Semaphore| s.model()),
            eventflags: self.eventflags@.map_values(|f: Eventflag| f.model()),
            system: self.system,
            time: self.system_time,
        }
    }
}

impl Kernel {
    /// The kernel is well formed.
    pub open spec fn wf(&self) -> bool {
        self@.inv()
    }

    /// A kernel with no task and no object, the clock at zero and all system
    /// flags clear.
    pub fn new() -> (k: Self)
        ensures
            k.wf(),
            k@.tasks.len() == 0,
            k@.ready.len() == 0,
            k@.timers.len() == 0,
            k@.semaphores.len() == 0,
            k@.eventflags.len() == 0,
            k@.time == 0,
            !k@.system.interrupt,
            !k@.system.cpu_lock,
            !k@.system.dispatch_disable,
            !k@.system.dispatch_reserve,
    {
        let k = Kernel {
            tasks: Vec::new(),
            ready_queue: PriorityQueue::new(),
            timeout_queue: TimeoutQueue::new(),
            semaphores: Vec::new(),
            eventflags: Vec::new(),
            system: SystemControlBlock::new(),
            system_time: 0,
        };
        proof {
            assert(k@.semaphores =~= Seq::<SemaphoreModel>::empty());
            assert(k@.eventflags =~= Seq::<EventflagModel>::empty());
            assert forall|q: QueueId| k@.valid_queue(q) implies priority_queue::ids_distinct(#[trigger] k@.queue(q)) by {
                assert(k@.queue(q) =~= Seq::<QueueEntry>::empty());
            }
        }
        k
    }

    /// The number of tasks.
    pub fn num_tasks(&self) -> (n: usize)
        ensures
            n == self@.tasks.len(),
    {
        self.tasks.len()
    }

    /// The control block of task `id`.
    pub fn task(&self, id: usize) -> (t: &Task)
        requires
            id < self@.tasks.len(),
        ensures
            *t == self@.tasks[id as int],
    {
        &self.tasks[id]
    }

    /// Semaphore `id`.
    pub fn semaphore(&self, id: usize) -> (s: &Semaphore)
        requires
            id < self@.semaphores.len(),
        ensures
            s.model() == self@.semaphores[id as int],
    {
        &self.semaphores[id]
    }

    /// Event flag `id`.
    pub fn eventflag(&self, id: usize) -> (f: &Eventflag)
        requires
            id < self@.eventflags.len(),
        ensures
            f.model() == self@.eventflags[id as int],
    {
        &self.eventflags[id]
    }

    /// The ready queue.
    pub fn ready_queue(&self) -> (q: &PriorityQueue)
        ensures
            q@ == self@.ready,
    {
        &self.ready_queue
    }

    /// The timeout queue.
    pub fn timeout_queue(&self) -> (q: &TimeoutQueue)
        ensures
            q@ == self@.timers,
    {
        &self.timeout_queue
    }

    /// The running task: the head of the ready queue.
    pub fn current_task(&self) -> (t: Option<usize>)
        ensures
            t == self@.current_task(),
    {
        match self.ready_queue.front() {
            None => None,
            Some(e) => Some(e.id),
        }
    }

    /// The system state flags.
    pub fn system(&self) -> (s: &SystemControlBlock)
        ensures
            *s == self@.system,
    {
        &self.system
    }

    /// Inserts `t` into the entries of queue `q`.
    fn queue_insert(&mut self, q: QueueId, t: usize, priority: i64, order: Order)
        requires
            old(self)@.valid_queue(q),
            !priority_queue::has_id(old(self)@.queue(q), t),
        ensures
            final(self)@ == old(self)@.with_queue(
                q,
                match order {
                    Order::Priority => old(self)@.queue(q).insert(
                        priority_queue::priority_insert_index(old(self)@.queue(q), priority),
                        QueueEntry { id: t, priority },
                    ),
                    Order::Fifo => old(self)@.queue(q).push(QueueEntry { id: t, priority }),
                },
            ),
    {
        match q {
            QueueId::Ready => {
                match order {
                    Order::Priority => self.ready_queue.insert_priority_order(t, priority),
                    Order::Fifo => self.ready_queue.push_back(t, priority),
                }
            },
            QueueId::Semaphore(s) => {
                match order {
                    Order::Priority => self.semaphores[s].queue.insert_priority_order(t, priority),
                    Order::Fifo => self.semaphores[s].queue.push_back(t, priority),
                }
            },
            QueueId::Eventflag(f) => {
                match order {
                    Order::Priority => self.eventflags[f].queue.insert_priority_order(t, priority),
                    Order::Fifo => self.eventflags[f].queue.push_back(t, priority),
                }
            },
        }
        proof {
            let s2 = match order {
                Order::Priority => old(self)@.queue(q).insert(
                    priority_queue::priority_insert_index(old(self)@.queue(q), priority),
                    QueueEntry { id: t, priority },
                ),
                Order::Fifo => old(self)@.queue(q).push(QueueEntry { id: t, priority }),
            };
            assert(self@.semaphores =~= old(self)@.with_queue(q, s2).semaphores);
            assert(self@.eventflags =~= old(self)@.with_queue(q, s2).eventflags);
            assert(self@ =~= old(self)@.with_queue(q, s2));
        }
    }

    /// Removes `t` from the entries of queue `q`.
    fn queue_remove(&mut self, q: QueueId, t: usize)
        requires
            old(self)@.valid_queue(q),
            priority_queue::has_id(old(self)@.queue(q), t),
        ensures
            final(self)@ == old(self)@.with_queue(
                q,
                old(self)@.queue(q).remove(priority_queue::position_of(old(self)@.queue(q), t)),
            ),
    {
        match q {
            QueueId::Ready => self.ready_queue.remove(t),
            QueueId::Semaphore(s) => self.semaphores[s].queue.remove(t),
            QueueId::Eventflag(f) => self.eventflags[f].queue.remove(t),
        }
        proof {
            let s2 = old(self)@.queue(q).remove(priority_queue::position_of(old(self)@.queue(q), t));
            assert(self@.semaphores =~= old(self)@.with_queue(q, s2).semaphores);
            assert(self@.eventflags =~= old(self)@.with_queue(q, s2).eventflags);
            assert(self@ =~= old(self)@.with_queue(q, s2));
        }
    }

    /// The head entry of queue `q`.
    pub(crate) fn queue_front(&self, q: QueueId) -> (r: Option<QueueEntry>)
        requires
            self@.valid_queue(q),
        ensures
            r == (if self@.queue(q).len() == 0 { None } else { Some(self@.queue(q)[0]) }),
    {
        match q {
            QueueId::Ready => self.ready_queue.front(),
            QueueId::Semaphore(s) => self.semaphores[s].queue.front(),
            QueueId::Eventflag(f) => self.eventflags[f].queue.front(),
        }
    }

    /// Queues task `t`, which is in no queue, in queue `q`.
    pub(crate) fn attach_to_queue(&mut self, t: usize, q: QueueId, order: Order, Ghost(pending): Ghost<Set<usize>>)
        requires
            old(self)@.inv_with(pending),
            t < old(self)@.tasks.len(),
            old(self)@.tasks[t as int].queue is None,
            old(self)@.valid_queue(q),
            q == QueueId::Ready ==> order == Order::Priority && !old(self)@.tasks[t as int].timeout,
            q matches QueueId::Semaphore(s) ==> order == old(self)@.semaphores[s as int].order
                && old(self)@.semaphores[s as int].count == 0,
            q matches QueueId::Eventflag(f) ==> old(self)@.eventflags[f as int].queue.len() == 0,
        ensures
            final(self)@ == old(self)@.attach_to_queue(t, q, order),
            final(self)@.inv_with(pending),
    {
        proof {
            lemma_unqueued_absent(old(self)@, t, q);
            lemma_attach_inv(old(self)@, t, q, order, pending);
        }
        let priority = self.tasks[t].priority as i64;
        self.queue_insert(q, t, priority, order);
        self.tasks[t].queue = Some(q);
        proof {
            assert(self@ =~= old(self)@.attach_to_queue(t, q, order));
        }
    }

    /// Queues task `t`, which is in no queue and has no pending timeout, in the
    /// ready queue by priority.
    pub(crate) fn attach_to_ready_queue(&mut self, t: usize, Ghost(pending): Ghost<Set<usize>>)
        requires
            old(self)@.inv_with(pending),
            t < old(self)@.tasks.len(),
            old(self)@.tasks[t as int].queue is None,
            !old(self)@.tasks[t as int].timeout,
        ensures
            final(self)@ == old(self)@.attach_to_ready_queue(t),
            final(self)@.inv_with(pending),
    {
        self.attach_to_queue(t, QueueId::Ready, Order::Priority, Ghost(pending));
        proof {
            assert(old(self)@.attach_to_queue(t, QueueId::Ready, Order::Priority) == old(self)@.attach_to_ready_queue(t));
        }
    }

    /// Takes task `t` out of the queue it is in, if any.
    pub(crate) fn detach_queue(&mut self, t: usize, Ghost(pending): Ghost<Set<usize>>)
        requires
            old(self)@.inv_with(pending),
            t < old(self)@.tasks.len(),
        ensures
            final(self)@ == old(self)@.detach_from_queue(t),
            final(self)@.inv_with(pending),
    {
        proof {
            lemma_detach_queue_inv(old(self)@, t, pending);
        }
        match self.tasks[t].queue {
            None => {},
            Some(q) => {
                proof {
                    assert(old(self)@.tasks[t as int].queue is Some);
                }
                self.queue_remove(q, t);
                self.tasks[t].queue = None;
                proof {
                    assert(self@ =~= old(self)@.detach_from_queue(t));
                }
            },
        }
    }

    /// Cancels the pending timeout of task `t`, if any.
    pub(crate) fn detach_timeout(&mut self, t: usize, Ghost(pending): Ghost<Set<usize>>)
        requires
            old(self)@.inv_with(pending),
            t < old(self)@.tasks.len(),
            !pending.contains(t),
        ensures
            final(self)@ == old(self)@.detach_from_timeout(t),
            final(self)@.inv_with(pending),
    {
        proof {
            lemma_detach_timeout_inv(old(self)@, t, pending);
        }
        if self.tasks[t].timeout {
            proof {
                assert(old(self)@.tasks[t as int].timeout);
            }
            self.timeout_queue.remove(t);
            self.tasks[t].timeout = false;
            proof {
                assert(self@ =~= old(self)@.detach_from_timeout(t));
            }
        }
    }

    /// Gives task `t`, which is neither ready nor waiting for a timeout, a
    /// timeout after `time` ticks.
    pub(crate) fn attach_timeout(&mut self, t: usize, time: RelativeTime, Ghost(pending): Ghost<Set<usize>>)
        requires
            old(self)@.inv_with(pending),
            t < old(self)@.tasks.len(),
            !old(self)@.tasks[t as int].timeout,
            old(self)@.tasks[t as int].queue != Some(QueueId::Ready),
            !pending.contains(t),
        ensures
            final(self)@ == old(self)@.attach_to_timeout(t, time),
            final(self)@.inv_with(pending),
    {
        proof {
            lemma_attach_timeout_inv(old(self)@, t, time, pending);
            if timeout_queue::has_timer(old(self)@.timers, t) {
                let j = choose|j: int| 0 <= j < old(self)@.timers.len() && old(self)@.timers[j].0 == t;
                assert(old(self)@.timers[j].0 == t);
            }
        }
        self.timeout_queue.add(t, time);
        self.tasks[t].timeout = true;
        proof {
            assert(self@ =~= old(self)@.attach_to_timeout(t, time));
        }
    }

    /// Records the outcome of task `t`'s timed wait.
    pub(crate) fn set_result(&mut self, t: usize, r: Result<(), Error>, Ghost(pending): Ghost<Set<usize>>)
        requires
            old(self)@.inv_with(pending),
            t < old(self)@.tasks.len(),
        ensures
            final(self)@ == old(self)@.with_result(t, r),
            final(self)@.inv_with(pending),
    {
        proof {
            lemma_task_data_inv(old(self)@, t, Task { result: r, ..old(self)@.tasks[t as int] }, pending);
        }
        self.tasks[t].result = r;
        proof {
            assert(self@ =~= old(self)@.with_result(t, r));
        }
    }

    /// Reserves a task switch.
    pub(crate) fn reserve_dispatch(&mut self)
        ensures
            final(self)@ == old(self)@.reserve_dispatch(),
            forall|p: Set<usize>| old(self)@.inv_with(p) ==> #[trigger] final(self)@.inv_with(p),
    {
        proof {
            assert forall|p: Set<usize>| old(self)@.inv_with(p) implies #[trigger] old(self)@.reserve_dispatch().inv_with(p) by {
                lemma_inv_frame(old(self)@, old(self)@.reserve_dispatch(), p);
            }
        }
        self.system.dispatch_reserve = true;
        proof {
            assert(self@ =~= old(self)@.reserve_dispatch());
        }
    }

    /// Handles the expiry of task `t`'s timeout.
    fn timeout_task(&mut self, t: usize, Ghost(pending): Ghost<Set<usize>>)
        requires
            old(self)@.inv_with(pending),
            t < old(self)@.tasks.len(),
            pending.contains(t),
        ensures
            final(self)@ == old(self)@.timeout_task(t),
            final(self)@.inv_with(pending.remove(t)),
    {
        let ghost rest = pending.remove(t);
        proof {
            lemma_clear_pending_inv(old(self)@, t, pending);
        }
        self.tasks[t].timeout = false;
        proof {
            assert(self@ =~= old(self)@.with_task(t, Task { timeout: false, ..old(self)@.tasks[t as int] }));
        }
        self.detach_queue(t, Ghost(rest));
        self.attach_to_ready_queue(t, Ghost(rest));
        self.set_result(t, Err(Error::Timeout), Ghost(rest));
        self.reserve_dispatch();
    }

    /// Lets `tick` ticks pass for the timeout queue: every due timeout expires,
    /// in order of expiry.
    pub fn supply_time_tick_for_timeout(&mut self, tick: RelativeTime)
        requires
            old(self).wf(),
        ensures
            final(self).wf(),
            final(self)@ == old(self)@.supply_tick(tick),
            final(self)@.time == old(self)@.time,
    {
        let ghost m = self@;
        proof {
            lemma_after_tick_inv(m, tick);
        }
        let expired = self.timeout_queue.sig_tim(tick);
        let ghost k = timeout_queue::split_index(m.timers, tick as int);
        let ghost m1 = KernelModel {
            timers: timeout_queue::timers_elapsed(m.timers.subrange(k, m.timers.len() as int), tick as int),
            ..m
        };
        let n = expired.len();
        proof {
            timeout_queue::lemma_split_index_exists(m.timers, tick as int);
            assert(self@ =~= m1);
            assert(expired@.subrange(0, n as int) =~= expired@);
            let e = timeout_queue::timer_ids(m.timers.subrange(0, k));
            assert(Set::new(|x: usize| expired@.subrange(0, n as int).contains(x)) =~= Set::new(|x: usize| e.contains(x)));
        }
        let mut i: usize = 0;
        while i < n
            invariant
                n == expired@.len(),
                0 <= i <= n,
                expired@ == timeout_queue::timer_ids(m.timers.subrange(0, k)),
                forall|a: int, b: int| 0 <= a < n && 0 <= b < n && a != b ==> expired@[a] != expired@[b],
                forall|a: int| 0 <= a < n ==> #[trigger] expired@[a] < self@.tasks.len(),
                self@.inv_with(Set::new(|x: usize| expired@.subrange(i as int, n as int).contains(x))),
                timeout_all(self@, expired@.subrange(i as int, n as int)) == timeout_all(m1, expired@),
            decreases n - i,
        {
            let t = expired[i];
            let ghost p = Set::new(|x: usize| expired@.subrange(i as int, n as int).contains(x));
            let ghost p2 = Set::new(|x: usize| expired@.subrange(i + 1, n as int).contains(x));
            let ghost before = self@;
            proof {
                assert(expired@.subrange(i as int, n as int)[0] == t);
                assert(p.contains(t));
                assert forall|x: usize| p2.contains(x) <==> p.remove(t).contains(x) by {
                    if p2.contains(x) {
                        let j = choose|j: int| 0 <= j < n - (i + 1) && #[trigger] expired@.subrange(i + 1, n as int)[j] == x;
                        assert(expired@.subrange(i as int, n as int)[j + 1] == x);
                        assert(expired@[i + 1 + j] == x);
                    }
                    if p.remove(t).contains(x) {
                        let j = choose|j: int| 0 <= j < n - i && #[trigger] expired@.subrange(i as int, n as int)[j] == x;
                        assert(expired@[i + j] == x);
                        assert(j != 0);
                        assert(expired@.subrange(i + 1, n as int)[j - 1] == x);
                    }
                }
                assert(p2 =~= p.remove(t));
                assert(expired@.subrange(i as int, n as int).drop_first() =~= expired@.subrange(i + 1, n as int));
            }
            self.timeout_task(t, Ghost(p));
            i = i + 1;
        }
        proof {
            lemma_timeout_all_time(m1, expired@);
            assert(expired@.subrange(n as int, n as int) =~= Seq::<usize>::empty());
            assert(expired@.subrange(0, n as int) =~= expired@);
            assert(Set::new(|x: usize| expired@.subrange(n as int, n as int).contains(x)) =~= Set::<usize>::empty());
        }
    }

    /// The resource count and the order of semaphore `s`.
    pub(crate) fn semaphore_state(&self, s: usize) -> (r: (SemCount, Order))
        requires
            s < self@.semaphores.len(),
        ensures
            r == (self@.semaphores[s as int].count, self@.semaphores[s as int].order),
    {
        (self.semaphores[s].count, self.semaphores[s].order)
    }

    /// Sets the resource count of semaphore `s`; a positive count requires an
    /// empty wait queue.
    pub(crate) fn set_semaphore_count(&mut self, s: usize, count: SemCount, Ghost(pending): Ghost<Set<usize>>)
        requires
            old(self)@.inv_with(pending),
            s < old(self)@.semaphores.len(),
            count > 0 ==> old(self)@.semaphores[s as int].queue.len() == 0,
        ensures
            final(self)@ == old(self)@.with_semaphore_count(s, count),
            final(self)@.inv_with(pending),
    {
        self.semaphores[s].count = count;
        proof {
            assert(self@.semaphores =~= old(self)@.with_semaphore_count(s, count).semaphores);
            assert(self@ =~= old(self)@.with_semaphore_count(s, count));
            lemma_object_data_inv(old(self)@, self@, pending);
        }
    }

    /// The pattern and the wait condition of event flag `f`.
    pub(crate) fn eventflag_state(&self, f: usize) -> (r: (FlagPattern, FlagPattern, WaitFlagMode))
        requires
            f < self@.eventflags.len(),
        ensures
            r == (self@.eventflags[f as int].flg_ptn, self@.eventflags[f as int].wait_ptn, self@.eventflags[f as int].wait_mode),
    {
        (self.eventflags[f].flg_ptn, self.eventflags[f].wait_ptn, self.eventflags[f].wait_mode)
    }

    /// Sets the pattern and the wait condition of event flag `f`.
    pub(crate) fn set_eventflag_state(
        &mut self,
        f: usize,
        flg_ptn: FlagPattern,
        wait_ptn: FlagPattern,
        wait_mode: WaitFlagMode,
        Ghost(pending): Ghost<Set<usize>>,
    )
        requires
            old(self)@.inv_with(pending),
            f < old(self)@.eventflags.len(),
        ensures
            final(self)@ == old(self)@.with_eventflag(f, flg_ptn, wait_ptn, wait_mode),
            final(self)@.inv_with(pending),
    {
        self.eventflags[f].flg_ptn = flg_ptn;
        self.eventflags[f].wait_ptn = wait_ptn;
        self.eventflags[f].wait_mode = wait_mode;
        proof {
            assert(self@.eventflags =~= old(self)@.with_eventflag(f, flg_ptn, wait_ptn, wait_mode).eventflags);
            assert(self@ =~= old(self)@.with_eventflag(f, flg_ptn, wait_ptn, wait_mode));
            lemma_object_data_inv(old(self)@, self@, pending);
        }
    }

    /// Registers a task control block that is in no queue and has no pending
    /// timeout; returns its identifier.
    pub fn add_task(&mut self, task: Task) -> (id: usize)
        requires
            old(self).wf(),
            task.queue is None,
            !task.timeout,
            old(self)@.tasks.len() < usize::MAX,
        ensures
            final(self).wf(),
            id == old(self)@.tasks.len(),
            final(self)@ == (KernelModel { tasks: old(self)@.tasks.push(task), ..old(self)@ }),
    {
        let id = self.tasks.len();
        self.tasks.push(task);
        proof {
            let m = old(self)@;
            let m2 = self@;
            assert(m2 =~= KernelModel { tasks: m.tasks.push(task), ..m });
            assert forall|q: QueueId| #[trigger] m2.queue(q) == m.queue(q) && m2.valid_queue(q) == m.valid_queue(q) by {}
            assert forall|q: QueueId| m2.valid_queue(q) implies priority_queue::ids_distinct(#[trigger] m2.queue(q)) by {
                assert(m2.queue(q) == m.queue(q));
            }
            assert forall|q: QueueId, i: int| m2.valid_queue(q) && 0 <= i < m2.queue(q).len() implies {
                let e = #[trigger] m2.queue(q)[i];
                &&& e.id < m2.tasks.len()
                &&& m2.tasks[e.id as int].queue == Some(q)
                &&& e.priority == m2.tasks[e.id as int].priority as i64
            } by {
                assert(m2.queue(q) == m.queue(q));
                let e = m.queue(q)[i];
                assert(m2.tasks[e.id as int] == m.tasks[e.id as int]);
            }
            assert forall|t: int| 0 <= t < m2.tasks.len() && (#[trigger] m2.tasks[t]).queue is Some implies {
                let q = m2.tasks[t].queue.unwrap();
                &&& m2.valid_queue(q)
                &&& priority_queue::has_id(m2.queue(q), t as usize)
            } by {
                assert(t < m.tasks.len());
                assert(m2.tasks[t] == m.tasks[t]);
                let q = m.tasks[t].queue.unwrap();
                assert(m2.queue(q) == m.queue(q));
            }
            assert forall|i: int| 0 <= i < m2.timers.len() implies {
                let x = (#[trigger] m2.timers[i]).0;
                &&& x < m2.tasks.len()
                &&& m2.tasks[x as int].timeout
                &&& !Set::<usize>::empty().contains(x)
            } by {
                let x = m.timers[i].0;
                assert(m2.tasks[x as int] == m.tasks[x as int]);
            }
            assert forall|t: int| 0 <= t < m2.tasks.len() && (#[trigger] m2.tasks[t]).timeout implies (timeout_queue::has_timer(m2.timers, t as usize)
                || Set::<usize>::empty().contains(t as usize)) by {
                assert(t < m.tasks.len());
                assert(m2.tasks[t] == m.tasks[t]);
            }
            assert forall|t: int| 0 <= t < m2.tasks.len() && (#[trigger] m2.tasks[t]).timeout implies m2.tasks[t].queue != Some(QueueId::Ready) by {
                assert(t < m.tasks.len());
                assert(m2.tasks[t] == m.tasks[t]);
            }
        }
        id
    }

    /// Registers a semaphore that has no waiting task; returns its identifier.
    pub fn add_semaphore(&mut self, sem: Semaphore) -> (id: usize)
        requires
            old(self).wf(),
            sem.model().queue.len() == 0,
            old(self)@.semaphores.len() < usize::MAX,
        ensures
            final(self).wf(),
            id == old(self)@.semaphores.len(),
            final(self)@ == (KernelModel { semaphores: old(self)@.semaphores.push(sem.model()), ..old(self)@ }),
    {
        let id = self.semaphores.len();
        self.semaphores.push(sem);
        proof {
            let m = old(self)@;
            let m2 = self@;
            assert(m2.semaphores =~= m.semaphores.push(sem.model()));
            assert(m2 =~= KernelModel { semaphores: m.semaphores.push(sem.model()), ..m });
            lemma_new_object_inv(m, m2);
        }
        id
    }

    /// Registers an event flag that has no waiting task; returns its identifier.
    pub fn add_eventflag(&mut self, flag: Eventflag) -> (id: usize)
        requires
            old(self).wf(),
            flag.model().queue.len() == 0,
            old(self)@.eventflags.len() < usize::MAX,
        ensures
            final(self).wf(),
            id == old(self)@.eventflags.len(),
            final(self)@ == (KernelModel { eventflags: old(self)@.eventflags.push(flag.model()), ..old(self)@ }),
    {
        let id = self.eventflags.len();
        self.eventflags.push(flag);
        proof {
            let m = old(self)@;
            let m2 = self@;
            assert(m2.eventflags =~= m.eventflags.push(flag.model()));
            assert(m2 =~= KernelModel { eventflags: m.eventflags.push(flag.model()), ..m });
            lemma_new_object_inv(m, m2);
        }
        id
    }

    /// Task `t` starts one pending activation, if it has one; returns whether
    /// it did.
    pub fn consume_activation(&mut self, t: usize) -> (started: bool)
        requires
            old(self).wf(),
            t < old(self)@.tasks.len(),
        ensures
            final(self).wf(),
            started == (old(self)@.tasks[t as int].actcnt > 0),
            final(self)@ == old(self)@.consume_activation(t),
    {
        if self.tasks[t].actcnt > 0 {
            proof {
                lemma_task_data_inv(
                    old(self)@,
                    t,
                    Task { actcnt: (old(self)@.tasks[t as int].actcnt - 1) as ActivateCount, ..old(self)@.tasks[t as int] },
                    Set::empty(),
                );
            }
            self.tasks[t].actcnt = self.tasks[t].actcnt - 1;
            proof {
                assert(self@ =~= old(self)@.consume_activation(t));
            }
            true
        } else {
            false
        }
    }

    /// Takes task `t` out of the queue it is in, if any (a task whose
    /// activations are done leaves the ready queue this way).
    pub fn detach_from_queue(&mut self, t: usize)
        requires
            old(self).wf(),
            t < old(self)@.tasks.len(),
        ensures
            final(self).wf(),
            final(self)@ == old(self)@.detach_from_queue(t),
    {
        self.detach_queue(t, Ghost(Set::empty()));
    }

    /// The system clock.
    pub fn system_time(&self) -> (t: SystemTime)
        ensures
            t == self@.time,
    {
        self.system_time
    }

    /// Sets the system clock.
    pub(crate) fn set_time(&mut self, t: SystemTime)
        ensures
            final(self)@ == (KernelModel { time: t, ..old(self)@ }),
            forall|p: Set<usize>| old(self)@.inv_with(p) ==> #[trigger] final(self)@.inv_with(p),
    {
        self.system_time = t;
        proof {
            assert(self@ =~= KernelModel { time: t, ..old(self)@ });
            assert forall|p: Set<usize>| old(self)@.inv_with(p) implies #[trigger] self@.inv_with(p) by {
                lemma_inv_frame(old(self)@, self@, p);
            }
        }
    }

    /// Gives access to the system state flags.
    pub fn system_mut(&mut self) -> (s: &mut SystemControlBlock)
        ensures
            *s == old(self)@.system,
            final(self)@ == (KernelModel { system: *final(s), ..old(self)@ }),
    {
        &mut self.system
    }
}

} // verus!
