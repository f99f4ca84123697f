//! The system clock, sleeping, and periodic wake-up.
use crate::priority_queue::has_id;
use crate::task::{lemma_running_task_leaves_ready, lemma_task_gets_timeout, Kernel, KernelModel};
use crate::{RelativeTime, SystemTime};
use vstd::prelude::*;

verus! {

/// `a + b` on the wrapping system clock.
pub open spec fn time_add(a: SystemTime, b: int) -> SystemTime {
    ((a + b) % 0x1_0000_0000_0000_0000) as SystemTime
}

/// `a - b` on the wrapping system clock.
pub open spec fn time_sub(a: SystemTime, b: SystemTime) -> SystemTime {
    ((a - b) % 0x1_0000_0000_0000_0000) as SystemTime
}

/// `tick` ticks pass: due timeouts expire and the clock advances, wrapping around.
pub open spec fn supply_time_tick_model(m: KernelModel, tick: RelativeTime) -> KernelModel {
    let m1 = m.supply_tick(tick);
    KernelModel { time: time_add(m.time, tick as int), ..m1 }
}

/// The running task sleeps `time` ticks: it leaves the ready queue, gets a
/// timeout, and a task switch is reserved. Sleeping zero ticks does nothing.
pub open spec fn sleep_model(m: KernelModel, time: RelativeTime) -> KernelModel {
    if time > 0 {
        let t = m.ready[0].id;
        m.detach_from_queue(t).attach_to_timeout(t, time).reserve_dispatch()
    } else {
        m
    }
}

/// What sleeping does. For any positive time the running task leaves the
/// ready queue, is in no queue, and has a timeout of exactly `time` ticks, and
/// a task switch is reserved; the clock and the kernel objects are untouched.
/// Sleeping zero ticks changes nothing.
pub proof fn lemma_sleep_effects(m: KernelModel, time: RelativeTime)
    requires
        m.inv(),
        time > 0 ==> m.ready.len() > 0,
    ensures
        ({
            let m2 = sleep_model(m, time);
            &&& time > 0 ==> {
                let t = m.ready[0].id;
                &&& m2.tasks[t as int].queue is None
                &&& !has_id(m2.ready, t)
                &&& m2.tasks[t as int].timeout
                &&& m2.timers.contains((t, time as int))
                &&& m2.timers.len() == m.timers.len() + 1
                &&& m2.system.dispatch_reserve
                &&& m2.semaphores == m.semaphores
                &&& m2.eventflags == m.eventflags
                &&& m2.time == m.time
            }
            &&& time == 0 ==> m2 == m
        }),
{
    if time > 0 {
        let t = m.ready[0].id;
        lemma_running_task_leaves_ready(m);
        let m1 = m.detach_from_queue(t);
        lemma_task_gets_timeout(m1, t, time);
    }
}

/// A tick advances the clock by exactly `tick`, wrapping around past the
/// largest time; the timeouts are handled exactly as the timeout queue says.
pub proof fn lemma_tick_advances_clock(m: KernelModel, tick: RelativeTime)
    ensures
        supply_time_tick_model(m, tick).time == (if m.time + tick <= SystemTime::MAX {
            m.time + tick
        } else {
            m.time + tick - 0x1_0000_0000_0000_0000
        }),
        supply_time_tick_model(m, tick).tasks == m.supply_tick(tick).tasks,
        supply_time_tick_model(m, tick).timers == m.supply_tick(tick).timers,
        supply_time_tick_model(m, tick).system == m.supply_tick(tick).system,
{
    let x = m.time + tick;
    if x <= SystemTime::MAX {
        vstd::arithmetic::div_mod::lemma_small_mod(x as nat, 0x1_0000_0000_0000_0000);
    } else {
        vstd::arithmetic::div_mod::lemma_small_mod((x - 0x1_0000_0000_0000_0000) as nat, 0x1_0000_0000_0000_0000);
        vstd::arithmetic::div_mod::lemma_mod_sub_multiples_vanish(x, 0x1_0000_0000_0000_0000);
    }
}

/// Supplies `tick` ticks to the kernel.
pub fn supply_time_tick(kernel: &mut Kernel, tick: RelativeTime)
    requires
        old(kernel).wf(),
    ensures
        final(kernel).wf(),
        final(kernel)@ == supply_time_tick_model(old(kernel)@, tick),
{
    kernel.supply_time_tick_for_timeout(tick);
    let now = kernel.system_time();
    kernel.set_time(now.wrapping_add(tick as SystemTime));
    proof {
        assert(kernel@ =~= KernelModel { time: time_add(old(kernel)@.time, tick as int), ..old(kernel)@.supply_tick(tick) });
    }
}

/// Sets the system clock.
pub fn set_system_time(kernel: &mut Kernel, systime: SystemTime)
    requires
        old(kernel).wf(),
    ensures
        final(kernel).wf(),
        final(kernel)@ == (KernelModel { time: systime, ..old(kernel)@ }),
{
    kernel.set_time(systime);
}

/// The system clock.
pub fn system_time(kernel: &Kernel) -> (t: SystemTime)
    ensures
        t == kernel@.time,
{
    kernel.system_time()
}

/// The running task sleeps `time` ticks.
pub fn sleep(kernel: &mut Kernel, time: RelativeTime)
    requires
        old(kernel).wf(),
        time > 0 ==> old(kernel)@.ready.len() > 0,
    ensures
        final(kernel).wf(),
        final(kernel)@ == sleep_model(old(kernel)@, time),
{
    if time > 0 {
        let t = kernel.current_task().unwrap();
        proof {
            crate::task::lemma_current_task(old(kernel)@);
        }
        kernel.detach_queue(t, Ghost(Set::empty()));
        kernel.attach_timeout(t, time, Ghost(Set::empty()));
        kernel.reserve_dispatch();
    }
}

/// A sleep of `d` ticks ends within the next period of `interval` ticks.
pub open spec fn in_window(d: SystemTime, interval: RelativeTime) -> bool {
    0 < d && d <= interval
}

/// The wake-up time `k` periods of `interval` ticks after `t`.
pub open spec fn advance(t: SystemTime, interval: RelativeTime, k: nat) -> SystemTime
    decreases k,
{
    if k == 0 {
        t
    } else {
        time_add(advance(t, interval, (k - 1) as nat), interval as int)
    }
}

/// `k` is the first number of periods after `next` whose wake-up time lies
/// within one period after `now`.
pub open spec fn is_rate_step(next: SystemTime, now: SystemTime, interval: RelativeTime, k: nat) -> bool {
    &&& in_window(time_sub(advance(next, interval, k), now), interval)
    &&& forall|j: nat| j < k ==> !in_window(time_sub(#[trigger] advance(next, interval, j), now), interval)
}

/// The number of periods a periodic wake-up skips.
pub open spec fn rate_step(next: SystemTime, now: SystemTime, interval: RelativeTime) -> nat {
    choose|k: nat| is_rate_step(next, now, interval, k)
}

/// The number of steps left before a wake-up time lies within one period.
spec fn rate_measure(d: SystemTime, interval: RelativeTime) -> int {
    if d > interval {
        0x1_0000_0000_0000_0000 - d + 2
    } else if d == 0 {
        1
    } else {
        0
    }
}

/// Periodic wake-up times never drift: `k` periods after `t` the wake-up time
/// is `t + k * interval` on the wrapping clock.
pub proof fn lemma_advance_no_drift(t: SystemTime, interval: RelativeTime, k: nat)
    ensures
        advance(t, interval, k) == (t + k * interval) % 0x1_0000_0000_0000_0000,
    decreases k,
{
    if k > 0 {
        let m: int = 0x1_0000_0000_0000_0000;
        lemma_advance_no_drift(t, interval, (k - 1) as nat);
        let prev: int = t + (k - 1) * interval;
        let a = advance(t, interval, (k - 1) as nat);
        assert(a == prev % m);
        vstd::arithmetic::div_mod::lemma_add_mod_noop(prev, interval as int, m);
        vstd::arithmetic::div_mod::lemma_small_mod(interval as nat, m as nat);
        assert((a + interval) % m == (prev + interval) % m);
        assert((k - 1) * interval + interval == k * interval) by (nonlinear_arith);
        assert(prev + interval == t + k * interval);
        vstd::arithmetic::div_mod::lemma_mod_bound(prev + interval, m);
        assert(time_add(a, interval as int) == ((a + interval) % m) as SystemTime);
    } else {
        assert(k * interval == 0) by (nonlinear_arith)
            requires
                k == 0,
        ;
        vstd::arithmetic::div_mod::lemma_small_mod(t as nat, 0x1_0000_0000_0000_0000);
    }
}

/// Periodic wake-up: the next wake-up time and the period.
pub struct Rate {
    next_time: SystemTime,
    interval: RelativeTime,
}

impl View for Rate {
    type V = (SystemTime, RelativeTime);

    closed spec fn view(&self) -> (SystemTime, RelativeTime) {
        (self.next_time, self.interval)
    }
}

impl Rate {
    /// A periodic wake-up every `interval` ticks, starting from now.
    pub fn new(kernel: &Kernel, interval: RelativeTime) -> (r: Self)
        ensures
            r@ == (kernel@.time, interval),
    {
        Rate { next_time: system_time(kernel), interval }
    }

    /// The next wake-up time.
    pub fn next_time(&self) -> (t: SystemTime)
        ensures
            t == self@.0,
    {
        self.next_time
    }

    /// The period in ticks.
    pub fn interval(&self) -> (i: RelativeTime)
        ensures
            i == self@.1,
    {
        self.interval
    }

    /// Restarts the period from now; needed after the clock was set.
    pub fn reset(&mut self, kernel: &Kernel)
        ensures
            final(self)@ == (kernel@.time, old(self)@.1),
    {
        self.next_time = system_time(kernel);
    }

    /// The running task sleeps until the next wake-up time that lies within
    /// one period from now; wake-up times that have already passed are skipped.
    pub fn sleep(&mut self, kernel: &mut Kernel)
        requires
            old(kernel).wf(),
            old(self)@.1 > 0,
            old(kernel)@.ready.len() > 0,
        ensures
            final(kernel).wf(),
            ({
                let (next, interval) = old(self)@;
                let now = old(kernel)@.time;
                let k = rate_step(next, now, interval);
                &&& is_rate_step(next, now, interval, k)
                &&& final(self)@ == (advance(next, interval, k + 1), interval)
                &&& final(kernel)@ == sleep_model(old(kernel)@, time_sub(advance(next, interval, k), now) as RelativeTime)
            }),
    {
        let now = system_time(kernel);
        let ghost next0 = self.next_time;
        let interval = self.interval;
        let mut next = self.next_time;
        let mut sleep_time: SystemTime = 0;
        let ghost mut k: nat = 0;
        loop
            invariant_except_break
                next == advance(next0, interval, k),
                forall|j: nat| j < k ==> !in_window(time_sub(#[trigger] advance(next0, interval, j), now), interval),
                interval > 0,
            ensures
                is_rate_step(next0, now, interval, k),
                next == advance(next0, interval, k + 1),
                sleep_time == time_sub(advance(next0, interval, k), now),
            decreases rate_measure(time_sub(next, now), interval),
        {
            let d = next.wrapping_sub(now);
            let ghost before = next;
            next = next.wrapping_add(interval as SystemTime);
            proof {
                assert(d == time_sub(before, now));
                assert(next == advance(next0, interval, k + 1));
            }
            if d > 0 && d <= interval as SystemTime {
                sleep_time = d;
                break;
            }
            proof {
                assert(time_sub(next, now) == (d + interval) % 0x1_0000_0000_0000_0000);
                k = k + 1;
            }
        }
        proof {
            let c = rate_step(next0, now, interval);
            assert(is_rate_step(next0, now, interval, c));
            if c < k {
                assert(!in_window(time_sub(advance(next0, interval, c), now), interval));
            } else if c > k {
                assert(!in_window(time_sub(advance(next0, interval, k), now), interval));
            }
        }
        self.next_time = next;
        sleep(kernel, sleep_time as RelativeTime);
    }
}

} // verus!
