use pudding_kernel::eventflag::{Eventflag, WaitFlagMode};
use pudding_kernel::semaphore::Semaphore;
use pudding_kernel::system::{leave_system_call, lock_cpu, unlock_cpu};
use pudding_kernel::task::{Kernel, QueueId, Task};
use pudding_kernel::time::{sleep, supply_time_tick, system_time, Rate};
use pudding_kernel::{Error, Order};

fn task(priority: u32) -> Task {
    let mut t = Task::new();
    t.create(0, priority);
    t
}

// A kernel with two activated tasks: task 0 of priority 2 and task 1 of priority 1.
fn two_tasks() -> (Kernel, usize, usize) {
    let mut k = Kernel::new();
    let t0 = k.add_task(task(2));
    let t1 = k.add_task(task(1));
    Task::activate(&mut k, t0);
    Task::activate(&mut k, t1);
    (k, t0, t1)
}

#[test]
fn activation_orders_ready_tasks_by_priority() {
    let (mut k, t0, t1) = two_tasks();
    assert_eq!(k.current_task(), Some(t1));
    assert_eq!(k.ready_queue().len(), 2);
    assert!(k.system().dispatch_reserve);
    let action = leave_system_call(k.system_mut());
    assert!(action.dispatch);
    assert!(action.cpu_unlock);
    assert!(!k.system().dispatch_reserve);

    // activating a queued task only counts the activation
    Task::activate(&mut k, t0);
    assert_eq!(k.task(t0).actcnt, 2);
    assert_eq!(k.ready_queue().len(), 2);
    assert!(!k.system().dispatch_reserve);

    assert!(k.consume_activation(t0));
    assert!(k.consume_activation(t0));
    assert!(!k.consume_activation(t0));
    k.detach_from_queue(t1);
    assert_eq!(k.current_task(), Some(t0));
    assert_eq!(k.task(t1).queue, None);
}

#[test]
fn semaphore_wait_and_signal() {
    let (mut k, t0, t1) = two_tasks();
    let sem = k.add_semaphore(Semaphore::new(0, Order::Priority));

    // task 1 runs and waits
    Semaphore::wait(&mut k, sem);
    assert_eq!(k.current_task(), Some(t0));
    assert_eq!(k.task(t1).queue, Some(QueueId::Semaphore(sem)));
    assert_eq!(k.semaphore(sem).queue.len(), 1);

    // task 0 signals: task 1 is ready again and runs first
    Semaphore::signal(&mut k, sem);
    assert_eq!(k.current_task(), Some(t1));
    assert_eq!(k.semaphore(sem).count, 0);

    // no waiter: the count grows
    Semaphore::signal(&mut k, sem);
    assert_eq!(k.semaphore(sem).count, 1);
    assert_eq!(Semaphore::polling(&mut k, sem), Ok(()));
    assert_eq!(Semaphore::polling(&mut k, sem), Err(Error::Timeout));
    assert_eq!(k.semaphore(sem).count, 0);
}

#[test]
fn semaphore_count_is_taken_without_waiting() {
    let (mut k, _t0, t1) = two_tasks();
    let sem = k.add_semaphore(Semaphore::new(2, Order::Fifo));
    Semaphore::wait(&mut k, sem);
    assert_eq!(Semaphore::wait_with_timeout(&mut k, sem, 10), Ok(()));
    assert_eq!(k.semaphore(sem).count, 0);
    assert_eq!(k.current_task(), Some(t1));
}

#[test]
fn semaphore_wait_times_out() {
    let (mut k, t0, t1) = two_tasks();
    let sem = k.add_semaphore(Semaphore::new(0, Order::Fifo));
    assert_eq!(Semaphore::wait_with_timeout(&mut k, sem, 3), Ok(()));
    assert!(k.task(t1).timeout);
    assert_eq!(k.current_task(), Some(t0));

    supply_time_tick(&mut k, 2);
    assert!(k.task(t1).timeout);
    assert_eq!(k.task(t1).queue, Some(QueueId::Semaphore(sem)));

    supply_time_tick(&mut k, 1);
    assert!(!k.task(t1).timeout);
    assert_eq!(k.task(t1).result, Err(Error::Timeout));
    assert_eq!(k.current_task(), Some(t1));
    assert_eq!(k.semaphore(sem).queue.len(), 0);
    assert_eq!(system_time(&k), 3);
}

#[test]
fn signal_cancels_the_timeout() {
    let (mut k, _t0, t1) = two_tasks();
    let sem = k.add_semaphore(Semaphore::new(0, Order::Priority));
    assert_eq!(Semaphore::wait_with_timeout(&mut k, sem, 5), Ok(()));
    Semaphore::signal(&mut k, sem);
    assert!(!k.task(t1).timeout);
    assert!(k.timeout_queue().is_empty());
    assert_eq!(k.current_task(), Some(t1));
    assert_eq!(k.task(t1).result, Ok(()));
}

#[test]
fn sleeping_task_wakes_after_its_time() {
    let (mut k, t0, t1) = two_tasks();
    sleep(&mut k, 5);
    assert_eq!(k.current_task(), Some(t0));
    assert_eq!(k.task(t1).queue, None);
    for _ in 0..4 {
        supply_time_tick(&mut k, 1);
    }
    assert_eq!(k.current_task(), Some(t0));
    supply_time_tick(&mut k, 1);
    assert_eq!(k.current_task(), Some(t1));
    assert_eq!(k.task(t1).result, Err(Error::Timeout));

    // sleeping zero ticks does nothing
    sleep(&mut k, 0);
    assert_eq!(k.current_task(), Some(t1));
}

#[test]
fn eventflag_and_wait() {
    let (mut k, t0, t1) = two_tasks();
    let flg = k.add_eventflag(Eventflag::new(0));

    Eventflag::wait(&mut k, flg, 0x5, WaitFlagMode::AndWait);
    assert_eq!(k.current_task(), Some(t0));

    Eventflag::set_flag(&mut k, flg, 1);
    assert_eq!(k.current_task(), Some(t0));
    assert_eq!(k.eventflag(flg).flg_ptn, 1);

    Eventflag::set_flag(&mut k, flg, 4);
    assert_eq!(k.current_task(), Some(t1));
    assert_eq!(k.eventflag(flg).flg_ptn, 5);

    Eventflag::clear_flag(&mut k, flg, 0x4);
    assert_eq!(k.eventflag(flg).flg_ptn, 4);
    assert_eq!(Eventflag::polling(&mut k, flg, 0x3, WaitFlagMode::OrWait), Err(Error::Timeout));
    assert_eq!(Eventflag::polling(&mut k, flg, 0x6, WaitFlagMode::OrWait), Ok(()));
    assert_eq!(Eventflag::polling(&mut k, flg, 0x6, WaitFlagMode::AndWait), Err(Error::Timeout));
}

#[test]
fn eventflag_wait_with_timeout() {
    let (mut k, t0, t1) = two_tasks();
    let flg = k.add_eventflag(Eventflag::new(2));
    assert_eq!(Eventflag::wait_with_timeout(&mut k, flg, 2, WaitFlagMode::OrWait, 4), Some(Ok(())));
    assert_eq!(k.current_task(), Some(t1));
    assert_eq!(Eventflag::wait_with_timeout(&mut k, flg, 1, WaitFlagMode::OrWait, 4), None);
    assert_eq!(k.current_task(), Some(t0));
    supply_time_tick(&mut k, 4);
    assert_eq!(k.current_task(), Some(t1));
    assert_eq!(k.task(t1).result, Err(Error::Timeout));
    assert_eq!(k.eventflag(flg).queue.len(), 0);
}

#[test]
fn locked_cpu_holds_back_the_switch() {
    let mut k = Kernel::new();
    let t = k.add_task(task(1));
    lock_cpu(k.system_mut());
    Task::activate(&mut k, t);
    let action = leave_system_call(k.system_mut());
    assert!(!action.dispatch);
    assert!(!action.cpu_unlock);
    assert!(k.system().dispatch_reserve);
    unlock_cpu(k.system_mut());
    let action = leave_system_call(k.system_mut());
    assert!(action.dispatch);
    assert!(action.cpu_unlock);
}

#[test]
fn rate_wakes_every_interval() {
    let (mut k, t0, t1) = two_tasks();
    let mut rate = Rate::new(&k, 10);
    rate.sleep(&mut k);
    assert_eq!(k.current_task(), Some(t0));
    supply_time_tick(&mut k, 9);
    assert_eq!(k.current_task(), Some(t0));
    supply_time_tick(&mut k, 1);
    assert_eq!(k.current_task(), Some(t1));

    // the task ran late: the next wake-up is still on the 10-tick grid
    supply_time_tick(&mut k, 3);
    rate.sleep(&mut k);
    supply_time_tick(&mut k, 6);
    assert_eq!(k.current_task(), Some(t0));
    supply_time_tick(&mut k, 1);
    assert_eq!(k.current_task(), Some(t1));
    assert_eq!(system_time(&k), 20);
}

#[test]
fn blocked_timed_wait_returns_the_previous_outcome() {
    let (mut k, _t0, t1) = two_tasks();
    let sem = k.add_semaphore(Semaphore::new(0, Order::Fifo));
    // the first timed wait of task 1 times out
    assert_eq!(Semaphore::wait_with_timeout(&mut k, sem, 1), Ok(()));
    supply_time_tick(&mut k, 1);
    assert_eq!(k.task(t1).result, Err(Error::Timeout));
    assert_eq!(k.current_task(), Some(t1));
    // a second timed wait that blocks reports the outcome recorded before it
    assert_eq!(Semaphore::wait_with_timeout(&mut k, sem, 5), Err(Error::Timeout));
    Semaphore::signal(&mut k, sem);
    assert_eq!(k.current_task(), Some(t1));
}
