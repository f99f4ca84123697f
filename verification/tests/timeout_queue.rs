use pudding_kernel::timeout_queue::TimeoutQueue;

// Tracks, for objects 0..3, the time at which each one timed out (0: never).
struct Clock {
    now: i32,
    time: [i32; 3],
}

impl Clock {
    fn new() -> Self {
        Clock { now: 0, time: [0; 3] }
    }

    fn tick(&mut self, que: &mut TimeoutQueue, t: u32) {
        self.now += t as i32;
        for id in que.sig_tim(t) {
            self.time[id] = self.now;
        }
    }
}

fn add_three(que: &mut TimeoutQueue) {
    que.add(0, 3);
    que.add(1, 1);
    que.add(2, 4);
}

#[test]
fn timeout_queue_test_queue_001() {
    let mut que = TimeoutQueue::new();
    let mut clock = Clock::new();

    que.add(0, 3);
    assert_eq!(que.head().unwrap().0, 0);
    que.add(1, 1);
    assert_eq!(que.head().unwrap().0, 1);
    // ring order 1 -> 0 -> 1
    assert_eq!(que.ids(), vec![1, 0]);

    que.add(2, 4);
    assert_eq!(que.head().unwrap().0, 1);
    // ring order 1 -> 0 -> 2 -> 1
    assert_eq!(que.ids(), vec![1, 0, 2]);

    clock.tick(&mut que, 1);
    assert_eq!(clock.time, [0, 1, 0]);
    assert_eq!(que.head().unwrap().0, 0);
    assert_eq!(que.ids(), vec![0, 2]);

    clock.tick(&mut que, 1);
    assert_eq!(clock.time, [0, 1, 0]);

    clock.tick(&mut que, 1);
    assert_eq!(clock.time, [3, 1, 0]);

    clock.tick(&mut que, 1);
    assert_eq!(clock.time, [3, 1, 4]);

    clock.tick(&mut que, 1);
    assert_eq!(clock.time, [3, 1, 4]);
    assert_eq!(que.head(), None);
    assert!(!que.contains(0));
    assert!(!que.contains(1));
    assert!(!que.contains(2));
}

#[test]
fn timeout_queue_test_queue_002() {
    let mut que = TimeoutQueue::new();
    let mut clock = Clock::new();
    add_three(&mut que);

    clock.tick(&mut que, 4);
    assert_eq!(clock.time, [4, 4, 4]);
    assert_eq!(que.head(), None);
    assert!(!que.contains(0));
    assert!(!que.contains(1));
    assert!(!que.contains(2));
}

#[test]
fn timeout_queue_test_queue_003() {
    let mut que = TimeoutQueue::new();
    let mut clock = Clock::new();
    add_three(&mut que);

    // remove the head
    que.remove(1);
    for _ in 0..5 {
        clock.tick(&mut que, 1);
    }
    assert_eq!(clock.time, [3, 0, 4]);
}

#[test]
fn timeout_queue_test_queue_004() {
    let mut que = TimeoutQueue::new();
    let mut clock = Clock::new();
    add_three(&mut que);

    // remove from the middle
    que.remove(0);
    for _ in 0..5 {
        clock.tick(&mut que, 1);
    }
    assert_eq!(clock.time, [0, 1, 4]);
}

#[test]
fn timeout_queue_test_queue_005() {
    let mut que = TimeoutQueue::new();
    let mut clock = Clock::new();
    add_three(&mut que);

    // remove the tail
    que.remove(2);
    for _ in 0..5 {
        clock.tick(&mut que, 1);
    }
    assert_eq!(clock.time, [3, 1, 0]);
}

#[test]
fn timeout_queue_test_queue_static() {
    let mut que = TimeoutQueue::new();
    let mut clock = Clock::new();
    add_three(&mut que);
    for _ in 0..5 {
        clock.tick(&mut que, 1);
    }
    assert_eq!(clock.time, [3, 1, 4]);
}

#[test]
fn equal_timeouts_expire_in_arrival_order() {
    let mut que = TimeoutQueue::new();
    que.add(7, 2);
    que.add(8, 2);
    que.add(9, 1);
    assert_eq!(que.ids(), vec![9, 7, 8]);
    assert_eq!(que.sig_tim(2), vec![9, 7, 8]);
    assert!(que.is_empty());
}

#[test]
fn remaining_time_is_kept_on_remove() {
    let mut que = TimeoutQueue::new();
    que.add(0, 5);
    que.add(1, 8);
    que.add(2, 12);
    que.remove(1);
    assert_eq!(que.head(), Some((0, 5)));
    assert_eq!(que.sig_tim(11), vec![0]);
    assert_eq!(que.head(), Some((2, 1)));
    assert_eq!(que.len(), 1);
    // removing an object without a timeout changes nothing
    que.remove(5);
    assert_eq!(que.len(), 1);
}

#[test]
fn zero_timeout_expires_on_next_tick() {
    let mut que = TimeoutQueue::new();
    que.add(3, 0);
    assert_eq!(que.sig_tim(0), vec![3]);
}

#[test]
fn remove_right_after_add_restores_the_queue() {
    let mut que = TimeoutQueue::new();
    que.add(0, 4);
    que.add(1, 9);
    que.add(2, 6);
    que.remove(2);
    assert_eq!(que.ids(), vec![0, 1]);
    assert_eq!(que.head(), Some((0, 4)));
    assert_eq!(que.sig_tim(4), vec![0]);
    assert_eq!(que.head(), Some((1, 5)));
}
