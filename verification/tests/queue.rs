use pudding_kernel::queue::Queue;

fn pop_id(que: &mut Queue) -> Option<usize> {
    que.pop_front().map(|e| e.id)
}

fn check_pops(que: &mut Queue) {
    let t0 = pop_id(que);
    let t1 = pop_id(que);
    let t2 = pop_id(que);
    let t3 = pop_id(que);
    assert_eq!(t0.unwrap(), 0);
    assert_eq!(t1.unwrap(), 1);
    assert_eq!(t2.unwrap(), 2);
    assert_eq!(t3.is_some(), false);
}

#[test]
fn queue_test_queue() {
    let mut que = Queue::new();

    {
        que.push_back(0, 0);
        que.push_back(1, 1);
        que.push_back(2, 2);
        check_pops(&mut que);
    }

    {
        que.push_back(0, 0);
        que.push_back(1, 1);
        assert_eq!(que.tail().unwrap().id, 1);
        que.remove(0);
        assert_eq!(que.tail().unwrap().id, 1);
        que.remove(1);
        assert_eq!(que.tail(), None);
        assert_eq!(pop_id(&mut que).is_some(), false);
    }

    {
        que.push_back(0, 0);
        que.push_back(1, 1);
        assert_eq!(que.tail().unwrap().id, 1);
        que.remove(1);
        assert_eq!(que.tail().unwrap().id, 0);
        que.remove(0);
        assert_eq!(que.tail(), None);
        assert_eq!(pop_id(&mut que).is_some(), false);
    }

    {
        que.insert_priority_order(0, 0);
        assert_eq!(que.front().unwrap().priority, 0);
        que.insert_priority_order(1, 1);
        assert_eq!(que.front().unwrap().priority, 0);
        que.insert_priority_order(2, 2);
        assert_eq!(que.front().unwrap().priority, 0);
        check_pops(&mut que);
    }

    {
        que.insert_priority_order(2, 2);
        assert_eq!(que.front().unwrap().priority, 2);
        que.insert_priority_order(1, 1);
        assert_eq!(que.front().unwrap().priority, 1);
        que.insert_priority_order(0, 0);
        assert_eq!(que.front().unwrap().priority, 0);
        check_pops(&mut que);
    }

    {
        que.insert_priority_order(1, 1);
        assert_eq!(que.front().unwrap().priority, 1);
        que.insert_priority_order(2, 2);
        assert_eq!(que.front().unwrap().priority, 1);
        que.insert_priority_order(0, 0);
        assert_eq!(que.front().unwrap().priority, 0);
        check_pops(&mut que);
    }

    {
        que.insert_priority_order(2, 2);
        assert_eq!(que.front().unwrap().priority, 2);
        que.insert_priority_order(0, 0);
        assert_eq!(que.front().unwrap().priority, 0);
        que.insert_priority_order(1, 1);
        assert_eq!(que.front().unwrap().priority, 0);
        check_pops(&mut que);
    }
}

#[test]
fn queue_test_queue_static() {
    let mut que = Queue::new();
    que.push_back(0, 0);
    que.push_back(1, 1);
    que.push_back(2, 2);
    check_pops(&mut que);
}

#[test]
fn negative_priorities_come_first() {
    let mut que = Queue::new();
    que.insert_priority_order(1, 0);
    que.insert_priority_order(2, -5);
    que.insert_priority_order(3, 10);
    assert_eq!(que.front().unwrap().id, 2);
    assert_eq!(que.tail().unwrap().id, 3);
}
