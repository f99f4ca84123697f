use pudding_kernel::priority_queue::PriorityQueue;

// Objects 0, 1 and 2 have priorities equal to their identifiers.
fn push(que: &mut PriorityQueue, id: usize) {
    que.push_back(id, id as i64);
}

fn insert(que: &mut PriorityQueue, id: usize) {
    que.insert_priority_order(id, id as i64);
}

fn pop_id(que: &mut PriorityQueue) -> Option<usize> {
    que.pop_front().map(|e| e.id)
}

#[test]
fn priority_queue_test_queue() {
    let mut que = PriorityQueue::new();

    {
        // push and pop in order
        push(&mut que, 0);
        push(&mut que, 1);
        push(&mut que, 2);
        let t0 = pop_id(&mut que);
        let t1 = pop_id(&mut que);
        let t2 = pop_id(&mut que);
        let t3 = pop_id(&mut que);
        assert_eq!(t0.unwrap(), 0);
        assert_eq!(t1.unwrap(), 1);
        assert_eq!(t2.unwrap(), 2);
        assert_eq!(t3.is_some(), false);
    }

    {
        // removal, pattern 1
        push(&mut que, 0);
        push(&mut que, 1);
        assert_eq!(que.tail().unwrap().id, 1);
        que.remove(0);
        assert_eq!(que.tail().unwrap().id, 1);
        que.remove(1);
        assert_eq!(que.tail(), None);

        let t0 = pop_id(&mut que);
        assert_eq!(t0.is_some(), false);
    }

    {
        // removal, pattern 2
        push(&mut que, 0);
        push(&mut que, 1);
        assert_eq!(que.tail().unwrap().id, 1);
        que.remove(1);
        assert_eq!(que.tail().unwrap().id, 0);
        que.remove(0);
        assert_eq!(que.tail(), None);

        let t0 = pop_id(&mut que);
        assert_eq!(t0.is_some(), false);
    }

    for order in [[0usize, 1, 2], [2, 1, 0], [1, 2, 0], [2, 0, 1]] {
        // priority order, patterns 1 to 4
        let mut fronts = Vec::new();
        for id in order {
            insert(&mut que, id);
            fronts.push(que.front().unwrap().priority);
        }
        let expected_fronts: Vec<i64> = match order {
            [0, 1, 2] => vec![0, 0, 0],
            [2, 1, 0] => vec![2, 1, 0],
            [1, 2, 0] => vec![1, 1, 0],
            _ => vec![2, 0, 0],
        };
        assert_eq!(fronts, expected_fronts);

        let t0 = pop_id(&mut que);
        let t1 = pop_id(&mut que);
        let t2 = pop_id(&mut que);
        let t3 = pop_id(&mut que);
        assert_eq!(t0.unwrap(), 0);
        assert_eq!(t1.unwrap(), 1);
        assert_eq!(t2.unwrap(), 2);
        assert_eq!(t3.is_some(), false);
    }
}

#[test]
fn priority_queue_test_queue_static() {
    let mut que = PriorityQueue::new();
    push(&mut que, 0);
    push(&mut que, 1);
    push(&mut que, 2);
    let t0 = pop_id(&mut que);
    let t1 = pop_id(&mut que);
    let t2 = pop_id(&mut que);
    let t3 = pop_id(&mut que);
    assert_eq!(t0.unwrap(), 0);
    assert_eq!(t1.unwrap(), 1);
    assert_eq!(t2.unwrap(), 2);
    assert_eq!(t3.is_some(), false);
}

#[test]
fn equal_priorities_keep_arrival_order() {
    let mut que = PriorityQueue::new();
    que.insert_priority_order(10, 5);
    que.insert_priority_order(11, 5);
    que.insert_priority_order(12, 3);
    que.insert_priority_order(13, 5);
    que.insert_priority_order(14, 7);
    let ids: Vec<usize> = std::iter::from_fn(|| que.pop_front().map(|e| e.id)).collect();
    assert_eq!(ids, vec![12, 10, 11, 13, 14]);
}

#[test]
fn remove_from_middle_keeps_order() {
    let mut que = PriorityQueue::new();
    for id in 0..5usize {
        que.push_back(id, 0);
    }
    que.remove(2);
    assert_eq!(que.len(), 4);
    let ids: Vec<usize> = std::iter::from_fn(|| que.pop_front().map(|e| e.id)).collect();
    assert_eq!(ids, vec![0, 1, 3, 4]);
    assert!(que.is_empty());
    assert_eq!(que.front(), None);
}

#[test]
fn remove_right_after_insert_restores_the_queue() {
    let mut que = PriorityQueue::new();
    que.insert_priority_order(1, 2);
    que.insert_priority_order(2, 6);
    que.insert_priority_order(3, 4);
    que.remove(3);
    assert_eq!(que.len(), 2);
    let ids: Vec<usize> = std::iter::from_fn(|| que.pop_front().map(|e| e.id)).collect();
    assert_eq!(ids, vec![1, 2]);
}
