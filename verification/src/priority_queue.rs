//! A queue of objects ordered either by priority or by arrival.
//!
//! Objects are named by an identifier (an index into the owner's table of
//! objects); each entry carries the priority the object had when it was queued.
//! The head of the queue is the entry that is served first.
use std::collections::VecDeque;
use vstd::prelude::*;

verus! {

/// One queued object: its identifier and the priority it was queued with.
#[derive(Clone, Copy, PartialEq, Eq, Structural, Debug)]
pub struct QueueEntry {
    pub id: usize,
    pub priority: i64,
}

/// `id` occurs in the sequence of entries.
pub open spec fn has_id(s: Seq<QueueEntry>, id: usize) -> bool {
    exists|i: int| 0 <= i < s.len() && s[i].id == id
}

/// No identifier occurs twice.
pub open spec fn ids_distinct(s: Seq<QueueEntry>) -> bool {
    forall|i: int, j: int| 0 <= i < s.len() && 0 <= j < s.len() && i != j ==> s[i].id != s[j].id
}

/// Entries are ordered by non-decreasing priority value.
pub open spec fn sorted_by_priority(s: Seq<QueueEntry>) -> bool {
    forall|i: int, j: int| 0 <= i <= j < s.len() ==> s[i].priority <= s[j].priority
}

/// `k` is the place where an object of the given priority is inserted:
/// after every entry whose priority value is not greater, before the first
/// entry whose priority value is greater.
pub open spec fn is_priority_insert_index(s: Seq<QueueEntry>, priority: i64, k: int) -> bool {
    &&& 0 <= k <= s.len()
    &&& forall|j: int| 0 <= j < k ==> s[j].priority <= priority
    &&& k < s.len() ==> s[k].priority > priority
}

/// The insertion place for a given priority (unique, see
/// `lemma_priority_insert_index_unique`).
pub open spec fn priority_insert_index(s: Seq<QueueEntry>, priority: i64) -> int {
    choose|k: int| is_priority_insert_index(s, priority, k)
}

/// `i` is the first place of `id` in the sequence.
pub open spec fn is_first_position(s: Seq<QueueEntry>, id: usize, i: int) -> bool {
    &&& 0 <= i < s.len()
    &&& s[i].id == id
    &&& forall|j: int| 0 <= j < i ==> s[j].id != id
}

/// The first place of `id` in the sequence.
pub open spec fn position_of(s: Seq<QueueEntry>, id: usize) -> int {
    choose|i: int| is_first_position(s, id, i)
}

/// The insertion place of a priority is unique.
pub proof fn lemma_priority_insert_index_unique(s: Seq<QueueEntry>, priority: i64, k: int)
    requires
        is_priority_insert_index(s, priority, k),
    ensures
        priority_insert_index(s, priority) == k,
{
    let c = priority_insert_index(s, priority);
    assert(is_priority_insert_index(s, priority, c));
    if c < k {
        assert(s[c].priority <= priority);
    } else if c > k {
        assert(s[k].priority <= priority);
    }
}

/// Every sequence has an insertion place for every priority.
pub proof fn lemma_priority_insert_index_exists(s: Seq<QueueEntry>, priority: i64)
    ensures
        is_priority_insert_index(s, priority, priority_insert_index(s, priority)),
    decreases s.len(),
{
    if s.len() == 0 {
        assert(is_priority_insert_index(s, priority, 0));
    } else if s[0].priority > priority {
        assert(is_priority_insert_index(s, priority, 0));
    } else {
        let t = s.drop_first();
        lemma_priority_insert_index_exists(t, priority);
        let k = priority_insert_index(t, priority);
        assert forall|j: int| 0 <= j < k + 1 implies s[j].priority <= priority by {
            if j > 0 {
                assert(s[j] == t[j - 1]);
            }
        }
        assert(is_priority_insert_index(s, priority, k + 1));
    }
}

/// The first position of an identifier that occurs is unique.
pub proof fn lemma_position_of_unique(s: Seq<QueueEntry>, id: usize, i: int)
    requires
        is_first_position(s, id, i),
    ensures
        position_of(s, id) == i,
{
    let c = position_of(s, id);
    assert(is_first_position(s, id, c));
    if c < i {
        assert(s[c].id != id);
    } else if c > i {
        assert(s[i].id != id);
    }
}

/// An identifier that occurs has a first position.
pub proof fn lemma_position_of_exists(s: Seq<QueueEntry>, id: usize)
    requires
        has_id(s, id),
    ensures
        is_first_position(s, id, position_of(s, id)),
    decreases s.len(),
{
    if s[0].id == id {
        assert(is_first_position(s, id, 0));
    } else {
        let t = s.drop_first();
        let w = choose|i: int| 0 <= i < s.len() && s[i].id == id;
        assert(t[w - 1].id == id);
        lemma_position_of_exists(t, id);
        let k = position_of(t, id);
        assert forall|j: int| 0 <= j < k + 1 implies s[j].id != id by {
            if j > 0 {
                assert(s[j] == t[j - 1]);
            }
        }
        assert(is_first_position(s, id, k + 1));
    }
}

/// Inserting by priority into a queue ordered by priority keeps it ordered.
pub proof fn lemma_insert_keeps_sorted(s: Seq<QueueEntry>, e: QueueEntry)
    requires
        sorted_by_priority(s),
    ensures
        sorted_by_priority(s.insert(priority_insert_index(s, e.priority), e)),
{
    lemma_priority_insert_index_exists(s, e.priority);
    let k = priority_insert_index(s, e.priority);
    let t = s.insert(k, e);
    assert forall|i: int, j: int| 0 <= i <= j < t.len() implies t[i].priority <= t[j].priority by {
        if i < k && j > k {
            assert(t[j] == s[j - 1]);
        } else if i == k && j > k {
            assert(t[j] == s[j - 1]);
            assert(s[k].priority > e.priority);
        } else if i > k {
            assert(t[i] == s[i - 1]);
            assert(t[j] == s[j - 1]);
        }
    }
}

/// An object inserted by priority stands behind every object already queued
/// with a priority value not greater than its own (arrival order among equals),
/// and ahead of every object with a greater priority value.
pub proof fn lemma_insert_stable(s: Seq<QueueEntry>, e: QueueEntry)
    requires
        sorted_by_priority(s),
    ensures
        ({
            let k = priority_insert_index(s, e.priority);
            let t = s.insert(k, e);
            &&& t[k] == e
            &&& forall|j: int| 0 <= j < s.len() && s[j].priority <= e.priority ==> j < k && t[j] == s[j]
            &&& forall|j: int| 0 <= j < s.len() && s[j].priority > e.priority ==> j >= k && t[j + 1] == s[j]
        }),
{
    lemma_priority_insert_index_exists(s, e.priority);
    let k = priority_insert_index(s, e.priority);
    assert forall|j: int| 0 <= j < s.len() && s[j].priority <= e.priority implies j < k by {
        if j >= k {
            assert(s[k].priority <= s[j].priority);
        }
    }
}

/// In a queue ordered by priority the head has the smallest priority value.
pub proof fn lemma_sorted_front_is_min(s: Seq<QueueEntry>)
    requires
        sorted_by_priority(s),
        s.len() > 0,
    ensures
        forall|j: int| 0 <= j < s.len() ==> s[0].priority <= #[trigger] s[j].priority,
{
}

/// Taking an object out of a queue ordered by priority keeps it ordered.
pub proof fn lemma_remove_keeps_sorted(s: Seq<QueueEntry>, i: int)
    requires
        sorted_by_priority(s),
        0 <= i < s.len(),
    ensures
        sorted_by_priority(s.remove(i)),
{
    let t = s.remove(i);
    assert forall|a: int, b: int| 0 <= a <= b < t.len() implies t[a].priority <= t[b].priority by {
        let oa = if a < i { a } else { a + 1 };
        let ob = if b < i { b } else { b + 1 };
        assert(t[a] == s[oa]);
        assert(t[b] == s[ob]);
    }
}

/// Inserting an identifier that is not queued keeps identifiers distinct.
pub proof fn lemma_insert_keeps_distinct(s: Seq<QueueEntry>, k: int, e: QueueEntry)
    requires
        ids_distinct(s),
        !has_id(s, e.id),
        0 <= k <= s.len(),
    ensures
        ids_distinct(s.insert(k, e)),
        forall|x: usize| has_id(s.insert(k, e), x) <==> (has_id(s, x) || x == e.id),
{
    let t = s.insert(k, e);
    assert forall|i: int, j: int| 0 <= i < t.len() && 0 <= j < t.len() && i != j implies t[i].id != t[j].id by {
        let oi = if i < k { i } else { i - 1 };
        let oj = if j < k { j } else { j - 1 };
        if i != k && j != k {
            assert(t[i] == s[oi]);
            assert(t[j] == s[oj]);
        } else if i == k {
            assert(t[j] == s[oj]);
        } else {
            assert(t[i] == s[oi]);
        }
    }
    assert forall|x: usize| has_id(t, x) <==> (has_id(s, x) || x == e.id) by {
        if has_id(t, x) {
            let i = choose|i: int| 0 <= i < t.len() && t[i].id == x;
            if i < k {
                assert(t[i] == s[i]);
            } else if i > k {
                assert(t[i] == s[i - 1]);
            }
        }
        if has_id(s, x) {
            let i = choose|i: int| 0 <= i < s.len() && s[i].id == x;
            if i < k {
                assert(t[i] == s[i]);
            } else {
                assert(t[i + 1] == s[i]);
            }
        }
        if x == e.id {
            assert(t[k] == e);
        }
    }
}

/// Taking an entry out keeps identifiers distinct, and the identifier taken
/// out no longer occurs.
pub proof fn lemma_remove_keeps_distinct(s: Seq<QueueEntry>, i: int)
    requires
        ids_distinct(s),
        0 <= i < s.len(),
    ensures
        ids_distinct(s.remove(i)),
        forall|x: usize| has_id(s.remove(i), x) <==> (has_id(s, x) && x != s[i].id),
{
    let t = s.remove(i);
    assert forall|a: int, b: int| 0 <= a < t.len() && 0 <= b < t.len() && a != b implies t[a].id != t[b].id by {
        let oa = if a < i { a } else { a + 1 };
        let ob = if b < i { b } else { b + 1 };
        assert(t[a] == s[oa]);
        assert(t[b] == s[ob]);
    }
    assert forall|x: usize| has_id(t, x) <==> (has_id(s, x) && x != s[i].id) by {
        if has_id(t, x) {
            let a = choose|a: int| 0 <= a < t.len() && t[a].id == x;
            let oa = if a < i { a } else { a + 1 };
            assert(t[a] == s[oa]);
        }
        if has_id(s, x) && x != s[i].id {
            let a = choose|a: int| 0 <= a < s.len() && s[a].id == x;
            if a < i {
                assert(t[a] == s[a]);
            } else {
                assert(t[a - 1] == s[a]);
            }
        }
    }
}

/// Removing an object right after inserting it by priority gives back the
/// queue as it was.
pub proof fn lemma_remove_undoes_insert(s: Seq<QueueEntry>, e: QueueEntry)
    requires
        !has_id(s, e.id),
    ensures
        ({
            let t = s.insert(priority_insert_index(s, e.priority), e);
            &&& has_id(t, e.id)
            &&& t.remove(position_of(t, e.id)) == s
        }),
{
    lemma_priority_insert_index_exists(s, e.priority);
    let k = priority_insert_index(s, e.priority);
    let t = s.insert(k, e);
    assert(t[k] == e);
    assert forall|j: int| 0 <= j < k implies t[j].id != e.id by {
        assert(t[j] == s[j]);
    }
    assert(is_first_position(t, e.id, k));
    lemma_position_of_unique(t, e.id, k);
    assert(t.remove(k) =~= s);
}

/// A queue of object identifiers; the head is served first.
pub struct PriorityQueue {
    entries: VecDeque<QueueEntry>,
}

impl PriorityQueue {
    /// The entries from head to tail.
    pub closed spec fn entries_view(&self) -> Seq<QueueEntry> {
        self.entries@
    }
}

impl View for PriorityQueue {
    type V = Seq<QueueEntry>;

    open spec fn view(&self) -> Seq<QueueEntry> {
        self.entries_view()
    }
}

impl PriorityQueue {
    /// An empty queue.
    pub fn new() -> (q: Self)
        ensures
            q@ == Seq::<QueueEntry>::empty(),
    {
        PriorityQueue { entries: VecDeque::new() }
    }

    /// The number of queued objects.
    pub fn len(&self) -> (n: usize)
        ensures
            n == self@.len(),
    {
        self.entries.len()
    }

    /// Whether no object is queued.
    pub fn is_empty(&self) -> (b: bool)
        ensures
            b == (self@.len() == 0),
    {
        self.entries.len() == 0
    }

    /// Queues an object after every object whose priority value is not greater
    /// than its own, so that among equal priorities the order of arrival is kept.
    pub fn insert_priority_order(&mut self, id: usize, priority: i64)
        requires
            !has_id(old(self)@, id),
        ensures
            final(self)@ == old(self)@.insert(
                priority_insert_index(old(self)@, priority),
                QueueEntry { id, priority },
            ),
    {
        let n = self.entries.len();
        let mut k: usize = 0;
        while k < n && self.entries[k].priority <= priority
            invariant
                n == self.entries@.len(),
                self.entries@ == old(self)@,
                0 <= k <= n,
                forall|j: int| 0 <= j < k ==> self.entries@[j].priority <= priority,
            decreases n - k,
        {
            k = k + 1;
        }
        proof {
            assert(is_priority_insert_index(old(self)@, priority, k as int));
            lemma_priority_insert_index_unique(old(self)@, priority, k as int);
        }
        self.entries.insert(k, QueueEntry { id, priority });
    }

    /// Queues an object at the tail.
    pub fn push_back(&mut self, id: usize, priority: i64)
        requires
            !has_id(old(self)@, id),
        ensures
            final(self)@ == old(self)@.push(QueueEntry { id, priority }),
    {
        self.entries.push_back(QueueEntry { id, priority });
    }

    /// The head entry, if any.
    pub fn front(&self) -> (r: Option<QueueEntry>)
        ensures
            r == (if self@.len() == 0 { None } else { Some(self@[0]) }),
    {
        if self.entries.len() == 0 {
            None
        } else {
            Some(self.entries[0])
        }
    }

    /// The tail entry, if any.
    pub fn tail(&self) -> (r: Option<QueueEntry>)
        ensures
            r == (if self@.len() == 0 { None } else { Some(self@[self@.len() - 1]) }),
    {
        let n = self.entries.len();
        if n == 0 {
            None
        } else {
            Some(self.entries[n - 1])
        }
    }

    /// Takes the head entry out of the queue.
    pub fn pop_front(&mut self) -> (r: Option<QueueEntry>)
        ensures
            r == (if old(self)@.len() == 0 { None } else { Some(old(self)@[0]) }),
            final(self)@ == (if old(self)@.len() == 0 { old(self)@ } else { old(self)@.drop_first() }),
    {
        self.entries.pop_front()
    }

    /// Takes the given object out of the queue, wherever it stands.
    pub fn remove(&mut self, id: usize)
        requires
            has_id(old(self)@, id),
        ensures
            final(self)@ == old(self)@.remove(position_of(old(self)@, id)),
    {
        proof {
            lemma_position_of_exists(old(self)@, id);
        }
        let ghost p = position_of(old(self)@, id);
        let n = self.entries.len();
        let mut i: usize = 0;
        while i < n && self.entries[i].id != id
            invariant
                n == self.entries@.len(),
                self.entries@ == old(self)@,
                is_first_position(old(self)@, id, p),
                0 <= i <= p,
                forall|j: int| 0 <= j < i ==> self.entries@[j].id != id,
            decreases n - i,
        {
            i = i + 1;
        }
        proof {
            assert(i == p);
        }
        self.entries.remove(i);
    }
}

} // verus!
