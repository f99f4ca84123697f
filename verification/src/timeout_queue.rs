//! The timeout queue: a list of pending timeouts ordered by expiry.
//!
//! Each entry stores only the time that separates it from the entry before it,
//! so a time tick touches the head alone. Abstractly the queue is the sequence
//! of `(id, remaining time)` pairs; the remaining time of an entry is the sum of
//! the differences up to and including it.
use std::collections::VecDeque;
use vstd::prelude::*;

verus! {

/// One pending timeout: the waiting object and its time after the previous entry.
#[derive(Clone, Copy, PartialEq, Eq, Structural, Debug)]
pub struct TimeoutEntry {
    pub id: usize,
    pub difftim: u32,
}

/// The sum of the first `n` time differences.
pub open spec fn sum_deltas(s: Seq<TimeoutEntry>, n: nat) -> int
    decreases n,
{
    if n == 0 {
        0
    } else {
        sum_deltas(s, (n - 1) as nat) + s[n - 1].difftim
    }
}

/// The abstract queue: each object with the time that remains until it expires.
pub open spec fn timers_of(s: Seq<TimeoutEntry>) -> Seq<(usize, int)> {
    Seq::new(s.len(), |i: int| (s[i].id, sum_deltas(s, (i + 1) as nat)))
}

/// A valid abstract queue: remaining times fit in a `u32`, do not decrease
/// from head to tail, and no object occurs twice.
pub open spec fn timers_valid(v: Seq<(usize, int)>) -> bool {
    &&& forall|i: int| 0 <= i < v.len() ==> 0 <= #[trigger] v[i].1 <= u32::MAX
    &&& forall|i: int, j: int| 0 <= i <= j < v.len() ==> v[i].1 <= v[j].1
    &&& forall|i: int, j: int| 0 <= i < v.len() && 0 <= j < v.len() && i != j ==> v[i].0 != v[j].0
}

/// `id` has a pending timeout in `v`.
pub open spec fn has_timer(v: Seq<(usize, int)>, id: usize) -> bool {
    exists|i: int| 0 <= i < v.len() && v[i].0 == id
}

/// `k` splits `v` at time `t`: the entries before `k` expire within `t`,
/// the entries from `k` on expire later.
pub open spec fn is_split_index(v: Seq<(usize, int)>, t: int, k: int) -> bool {
    &&& 0 <= k <= v.len()
    &&& forall|j: int| 0 <= j < k ==> #[trigger] v[j].1 <= t
    &&& k < v.len() ==> v[k].1 > t
}

/// The split place of `v` at time `t` (unique, see `lemma_split_index_unique`).
pub open spec fn split_index(v: Seq<(usize, int)>, t: int) -> int {
    choose|k: int| is_split_index(v, t, k)
}

/// The place of `id` in `v`, when it occurs.
pub open spec fn timer_position(v: Seq<(usize, int)>, id: usize) -> int {
    choose|i: int| 0 <= i < v.len() && v[i].0 == id
}

/// The identifiers of a sequence of timers, in order.
pub open spec fn timer_ids(v: Seq<(usize, int)>) -> Seq<usize> {
    v.map_values(|p: (usize, int)| p.0)
}

/// The timers of `v` after `t` time units have passed.
pub open spec fn timers_elapsed(v: Seq<(usize, int)>, t: int) -> Seq<(usize, int)> {
    v.map_values(|p: (usize, int)| (p.0, p.1 - t))
}

/// The split place at a given time is unique.
pub proof fn lemma_split_index_unique(v: Seq<(usize, int)>, t: int, k: int)
    requires
        is_split_index(v, t, k),
    ensures
        split_index(v, t) == k,
{
    let c = split_index(v, t);
    assert(is_split_index(v, t, c));
    if c < k {
        assert(v[c].1 <= t);
    } else if c > k {
        assert(v[k].1 <= t);
    }
}

proof fn lemma_sum_nonneg(s: Seq<TimeoutEntry>, n: nat)
    ensures
        sum_deltas(s, n) >= 0,
    decreases n,
{
    if n > 0 {
        lemma_sum_nonneg(s, (n - 1) as nat);
    }
}

proof fn lemma_sum_monotone(s: Seq<TimeoutEntry>, a: nat, b: nat)
    requires
        a <= b,
    ensures
        sum_deltas(s, a) <= sum_deltas(s, b),
    decreases b,
{
    if a < b {
        lemma_sum_monotone(s, a, (b - 1) as nat);
    }
}

/// Sums over sequences whose first `n` differences agree are equal.
proof fn lemma_sum_agree(a: Seq<TimeoutEntry>, b: Seq<TimeoutEntry>, n: nat)
    requires
        n <= a.len(),
        n <= b.len(),
        forall|j: int| 0 <= j < n ==> a[j].difftim == b[j].difftim,
    ensures
        sum_deltas(a, n) == sum_deltas(b, n),
    decreases n,
{
    if n > 0 {
        lemma_sum_agree(a, b, (n - 1) as nat);
    }
}

/// Where `a`, shifted by `off`, has the same differences as `b` from `m0` on,
/// the sums keep the distance they had at `m0`.
proof fn lemma_sum_shift(a: Seq<TimeoutEntry>, b: Seq<TimeoutEntry>, off: int, m0: nat, m: nat, diff: int)
    requires
        m0 <= m,
        m0 + off >= 0,
        m + off <= a.len(),
        m <= b.len(),
        sum_deltas(a, (m0 + off) as nat) == sum_deltas(b, m0) + diff,
        forall|j: int| m0 <= j < m ==> a[j + off].difftim == b[j].difftim,
    ensures
        sum_deltas(a, (m + off) as nat) == sum_deltas(b, m) + diff,
    decreases m - m0,
{
    if m > m0 {
        lemma_sum_shift(a, b, off, m0, (m - 1) as nat, diff);
        assert(a[(m - 1) + off].difftim == b[m - 1].difftim);
    }
}

/// A valid view bounds the sum of all deltas.
proof fn lemma_total_bounded(s: Seq<TimeoutEntry>)
    requires
        timers_valid(timers_of(s)),
    ensures
        sum_deltas(s, s.len()) <= u32::MAX,
{
    if s.len() > 0 {
        let v = timers_of(s);
        assert(v[s.len() - 1].1 <= u32::MAX);
    }
}

/// The split place of a valid view exists.
pub proof fn lemma_split_index_exists(v: Seq<(usize, int)>, t: int)
    ensures
        is_split_index(v, t, split_index(v, t)),
    decreases v.len(),
{
    if v.len() == 0 || v[0].1 > t {
        assert(is_split_index(v, t, 0));
    } else {
        let w = v.drop_first();
        lemma_split_index_exists(w, t);
        let k = split_index(w, t);
        assert forall|j: int| 0 <= j < k + 1 implies #[trigger] v[j].1 <= t by {
            if j > 0 {
                assert(v[j] == w[j - 1]);
            }
        }
        assert(is_split_index(v, t, k + 1));
    }
}

/// A tick of `t` units expires exactly the timeouts whose remaining time is at
/// most `t`.
pub proof fn lemma_tick_expires_exactly_due(v: Seq<(usize, int)>, t: int)
    requires
        timers_valid(v),
    ensures
        forall|i: int| 0 <= i < v.len() ==> (i < split_index(v, t) <==> #[trigger] v[i].1 <= t),
{
    lemma_split_index_exists(v, t);
    let k = split_index(v, t);
    assert forall|i: int| 0 <= i < v.len() implies (i < k <==> #[trigger] v[i].1 <= t) by {
        if i >= k {
            assert(v[k].1 <= v[i].1);
        }
    }
}

/// Two ticks of `a` and then `b` units have the same effect as one tick of
/// `a + b` units: the same timeouts expire, in the same order, and the same
/// ones remain with the same remaining times.
pub proof fn lemma_ticks_compose(v: Seq<(usize, int)>, a: int, b: int)
    requires
        timers_valid(v),
        a >= 0,
        b >= 0,
    ensures
        ({
            let k1 = split_index(v, a);
            let v1 = timers_elapsed(v.subrange(k1, v.len() as int), a);
            let k2 = split_index(v1, b);
            let v2 = timers_elapsed(v1.subrange(k2, v1.len() as int), b);
            let k = split_index(v, a + b);
            &&& timer_ids(v.subrange(0, k1)) + timer_ids(v1.subrange(0, k2)) == timer_ids(v.subrange(0, k))
            &&& v2 == timers_elapsed(v.subrange(k, v.len() as int), a + b)
        }),
{
    lemma_split_index_exists(v, a);
    let k1 = split_index(v, a);
    let v1 = timers_elapsed(v.subrange(k1, v.len() as int), a);
    lemma_split_index_exists(v1, b);
    let k2 = split_index(v1, b);
    let v2 = timers_elapsed(v1.subrange(k2, v1.len() as int), b);
    let k = k1 + k2;
    assert forall|j: int| 0 <= j < k implies #[trigger] v[j].1 <= a + b by {
        if j >= k1 {
            assert(v1[j - k1].1 == v[j].1 - a);
            assert(v1[j - k1].1 <= b);
        }
    }
    if k < v.len() {
        assert(v1[k2].1 == v[k].1 - a);
    }
    assert(is_split_index(v, a + b, k));
    lemma_split_index_unique(v, a + b, k);
    assert(timer_ids(v.subrange(0, k1)) + timer_ids(v1.subrange(0, k2)) =~= timer_ids(v.subrange(0, k)));
    assert(v2 =~= timers_elapsed(v.subrange(k, v.len() as int), a + b));
}

/// Cancelling a timeout right after adding it gives back the queue as it was.
pub proof fn lemma_remove_undoes_add(v: Seq<(usize, int)>, id: usize, t: int)
    requires
        !has_timer(v, id),
    ensures
        ({
            let w = v.insert(split_index(v, t), (id, t));
            &&& has_timer(w, id)
            &&& w.remove(timer_position(w, id)) == v
        }),
{
    lemma_split_index_exists(v, t);
    let k = split_index(v, t);
    let w = v.insert(k, (id, t));
    assert(w[k].0 == id);
    let i = timer_position(w, id);
    assert(0 <= i < w.len() && w[i].0 == id);
    if i < k {
        assert(w[i] == v[i]);
    } else if i > k {
        assert(w[i] == v[i - 1]);
    }
    assert(w.remove(i) =~= v);
}

/// The queue of pending timeouts.
pub struct TimeoutQueue {
    entries: VecDeque<TimeoutEntry>,
}

impl TimeoutQueue {
    /// The delta-encoded entries from head to tail.
    pub closed spec fn entries_view(&self) -> Seq<TimeoutEntry> {
        self.entries@
    }

    /// The queue is well formed: its abstract view is valid.
    pub open spec fn wf(&self) -> bool {
        timers_valid(self@)
    }
}

impl View for TimeoutQueue {
    type V = Seq<(usize, int)>;

    open spec fn view(&self) -> Seq<(usize, int)> {
        timers_of(self.entries_view())
    }
}

impl TimeoutQueue {
    /// An empty queue.
    pub fn new() -> (q: Self)
        ensures
            q@ == Seq::<(usize, int)>::empty(),
            q.wf(),
    {
        let q = TimeoutQueue { entries: VecDeque::new() };
        assert(q@ =~= Seq::<(usize, int)>::empty());
        q
    }

    /// Whether no timeout is pending.
    pub fn is_empty(&self) -> (b: bool)
        ensures
            b == (self@.len() == 0),
    {
        self.entries.len() == 0
    }

    /// The number of pending timeouts.
    pub fn len(&self) -> (n: usize)
        ensures
            n == self@.len(),
    {
        self.entries.len()
    }

    /// The object whose timeout expires first, with its remaining time.
    pub fn head(&self) -> (r: Option<(usize, u32)>)
        requires
            self.wf(),
        ensures
            r == (if self@.len() == 0 {
                None
            } else {
                Some((self@[0].0, self@[0].1 as u32))
            }),
    {
        if self.entries.len() == 0 {
            None
        } else {
            let e = self.entries[0];
            proof {
                assert(sum_deltas(self.entries@, 0) == 0);
                assert(sum_deltas(self.entries@, 1) == e.difftim);
            }
            Some((e.id, e.difftim))
        }
    }

    /// The objects with a pending timeout, from the first to expire.
    pub fn ids(&self) -> (r: Vec<usize>)
        ensures
            r@ == timer_ids(self@),
    {
        let mut r: Vec<usize> = Vec::new();
        let n = self.entries.len();
        let mut i: usize = 0;
        while i < n
            invariant
                n == self.entries@.len(),
                i <= n,
                r@.len() == i,
                forall|j: int| 0 <= j < i ==> r@[j] == self.entries@[j].id,
            decreases n - i,
        {
            r.push(self.entries[i].id);
            i = i + 1;
        }
        proof {
            assert(r@ =~= timer_ids(self@));
        }
        r
    }

    /// Whether `id` has a pending timeout.
    pub fn contains(&self, id: usize) -> (b: bool)
        ensures
            b == has_timer(self@, id),
    {
        let n = self.entries.len();
        let mut i: usize = 0;
        while i < n
            invariant
                n == self.entries@.len(),
                i <= n,
                forall|j: int| 0 <= j < i ==> self.entries@[j].id != id,
            decreases n - i,
        {
            if self.entries[i].id == id {
                proof {
                    assert(self@[i as int].0 == id);
                }
                return true;
            }
            i = i + 1;
        }
        proof {
            if has_timer(self@, id) {
                let j = choose|j: int| 0 <= j < self@.len() && self@[j].0 == id;
                assert(self.entries@[j].id == id);
            }
        }
        false
    }

    /// Registers a timeout of `tmout` time units for `id`. It is placed after
    /// every pending timeout that expires no later, and before the first one
    /// that expires later.
    pub fn add(&mut self, id: usize, tmout: u32)
        requires
            old(self).wf(),
            !has_timer(old(self)@, id),
        ensures
            final(self).wf(),
            final(self)@ == old(self)@.insert(split_index(old(self)@, tmout as int), (id, tmout as int)),
    {
        let ghost s = self.entries@;
        let n = self.entries.len();
        let mut k: usize = 0;
        let mut rest: u32 = tmout;
        while k < n && self.entries[k].difftim <= rest
            invariant
                n == self.entries@.len(),
                self.entries@ == s,
                0 <= k <= n,
                rest as int == tmout - sum_deltas(s, k as nat),
                forall|j: int| 0 <= j < k ==> #[trigger] sum_deltas(s, (j + 1) as nat) <= tmout,
            decreases n - k,
        {
            rest = rest - self.entries[k].difftim;
            k = k + 1;
        }
        let ghost v = timers_of(s);
        proof {
            assert forall|j: int| 0 <= j < k implies #[trigger] v[j].1 <= tmout by {
                assert(sum_deltas(s, (j + 1) as nat) <= tmout);
            }
            assert(is_split_index(v, tmout as int, k as int));
            lemma_split_index_unique(v, tmout as int, k as int);
        }
        let new_entry = TimeoutEntry { id, difftim: rest };
        if k < n {
            let next = self.entries[k];
            let updated = TimeoutEntry { id: next.id, difftim: next.difftim - rest };
            self.entries.remove(k);
            self.entries.insert(k, updated);
            self.entries.insert(k, new_entry);
            let ghost t = self.entries@;
            proof {
                assert(t =~= s.update(k as int, updated).insert(k as int, new_entry));
                assert forall|m: nat| m <= k implies sum_deltas(t, m) == sum_deltas(s, m) by {
                    lemma_sum_agree(t, s, m);
                }
                assert(sum_deltas(t, (k + 1) as nat) == tmout);
                assert(sum_deltas(t, (k + 2) as nat) == sum_deltas(s, (k + 1) as nat));
                assert forall|m: nat| k + 1 <= m <= n implies sum_deltas(t, m + 1) == sum_deltas(s, m) by {
                    lemma_sum_shift(t, s, 1, (k + 1) as nat, m, 0);
                }
                let w = v.insert(k as int, (id, tmout as int));
                assert forall|i: int| 0 <= i < t.len() implies timers_of(t)[i] == w[i] by {
                    if i < k {
                        assert(sum_deltas(t, (i + 1) as nat) == sum_deltas(s, (i + 1) as nat));
                    } else if i > k {
                        assert(sum_deltas(t, (i + 1) as nat) == sum_deltas(s, i as nat));
                    }
                }
                assert(timers_of(t) =~= w);
            }
        } else {
            self.entries.push_back(new_entry);
            let ghost t = self.entries@;
            proof {
                assert forall|m: nat| m <= k implies sum_deltas(t, m) == sum_deltas(s, m) by {
                    lemma_sum_agree(t, s, m);
                }
                let w = v.insert(k as int, (id, tmout as int));
                assert forall|i: int| 0 <= i < t.len() implies timers_of(t)[i] == w[i] by {
                    if i < k {
                        assert(sum_deltas(t, (i + 1) as nat) == sum_deltas(s, (i + 1) as nat));
                    }
                }
                assert(timers_of(t) =~= w);
            }
        }
        proof {
            lemma_insert_timer_valid(v, k as int, id, tmout as int);
        }
    }

    /// Cancels the pending timeout of `id`; nothing happens when it has none.
    /// The objects behind it keep their remaining times.
    pub fn remove(&mut self, id: usize)
        requires
            old(self).wf(),
        ensures
            final(self).wf(),
            has_timer(old(self)@, id) ==> final(self)@ == old(self)@.remove(timer_position(old(self)@, id)),
            !has_timer(old(self)@, id) ==> final(self)@ == old(self)@,
    {
        let ghost s = self.entries@;
        let ghost v = timers_of(s);
        let n = self.entries.len();
        let mut i: usize = 0;
        while i < n && self.entries[i].id != id
            invariant
                n == self.entries@.len(),
                self.entries@ == s,
                0 <= i <= n,
                forall|j: int| 0 <= j < i ==> s[j].id != id,
            decreases n - i,
        {
            i = i + 1;
        }
        if i == n {
            proof {
                if has_timer(v, id) {
                    let w = choose|j: int| 0 <= j < v.len() && v[j].0 == id;
                    assert(s[w].id == id);
                }
            }
            return;
        }
        proof {
            let p = timer_position(v, id);
            assert(v[i as int].0 == id);
            assert(0 <= p < v.len() && v[p].0 == id);
            if p != i {
                assert(v[p].0 != v[i as int].0);
            }
            lemma_total_bounded(s);
        }
        let cur = self.entries[i];
        if i + 1 < n {
            let next = self.entries[i + 1];
            proof {
                lemma_sum_nonneg(s, i as nat);
                lemma_sum_monotone(s, (i + 2) as nat, n as nat);
                assert(sum_deltas(s, (i + 2) as nat) == sum_deltas(s, i as nat) + cur.difftim + next.difftim);
            }
            let merged = TimeoutEntry { id: next.id, difftim: next.difftim + cur.difftim };
            self.entries.remove(i + 1);
            self.entries.insert(i + 1, merged);
            self.entries.remove(i);
            let ghost t = self.entries@;
            proof {
                assert(t =~= s.update(i + 1, merged).remove(i as int));
                assert forall|m: nat| m <= i implies sum_deltas(t, m) == sum_deltas(s, m) by {
                    lemma_sum_agree(t, s, m);
                }
                assert(sum_deltas(t, (i + 1) as nat) == sum_deltas(s, (i + 2) as nat));
                assert forall|m: nat| i + 1 <= m <= t.len() implies sum_deltas(s, m + 1) == sum_deltas(t, m) by {
                    lemma_sum_shift(s, t, 1, (i + 1) as nat, m, 0);
                }
                let w = v.remove(i as int);
                assert forall|j: int| 0 <= j < t.len() implies timers_of(t)[j] == w[j] by {
                    if j < i {
                        assert(sum_deltas(t, (j + 1) as nat) == sum_deltas(s, (j + 1) as nat));
                    } else {
                        assert(sum_deltas(t, (j + 1) as nat) == sum_deltas(s, (j + 2) as nat));
                    }
                }
                assert(timers_of(t) =~= w);
            }
        } else {
            self.entries.remove(i);
            let ghost t = self.entries@;
            proof {
                assert(t =~= s.remove(i as int));
                assert forall|m: nat| m <= i implies sum_deltas(t, m) == sum_deltas(s, m) by {
                    lemma_sum_agree(t, s, m);
                }
                let w = v.remove(i as int);
                assert forall|j: int| 0 <= j < t.len() implies timers_of(t)[j] == w[j] by {
                    assert(sum_deltas(t, (j + 1) as nat) == sum_deltas(s, (j + 1) as nat));
                }
                assert(timers_of(t) =~= w);
            }
        }
        proof {
            lemma_remove_timer_valid(v, i as int);
        }
    }

    /// Lets `tick` time units pass. Every timeout that expires within `tick`
    /// leaves the queue; their objects are returned in the order they expire.
    /// The remaining timeouts are `tick` units nearer.
    pub fn sig_tim(&mut self, tick: u32) -> (expired: Vec<usize>)
        requires
            old(self).wf(),
        ensures
            final(self).wf(),
            ({
                let k = split_index(old(self)@, tick as int);
                &&& expired@ == timer_ids(old(self)@.subrange(0, k))
                &&& final(self)@ == timers_elapsed(old(self)@.subrange(k, old(self)@.len() as int), tick as int)
            }),
    {
        let ghost s = self.entries@;
        let ghost v = timers_of(s);
        let ghost n = s.len();
        let mut expired: Vec<usize> = Vec::new();
        let mut rest: u32 = tick;
        while self.entries.len() > 0 && self.entries[0].difftim <= rest
            invariant
                n == s.len(),
                expired.len() <= n,
                self.entries@.len() == n - expired.len(),
                self.entries@ == s.subrange(expired.len() as int, n as int),
                rest as int == tick - sum_deltas(s, expired.len() as nat),
                forall|j: int| 0 <= j < expired.len() ==> #[trigger] sum_deltas(s, (j + 1) as nat) <= tick,
                forall|j: int| 0 <= j < expired.len() ==> expired@[j] == s[j].id,
            decreases self.entries@.len(),
        {
            let ghost c0 = expired.len() as int;
            let ghost before = self.entries@;
            let e = self.entries.pop_front().unwrap();
            proof {
                assert(before[0] == s[c0]);
                assert(self.entries@ =~= s.subrange(c0 + 1, n as int));
            }
            rest = rest - e.difftim;
            expired.push(e.id);
        }
        let ghost c = expired.len() as int;
        proof {
            assert forall|j: int| 0 <= j < c implies #[trigger] v[j].1 <= tick by {
                assert(sum_deltas(s, (j + 1) as nat) <= tick);
            }
            if c < n {
                assert(s[c] == self.entries@[0]);
            }
            assert(is_split_index(v, tick as int, c));
            lemma_split_index_unique(v, tick as int, c);
            assert(expired@ =~= timer_ids(v.subrange(0, c)));
        }
        if self.entries.len() > 0 {
            let head = self.entries.pop_front().unwrap();
            let updated = TimeoutEntry { id: head.id, difftim: head.difftim - rest };
            self.entries.push_front(updated);
            let ghost t = self.entries@;
            proof {
                assert(t =~= s.subrange(c, n as int).update(0, updated));
                assert(sum_deltas(t, 1) == sum_deltas(t, 0) + t[0].difftim);
                assert(sum_deltas(s, (1 + c) as nat) == sum_deltas(t, 1) + tick);
                assert forall|m: nat| 1 <= m <= t.len() implies sum_deltas(s, (m + c) as nat) == sum_deltas(t, m) + tick by {
                    lemma_sum_shift(s, t, c, 1, m, tick as int);
                }
                let w = timers_elapsed(v.subrange(c, n as int), tick as int);
                assert forall|j: int| 0 <= j < t.len() implies timers_of(t)[j] == w[j] by {
                    assert(sum_deltas(s, (j + 1 + c) as nat) == sum_deltas(t, (j + 1) as nat) + tick);
                }
                assert(timers_of(t) =~= w);
            }
        } else {
            proof {
                assert(timers_of(self.entries@) =~= timers_elapsed(v.subrange(c, n as int), tick as int));
            }
        }
        proof {
            lemma_elapsed_timer_valid(v, c, tick as int);
        }
        expired
    }
}

/// Inserting a new object at its split place keeps a view valid.
pub proof fn lemma_insert_timer_valid(v: Seq<(usize, int)>, k: int, id: usize, t: int)
    requires
        timers_valid(v),
        !has_timer(v, id),
        is_split_index(v, t, k),
        0 <= t <= u32::MAX,
    ensures
        timers_valid(v.insert(k, (id, t))),
{
    let w = v.insert(k, (id, t));
    assert forall|i: int| 0 <= i < w.len() implies 0 <= #[trigger] w[i].1 <= u32::MAX by {
        if i < k {
            assert(w[i] == v[i]);
        } else if i > k {
            assert(w[i] == v[i - 1]);
        }
    }
    assert forall|i: int, j: int| 0 <= i <= j < w.len() implies w[i].1 <= w[j].1 by {
        if i < k && j > k {
            assert(w[i] == v[i]);
            assert(w[j] == v[j - 1]);
        } else if i < k && j == k {
            assert(w[i] == v[i]);
        } else if i == k && j > k {
            assert(w[j] == v[j - 1]);
            assert(v[k].1 <= v[j - 1].1);
        } else if i > k {
            assert(w[i] == v[i - 1]);
            assert(w[j] == v[j - 1]);
        } else if j < k {
            assert(w[i] == v[i]);
            assert(w[j] == v[j]);
        }
    }
    assert forall|i: int, j: int| 0 <= i < w.len() && 0 <= j < w.len() && i != j implies w[i].0 != w[j].0 by {
        let oi = if i < k { i } else { i - 1 };
        let oj = if j < k { j } else { j - 1 };
        if i != k && j != k {
            assert(w[i] == v[oi]);
            assert(w[j] == v[oj]);
        } else if i == k {
            assert(w[j] == v[oj]);
        } else {
            assert(w[i] == v[oi]);
        }
    }
}

/// Taking an entry out keeps a view valid.
pub proof fn lemma_remove_timer_valid(v: Seq<(usize, int)>, i: int)
    requires
        timers_valid(v),
        0 <= i < v.len(),
    ensures
        timers_valid(v.remove(i)),
{
    let w = v.remove(i);
    assert forall|a: int| 0 <= a < w.len() implies 0 <= #[trigger] w[a].1 <= u32::MAX by {
        let oa = if a < i { a } else { a + 1 };
        assert(w[a] == v[oa]);
    }
    assert forall|a: int, b: int| 0 <= a <= b < w.len() implies w[a].1 <= w[b].1 by {
        let oa = if a < i { a } else { a + 1 };
        let ob = if b < i { b } else { b + 1 };
        assert(w[a] == v[oa]);
        assert(w[b] == v[ob]);
    }
    assert forall|a: int, b: int| 0 <= a < w.len() && 0 <= b < w.len() && a != b implies w[a].0 != w[b].0 by {
        let oa = if a < i { a } else { a + 1 };
        let ob = if b < i { b } else { b + 1 };
        assert(w[a] == v[oa]);
        assert(w[b] == v[ob]);
    }
}

/// Dropping the expired prefix and advancing the clock keeps a view valid.
pub proof fn lemma_elapsed_timer_valid(v: Seq<(usize, int)>, c: int, t: int)
    requires
        timers_valid(v),
        is_split_index(v, t, c),
        t >= 0,
    ensures
        timers_valid(timers_elapsed(v.subrange(c, v.len() as int), t)),
{
    let w = timers_elapsed(v.subrange(c, v.len() as int), t);
    assert forall|a: int| 0 <= a < w.len() implies 0 <= #[trigger] w[a].1 <= u32::MAX by {
        assert(w[a].1 == v[a + c].1 - t);
        assert(v[c].1 <= v[a + c].1);
    }
    assert forall|a: int, b: int| 0 <= a <= b < w.len() implies w[a].1 <= w[b].1 by {
        assert(w[a].1 == v[a + c].1 - t);
        assert(w[b].1 == v[b + c].1 - t);
    }
    assert forall|a: int, b: int| 0 <= a < w.len() && 0 <= b < w.len() && a != b implies w[a].0 != w[b].0 by {
        assert(w[a].0 == v[a + c].0);
        assert(w[b].0 == v[b + c].0);
    }
}

} // verus!
