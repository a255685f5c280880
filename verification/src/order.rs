//! The order in which pending nodes are explored.

use core::cmp::Ordering;
use vstd::prelude::*;

verus! {

/// Priority for node exploration.
#[derive(Debug, Copy, Clone, PartialEq, Eq, Structural, Ord)]
pub struct EdgeOrder {
    /// Most significant: is the edge an active route?
    pub active: bool,
    /// Second most significant: how many requirements have been satisfied?
    pub satisfies: u32,
    /// Least significant: what is the exploration priority?
    pub priority: i32,
}

impl EdgeOrder {
    /// Whether `self` comes strictly below `other`: an inactive edge below an
    /// active one, then fewer satisfied requirements below more, then the
    /// lower priority below the higher.
    pub open spec fn precedes_spec(self, other: EdgeOrder) -> bool {
        if self.active != other.active {
            !self.active
        } else if self.satisfies != other.satisfies {
            self.satisfies < other.satisfies
        } else {
            self.priority < other.priority
        }
    }

    /// Whether `self` comes strictly below `other`.
    pub fn precedes(&self, other: &EdgeOrder) -> (below: bool)
        ensures
            below == self.precedes_spec(*other),
    {
        if self.active != other.active {
            !self.active
        } else if self.satisfies != other.satisfies {
            self.satisfies < other.satisfies
        } else {
            self.priority < other.priority
        }
    }

    /// The order is strict and total: of two keys exactly one comes below
    /// the other unless they are equal, and coming below is transitive.
    pub proof fn lemma_total_order(a: EdgeOrder, b: EdgeOrder, c: EdgeOrder)
        ensures
            !a.precedes_spec(a),
            a.precedes_spec(b) ==> !b.precedes_spec(a),
            a != b ==> a.precedes_spec(b) || b.precedes_spec(a),
            a.precedes_spec(b) && b.precedes_spec(c) ==> a.precedes_spec(c),
    {
    }
}

impl PartialOrd for EdgeOrder {
    fn partial_cmp(&self, other: &EdgeOrder) -> (order: Option<Ordering>) {
        if self.precedes(other) {
            Some(Ordering::Less)
        } else if other.precedes(self) {
            Some(Ordering::Greater)
        } else {
            Some(Ordering::Equal)
        }
    }
}

impl vstd::std_specs::cmp::PartialOrdSpecImpl for EdgeOrder {
    open spec fn obeys_partial_cmp_spec() -> bool {
        true
    }

    open spec fn partial_cmp_spec(&self, other: &EdgeOrder) -> Option<Ordering> {
        if self.precedes_spec(*other) {
            Some(Ordering::Less)
        } else if other.precedes_spec(*self) {
            Some(Ordering::Greater)
        } else {
            Some(Ordering::Equal)
        }
    }
}

/// A pending entry: the key of a node, and the node's index.
pub type Pending = (EdgeOrder, usize);

/// Whether position `at` of `queue` is the one to dequeue: no entry has a
/// greater key, and every entry before it has a smaller one.
pub open spec fn is_next(queue: Seq<Pending>, at: int) -> bool {
    &&& 0 <= at < queue.len()
    &&& forall|j: int| 0 <= j < queue.len() ==> !queue[at].0.precedes_spec(#[trigger] queue[j].0)
    &&& forall|j: int| 0 <= j < at ==> (#[trigger] queue[j].0).precedes_spec(queue[at].0)
}

/// The position to dequeue: the oldest entry among those with the greatest
/// key.
pub open spec fn next_at(queue: Seq<Pending>) -> int
    decreases queue.len(),
{
    if queue.len() <= 1 {
        0
    } else {
        let before = next_at(queue.drop_last());
        if queue[before].0.precedes_spec(queue.last().0) {
            queue.len() - 1
        } else {
            before
        }
    }
}

/// `next_at` is the position to dequeue, and the only one.
pub proof fn lemma_next_at(queue: Seq<Pending>)
    requires
        queue.len() > 0,
    ensures
        is_next(queue, next_at(queue)),
        forall|at: int| is_next(queue, at) ==> at == next_at(queue),
    decreases queue.len(),
{
    if queue.len() > 1 {
        let front = queue.drop_last();
        lemma_next_at(front);
        let before = next_at(front);
        let pick = next_at(queue);
        assert forall|j: int| 0 <= j < queue.len() implies !queue[pick].0.precedes_spec(
            #[trigger] queue[j].0,
        ) by {
            if j < front.len() {
                assert(!front[before].0.precedes_spec(front[j].0));
            }
        }
        assert forall|j: int| 0 <= j < pick implies (#[trigger] queue[j].0).precedes_spec(
            queue[pick].0,
        ) by {
            assert(!front[before].0.precedes_spec(front[j].0));
            if j < before {
                assert(front[j].0.precedes_spec(front[before].0));
            }
        }
    }
    assert forall|at: int| is_next(queue, at) implies at == next_at(queue) by {
        let pick = next_at(queue);
        if at < pick {
            assert(queue[at].0.precedes_spec(queue[pick].0));
            assert(!queue[at].0.precedes_spec(queue[pick].0));
        } else if pick < at {
            assert(queue[pick].0.precedes_spec(queue[at].0));
            assert(!queue[pick].0.precedes_spec(queue[at].0));
        }
    }
}

/// The nodes that wait to be explored, in the order in which they were
/// scheduled.
pub struct WorkingQueue {
    entries: Vec<Pending>,
}

impl WorkingQueue {
    /// The pending entries, oldest first.
    pub closed spec fn view(&self) -> Seq<Pending> {
        self.entries@
    }

    /// A queue with nothing pending.
    pub fn new() -> (queue: WorkingQueue)
        ensures
            queue@ == Seq::<Pending>::empty(),
    {
        WorkingQueue { entries: Vec::new() }
    }

    /// The number of pending entries.
    pub fn len(&self) -> (n: usize)
        ensures
            n == self@.len(),
    {
        self.entries.len()
    }

    /// Schedules node `index` under `key`, behind all that is pending.
    pub fn insert(&mut self, key: EdgeOrder, index: usize)
        ensures
            final(self)@ == old(self)@.push((key, index)),
    {
        self.entries.push((key, index));
    }

    /// Schedules all of `more`, in order, behind all that is pending.
    pub fn extend(&mut self, more: Vec<Pending>)
        ensures
            final(self)@ == old(self)@ + more@,
    {
        let mut more = more;
        self.entries.append(&mut more);
    }

    /// Takes out the node to explore next: of the entries with the greatest
    /// key, the one that was scheduled first.
    pub fn pop(&mut self) -> (node: Option<usize>)
        ensures
            old(self)@.len() == 0 ==> node is None && final(self)@ == old(self)@,
            old(self)@.len() > 0 ==> {
                &&& is_next(old(self)@, next_at(old(self)@))
                &&& node == Some(old(self)@[next_at(old(self)@)].1)
                &&& final(self)@ == old(self)@.remove(next_at(old(self)@))
            },
    {
        if self.entries.len() == 0 {
            return None;
        }
        let mut best: usize = 0;
        let mut i: usize = 1;
        assert(self@.take(1).len() == 1);
        while i < self.entries.len()
            invariant
                1 <= i <= self.entries.len(),
                best < i,
                best == next_at(self@.take(i as int)),
            decreases self.entries.len() - i,
        {
            proof {
                let upto = self@.take(i + 1);
                assert(upto.drop_last() =~= self@.take(i as int));
                assert(upto[best as int] == self@[best as int]);
                assert(upto.last() == self@[i as int]);
            }
            if self.entries[best].0.precedes(&self.entries[i].0) {
                best = i;
            }
            i += 1;
        }
        proof {
            assert(self@.take(i as int) =~= self@);
            lemma_next_at(self@);
        }
        let (_, index) = self.entries.remove(best);
        Some(index)
    }
}

} // verus!
