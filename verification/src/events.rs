//! The event queue: a binary min-heap of predicted collision events keyed
//! by their scheduled time, viewed abstractly as a multiset of events.
//!
//! The engine only relies on the queue handing out a minimal-time event and
//! on exact bookkeeping of what the queue holds; the tie-break among events
//! scheduled for the same time is deterministic but otherwise unspecified.

use vstd::multiset::Multiset;
use vstd::prelude::*;

use crate::collisions::Collision;

verus! {

broadcast use {vstd::multiset::group_multiset_axioms, vstd::seq_lib::group_to_multiset_ensures};

/// A scheduled collision together with the absolute time (in the engine's
/// time units) at which it is predicted to happen.
#[derive(Clone, Copy, Debug)]
pub struct CollisionEvent {
    pub t: u64,
    pub collision: Collision,
}

/// A min-queue of collision events keyed by `t`, stored as a binary heap:
/// in the backing vector, a node's time is never below its parent's.
pub struct EventQueue {
    items: Vec<CollisionEvent>,
}

impl EventQueue {
    /// The multiset of events held.
    pub closed spec fn view(&self) -> Multiset<CollisionEvent> {
        self.items@.to_multiset()
    }

    /// The node at index `i` is no earlier than its parent at `(i - 1) / 2`.
    spec fn heap_ok(s: Seq<CollisionEvent>, i: int) -> bool
        recommends
            1 <= i < s.len(),
    {
        s[(i - 1) / 2].t <= s[i].t
    }

    /// The node at index `c` is no earlier than the parent of the node at
    /// index `j` (used for the hole that a sift moves around).
    spec fn above_ok(s: Seq<CollisionEvent>, j: int, c: int) -> bool
        recommends
            1 <= j < s.len(),
            0 <= c < s.len(),
    {
        s[(j - 1) / 2].t <= s[c].t
    }

    pub closed spec fn wf(&self) -> bool {
        forall|i: int| 1 <= i < self.items@.len() ==> #[trigger] Self::heap_ok(self.items@, i)
    }

    /// In a heap, the root is no later than any node.
    proof fn lemma_root_min(s: Seq<CollisionEvent>, i: int)
        requires
            forall|k: int| 1 <= k < s.len() ==> #[trigger] Self::heap_ok(s, k),
            0 <= i < s.len(),
        ensures
            s[0].t <= s[i].t,
        decreases i,
    {
        if i > 0 {
            assert(Self::heap_ok(s, i));
            Self::lemma_root_min(s, (i - 1) / 2);
        }
    }

    pub fn new() -> (q: EventQueue)
        ensures
            q.wf(),
            q@ =~= Multiset::<CollisionEvent>::empty(),
    {
        let q = EventQueue { items: Vec::new() };
        proof {
            assert(q.items@.to_multiset() =~= Multiset::<CollisionEvent>::empty()) by {
                q.items@.to_multiset_ensures();
            }
        }
        q
    }

    pub fn len(&self) -> (n: usize)
        ensures
            n == self@.len(),
    {
        self.items.len()
    }

    pub fn is_empty(&self) -> (r: bool)
        ensures
            r == (self@.len() == 0),
    {
        self.items.len() == 0
    }

    /// Drop every event.
    pub fn clear(&mut self)
        ensures
            final(self).wf(),
            final(self)@ =~= Multiset::<CollisionEvent>::empty(),
    {
        self.items.clear();
        proof {
            assert(self.items@.to_multiset() =~= Multiset::<CollisionEvent>::empty()) by {
                self.items@.to_multiset_ensures();
            }
        }
    }

    /// Swap the entries at `a` and `b`; the multiset of entries is kept.
    fn swap_entries(&mut self, a: usize, b: usize)
        requires
            a < old(self).items@.len(),
            b < old(self).items@.len(),
        ensures
            final(self).items@.len() == old(self).items@.len(),
            final(self).items@ =~= old(self).items@.update(a as int, old(self).items@[b as int])
                .update(b as int, old(self).items@[a as int]),
            final(self)@ =~= old(self)@,
    {
        let ghost before = self.items@;
        let ea = self.items[a];
        let eb = self.items[b];
        self.items[a] = eb;
        self.items[b] = ea;
        proof {
            let mid = before.update(a as int, eb);
            assert(self.items@ =~= mid.update(b as int, ea));
            assert(mid[b as int] == if a == b {
                eb
            } else {
                before[b as int]
            });
            assert(mid.to_multiset() == before.to_multiset().insert(eb).remove(before[a as int]));
            assert(self.items@.to_multiset() == mid.to_multiset().insert(ea).remove(
                mid[b as int],
            ));
            assert(self.items@.to_multiset() =~= before.to_multiset());
        }
    }

    /// Add an event and sift it up to its place.
    pub fn push(&mut self, e: CollisionEvent)
        requires
            old(self).wf(),
        ensures
            final(self).wf(),
            final(self)@ =~= old(self)@.insert(e),
            final(self)@.len() == old(self)@.len() + 1,
    {
        self.items.push(e);
        let mut j: usize = self.items.len() - 1;
        proof {
            assert forall|i: int| 1 <= i < self.items@.len() && i != j implies #[trigger] Self::heap_ok(
                self.items@,
                i,
            ) by {
                assert(Self::heap_ok(old(self).items@, i));
            }
        }
        while j > 0
            invariant
                j < self.items@.len(),
                self.items@.to_multiset() =~= old(self)@.insert(e),
                self.items@.len() == old(self)@.len() + 1,
                forall|i: int|
                    1 <= i < self.items@.len() && i != j ==> #[trigger] Self::heap_ok(
                        self.items@,
                        i,
                    ),
                j > 0 ==> forall|c: int|
                    1 <= c < self.items@.len() && (c - 1) / 2 == j ==> #[trigger] Self::above_ok(
                        self.items@,
                        j as int,
                        c,
                    ),
            decreases j,
        {
            let parent = (j - 1) / 2;
            if self.items[parent].t <= self.items[j].t {
                proof {
                    assert(Self::heap_ok(self.items@, j as int));
                    assert forall|i: int| 1 <= i < self.items@.len() implies #[trigger] Self::heap_ok(
                        self.items@,
                        i,
                    ) by {
                        if i != j as int {
                            assert(Self::heap_ok(self.items@, i));
                        }
                    }
                }
                return ;
            }
            let ghost before = self.items@;
            self.swap_entries(parent, j);
            proof {
                let s = self.items@;
                let n = s.len() as int;
                let jj = j as int;
                let pp = parent as int;
                assert(before[jj].t < before[pp].t);
                assert forall|i: int| 1 <= i < n && i != pp implies #[trigger] Self::heap_ok(
                    s,
                    i,
                ) by {
                    if i == jj {
                        assert(s[pp].t == before[jj].t && s[jj].t == before[pp].t);
                    } else if (i - 1) / 2 == jj {
                        assert(Self::above_ok(before, jj, i));
                        assert(s[i] == before[i]);
                    } else if (i - 1) / 2 == pp {
                        assert(Self::heap_ok(before, i));
                        assert(s[i] == before[i]);
                    } else {
                        assert(Self::heap_ok(before, i));
                        assert(s[i] == before[i] && s[(i - 1) / 2] == before[(i - 1) / 2]);
                    }
                }
                assert forall|c: int| pp > 0 && 1 <= c < n && (c - 1) / 2 == pp implies
                    #[trigger] Self::above_ok(s, pp, c) by {
                    assert(Self::heap_ok(before, pp));
                    if c == jj {
                        assert(s[c].t == before[pp].t);
                    } else {
                        assert(Self::heap_ok(before, c));
                        assert(s[c] == before[c]);
                    }
                }
            }
            j = parent;
        }
        proof {
            assert forall|i: int| 1 <= i < self.items@.len() implies #[trigger] Self::heap_ok(
                self.items@,
                i,
            ) by {
                assert(i != j as int);
            }
        }
    }

    /// The scheduled time of an earliest event, if any.
    pub fn peek_min_time(&self) -> (r: Option<u64>)
        requires
            self.wf(),
        ensures
            match r {
                Option::None => self@.len() == 0,
                Option::Some(t) => {
                    &&& self@.len() > 0
                    &&& exists|e: CollisionEvent| self@.count(e) > 0 && e.t == t
                    &&& forall|e: CollisionEvent| self@.count(e) > 0 ==> t <= e.t
                },
            },
    {
        if self.items.len() == 0 {
            return None;
        }
        let t = self.items[0].t;
        proof {
            self.lemma_seq_min_to_multiset(t);
        }
        Some(t)
    }

    /// Remove and return an event of minimal scheduled time.
    pub fn pop_min(&mut self) -> (e: CollisionEvent)
        requires
            old(self).wf(),
            old(self)@.len() > 0,
        ensures
            final(self).wf(),
            old(self)@.count(e) > 0,
            final(self)@ =~= old(self)@.remove(e),
            final(self)@.len() == old(self)@.len() - 1,
            forall|x: CollisionEvent| old(self)@.count(x) > 0 ==> e.t <= x.t,
    {
        let ghost orig = self.items@;
        let e = self.items[0];
        proof {
            self.lemma_seq_min_to_multiset(e.t);
            assert(orig.contains(orig[0]));
        }
        let last = match self.items.pop() {
            Some(x) => x,
            None => {
                proof {
                    assert(false);
                }
                e
            },
        };
        if self.items.len() == 0 {
            proof {
                assert(orig =~= Seq::<CollisionEvent>::empty().push(e));
                assert(self.items@.to_multiset() =~= orig.to_multiset().remove(e));
            }
            return e;
        }
        let ghost popped = self.items@;
        self.items[0] = last;
        proof {
            // Dropping the final entry and writing it over the root removes
            // one occurrence of the old root from the multiset.
            assert(popped =~= orig.drop_last());
            assert(orig =~= popped.push(last));
            assert(orig.to_multiset() == popped.to_multiset().insert(last));
            assert(self.items@.to_multiset() == popped.to_multiset().insert(last).remove(
                popped[0],
            ));
            assert(popped[0] == e);
            assert(self.items@.to_multiset() =~= orig.to_multiset().remove(e));
            // Every edge not out of the root still holds.
            assert forall|i: int| 1 <= i < self.items@.len() && (i - 1) / 2 != 0 implies
                #[trigger] Self::heap_ok(self.items@, i) by {
                assert(Self::heap_ok(orig, i));
                assert(self.items@[i] == orig[i] && self.items@[(i - 1) / 2] == orig[(i - 1) / 2]);
            }
        }
        self.sift_down();
        e
    }

    /// Restore the heap property when only the edges out of the root may be
    /// broken.
    fn sift_down(&mut self)
        requires
            old(self).items@.len() > 0,
            forall|i: int|
                1 <= i < old(self).items@.len() && (i - 1) / 2 != 0 ==> #[trigger] Self::heap_ok(
                    old(self).items@,
                    i,
                ),
        ensures
            final(self).wf(),
            final(self)@ =~= old(self)@,
            final(self).items@.len() == old(self).items@.len(),
    {
        let mut j: usize = 0;
        let n = self.items.len();
        loop
            invariant
                n == self.items@.len(),
                self.items@.len() == old(self).items@.len(),
                0 < n <= usize::MAX,
                j < n,
                self.items@.to_multiset() =~= old(self)@,
                forall|i: int|
                    1 <= i < n && (i - 1) / 2 != j ==> #[trigger] Self::heap_ok(self.items@, i),
                j > 0 ==> forall|c: int|
                    1 <= c < n && (c - 1) / 2 == j ==> #[trigger] Self::above_ok(
                        self.items@,
                        j as int,
                        c,
                    ),
            decreases n - j,
        {
            if j > (n - 1) / 2 || j * 2 + 1 >= n {
                // No children: every edge holds.
                proof {
                    assert forall|i: int| 1 <= i < n implies #[trigger] Self::heap_ok(
                        self.items@,
                        i,
                    ) by {
                        assert((i - 1) / 2 != j as int);
                    }
                }
                return ;
            }
            let left = j * 2 + 1;
            let right = left + 1;
            let smaller = if right < n && self.items[right].t < self.items[left].t {
                right
            } else {
                left
            };
            if self.items[j].t <= self.items[smaller].t {
                proof {
                    assert forall|i: int| 1 <= i < n implies #[trigger] Self::heap_ok(
                        self.items@,
                        i,
                    ) by {
                        if (i - 1) / 2 == j as int {
                            assert(i == left as int || i == right as int);
                            assert(self.items@[j as int].t <= self.items@[smaller as int].t);
                            assert(self.items@[smaller as int].t <= self.items@[i].t);
                        }
                    }
                }
                return ;
            }
            let ghost before = self.items@;
            self.swap_entries(j, smaller);
            proof {
                let s = self.items@;
                let jj = j as int;
                let cc = smaller as int;
                assert(before[cc].t < before[jj].t);
                assert(before[cc].t <= before[left as int].t);
                assert(right < n ==> before[cc].t <= before[right as int].t);
                assert forall|i: int| 1 <= i < n && (i - 1) / 2 != cc implies #[trigger] Self::heap_ok(
                    s,
                    i,
                ) by {
                    if i == cc {
                        assert(s[jj].t == before[cc].t && s[cc].t == before[jj].t);
                    } else if (i - 1) / 2 == jj {
                        assert(i == left as int || i == right as int);
                        assert(s[jj].t == before[cc].t);
                        assert(before[cc].t <= before[i].t);
                        assert(s[i] == before[i]);
                    } else if i == jj {
                        // The hole kept its parent; the swapped-in child is
                        // no earlier than that parent.
                        assert(Self::above_ok(before, jj, cc));
                        assert(s[jj].t == before[cc].t);
                        assert(s[(jj - 1) / 2] == before[(jj - 1) / 2]);
                    } else {
                        assert(Self::heap_ok(before, i));
                        assert(s[i] == before[i] && s[(i - 1) / 2] == before[(i - 1) / 2]);
                    }
                }
                assert forall|c: int| 1 <= c < n && (c - 1) / 2 == cc implies #[trigger] Self::above_ok(
                    s,
                    cc,
                    c,
                ) by {
                    assert((cc - 1) / 2 == jj);
                    assert(s[jj].t == before[cc].t);
                    assert(Self::heap_ok(before, c));
                    assert(s[c] == before[c]);
                }
            }
            j = smaller;
        }
    }

    /// The root's time bounds, stated of the multiset.
    proof fn lemma_seq_min_to_multiset(&self, t: u64)
        requires
            self.wf(),
            self.items@.len() > 0,
            t == self.items@[0].t,
        ensures
            exists|e: CollisionEvent| self@.count(e) > 0 && e.t == t,
            forall|e: CollisionEvent| self@.count(e) > 0 ==> t <= e.t,
    {
        assert(self.items@.contains(self.items@[0]));
        assert(self@.count(self.items@[0]) > 0);
        assert forall|e: CollisionEvent| self@.count(e) > 0 implies t <= e.t by {
            assert(self.items@.contains(e));
            let i = choose|i: int| 0 <= i < self.items@.len() && self.items@[i] == e;
            Self::lemma_root_min(self.items@, i);
        }
    }
}

} // verus!
