//! Collision records, their order-insensitive pair identity, and the
//! per-tick in-flight set that keeps a degenerate multi-body overlap from
//! replaying the same pair forever within one sub-step of a tick.

use vstd::prelude::*;

verus! {

broadcast use vstd::set::group_set_axioms;

/// A predicted collision, recorded by particle / segment indices together
/// with each involved particle's collision-count snapshot taken at the
/// moment the event was scheduled.  A snapshot that no longer matches the
/// current counters marks the event as stale.
#[derive(Clone, Copy, Debug)]
pub enum Collision {
    ParticleVsParticle { p1: usize, p2: usize, p1_cc: u64, p2_cc: u64 },
    ParticleVsSegment { p: usize, s: usize, p_cc: u64 },
}

impl Collision {
    /// The particle indices the collision names lie below `n_particles`.
    pub open spec fn particles_valid(self, n_particles: nat) -> bool {
        match self {
            Collision::ParticleVsParticle { p1, p2, .. } => p1 < n_particles && p2 < n_particles,
            Collision::ParticleVsSegment { p, .. } => p < n_particles,
        }
    }

    /// The particle indices lie below `n_particles` and the segment index
    /// (if any) below `n_segments`.
    pub open spec fn valid(self, n_particles: nat, n_segments: nat) -> bool {
        &&& self.particles_valid(n_particles)
        &&& match self {
            Collision::ParticleVsSegment { s, .. } => s < n_segments,
            _ => true,
        }
    }

    /// The snapshot counters still equal the current per-particle counters:
    /// the collision has not been invalidated by a later collision.
    pub open spec fn is_fresh(self, counters: Seq<u64>) -> bool {
        match self {
            Collision::ParticleVsParticle { p1, p2, p1_cc, p2_cc } =>
                counters[p1 as int] == p1_cc && counters[p2 as int] == p2_cc,
            Collision::ParticleVsSegment { p, p_cc, .. } => counters[p as int] == p_cc,
        }
    }

    /// The collision involves particle `i` as an operand.
    pub open spec fn involves(self, i: int) -> bool {
        match self {
            Collision::ParticleVsParticle { p1, p2, .. } => i == p1 || i == p2,
            Collision::ParticleVsSegment { p, .. } => i == p,
        }
    }

    /// The counter snapshot this collision recorded for particle `i`.
    pub open spec fn snapshot_for(self, i: int) -> u64
        recommends
            self.involves(i),
    {
        match self {
            Collision::ParticleVsParticle { p1, p1_cc, p2_cc, .. } =>
                if i == p1 {
                    p1_cc
                } else {
                    p2_cc
                },
            Collision::ParticleVsSegment { p_cc, .. } => p_cc,
        }
    }

    /// The dedup key of this collision.
    pub open spec fn spec_pair(self) -> CollisionPair {
        match self {
            Collision::ParticleVsParticle { p1, p2, .. } => CollisionPair::PvP(p1, p2),
            Collision::ParticleVsSegment { p, s, .. } => CollisionPair::PvE(p, s),
        }
    }

    /// Staleness test: true iff every snapshot in the record still matches
    /// the current counters.
    pub fn matches_counters(&self, counters: &Vec<u64>) -> (r: bool)
        requires
            self.particles_valid(counters@.len()),
        ensures
            r == self.is_fresh(counters@),
    {
        match self {
            Collision::ParticleVsParticle { p1, p2, p1_cc, p2_cc } => {
                counters[*p1] == *p1_cc && counters[*p2] == *p2_cc
            }
            Collision::ParticleVsSegment { p, s: _, p_cc } => counters[*p] == *p_cc,
        }
    }
}

/// Law: an event whose snapshot predates a counter change is stale.  Once
/// any involved particle's counter has moved past the recorded snapshot,
/// the collision fails the freshness test and is therefore never realized.
pub proof fn lemma_changed_snapshot_is_stale(c: Collision, counters: Seq<u64>, i: int)
    requires
        c.involves(i),
        c.particles_valid(counters.len()),
        c.snapshot_for(i) != counters[i],
    ensures
        !c.is_fresh(counters),
{
}

impl From<Collision> for CollisionPair {
    fn from(c: Collision) -> (r: CollisionPair) {
        match c {
            Collision::ParticleVsParticle { p1, p2, .. } => CollisionPair::PvP(p1, p2),
            Collision::ParticleVsSegment { p, s, .. } => CollisionPair::PvE(p, s),
        }
    }
}

impl vstd::std_specs::convert::FromSpecImpl<Collision> for CollisionPair {
    open spec fn obeys_from_spec() -> bool {
        true
    }

    open spec fn from_spec(c: Collision) -> CollisionPair {
        c.spec_pair()
    }
}

/// Order-insensitive identity of a collision, used to deduplicate collisions
/// within one sub-step of a tick.  Two particle-vs-particle pairs are equal
/// iff they involve the same two particle indices in either order; two
/// particle-vs-segment pairs are equal iff they name the same particle and
/// segment.
#[derive(Clone, Copy, Debug)]
pub enum CollisionPair {
    PvP(usize, usize),
    PvE(usize, usize),
}

impl CollisionPair {
    /// What equality of pairs means: symmetric in the particle indices of a
    /// particle-vs-particle pair, componentwise otherwise.
    pub open spec fn same_pair(self, other: CollisionPair) -> bool {
        match (self, other) {
            (CollisionPair::PvP(a1, a2), CollisionPair::PvP(b1, b2)) =>
                (a1 == b1 && a2 == b2) || (a1 == b2 && a2 == b1),
            (CollisionPair::PvE(a1, a2), CollisionPair::PvE(b1, b2)) => a1 == b1 && a2 == b2,
            _ => false,
        }
    }

    /// The canonical representative of a pair: a particle-vs-particle pair
    /// with its indices in nondecreasing order.
    pub open spec fn spec_normalized(self) -> CollisionPair {
        match self {
            CollisionPair::PvP(a, b) =>
                if a <= b {
                    CollisionPair::PvP(a, b)
                } else {
                    CollisionPair::PvP(b, a)
                },
            CollisionPair::PvE(a, b) => CollisionPair::PvE(a, b),
        }
    }

    /// Pair equality is exactly equality of canonical representatives.
    pub proof fn lemma_same_pair_iff_normalized_eq(a: CollisionPair, b: CollisionPair)
        ensures
            a.same_pair(b) <==> a.spec_normalized() == b.spec_normalized(),
    {
    }

    /// Pair equality is symmetric.
    pub proof fn lemma_same_pair_symmetric(a: CollisionPair, b: CollisionPair)
        ensures
            a.same_pair(b) == b.same_pair(a),
    {
    }

    /// The canonical representative, computed.
    pub fn normalized(&self) -> (r: CollisionPair)
        ensures
            r == self.spec_normalized(),
    {
        match self {
            CollisionPair::PvP(a, b) => {
                if *a <= *b {
                    CollisionPair::PvP(*a, *b)
                } else {
                    CollisionPair::PvP(*b, *a)
                }
            }
            CollisionPair::PvE(a, b) => CollisionPair::PvE(*a, *b),
        }
    }
}

impl PartialEq for CollisionPair {
    fn eq(&self, other: &CollisionPair) -> bool {
        match (self, other) {
            (CollisionPair::PvP(a1, a2), CollisionPair::PvP(b1, b2)) => {
                (a1 == b1 && a2 == b2) || (a1 == b2 && a2 == b1)
            }
            (CollisionPair::PvE(a1, a2), CollisionPair::PvE(b1, b2)) => a1 == b1 && a2 == b2,
            _ => false,
        }
    }
}

impl Eq for CollisionPair {}

impl vstd::std_specs::cmp::PartialEqSpecImpl for CollisionPair {
    open spec fn obeys_eq_spec() -> bool {
        true
    }

    open spec fn eq_spec(&self, other: &CollisionPair) -> bool {
        self.same_pair(*other)
    }
}

/// The set of collision pairs already applied within the current sub-step of
/// a tick.  Its view is the set of canonical representatives of the stored
/// pairs.
pub struct PairSet {
    items: Vec<CollisionPair>,
}

impl PairSet {
    /// The set of canonical pair representatives held.
    pub closed spec fn view(&self) -> Set<CollisionPair> {
        self.items@.to_set()
    }

    /// Every stored pair is its own canonical representative.
    pub closed spec fn wf(&self) -> bool {
        forall|i: int|
            0 <= i < self.items@.len() ==> #[trigger] self.items@[i].spec_normalized()
                == self.items@[i]
    }

    pub fn new() -> (s: PairSet)
        ensures
            s.wf(),
            s@ =~= Set::<CollisionPair>::empty(),
    {
        PairSet { items: Vec::new() }
    }

    pub fn clear(&mut self)
        ensures
            final(self).wf(),
            final(self)@ =~= Set::<CollisionPair>::empty(),
    {
        self.items.clear();
    }

    /// Membership up to pair equality.
    pub fn contains(&self, p: &CollisionPair) -> (r: bool)
        requires
            self.wf(),
        ensures
            r == self@.contains(p.spec_normalized()),
    {
        let target = p.normalized();
        let mut i: usize = 0;
        while i < self.items.len()
            invariant
                self.wf(),
                i <= self.items@.len(),
                target == p.spec_normalized(),
                forall|j: int| 0 <= j < i ==> self.items@[j] != target,
            decreases self.items@.len() - i,
        {
            if self.items[i] == target {
                proof {
                    assert(self.items@[i as int].spec_normalized() == self.items@[i as int]);
                    assert(target.spec_normalized() == target);
                    CollisionPair::lemma_same_pair_iff_normalized_eq(
                        self.items@[i as int],
                        target,
                    );
                    assert(self.items@[i as int] == target);
                    assert(self.items@.contains(target));
                }
                return true;
            }
            assert(!self.items@[i as int].same_pair(target));
            i += 1;
        }
        assert(forall|j: int| 0 <= j < self.items@.len() ==> self.items@[j] != target);
        assert(!self.items@.contains(target));
        false
    }

    /// Insert a pair; the view grows by its canonical representative.
    pub fn insert(&mut self, p: CollisionPair)
        requires
            old(self).wf(),
        ensures
            final(self).wf(),
            final(self)@ =~= old(self)@.insert(p.spec_normalized()),
    {
        let n = p.normalized();
        let ghost before = self.items@;
        self.items.push(n);
        proof {
            assert(self.items@ =~= before.push(n));
            assert(n.spec_normalized() == n);
            assert forall|q: CollisionPair| #[trigger] self.items@.contains(q) implies before.contains(
                q,
            ) || q == n by {
                let j = choose|j: int| 0 <= j < self.items@.len() && self.items@[j] == q;
                if j < before.len() {
                    assert(before[j] == q);
                }
            }
            assert forall|q: CollisionPair| before.contains(q) implies #[trigger] self.items@.contains(
                q,
            ) by {
                let j = choose|j: int| 0 <= j < before.len() && before[j] == q;
                assert(self.items@[j] == q);
            }
            assert(self.items@[before.len() as int] == n);
            assert(self.items@.contains(n));
            assert(self.items@.to_set() =~= before.to_set().insert(n));
        }
    }
}

} // verus!
