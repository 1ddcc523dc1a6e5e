//! The simulation engine's discrete core.
//!
//! The engine owns everything about the simulation that is exact: the
//! per-particle collision counters, the event queue, the per-sub-step
//! in-flight pair set, the clock, the tick rate, the `initialized` flag and
//! the game overlay.  The host owns the continuous state (positions,
//! velocities, masses, radii and the wall geometry), predicts hit times and
//! computes post-collision velocities, and drives one tick as follows:
//!
//! 1. If the engine is not initialized: `begin_init`, then `schedule_pvp` /
//!    `schedule_pvs` for every predicted hit, then `finish_init`.
//! 2. In game mode, test the player's particle for overlap and call
//!    `end_game` if it overlaps anything.
//! 3. `begin_tick`, then repeatedly `select_due_event`.  For each selected
//!    event: apply the collision to the continuous state, `commit_collision`,
//!    re-predict and re-schedule events for the affected particles, and
//!    `advance_to` the event's time.
//! 4. `advance_to` the tick's target time.
//!
//! The engine guarantees the parts of the loop that make it terminate and
//! keep it sound: a selected event is never stale (its counter snapshots
//! equal the current counters) and never a repeat of a pair already applied
//! in the current sub-step, counters only grow, and the game-over result is
//! produced exactly once per run.

use vstd::multiset::Multiset;
use vstd::prelude::*;

use crate::collisions::{Collision, CollisionPair, PairSet};
use crate::events::{CollisionEvent, EventQueue};
use crate::game::{spec_score, GameParams, SignedGameResult};

verus! {

broadcast use vstd::multiset::group_multiset_axioms;

/// The discrete simulation state.  A particle's identity is its index into
/// the counter sequence; the host keeps the continuous state of particle `i`
/// under the same index.
pub struct Simulation {
    /// Per-particle collision counters.
    pub counters: Vec<u64>,
    /// How many wall segments the host holds.
    pub n_segments: usize,
    /// Predicted collision events, keyed by absolute time in time units.
    pub events: EventQueue,
    /// Pairs already applied in the current sub-step of the current tick.
    pub in_flight: PairSet,
    /// Current time, in time units.
    pub t: u64,
    pub ticks_per_sec: u32,
    /// Time units per second; fixed at construction.
    pub units_per_sec: u64,
    /// Duration of one tick, in time units: `units_per_sec / ticks_per_sec`.
    pub tick_time: u64,
    /// False after any mutation of particles, segments or the tick rate;
    /// the host must rebuild the event queue before the next tick.
    pub initialized: bool,
    pub game_params: Option<GameParams>,
    /// The HMAC secret game results are signed with.
    pub secret: Vec<u8>,
}

impl Simulation {
    pub open spec fn n_particles(&self) -> nat {
        self.counters@.len()
    }

    /// Particle `i` is the player's particle.
    pub open spec fn spec_is_player(&self, i: int) -> bool {
        match self.game_params {
            Option::Some(g) => g.p_particle == i,
            Option::None => false,
        }
    }

    /// Game mode is on and the run has not ended yet.
    pub open spec fn spec_game_running(&self) -> bool {
        match self.game_params {
            Option::Some(g) => !g.game_ended,
            Option::None => false,
        }
    }

    /// Well-formedness: the tick length is derived from the rates, every
    /// queued event names indices the host holds, and the game overlay (if
    /// any) names a live particle and started no later than now.
    pub open spec fn wf(&self) -> bool {
        &&& self.ticks_per_sec > 0
        &&& self.units_per_sec >= self.ticks_per_sec as u64
        &&& self.tick_time == self.units_per_sec / (self.ticks_per_sec as u64)
        &&& self.in_flight.wf()
        &&& self.events.wf()
        &&& forall|e: CollisionEvent| #[trigger] self.events@.count(e) > 0 ==> e.collision.valid(
            self.n_particles(),
            self.n_segments as nat,
        )
        &&& match self.game_params {
            Option::Some(g) => g.p_particle < self.n_particles() && g.game_started_tick <= self.t,
            Option::None => true,
        }
    }

    /// A fresh engine: no particles, no segments, no events, time zero,
    /// game mode off.
    pub fn new(ticks_per_sec: u32, units_per_sec: u64, secret: Vec<u8>) -> (s: Simulation)
        requires
            ticks_per_sec > 0,
            units_per_sec >= ticks_per_sec as u64,
        ensures
            s.wf(),
            s.counters@ =~= Seq::<u64>::empty(),
            s.n_segments == 0,
            s.events@ =~= Multiset::<CollisionEvent>::empty(),
            s.in_flight@ =~= Set::<CollisionPair>::empty(),
            s.t == 0,
            s.ticks_per_sec == ticks_per_sec,
            s.units_per_sec == units_per_sec,
            s.tick_time == units_per_sec / (ticks_per_sec as u64),
            !s.initialized,
            s.game_params is None,
            s.secret == secret,
    {
        Simulation {
            counters: Vec::new(),
            n_segments: 0,
            events: EventQueue::new(),
            in_flight: PairSet::new(),
            t: 0,
            ticks_per_sec,
            units_per_sec,
            tick_time: units_per_sec / (ticks_per_sec as u64),
            initialized: false,
            game_params: None,
            secret,
        }
    }

    /// Append a particle, or reject it.  The host performs the geometric
    /// overlap test and passes its outcome; a particle is accepted (and
    /// given the next index) iff it overlaps nothing.  Any acceptance marks
    /// the engine uninitialized.
    pub fn add_particle(&mut self, overlaps: bool) -> (r: Option<usize>)
        requires
            old(self).wf(),
            old(self).n_particles() < usize::MAX,
        ensures
            final(self).wf(),
            r is Some <==> !overlaps,
            overlaps ==> *final(self) == *old(self),
            !overlaps ==> {
                &&& r == Option::Some(old(self).counters@.len() as usize)
                &&& final(self).counters@ =~= old(self).counters@.push(0u64)
                &&& !final(self).initialized
                &&& final(self).n_segments == old(self).n_segments
                &&& final(self).events@ == old(self).events@
                &&& final(self).in_flight@ == old(self).in_flight@
                &&& final(self).t == old(self).t
                &&& final(self).ticks_per_sec == old(self).ticks_per_sec
                &&& final(self).units_per_sec == old(self).units_per_sec
                &&& final(self).tick_time == old(self).tick_time
                &&& final(self).game_params == old(self).game_params
                &&& final(self).secret == old(self).secret
            },
    {
        if overlaps {
            None
        } else {
            let idx = self.counters.len();
            self.counters.push(0);
            self.initialized = false;
            proof {
                assert forall|e: CollisionEvent| #[trigger] self.events@.count(e) > 0 implies e.collision.valid(
                    self.n_particles(),
                    self.n_segments as nat,
                ) by {
                    assert(e.collision.valid(old(self).n_particles(), old(self).n_segments as nat));
                }
            }
            Some(idx)
        }
    }

    /// Append a wall segment (the host holds its geometry) and mark the
    /// engine uninitialized.  Returns the segment's index.
    pub fn add_segment(&mut self) -> (idx: usize)
        requires
            old(self).wf(),
            old(self).n_segments < usize::MAX,
        ensures
            final(self).wf(),
            idx == old(self).n_segments,
            final(self).n_segments == old(self).n_segments + 1,
            !final(self).initialized,
            final(self).counters@ == old(self).counters@,
            final(self).events@ == old(self).events@,
            final(self).in_flight@ == old(self).in_flight@,
            final(self).t == old(self).t,
            final(self).ticks_per_sec == old(self).ticks_per_sec,
            final(self).units_per_sec == old(self).units_per_sec,
            final(self).tick_time == old(self).tick_time,
            final(self).game_params == old(self).game_params,
            final(self).secret == old(self).secret,
    {
        let idx = self.n_segments;
        self.n_segments = self.n_segments + 1;
        self.initialized = false;
        proof {
            assert forall|e: CollisionEvent| #[trigger] self.events@.count(e) > 0 implies e.collision.valid(
                self.n_particles(),
                self.n_segments as nat,
            ) by {
                assert(e.collision.valid(old(self).n_particles(), old(self).n_segments as nat));
            }
        }
        idx
    }

    /// Append the player's particle and activate game mode.  The host zeroes
    /// the particle's velocity and performs the overlap test; on acceptance
    /// the run starts at the current time.
    pub fn add_player_particle(
        &mut self,
        overlaps: bool,
        player_uuid: String,
        player_name: String,
    ) -> (r: Option<usize>)
        requires
            old(self).wf(),
            old(self).n_particles() < usize::MAX,
        ensures
            final(self).wf(),
            r is Some <==> !overlaps,
            overlaps ==> *final(self) == *old(self),
            !overlaps ==> {
                &&& r == Option::Some(old(self).counters@.len() as usize)
                &&& final(self).counters@ =~= old(self).counters@.push(0u64)
                &&& !final(self).initialized
                &&& final(self).game_params == Option::Some(
                    GameParams {
                        p_particle: old(self).counters@.len() as usize,
                        player_uuid,
                        player_name,
                        game_started_tick: old(self).t,
                        game_ended: false,
                    },
                )
                &&& final(self).n_segments == old(self).n_segments
                &&& final(self).events@ == old(self).events@
                &&& final(self).in_flight@ == old(self).in_flight@
                &&& final(self).t == old(self).t
                &&& final(self).ticks_per_sec == old(self).ticks_per_sec
                &&& final(self).units_per_sec == old(self).units_per_sec
                &&& final(self).tick_time == old(self).tick_time
                &&& final(self).secret == old(self).secret
            },
    {
        let r = self.add_particle(overlaps);
        if let Some(index) = r {
            self.game_params = Some(GameParams::new(index, player_uuid, player_name, self.t));
            return Some(index);
        }
        r
    }

    /// Note that the host teleported the player's particle: the engine must
    /// be re-initialized.  Returns false (and changes nothing) when game
    /// mode is off.
    pub fn mv_player_particle(&mut self) -> (moved: bool)
        requires
            old(self).wf(),
        ensures
            final(self).wf(),
            moved == old(self).game_params is Some,
            !moved ==> *final(self) == *old(self),
            moved ==> {
                &&& !final(self).initialized
                &&& final(self).counters@ == old(self).counters@
                &&& final(self).n_segments == old(self).n_segments
                &&& final(self).events@ == old(self).events@
                &&& final(self).in_flight@ == old(self).in_flight@
                &&& final(self).t == old(self).t
                &&& final(self).ticks_per_sec == old(self).ticks_per_sec
                &&& final(self).units_per_sec == old(self).units_per_sec
                &&& final(self).tick_time == old(self).tick_time
                &&& final(self).game_params == old(self).game_params
                &&& final(self).secret == old(self).secret
            },
    {
        if self.game_params.is_some() {
            self.initialized = false;
            true
        } else {
            false
        }
    }

    /// Change the tick rate and mark the engine uninitialized.
    pub fn set_ticks_per_sec(&mut self, ticks_per_sec: u32)
        requires
            old(self).wf(),
            ticks_per_sec > 0,
            old(self).units_per_sec >= ticks_per_sec as u64,
        ensures
            final(self).wf(),
            final(self).ticks_per_sec == ticks_per_sec,
            final(self).tick_time == old(self).units_per_sec / (ticks_per_sec as u64),
            !final(self).initialized,
            final(self).counters@ == old(self).counters@,
            final(self).n_segments == old(self).n_segments,
            final(self).events@ == old(self).events@,
            final(self).in_flight@ == old(self).in_flight@,
            final(self).t == old(self).t,
            final(self).units_per_sec == old(self).units_per_sec,
            final(self).game_params == old(self).game_params,
            final(self).secret == old(self).secret,
    {
        self.ticks_per_sec = ticks_per_sec;
        self.tick_time = self.units_per_sec / (ticks_per_sec as u64);
        self.initialized = false;
    }

    /// Start rebuilding the event queue: every scheduled event is dropped.
    /// No event scheduled before a mutation survives it.
    pub fn begin_init(&mut self)
        requires
            old(self).wf(),
        ensures
            final(self).wf(),
            final(self).events@ =~= Multiset::<CollisionEvent>::empty(),
            !final(self).initialized,
            final(self).counters@ == old(self).counters@,
            final(self).n_segments == old(self).n_segments,
            final(self).in_flight@ == old(self).in_flight@,
            final(self).t == old(self).t,
            final(self).ticks_per_sec == old(self).ticks_per_sec,
            final(self).units_per_sec == old(self).units_per_sec,
            final(self).tick_time == old(self).tick_time,
            final(self).game_params == old(self).game_params,
            final(self).secret == old(self).secret,
    {
        self.events.clear();
        self.initialized = false;
    }

    /// Mark the event queue rebuilt.
    pub fn finish_init(&mut self)
        requires
            old(self).wf(),
        ensures
            final(self).wf(),
            final(self).initialized,
            final(self).counters@ == old(self).counters@,
            final(self).n_segments == old(self).n_segments,
            final(self).events@ == old(self).events@,
            final(self).in_flight@ == old(self).in_flight@,
            final(self).t == old(self).t,
            final(self).ticks_per_sec == old(self).ticks_per_sec,
            final(self).units_per_sec == old(self).units_per_sec,
            final(self).tick_time == old(self).tick_time,
            final(self).game_params == old(self).game_params,
            final(self).secret == old(self).secret,
    {
        self.initialized = true;
    }

    /// Schedule a particle-vs-particle collision predicted `dt` time units
    /// from now.  The event records the current counters of both particles
    /// as its staleness snapshot.
    pub fn schedule_pvp(&mut self, p1: usize, p2: usize, dt: u64)
        requires
            old(self).wf(),
            p1 < old(self).n_particles(),
            p2 < old(self).n_particles(),
            old(self).t + dt <= u64::MAX,
        ensures
            final(self).wf(),
            final(self).events@ =~= old(self).events@.insert(
                CollisionEvent {
                    t: (old(self).t + dt) as u64,
                    collision: Collision::ParticleVsParticle {
                        p1,
                        p2,
                        p1_cc: old(self).counters@[p1 as int],
                        p2_cc: old(self).counters@[p2 as int],
                    },
                },
            ),
            final(self).counters@ == old(self).counters@,
            final(self).n_segments == old(self).n_segments,
            final(self).in_flight@ == old(self).in_flight@,
            final(self).t == old(self).t,
            final(self).ticks_per_sec == old(self).ticks_per_sec,
            final(self).units_per_sec == old(self).units_per_sec,
            final(self).tick_time == old(self).tick_time,
            final(self).initialized == old(self).initialized,
            final(self).game_params == old(self).game_params,
            final(self).secret == old(self).secret,
    {
        let e = CollisionEvent {
            t: self.t + dt,
            collision: Collision::ParticleVsParticle {
                p1,
                p2,
                p1_cc: self.counters[p1],
                p2_cc: self.counters[p2],
            },
        };
        self.events.push(e);
        proof {
            assert forall|x: CollisionEvent| #[trigger] self.events@.count(x) > 0 implies x.collision.valid(
                self.n_particles(),
                self.n_segments as nat,
            ) by {
                if x != e {
                    assert(old(self).events@.count(x) > 0);
                }
            }
        }
    }

    /// Schedule a particle-vs-segment collision predicted `dt` time units
    /// from now, with the particle's current counter as snapshot.
    pub fn schedule_pvs(&mut self, p: usize, s: usize, dt: u64)
        requires
            old(self).wf(),
            p < old(self).n_particles(),
            s < old(self).n_segments,
            old(self).t + dt <= u64::MAX,
        ensures
            final(self).wf(),
            final(self).events@ =~= old(self).events@.insert(
                CollisionEvent {
                    t: (old(self).t + dt) as u64,
                    collision: Collision::ParticleVsSegment {
                        p,
                        s,
                        p_cc: old(self).counters@[p as int],
                    },
                },
            ),
            final(self).counters@ == old(self).counters@,
            final(self).n_segments == old(self).n_segments,
            final(self).in_flight@ == old(self).in_flight@,
            final(self).t == old(self).t,
            final(self).ticks_per_sec == old(self).ticks_per_sec,
            final(self).units_per_sec == old(self).units_per_sec,
            final(self).tick_time == old(self).tick_time,
            final(self).initialized == old(self).initialized,
            final(self).game_params == old(self).game_params,
            final(self).secret == old(self).secret,
    {
        let e = CollisionEvent {
            t: self.t + dt,
            collision: Collision::ParticleVsSegment { p, s, p_cc: self.counters[p] },
        };
        self.events.push(e);
        proof {
            assert forall|x: CollisionEvent| #[trigger] self.events@.count(x) > 0 implies x.collision.valid(
                self.n_particles(),
                self.n_segments as nat,
            ) by {
                if x != e {
                    assert(old(self).events@.count(x) > 0);
                }
            }
        }
    }

    /// Open a tick: the in-flight pair set starts empty and the tick's
    /// target time is the current time plus one tick length.
    pub fn begin_tick(&mut self) -> (target: u64)
        requires
            old(self).wf(),
            old(self).initialized,
            old(self).t + old(self).tick_time <= u64::MAX,
        ensures
            final(self).wf(),
            target == old(self).t + old(self).tick_time,
            final(self).in_flight@ =~= Set::<CollisionPair>::empty(),
            final(self).counters@ == old(self).counters@,
            final(self).n_segments == old(self).n_segments,
            final(self).events@ == old(self).events@,
            final(self).t == old(self).t,
            final(self).ticks_per_sec == old(self).ticks_per_sec,
            final(self).units_per_sec == old(self).units_per_sec,
            final(self).tick_time == old(self).tick_time,
            final(self).initialized == old(self).initialized,
            final(self).game_params == old(self).game_params,
            final(self).secret == old(self).secret,
    {
        self.in_flight.clear();
        self.t + self.tick_time
    }

    /// Pop events due at or before `target` until one is found that is
    /// neither stale nor a repeat of an in-flight pair; drop the others.
    /// This is the staleness filter and per-sub-step deduplication of the
    /// tick loop: a stale event — one whose counter snapshots no longer
    /// match — is never handed to the host, and neither is a pair that
    /// already collided in the current sub-step.
    pub fn select_due_event(&mut self, target: u64) -> (r: Option<CollisionEvent>)
        requires
            old(self).wf(),
        ensures
            final(self).wf(),
            final(self).counters@ == old(self).counters@,
            final(self).n_segments == old(self).n_segments,
            final(self).in_flight@ == old(self).in_flight@,
            final(self).t == old(self).t,
            final(self).ticks_per_sec == old(self).ticks_per_sec,
            final(self).units_per_sec == old(self).units_per_sec,
            final(self).tick_time == old(self).tick_time,
            final(self).initialized == old(self).initialized,
            final(self).game_params == old(self).game_params,
            final(self).secret == old(self).secret,
            forall|x: CollisionEvent| final(self).events@.count(x) <= old(self).events@.count(x),
            match r {
                Option::Some(e) => {
                    &&& old(self).events@.count(e) > 0
                    &&& final(self).events@.count(e) == old(self).events@.count(e) - 1
                    &&& e.t <= target
                    &&& e.collision.is_fresh(old(self).counters@)
                    &&& !old(self).in_flight@.contains(e.collision.spec_pair().spec_normalized())
                    &&& forall|x: CollisionEvent|
                        old(self).events@.count(x) > final(self).events@.count(x) + (
                        if x == e {
                            1int
                        } else {
                            0int
                        }) ==> x.t <= e.t && (!x.collision.is_fresh(old(self).counters@)
                            || old(self).in_flight@.contains(
                            x.collision.spec_pair().spec_normalized(),
                        ))
                },
                Option::None => {
                    &&& forall|x: CollisionEvent| final(self).events@.count(x) > 0 ==> x.t > target
                    &&& forall|x: CollisionEvent|
                        old(self).events@.count(x) > final(self).events@.count(x) ==> x.t <= target
                            && (!x.collision.is_fresh(old(self).counters@)
                            || old(self).in_flight@.contains(
                            x.collision.spec_pair().spec_normalized(),
                        ))
                },
            },
    {
        let ghost mut dropped: Multiset<CollisionEvent> = Multiset::empty();
        loop
            invariant
                self.wf(),
                self.counters@ == old(self).counters@,
                self.n_segments == old(self).n_segments,
                self.in_flight@ == old(self).in_flight@,
                self.in_flight.wf(),
                self.t == old(self).t,
                self.ticks_per_sec == old(self).ticks_per_sec,
                self.units_per_sec == old(self).units_per_sec,
                self.tick_time == old(self).tick_time,
                self.initialized == old(self).initialized,
                self.game_params == old(self).game_params,
                self.secret == old(self).secret,
                old(self).events@ =~= self.events@.add(dropped),
                forall|x: CollisionEvent| #[trigger] dropped.count(x) > 0 ==> x.t <= target && (
                !x.collision.is_fresh(old(self).counters@) || old(self).in_flight@.contains(
                    x.collision.spec_pair().spec_normalized(),
                )),
                forall|x: CollisionEvent, y: CollisionEvent|
                    dropped.count(x) > 0 && self.events@.count(y) > 0 ==> x.t <= y.t,
            decreases self.events@.len(),
        {
            let due = match self.events.peek_min_time() {
                Option::None => {
                    return None;
                },
                Option::Some(tmin) => tmin,
            };
            if due > target {
                return None;
            }
            let ghost pre_events = self.events@;
            let e = self.events.pop_min();
            proof {
                let w = choose|w: CollisionEvent| pre_events.count(w) > 0 && w.t == due;
                assert(e.t <= w.t);
                assert(e.t == due);
                assert(e.collision.valid(self.n_particles(), self.n_segments as nat));
            }
            let pair = CollisionPair::from(e.collision);
            let dup = self.in_flight.contains(&pair);
            let fresh = e.collision.matches_counters(&self.counters);
            if fresh && !dup {
                proof {
                    assert(dropped.count(e) == 0);
                    assert(old(self).events@ =~= self.events@.add(dropped).insert(e));
                }
                return Some(e);
            }
            proof {
                assert forall|x: CollisionEvent, y: CollisionEvent|
                    dropped.insert(e).count(x) > 0 && self.events@.count(y) > 0 implies x.t
                    <= y.t by {
                    assert(pre_events.count(y) > 0);
                    if dropped.count(x) == 0 {
                        assert(x == e);
                    }
                }
                dropped = dropped.insert(e);
                assert(old(self).events@ =~= self.events@.add(dropped));
            }
        }
    }

    /// Bump particle `i`'s counter, unless `i` is the player's particle, in
    /// which case the run ends instead (the player's particle is never
    /// updated; its first collision ends the game).
    fn touch_particle(&mut self, i: usize) -> (r: Option<SignedGameResult>)
        requires
            old(self).wf(),
            i < old(self).n_particles(),
            old(self).counters@[i as int] < u64::MAX,
        ensures
            final(self).wf(),
            final(self).counters@.len() == old(self).counters@.len(),
            old(self).spec_is_player(i as int) ==> final(self).counters@ == old(self).counters@,
            !old(self).spec_is_player(i as int) ==> final(self).counters@ =~= old(
                self,
            ).counters@.update(i as int, (old(self).counters@[i as int] + 1) as u64),
            final(self).n_segments == old(self).n_segments,
            final(self).events@ == old(self).events@,
            final(self).in_flight@ == old(self).in_flight@,
            final(self).t == old(self).t,
            final(self).ticks_per_sec == old(self).ticks_per_sec,
            final(self).units_per_sec == old(self).units_per_sec,
            final(self).tick_time == old(self).tick_time,
            final(self).initialized == old(self).initialized,
            final(self).secret == old(self).secret,
            if old(self).spec_is_player(i as int) && old(self).spec_game_running() {
                match (r, old(self).game_params) {
                    (Option::Some(sgr), Option::Some(g)) => {
                        &&& final(self).game_params == Option::Some(
                            GameParams { game_ended: true, ..g },
                        )
                        &&& sgr.game_result == (crate::game::GameResult {
                            player_uuid: g.player_uuid,
                            player_name: g.player_name,
                            score: spec_score(
                                (old(self).t - g.game_started_tick) as u64,
                                old(self).units_per_sec,
                            ),
                            ticks_per_sec: old(self).ticks_per_sec,
                        })
                        &&& sgr.spec_signed_ok(old(self).secret@)
                    },
                    _ => false,
                }
            } else {
                r is None && final(self).game_params == old(self).game_params
            },
    {
        let is_player = match &self.game_params {
            Some(g) => g.p_particle == i,
            None => false,
        };
        if is_player {
            let tps = self.ticks_per_sec;
            let ups = self.units_per_sec;
            let now = self.t;
            match &mut self.game_params {
                Some(g) => g.game_over(now, tps, ups, self.secret.as_slice()),
                None => None,
            }
        } else {
            let c = self.counters[i];
            self.counters[i] = c + 1;
            None
        }
    }

    /// Apply the bookkeeping of a realized collision: each involved
    /// non-player particle's counter grows by exactly one, the pair joins
    /// the in-flight set, and if the player's particle is involved the run
    /// ends, yielding the signed result exactly once.
    pub fn commit_collision(&mut self, c: &Collision) -> (r: Option<SignedGameResult>)
        requires
            old(self).wf(),
            c.valid(old(self).n_particles(), old(self).n_segments as nat),
            match *c {
                Collision::ParticleVsParticle { p1, p2, .. } => p1 != p2 && old(
                    self,
                ).counters@[p1 as int] < u64::MAX && old(self).counters@[p2 as int] < u64::MAX,
                Collision::ParticleVsSegment { p, .. } => old(self).counters@[p as int]
                    < u64::MAX,
            },
        ensures
            final(self).wf(),
            final(self).counters@.len() == old(self).counters@.len(),
            forall|j: int|
                0 <= j < old(self).counters@.len() ==> final(self).counters@[j] == old(
                    self,
                ).counters@[j] + (
                if c.involves(j) && !old(self).spec_is_player(j) {
                    1int
                } else {
                    0int
                }),
            final(self).in_flight@ =~= old(self).in_flight@.insert(
                c.spec_pair().spec_normalized(),
            ),
            final(self).n_segments == old(self).n_segments,
            final(self).events@ == old(self).events@,
            final(self).t == old(self).t,
            final(self).ticks_per_sec == old(self).ticks_per_sec,
            final(self).units_per_sec == old(self).units_per_sec,
            final(self).tick_time == old(self).tick_time,
            final(self).initialized == old(self).initialized,
            final(self).secret == old(self).secret,
            if old(self).spec_game_running() && c.involves(
                old(self).game_params.unwrap().p_particle as int,
            ) {
                match (r, old(self).game_params) {
                    (Option::Some(sgr), Option::Some(g)) => {
                        &&& final(self).game_params == Option::Some(
                            GameParams { game_ended: true, ..g },
                        )
                        &&& sgr.game_result == (crate::game::GameResult {
                            player_uuid: g.player_uuid,
                            player_name: g.player_name,
                            score: spec_score(
                                (old(self).t - g.game_started_tick) as u64,
                                old(self).units_per_sec,
                            ),
                            ticks_per_sec: old(self).ticks_per_sec,
                        })
                        &&& sgr.spec_signed_ok(old(self).secret@)
                    },
                    _ => false,
                }
            } else {
                r is None && final(self).game_params == old(self).game_params
            },
    {
        let r = match *c {
            Collision::ParticleVsParticle { p1, p2, .. } => {
                let r1 = self.touch_particle(p1);
                let r2 = self.touch_particle(p2);
                if r1.is_some() {
                    r1
                } else {
                    r2
                }
            },
            Collision::ParticleVsSegment { p, .. } => self.touch_particle(p),
        };
        let pair = CollisionPair::from(*c);
        self.in_flight.insert(pair);
        r
    }

    /// End the run now, if game mode is on and it has not ended yet.  Used
    /// by the host when the explicit overlap test on the player's particle
    /// fires at the top of a tick.
    pub fn end_game(&mut self) -> (r: Option<SignedGameResult>)
        requires
            old(self).wf(),
        ensures
            final(self).wf(),
            final(self).counters@ == old(self).counters@,
            final(self).n_segments == old(self).n_segments,
            final(self).events@ == old(self).events@,
            final(self).in_flight@ == old(self).in_flight@,
            final(self).t == old(self).t,
            final(self).ticks_per_sec == old(self).ticks_per_sec,
            final(self).units_per_sec == old(self).units_per_sec,
            final(self).tick_time == old(self).tick_time,
            final(self).initialized == old(self).initialized,
            final(self).secret == old(self).secret,
            if old(self).spec_game_running() {
                match (r, old(self).game_params) {
                    (Option::Some(sgr), Option::Some(g)) => {
                        &&& final(self).game_params == Option::Some(
                            GameParams { game_ended: true, ..g },
                        )
                        &&& sgr.game_result == (crate::game::GameResult {
                            player_uuid: g.player_uuid,
                            player_name: g.player_name,
                            score: spec_score(
                                (old(self).t - g.game_started_tick) as u64,
                                old(self).units_per_sec,
                            ),
                            ticks_per_sec: old(self).ticks_per_sec,
                        })
                        &&& sgr.spec_signed_ok(old(self).secret@)
                    },
                    _ => false,
                }
            } else {
                r is None && final(self).game_params == old(self).game_params
            },
    {
        let tps = self.ticks_per_sec;
        let ups = self.units_per_sec;
        let now = self.t;
        match &mut self.game_params {
            Some(g) => g.game_over(now, tps, ups, self.secret.as_slice()),
            None => None,
        }
    }

    /// Advance the clock to `to`; the host moves every particle along its
    /// velocity by the same interval.  A move to the past or present is a
    /// no-op.  When time really advances, the in-flight set is cleared:
    /// events at strictly later times start a new simultaneity window.
    pub fn advance_to(&mut self, to: u64)
        requires
            old(self).wf(),
        ensures
            final(self).wf(),
            to > old(self).t ==> final(self).t == to && final(self).in_flight@ =~= Set::<
                CollisionPair,
            >::empty(),
            to <= old(self).t ==> final(self).t == old(self).t && final(self).in_flight@ == old(
                self,
            ).in_flight@,
            final(self).counters@ == old(self).counters@,
            final(self).n_segments == old(self).n_segments,
            final(self).events@ == old(self).events@,
            final(self).ticks_per_sec == old(self).ticks_per_sec,
            final(self).units_per_sec == old(self).units_per_sec,
            final(self).tick_time == old(self).tick_time,
            final(self).initialized == old(self).initialized,
            final(self).game_params == old(self).game_params,
            final(self).secret == old(self).secret,
    {
        if self.t < to {
            self.t = to;
            self.in_flight.clear();
        }
    }

    /// Law: committing a collision never decreases a collision counter, and
    /// raises each involved non-player counter by exactly one.  The premise
    /// is precisely what `commit_collision` ensures of the counters.
    pub proof fn lemma_counters_monotonic(pre: Simulation, post: Simulation, c: Collision)
        requires
            pre.counters@.len() == post.counters@.len(),
            forall|j: int|
                0 <= j < pre.counters@.len() ==> post.counters@[j] == pre.counters@[j] + (
                if c.involves(j) && !pre.spec_is_player(j) {
                    1int
                } else {
                    0int
                }),
        ensures
            forall|j: int| 0 <= j < pre.counters@.len() ==> post.counters@[j] >= pre.counters@[j],
            forall|j: int|
                0 <= j < pre.counters@.len() && c.involves(j) && !pre.spec_is_player(j)
                    ==> post.counters@[j] == pre.counters@[j] + 1,
    {
        assert forall|j: int| 0 <= j < pre.counters@.len() implies post.counters@[j]
            >= pre.counters@[j] by {
            assert(post.counters@[j] == pre.counters@[j] + (
            if c.involves(j) && !pre.spec_is_player(j) {
                1int
            } else {
                0int
            }));
        }
    }

    /// The current time, in time units.
    pub fn get_current_tick(&self) -> (r: u64)
        ensures
            r == self.t,
    {
        self.t
    }

    /// The player's current score; defined iff game mode is on.
    pub fn get_current_score(&self) -> (r: Option<u32>)
        requires
            self.wf(),
        ensures
            match self.game_params {
                Option::Some(g) => r == Option::Some(
                    spec_score((self.t - g.game_started_tick) as u64, self.units_per_sec),
                ),
                Option::None => r is None,
            },
    {
        match &self.game_params {
            Some(g) => Some(g.get_score(self.t, self.units_per_sec)),
            None => None,
        }
    }

    /// Whether game mode is on.
    pub fn is_game_mode_enabled(&self) -> (r: bool)
        ensures
            r == self.game_params is Some,
    {
        self.game_params.is_some()
    }

    /// Whether the event queue is up to date with the particles, segments
    /// and tick rate.
    pub fn is_initialized(&self) -> (r: bool)
        ensures
            r == self.initialized,
    {
        self.initialized
    }

    /// How many particles the engine tracks.
    pub fn num_particles(&self) -> (n: usize)
        ensures
            n == self.n_particles(),
    {
        self.counters.len()
    }
}

} // verus!
