use red_simulation::collisions::Collision;
use red_simulation::events::{CollisionEvent, EventQueue};
use red_simulation::simulation::Simulation;

const SECRET: &[u8] = b"The Magic Words are Squeamish Ossifrage";

fn pvp(p1: usize, p2: usize, p1_cc: u64, p2_cc: u64) -> Collision {
    Collision::ParticleVsParticle { p1, p2, p1_cc, p2_cc }
}

#[test]
fn test_event_queue_orders_by_time() {
    let mut q = EventQueue::new();
    assert!(q.is_empty());
    for t in [5u64, 1, 4, 2, 3] {
        q.push(CollisionEvent {
            t,
            collision: pvp(0, 1, 0, 0),
        });
    }
    assert_eq!(q.len(), 5);
    assert_eq!(q.peek_min_time(), Some(1));
    let mut times = Vec::new();
    while !q.is_empty() {
        times.push(q.pop_min().t);
    }
    assert_eq!(times, vec![1, 2, 3, 4, 5]);
    assert_eq!(q.peek_min_time(), None);
}

/// A new engine; one hundred ticks a second, a thousand time units a
/// second, so a tick lasts ten units.
fn engine() -> Simulation {
    Simulation::new(100, 1000, SECRET.to_vec())
}

#[test]
fn test_add_particle_rejects_on_overlap() {
    let mut sim = engine();
    assert_eq!(sim.add_particle(false), Some(0));
    // The host found an overlap with an existing particle or segment.
    assert_eq!(sim.add_particle(true), None);
    assert_eq!(sim.add_particle(false), Some(1));
    assert_eq!(sim.num_particles(), 2);
}

#[test]
fn test_quiet_ticks_just_advance_time() {
    let mut sim = engine();
    sim.add_particle(false);
    sim.begin_init();
    sim.finish_init();
    for k in 1..=3u64 {
        let target = sim.begin_tick();
        assert_eq!(target, k * 10);
        assert!(sim.select_due_event(target).is_none());
        sim.advance_to(target);
        assert_eq!(sim.get_current_tick(), target);
    }
}

#[test]
fn test_event_fires_in_its_tick_and_counters_grow() {
    let mut sim = engine();
    sim.add_particle(false);
    sim.add_particle(false);
    sim.begin_init();
    sim.schedule_pvp(0, 1, 25);
    sim.finish_init();

    // Ticks ending at 10 and 20: nothing is due yet.
    for _ in 0..2 {
        let target = sim.begin_tick();
        assert!(sim.select_due_event(target).is_none());
        sim.advance_to(target);
    }

    // The tick ending at 30 realizes the collision scheduled for t = 25.
    let target = sim.begin_tick();
    let e = sim.select_due_event(target).expect("event is due");
    assert_eq!(e.t, 25);
    let fired = sim.commit_collision(&e.collision);
    assert!(fired.is_none());
    sim.advance_to(e.t);
    assert_eq!(sim.get_current_tick(), 25);
    assert!(sim.select_due_event(target).is_none());
    sim.advance_to(target);
}

#[test]
fn test_stale_event_is_discarded() {
    let mut sim = engine();
    sim.add_particle(false);
    sim.add_particle(false);
    sim.add_segment();
    sim.begin_init();
    // Both events carry counter snapshots of zero.
    sim.schedule_pvp(0, 1, 5);
    sim.schedule_pvs(0, 0, 7);
    sim.finish_init();

    let target = sim.begin_tick();
    let e = sim.select_due_event(target).expect("first event is due");
    assert_eq!(e.t, 5);
    sim.commit_collision(&e.collision);
    sim.advance_to(e.t);

    // Particle 0 has collided, so the segment event's snapshot no longer
    // matches: it is dropped without being handed out.
    assert!(sim.select_due_event(target).is_none());
}

#[test]
fn test_in_flight_pair_blocked_until_time_advances() {
    let mut sim = engine();
    sim.add_particle(false);
    sim.add_particle(false);
    sim.begin_init();
    sim.schedule_pvp(0, 1, 5);
    sim.finish_init();

    let target = sim.begin_tick();
    let e = sim.select_due_event(target).expect("event is due");
    sim.commit_collision(&e.collision);

    // Floating-point slack can re-predict the same pair at the same time.
    // Before time advances the pair is in flight and must not replay.
    sim.schedule_pvp(0, 1, 5);
    assert!(sim.select_due_event(target).is_none());

    // Once time advances, the pair may collide again within the same tick.
    sim.advance_to(e.t);
    sim.schedule_pvp(0, 1, 7 - 5);
    let e2 = sim.select_due_event(target).expect("new window");
    assert_eq!(e2.t, 7);
}

#[test]
fn test_mutation_invalidates_and_init_drops_events() {
    let mut sim = engine();
    sim.add_particle(false);
    sim.begin_init();
    sim.finish_init();
    assert!(sim.is_initialized());

    // Any mutation marks the engine uninitialized.
    sim.add_segment();
    assert!(!sim.is_initialized());
    sim.begin_init();
    sim.schedule_pvs(0, 0, 3);
    sim.finish_init();

    // A second mutation; the rebuild drops the event scheduled above, so
    // nothing pre-dating the mutation is ever realized.
    assert_eq!(sim.add_particle(false), Some(1));
    assert!(!sim.is_initialized());
    sim.begin_init();
    sim.finish_init();
    let target = sim.begin_tick();
    assert!(sim.select_due_event(target).is_none());
}

#[test]
fn test_set_ticks_per_sec_rescales_tick() {
    let mut sim = engine();
    sim.begin_init();
    sim.finish_init();
    sim.set_ticks_per_sec(50);
    assert!(!sim.is_initialized());
    sim.begin_init();
    sim.finish_init();
    let target = sim.begin_tick();
    assert_eq!(target, 20);
}

#[test]
fn test_game_over_fires_exactly_once() {
    let mut sim = engine();
    sim.add_particle(false);
    let idx = sim
        .add_player_particle(false, String::from("uuid-1"), String::from("bob"))
        .expect("player fits");
    assert_eq!(idx, 1);
    assert!(sim.is_game_mode_enabled());
    assert_eq!(sim.get_current_score(), Some(0));

    sim.begin_init();
    sim.schedule_pvp(0, 1, 200);
    sim.finish_init();

    // Run ticks until the player's collision is realized.
    let mut fired = None;
    for _ in 0..100 {
        let target = sim.begin_tick();
        while let Some(e) = sim.select_due_event(target) {
            if let Some(sgr) = sim.commit_collision(&e.collision) {
                fired = Some(sgr);
            }
            sim.advance_to(e.t);
        }
        sim.advance_to(target);
    }
    let sgr = fired.expect("the game ended");
    assert_eq!(sgr.game_result.player_name, "bob");
    assert_eq!(sgr.game_result.player_uuid, "uuid-1");
    assert_eq!(sgr.game_result.ticks_per_sec, 100);
    // The event at t = 200 is committed during the tick that began at
    // t = 190, of 1000 units a second: score = round(1.9 * 10 / 10) = 2.
    assert_eq!(sgr.game_result.score, 2);
    assert!(sgr.verify(SECRET));

    // The run has ended: neither path may fire again.
    assert!(sim.end_game().is_none());
    sim.begin_init();
    sim.schedule_pvp(0, 1, 5);
    sim.finish_init();
    let target = sim.begin_tick();
    if let Some(e) = sim.select_due_event(target) {
        assert!(sim.commit_collision(&e.collision).is_none());
    }
}

#[test]
fn test_explicit_overlap_check_ends_game() {
    let mut sim = engine();
    let _ = sim.add_player_particle(false, String::from("uuid-2"), String::from("carol"));
    sim.begin_init();
    sim.finish_init();
    // The host's explicit overlap test on the player's particle fired.
    let sgr = sim.end_game().expect("first game over");
    assert_eq!(sgr.game_result.score, 0);
    assert!(sim.end_game().is_none());
}

/// Two equal disks at (0,0) and (3,0) with velocities (1,1) and (-1,1) and
/// radius 0.2 touch after exactly 1.3 seconds.  The prediction runs in
/// floating point on the host's side; the engine schedules and realizes it.
#[test]
fn test_two_body_prediction_drives_engine() {
    // Host-side prediction, as the engine's collaborator computes it.
    let (px1, py1, vx1, vy1, r1) = (0.0f64, 0.0, 1.0, 1.0, 0.2);
    let (px2, py2, vx2, vy2, r2) = (3.0f64, 0.0, -1.0, 1.0, 0.2);
    let (drx, dry) = (px1 - px2, py1 - py2);
    let (dvx, dvy) = (vx1 - vx2, vy1 - vy2);
    let sigma = r1 + r2;
    let dv_dr = dvx * drx + dvy * dry;
    assert!(dv_dr < 0.0);
    let dv_dv = dvx * dvx + dvy * dvy;
    let dr_dr = drx * drx + dry * dry;
    let d = dv_dr * dv_dr - dv_dv * (dr_dr - sigma * sigma);
    assert!(d >= 0.0);
    let dt = -(dv_dr + d.sqrt()) / dv_dv;
    assert!((dt - 1.3).abs() < 1e-10);

    // The engine runs at 10 ticks and 1000 time units a second.
    let mut sim = Simulation::new(10, 1000, SECRET.to_vec());
    sim.add_particle(false);
    sim.add_particle(false);
    sim.begin_init();
    sim.schedule_pvp(0, 1, (dt * 1000.0).round() as u64);
    sim.finish_init();

    let mut realized = None;
    for _ in 0..20 {
        let target = sim.begin_tick();
        while let Some(e) = sim.select_due_event(target) {
            sim.commit_collision(&e.collision);
            sim.advance_to(e.t);
            realized = Some(e.t);
        }
        sim.advance_to(target);
    }
    // Realized at t = 1300 units, within the 14th tick.
    assert_eq!(realized, Some(1300));
}
