use gravity_sim::body::Body;
use gravity_sim::kernel::{apply_force, force_law, integrate, Pull};
use gravity_sim::scalar::{Op, DAMPING, EPSILON};
use gravity_sim::scheduler::{partition, run};
use gravity_sim::simulation::{none_pinned, Simulation};
use gravity_sim::substep::substep_body;

fn bits(v: f64) -> u64 {
    v.to_bits()
}

fn val(b: u64) -> f64 {
    f64::from_bits(b)
}

/// Double-precision arithmetic.
fn arith(op: Op, a: u64, b: u64) -> u64 {
    let x = val(a);
    let y = val(b);
    match op {
        Op::Add => bits(x + y),
        Op::Sub => bits(x - y),
        Op::Mul => bits(x * y),
        Op::Div => bits(x / y),
        Op::Atan2 => bits(x.atan2(y)),
        Op::Cos => bits(x.cos()),
        Op::Sin => bits(x.sin()),
    }
}

fn particle(x: f64, y: f64, v_x: f64, v_y: f64, mass: f64, tag: u8) -> Body {
    Body::new(bits(x), bits(y), bits(v_x), bits(v_y), bits(mass), false, tag)
}

fn attractor(x: f64, y: f64, mass: f64, tag: u8) -> Body {
    Body::new(bits(x), bits(y), bits(0.0), bits(0.0), bits(mass), true, tag)
}

fn distance_sq(b: &Body, a: &Body) -> f64 {
    let dx = val(a.x) - val(b.x);
    let dy = val(a.y) - val(b.y);
    dx * dx + dy * dy
}

fn seeded(attractors: Vec<Body>, particles: Vec<Body>) -> Simulation {
    let mut sim = Simulation::new();
    sim.seed(attractors, particles);
    sim
}

#[test]
fn new_body_spawns_where_it_starts() {
    let b = Body::new(bits(1.5), bits(-2.5), bits(0.25), bits(0.5), bits(100.0), false, 1);
    assert_eq!(val(b.x), 1.5);
    assert_eq!(val(b.y), -2.5);
    assert_eq!(b.init_x, b.x);
    assert_eq!(b.init_y, b.y);
    assert_eq!(val(b.v_x), 0.25);
    assert_eq!(val(b.v_y), 0.5);
    assert_eq!(val(b.mass), 100.0);
    assert!(!b.pinned);
    assert_eq!(b.color_index, 1);
}

#[test]
fn constants_are_the_patterns_of_their_values() {
    assert_eq!(DAMPING, bits(0.999999));
    assert_eq!(EPSILON, bits(0.00000001));
}

#[test]
fn integrate_moves_by_the_old_velocity_then_damps() {
    let mut b = particle(1.0, 2.0, 4.0, -8.0, 5.0, 6);
    integrate(&arith, &mut b, bits(4.0));
    assert_eq!(val(b.x), 1.0 + 4.0 / 4.0);
    assert_eq!(val(b.y), 2.0 + -8.0 / 4.0);
    assert_eq!(val(b.v_x), 4.0 * 0.999999);
    assert_eq!(val(b.v_y), -8.0 * 0.999999);
    assert_eq!(val(b.init_x), 1.0);
    assert_eq!(val(b.init_y), 2.0);
    assert_eq!(val(b.mass), 5.0);
    assert!(!b.pinned);
    assert_eq!(b.color_index, 6);
}

#[test]
fn force_law_exact_values() {
    // Offset (-3, -4): squared distance 25, outside a squared radius of 16.
    let b = particle(3.0, 4.0, 7.0, 7.0, 1.0, 1);
    let a = attractor(0.0, 0.0, 16.0, 3);
    let p = force_law(&arith, &b, &a, bits(2.0));
    let f = 16.0 / (25.0 * 2.0 + 0.00000001);
    let angle = f64::atan2(-4.0, -3.0);
    assert_eq!(val(p.a_x), f * angle.cos());
    assert_eq!(val(p.a_y), f * angle.sin());
    assert!((val(p.a_x) - 0.32 * -0.6).abs() < 1e-9);
    assert!((val(p.a_y) - 0.32 * -0.8).abs() < 1e-9);
    assert!(!p.captured);

    let wide = attractor(0.0, 0.0, 25.5, 3);
    assert!(force_law(&arith, &b, &wide, bits(2.0)).captured);
}

#[test]
fn force_law_on_coincidence_is_finite_and_captures() {
    let b = particle(5.0, 5.0, 0.0, 0.0, 1.0, 1);
    let a = attractor(5.0, 5.0, 100.0, 3);
    let p = force_law(&arith, &b, &a, bits(1.0));
    assert_eq!(val(p.a_x), 100.0 / 0.00000001);
    assert_eq!(val(p.a_y), 0.0);
    assert!(val(p.a_x).is_finite());
    assert!(p.captured);
    assert_eq!(p, Pull { a_x: bits(1e10), a_y: bits(0.0), captured: true });
}

#[test]
fn apply_force_without_capture_adds_the_pull() {
    let mut b = particle(20.0, 0.0, 3.0, 4.0, 5.0, 6);
    let a = attractor(0.0, 0.0, 100.0, 3);
    let p = force_law(&arith, &b, &a, bits(1.0));
    apply_force(&arith, &mut b, &a, bits(1.0));
    assert_eq!(val(b.v_x), 3.0 + val(p.a_x));
    assert_eq!(val(b.v_y), 4.0 + val(p.a_y));
    assert!((val(b.v_x) - 2.75).abs() < 1e-9);
    assert_eq!(val(b.x), 20.0);
    assert_eq!(val(b.y), 0.0);
    assert!(!b.pinned);
    assert_eq!(b.color_index, 6);
}

#[test]
fn apply_force_with_capture_makes_a_trace() {
    let mut b = particle(1.0, 2.0, 3.0, 4.0, 5.0, 6);
    integrate(&arith, &mut b, bits(1.0));
    assert_eq!(val(b.x), 4.0);
    assert_eq!(val(b.y), 6.0);
    let a = attractor(0.0, 0.0, 100.0, 3);
    apply_force(&arith, &mut b, &a, bits(1.0));
    assert!(b.pinned);
    assert_eq!(val(b.x), 1.0);
    assert_eq!(val(b.y), 2.0);
    assert_eq!(b.v_x, 0);
    assert_eq!(b.v_y, 0);
    assert_eq!(val(b.v_x), 0.0);
    assert_eq!(b.color_index, 3);
    assert_eq!(val(b.mass), 5.0);
}

#[test]
fn pin_makes_a_trace() {
    let mut b = particle(1.0, 2.0, 3.0, 4.0, 5.0, 6);
    integrate(&arith, &mut b, bits(1.0));
    b.pin(&attractor(9.0, 9.0, 1.0, 4));
    assert_eq!(b, Body::new(bits(1.0), bits(2.0), 0, 0, bits(5.0), true, 4));
}

#[test]
fn capture_radius_is_strict() {
    // Mass 100 is a squared radius of 100: a squared distance of exactly 100 is outside.
    let a = attractor(0.0, 0.0, 100.0, 3);
    let mut on_edge = particle(10.0, 0.0, 0.0, 0.0, 1.0, 1);
    apply_force(&arith, &mut on_edge, &a, bits(1.0));
    assert!(!on_edge.pinned);
    let wider = attractor(0.0, 0.0, val(bits(100.0) + 1), 3);
    let mut inside = particle(10.0, 0.0, 0.0, 0.0, 1.0, 1);
    apply_force(&arith, &mut inside, &wider, bits(1.0));
    assert!(inside.pinned);
    let mut coincident = particle(0.0, 0.0, 0.0, 0.0, 1.0, 1);
    apply_force(&arith, &mut coincident, &a, bits(1.0));
    assert!(coincident.pinned);
}

#[test]
fn negative_mass_captures_nothing_and_repels() {
    let a = attractor(0.0, 0.0, -100.0, 3);
    let mut b = particle(0.0, 0.0, 0.0, 0.0, 1.0, 1);
    apply_force(&arith, &mut b, &a, bits(1.0));
    assert!(!b.pinned);
    assert_eq!(val(b.v_x), -100.0 / 0.00000001);

    let mut right = particle(10.0, 0.0, 0.0, 0.0, 1.0, 1);
    apply_force(&arith, &mut right, &a, bits(1.0));
    assert!(!right.pinned);
    assert!(val(right.v_x) > 0.0);
}

#[test]
fn release_frees_and_stops_a_body() {
    let mut b = Body::new(bits(1.0), bits(2.0), bits(3.0), bits(4.0), bits(5.0), true, 4);
    b.release();
    assert!(!b.pinned);
    assert_eq!(b.v_x, 0);
    assert_eq!(b.v_y, 0);
    assert_eq!(val(b.x), 1.0);
    assert_eq!(val(b.y), 2.0);
    assert_eq!(b.color_index, 4);
}

#[test]
fn substep_body_exact_values() {
    // One attractor of mass 100 at the origin, a particle at rest at (20, 0):
    // distance squared 400, so no capture, and a pull of 100 / (400 * 1 + eps)
    // along the angle pi.
    let attractors = vec![attractor(0.0, 0.0, 100.0, 3)];
    let p = particle(20.0, 0.0, 0.0, 0.0, 1.0, 1);
    let out = substep_body(&arith, p, &attractors, bits(1.0));
    let f = 100.0 / (400.0 * 1.0 + 0.00000001);
    let pi = std::f64::consts::PI;
    assert!(!out.pinned);
    assert_eq!(val(out.x), 20.0);
    assert_eq!(val(out.y), 0.0);
    assert_eq!(val(out.v_x), 0.0 * 0.999999 + f * pi.cos());
    assert_eq!(val(out.v_y), 0.0 * 0.999999 + f * pi.sin());
    assert!((val(out.v_x) + 0.25).abs() < 1e-9);
    assert_eq!(out.color_index, 1);

    // The next sub-step moves with the velocity of the one before.
    let next = substep_body(&arith, out, &attractors, bits(1.0));
    assert_eq!(val(next.x), 20.0 + val(out.v_x));
    assert!((val(next.x) - 19.75).abs() < 1e-9);
}

#[test]
fn substep_body_position_uses_previous_velocity_and_resolution() {
    let attractors: Vec<Body> = vec![];
    let p = particle(1.0, 2.0, 4.0, -8.0, 1.0, 1);
    let out = substep_body(&arith, p, &attractors, bits(4.0));
    assert_eq!(val(out.x), 2.0);
    assert_eq!(val(out.y), 0.0);
    assert_eq!(val(out.v_x), 4.0 * 0.999999);
    assert_eq!(val(out.v_y), -8.0 * 0.999999);
    assert_eq!(val(out.init_x), 1.0);
    assert_eq!(val(out.init_y), 2.0);
}

#[test]
fn substep_body_accumulates_every_attractor() {
    let attractors = vec![attractor(-20.0, 0.0, 100.0, 2), attractor(0.0, 30.0, 100.0, 5)];
    let p = particle(0.0, 0.0, 0.0, 0.0, 1.0, 1);
    let out = substep_body(&arith, p, &attractors, bits(1.0));
    let first = force_law(&arith, &p, &attractors[0], bits(1.0));
    let second = force_law(&arith, &p, &attractors[1], bits(1.0));
    assert!(!out.pinned);
    assert_eq!(val(out.v_x), (0.0 + val(first.a_x)) + val(second.a_x));
    assert_eq!(val(out.v_y), (0.0 + val(first.a_y)) + val(second.a_y));
    assert!(val(out.v_x) < 0.0);
    assert!(val(out.v_y) > 0.0);
}

#[test]
fn substep_body_leaves_a_pinned_body_alone() {
    let attractors = vec![attractor(0.0, 0.0, 100.0, 3)];
    let trace = Body::new(bits(50.0), bits(0.0), bits(1.0), bits(1.0), bits(1.0), true, 3);
    let out = substep_body(&arith, trace, &attractors, bits(1.0));
    assert_eq!(out, trace);
}

#[test]
fn substep_body_stops_at_the_capturing_attractor() {
    // The second attractor captures; the third would pull, and must not.
    let attractors = vec![
        attractor(100.0, 0.0, 100.0, 2),
        attractor(1.0, 0.0, 100.0, 5),
        attractor(0.0, 40.0, 100.0, 6),
    ];
    let p = particle(3.0, 4.0, -3.0, -4.0, 1.0, 1);
    let out = substep_body(&arith, p, &attractors, bits(1.0));
    assert!(out.pinned);
    assert_eq!(out.color_index, 5);
    assert_eq!(out.v_x, 0);
    assert_eq!(out.v_y, 0);
    assert_eq!(val(out.x), 3.0);
    assert_eq!(val(out.y), 4.0);
}

#[test]
fn partition_keeps_order() {
    let bodies = vec![
        particle(1.0, 0.0, 0.0, 0.0, 1.0, 1),
        attractor(2.0, 0.0, 1.0, 2),
        particle(3.0, 0.0, 0.0, 0.0, 1.0, 1),
        attractor(4.0, 0.0, 1.0, 2),
        attractor(5.0, 0.0, 1.0, 2),
    ];
    let (mobile, pinned) = partition(&bodies);
    let xs: Vec<f64> = mobile.iter().map(|b| val(b.x)).collect();
    let ys: Vec<f64> = pinned.iter().map(|b| val(b.x)).collect();
    assert_eq!(xs, vec![1.0, 3.0]);
    assert_eq!(ys, vec![2.0, 4.0, 5.0]);
    assert!(mobile.iter().all(|b| !b.pinned));
    assert!(pinned.iter().all(|b| b.pinned));
}

#[test]
fn partition_of_nothing() {
    let (mobile, pinned) = partition(&vec![]);
    assert!(mobile.is_empty());
    assert!(pinned.is_empty());
}

#[test]
fn new_simulation_is_empty() {
    let sim = Simulation::new();
    let (mobile, attractors, pinned) = sim.snapshot_for_render();
    assert!(mobile.is_empty());
    assert!(attractors.is_empty());
    assert!(pinned.is_empty());
}

#[test]
fn seed_replaces_prior_state() {
    let mut sim = seeded(
        vec![attractor(0.0, 0.0, 100.0, 3)],
        vec![particle(0.0, 0.0, 0.0, 0.0, 1.0, 1), particle(50.0, 0.0, 0.0, 0.0, 1.0, 1)],
    );
    sim.step(&arith, 1, 1);
    assert_eq!(sim.snapshot_for_render().2.len(), 1);
    sim.seed(
        vec![attractor(1.0, 1.0, 10.0, 4), attractor(2.0, 2.0, 10.0, 5)],
        vec![particle(7.0, 8.0, 0.0, 0.0, 1.0, 1)],
    );
    let (mobile, attractors, pinned) = sim.snapshot_for_render();
    assert_eq!(mobile.len(), 1);
    assert_eq!(val(mobile[0].x), 7.0);
    assert_eq!(attractors.len(), 2);
    assert_eq!(attractors[0].color_index, 4);
    assert_eq!(attractors[1].color_index, 5);
    assert!(pinned.is_empty());
}

#[test]
fn spawn_appends_a_mobile_particle() {
    let mut sim = Simulation::new();
    sim.spawn(bits(1.0), bits(2.0), bits(3.0), bits(4.0), bits(100.0), 1);
    sim.spawn(bits(5.0), bits(6.0), bits(0.0), bits(0.0), bits(100.0), 2);
    let (mobile, attractors, pinned) = sim.snapshot_for_render();
    assert_eq!(mobile.len(), 2);
    assert!(attractors.is_empty());
    assert!(pinned.is_empty());
    assert_eq!(mobile[0], particle(1.0, 2.0, 3.0, 4.0, 100.0, 1));
    assert_eq!(mobile[1], particle(5.0, 6.0, 0.0, 0.0, 100.0, 2));
    assert_eq!(mobile[0].init_x, mobile[0].x);
    assert_eq!(mobile[0].init_y, mobile[0].y);
}

#[test]
fn reset_clears_everything() {
    let mut sim = seeded(
        vec![attractor(0.0, 0.0, 100.0, 3)],
        vec![particle(0.0, 0.0, 0.0, 0.0, 1.0, 1), particle(50.0, 0.0, 0.0, 0.0, 1.0, 1)],
    );
    sim.step(&arith, 1, 1);
    sim.reset();
    let (mobile, attractors, pinned) = sim.snapshot_for_render();
    assert!(mobile.is_empty());
    assert!(attractors.is_empty());
    assert!(pinned.is_empty());
}

#[test]
fn particle_on_the_attractor_is_captured_at_once() {
    let mut sim = seeded(
        vec![attractor(0.0, 0.0, 100.0, 3)],
        vec![particle(0.0, 0.0, 0.0, 0.0, 1.0, 1)],
    );
    let stats = sim.step(&arith, 1, 1);
    assert_eq!(stats.particles_captured_this_call, 1);
    let (mobile, attractors, pinned) = sim.snapshot_for_render();
    assert!(mobile.is_empty());
    assert_eq!(attractors.len(), 1);
    assert_eq!(pinned.len(), 1);
    assert!(pinned[0].pinned);
    assert_eq!(pinned[0].color_index, 3);
}

#[test]
fn captured_particle_is_a_trace_of_its_attractor() {
    // Starts outside the radius and moves into it during the first sub-step.
    let a = attractor(0.0, 0.0, 100.0, 4);
    let p = particle(12.0, 0.0, -5.0, 0.0, 1.0, 1);
    let far = particle(500.0, 500.0, 0.0, 0.0, 1.0, 1);
    let mut sim = seeded(vec![a], vec![far, p]);
    let stats = sim.step(&arith, 1, 1);
    assert_eq!(stats.particles_captured_this_call, 1);
    let (mobile, _, pinned) = sim.snapshot_for_render();
    assert_eq!(pinned.len(), 1);
    assert_eq!(pinned[0].x, pinned[0].init_x);
    assert_eq!(pinned[0].y, pinned[0].init_y);
    assert_eq!(val(pinned[0].x), 12.0);
    assert_eq!(val(pinned[0].y), 0.0);
    assert_eq!(val(pinned[0].v_x), 0.0);
    assert_eq!(val(pinned[0].v_y), 0.0);
    assert_eq!(pinned[0].v_x, 0);
    assert_eq!(pinned[0].v_y, 0);
    assert_eq!(pinned[0].color_index, a.color_index);
    assert!(pinned[0].pinned);
    assert_eq!(mobile.len(), 1);
    assert_eq!(val(mobile[0].init_x), 500.0);
    assert!(mobile.iter().all(|b| !b.pinned));
}

#[test]
fn distant_particle_stays_mobile_and_runs_repeat() {
    let attractors = vec![attractor(0.0, 0.0, 100.0, 3), attractor(10.0, 10.0, 50.0, 4)];
    let particles = vec![particle(5000.0, -4000.0, 0.5, 0.25, 1.0, 1)];
    let mut one = seeded(attractors.clone(), particles.clone());
    let mut two = seeded(attractors.clone(), particles.clone());
    let stats = one.step(&arith, 200, 2);
    two.step(&arith, 200, 2);
    assert_eq!(stats.particles_captured_this_call, 0);
    let (mobile, _, pinned) = one.snapshot_for_render();
    let (mobile2, _, pinned2) = two.snapshot_for_render();
    assert!(pinned.is_empty());
    assert!(pinned2.is_empty());
    assert_eq!(mobile.len(), 1);
    assert!(!mobile[0].pinned);
    assert_eq!(mobile[0].color_index, 1);
    assert_eq!(mobile[0], mobile2[0]);
    assert!(val(mobile[0].x) != 5000.0);

    // Step by step gives the same bits as one call.
    let mut three = seeded(attractors, particles);
    for _ in 0..200 {
        three.step(&arith, 1, 2);
    }
    assert_eq!(three.snapshot_for_render().0[0], mobile[0]);
}

#[test]
fn release_twice_is_release_once() {
    let attractors = vec![attractor(0.0, 0.0, 100.0, 3)];
    let particles = vec![
        particle(0.0, 0.0, 0.0, 0.0, 1.0, 1),
        particle(500.0, 0.0, 0.0, 0.0, 1.0, 1),
        particle(1.0, 1.0, 0.0, 0.0, 1.0, 1),
    ];
    let mut once = seeded(attractors.clone(), particles.clone());
    let mut twice = seeded(attractors, particles);
    once.step(&arith, 1, 1);
    twice.step(&arith, 1, 1);
    once.release_all_pinned();
    twice.release_all_pinned();
    twice.release_all_pinned();
    let (mobile_once, attractors_once, archive_once) = once.snapshot_for_render();
    let (mobile_twice, attractors_twice, archive_twice) = twice.snapshot_for_render();
    assert!(archive_once.is_empty());
    assert!(archive_twice.is_empty());
    assert_eq!(attractors_once.len(), attractors_twice.len());
    assert_eq!(mobile_once.len(), 3);
    assert_eq!(mobile_twice.len(), 3);
    for i in 0..3 {
        assert_eq!(mobile_once[i], mobile_twice[i]);
    }
}

#[test]
fn release_keeps_tag_and_resets_motion() {
    let mut sim = seeded(
        vec![attractor(0.0, 0.0, 100.0, 3)],
        vec![particle(500.0, 0.0, 0.0, 0.0, 1.0, 1), particle(12.0, 0.0, -5.0, 0.0, 1.0, 1)],
    );
    sim.step(&arith, 1, 1);
    sim.release_all_pinned();
    let (mobile, _, pinned) = sim.snapshot_for_render();
    assert!(pinned.is_empty());
    assert_eq!(mobile.len(), 2);
    assert_eq!(val(mobile[0].init_x), 500.0);
    let freed = mobile[1];
    assert!(!freed.pinned);
    assert_eq!(freed.color_index, 3);
    assert_eq!(freed.v_x, 0);
    assert_eq!(freed.v_y, 0);
    assert_eq!(val(freed.x), 12.0);
    assert_eq!(val(freed.y), 0.0);
}

#[test]
fn release_from_an_empty_archive_changes_nothing() {
    let mut sim = seeded(
        vec![attractor(0.0, 0.0, 100.0, 3)],
        vec![particle(500.0, 0.0, 1.0, 2.0, 1.0, 1)],
    );
    sim.release_all_pinned();
    let (mobile, attractors, pinned) = sim.snapshot_for_render();
    assert_eq!(mobile.len(), 1);
    assert_eq!(mobile[0], particle(500.0, 0.0, 1.0, 2.0, 1.0, 1));
    assert_eq!(attractors.len(), 1);
    assert!(pinned.is_empty());
}

#[test]
fn count_is_conserved() {
    let mut sim = Simulation::new();
    let mut particles = vec![];
    for i in 0..40 {
        particles.push(particle(i as f64 * 3.0 - 60.0, 2.0, 0.0, 0.0, 1.0, 1));
    }
    sim.seed(vec![attractor(0.0, 0.0, 100.0, 3), attractor(30.0, 0.0, 64.0, 4)], particles);
    let mut expected = 40;
    let population = |sim: &Simulation| {
        let (mobile, _, pinned) = sim.snapshot_for_render();
        mobile.len() + pinned.len()
    };
    assert_eq!(population(&sim), expected);
    let mut captured = 0;
    captured += sim.step(&arith, 5, 1).particles_captured_this_call;
    assert_eq!(population(&sim), expected);
    assert_eq!(sim.snapshot_for_render().2.len(), captured);
    assert!(captured > 0);
    sim.spawn(bits(0.0), bits(0.0), bits(0.0), bits(0.0), bits(1.0), 1);
    sim.spawn(bits(900.0), bits(0.0), bits(0.0), bits(0.0), bits(1.0), 1);
    expected += 2;
    assert_eq!(population(&sim), expected);
    captured += sim.step(&arith, 3, 2).particles_captured_this_call;
    assert_eq!(population(&sim), expected);
    assert_eq!(sim.snapshot_for_render().2.len(), captured);
    sim.release_all_pinned();
    assert_eq!(population(&sim), expected);
    assert_eq!(sim.snapshot_for_render().0.len(), expected);
    sim.step(&arith, 10, 1);
    assert_eq!(population(&sim), expected);
    sim.release_all_pinned();
    sim.release_all_pinned();
    assert_eq!(population(&sim), expected);
}

#[test]
fn approaching_particle_is_captured_in_the_end() {
    let a = attractor(0.0, 0.0, 100.0, 3);
    let p = particle(50.0, 0.0, 0.0, 0.0, 1.0, 1);

    let mut whole = seeded(vec![a], vec![p]);
    let stats = whole.step(&arith, 1000, 10);
    assert_eq!(stats.particles_captured_this_call, 1);
    let (mobile, _, pinned) = whole.snapshot_for_render();
    assert!(mobile.is_empty());
    assert_eq!(pinned.len(), 1);
    assert_eq!(val(pinned[0].x), 50.0);
    assert_eq!(pinned[0].color_index, 3);

    // Sub-step by sub-step the distance never grows, and falls from the third on.
    let mut sim = seeded(vec![a], vec![p]);
    let mut last = distance_sq(&p, &a);
    let mut captured_at = None;
    for n in 0..1000 {
        let stats = sim.step(&arith, 1, 10);
        if stats.particles_captured_this_call == 1 {
            captured_at = Some(n);
            break;
        }
        let d2 = distance_sq(&sim.snapshot_for_render().0[0], &a);
        assert!(d2 <= last);
        if n >= 1 {
            assert!(d2 < last);
        }
        assert!(d2 >= 100.0);
        last = d2;
    }
    assert!(captured_at.is_some());
    assert!(last < 2500.0);
    assert!(sim.snapshot_for_render().0.is_empty());
    assert_eq!(sim.snapshot_for_render().2[0], pinned[0]);
}

#[test]
fn first_attractor_in_order_wins_a_tie() {
    let left = attractor(-1.0, 0.0, 100.0, 2);
    let right = attractor(1.0, 0.0, 100.0, 5);
    let p = particle(0.0, 0.0, 0.0, 0.0, 1.0, 1);
    for _ in 0..5 {
        let mut sim = seeded(vec![left, right], vec![p]);
        assert_eq!(sim.step(&arith, 1, 1).particles_captured_this_call, 1);
        assert_eq!(sim.snapshot_for_render().2[0].color_index, 2);

        let mut swapped = seeded(vec![right, left], vec![p]);
        assert_eq!(swapped.step(&arith, 1, 1).particles_captured_this_call, 1);
        assert_eq!(swapped.snapshot_for_render().2[0].color_index, 5);
    }
}

#[test]
fn captured_particle_takes_no_further_part() {
    // Captured in the first of five sub-steps: counted once, and still a trace.
    let mut sim = seeded(
        vec![attractor(0.0, 0.0, 100.0, 3), attractor(3.0, 0.0, 100.0, 4)],
        vec![particle(1.0, 0.0, 0.0, 0.0, 1.0, 1)],
    );
    let stats = sim.step(&arith, 5, 1);
    assert_eq!(stats.particles_captured_this_call, 1);
    let (mobile, _, pinned) = sim.snapshot_for_render();
    assert!(mobile.is_empty());
    assert_eq!(pinned.len(), 1);
    assert_eq!(pinned[0].v_x, 0);
    assert_eq!(pinned[0].v_y, 0);
    assert_eq!(val(pinned[0].x), 1.0);
    assert_eq!(pinned[0].color_index, 3);
    let again = sim.step(&arith, 5, 1);
    assert_eq!(again.particles_captured_this_call, 0);
    assert_eq!(sim.snapshot_for_render().2.len(), 1);
}

#[test]
fn zero_sub_steps_change_nothing() {
    let p = particle(0.0, 0.0, 1.0, 1.0, 1.0, 1);
    let mut sim = seeded(vec![attractor(0.0, 0.0, 100.0, 3)], vec![p]);
    let stats = sim.step(&arith, 0, 1);
    assert_eq!(stats.particles_captured_this_call, 0);
    let (mobile, _, pinned) = sim.snapshot_for_render();
    assert!(pinned.is_empty());
    assert_eq!(mobile[0], p);
}

#[test]
fn single_sub_steps_report_their_captures() {
    let mut sim = seeded(
        vec![attractor(0.0, 0.0, 100.0, 3)],
        vec![
            particle(0.0, 0.0, 0.0, 0.0, 1.0, 1),
            particle(500.0, 0.0, 0.0, 0.0, 1.0, 1),
            particle(2.0, 2.0, 0.0, 0.0, 1.0, 1),
        ],
    );
    assert_eq!(sim.step(&arith, 1, 1).particles_captured_this_call, 2);
    assert_eq!(sim.step(&arith, 1, 1).particles_captured_this_call, 0);
    let (mobile, _, pinned) = sim.snapshot_for_render();
    assert_eq!(mobile.len(), 1);
    assert_eq!(val(pinned[0].init_x), 0.0);
    assert_eq!(val(pinned[1].init_x), 2.0);
}

#[test]
fn run_returns_still_mobile_and_newly_pinned() {
    let attractors = vec![attractor(0.0, 0.0, 100.0, 3)];
    let store = vec![
        particle(500.0, 0.0, 0.0, 0.0, 1.0, 1),
        particle(1.0, 0.0, 0.0, 0.0, 1.0, 1),
        particle(0.0, 600.0, 0.0, 0.0, 1.0, 1),
    ];
    let (mobile, pinned) = run(&arith, store.clone(), &attractors, 3, 1);
    assert_eq!(mobile.len(), 2);
    assert_eq!(pinned.len(), 1);
    assert_eq!(val(mobile[0].init_x), 500.0);
    assert_eq!(val(mobile[1].init_y), 600.0);
    assert!(val(mobile[0].x) < 500.0);
    assert!(val(mobile[1].y) < 600.0);
    assert_eq!(pinned[0], Body::new(bits(1.0), bits(0.0), 0, 0, bits(1.0), true, 3));

    // Three sub-steps are three runs of one, each fed with the store of the last.
    let mut expected = store;
    for _ in 0..3 {
        expected = expected
            .iter()
            .map(|b| substep_body(&arith, *b, &attractors, bits(1.0)))
            .filter(|b| !b.pinned)
            .collect();
    }
    assert_eq!(mobile, expected);
}

#[test]
fn run_orders_the_archive_by_sub_step_then_by_place() {
    // The second particle is captured in the first sub-step, the first in a later one.
    let attractors = vec![attractor(0.0, 0.0, 100.0, 3)];
    let store = vec![
        particle(12.0, 0.0, -1.5, 0.0, 1.0, 1),
        particle(1.0, 0.0, 0.0, 0.0, 1.0, 1),
        particle(2.0, 0.0, 0.0, 0.0, 1.0, 1),
    ];
    let (mobile, pinned) = run(&arith, store, &attractors, 10, 1);
    assert!(mobile.is_empty());
    let xs: Vec<f64> = pinned.iter().map(|b| val(b.x)).collect();
    assert_eq!(xs, vec![1.0, 2.0, 12.0]);
}

#[test]
fn run_of_no_sub_steps_returns_the_store() {
    let attractors = vec![attractor(0.0, 0.0, 100.0, 3)];
    let store = vec![particle(1.0, 0.0, 0.0, 0.0, 1.0, 1), attractor(5.0, 5.0, 1.0, 2)];
    let (mobile, pinned) = run(&arith, store.clone(), &attractors, 0, 1);
    assert_eq!(mobile, store);
    assert!(pinned.is_empty());
}

#[test]
fn run_sets_aside_a_body_that_comes_in_pinned() {
    let attractors = vec![attractor(0.0, 0.0, 100.0, 3)];
    let held = Body::new(bits(700.0), bits(0.0), bits(1.0), bits(1.0), bits(1.0), true, 6);
    let (mobile, pinned) =
        run(&arith, vec![held, particle(500.0, 0.0, 0.0, 0.0, 1.0, 1)], &attractors, 2, 1);
    assert_eq!(mobile.len(), 1);
    assert_eq!(pinned, vec![held]);
}

#[test]
fn archive_grows_in_capture_order_and_store_keeps_order() {
    // Many bodies through the worker pool: every outcome lands at its own index.
    let a = attractor(0.0, 0.0, 100.0, 3);
    let mut particles = vec![];
    for i in 0..5000 {
        particles.push(particle(i as f64, 0.0, 0.0, 0.0, 1.0, 1));
    }
    let mut sim = seeded(vec![a], particles.clone());
    let stats = sim.step(&arith, 1, 1);
    assert_eq!(stats.particles_captured_this_call, 10);
    let (mobile, _, pinned) = sim.snapshot_for_render();
    assert_eq!(mobile.len(), 4990);
    for (i, b) in pinned.iter().enumerate() {
        assert_eq!(val(b.init_x), i as f64);
    }
    for (i, b) in mobile.iter().enumerate() {
        assert_eq!(val(b.init_x), (i + 10) as f64);
        let expected = substep_body(&arith, particles[i + 10], &vec![a], bits(1.0));
        assert_eq!(*b, expected);
        assert!(val(b.v_x) < 0.0);
    }
}

#[test]
fn traces_are_found_by_tag() {
    let mut sim = seeded(
        vec![attractor(0.0, 0.0, 100.0, 3), attractor(1000.0, 0.0, 100.0, 4)],
        vec![
            particle(1.0, 0.0, 0.0, 0.0, 1.0, 1),
            particle(1001.0, 0.0, 0.0, 0.0, 1.0, 1),
            particle(500.0, 0.0, 0.0, 0.0, 1.0, 1),
            particle(2.0, 0.0, 0.0, 0.0, 1.0, 1),
            particle(1002.0, 0.0, 0.0, 0.0, 1.0, 1),
            particle(3.0, 0.0, 0.0, 0.0, 1.0, 1),
        ],
    );
    assert_eq!(sim.step(&arith, 1, 1).particles_captured_this_call, 5);
    let near: Vec<f64> = sim.traces_of(3).iter().map(|b| val(b.x)).collect();
    let far: Vec<f64> = sim.traces_of(4).iter().map(|b| val(b.x)).collect();
    assert_eq!(near, vec![1.0, 2.0, 3.0]);
    assert_eq!(far, vec![1001.0, 1002.0]);
    assert!(sim.traces_of(1).is_empty());
    assert!(sim.traces_of(3).iter().all(|b| b.pinned && b.color_index == 3));
}

#[test]
fn none_pinned_finds_a_pinned_body() {
    let free = particle(1.0, 0.0, 0.0, 0.0, 1.0, 1);
    let held = attractor(2.0, 0.0, 1.0, 2);
    assert!(none_pinned(&vec![]));
    assert!(none_pinned(&vec![free, free]));
    assert!(!none_pinned(&vec![held]));
    assert!(!none_pinned(&vec![free, free, held]));
    assert!(!none_pinned(&vec![held, free]));
}
