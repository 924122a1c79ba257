//! The simulation on single-precision floating point.

use particle_life::components::{Body, Particle, ParticleRules, Vec2, Velocity};
use particle_life::particles::{
    boundary_step, drawn_velocity, friction_step, integration_step, interaction_step, slowed,
    wrapped, SimulationConfig,
};
use particle_life::scalar::Scalar;
use particle_life::world::{spawn_body, Frame, SimulationWorld};

#[derive(Clone, Copy, Debug, PartialEq)]
struct Real(f32);

impl Scalar for Real {
    fn from_int(n: i32) -> Self {
        Real(n as f32)
    }
    fn plus(self, rhs: Self) -> Self {
        Real(self.0 + rhs.0)
    }
    fn minus(self, rhs: Self) -> Self {
        Real(self.0 - rhs.0)
    }
    fn times(self, rhs: Self) -> Self {
        Real(self.0 * rhs.0)
    }
    fn over(self, rhs: Self) -> Self {
        Real(self.0 / rhs.0)
    }
    fn neg(self) -> Self {
        Real(-self.0)
    }
    fn sqrt(self) -> Self {
        Real(self.0.sqrt())
    }
    fn lt(self, rhs: Self) -> bool {
        self.0 < rhs.0
    }
    fn is_zero(self) -> bool {
        self.0 == 0.0
    }
    fn from_int_spec(n: i32) -> Self {
        Self::from_int(n)
    }
    fn plus_spec(self, rhs: Self) -> Self {
        self.plus(rhs)
    }
    fn minus_spec(self, rhs: Self) -> Self {
        self.minus(rhs)
    }
    fn times_spec(self, rhs: Self) -> Self {
        self.times(rhs)
    }
    fn over_spec(self, rhs: Self) -> Self {
        self.over(rhs)
    }
    fn neg_spec(self) -> Self {
        self.neg()
    }
    fn sqrt_spec(self) -> Self {
        self.sqrt()
    }
    fn lt_spec(self, rhs: Self) -> bool {
        self.lt(rhs)
    }
    fn is_zero_spec(self) -> bool {
        self.is_zero()
    }
}

fn vec2(x: f32, y: f32) -> Vec2<Real> {
    Vec2 { x: Real(x), y: Real(y) }
}

fn body(kind: Particle, position: (f32, f32), velocity: (f32, f32)) -> Body<Real> {
    Body {
        kind,
        position: vec2(position.0, position.1),
        velocity: Velocity { value: vec2(velocity.0, velocity.1) },
    }
}

fn config() -> SimulationConfig<Real> {
    SimulationConfig::standard()
}

#[test]
fn real_standard_config_has_the_documented_defaults() {
    let c = config();
    assert_eq!(c.particle_size, Real(5.0));
    assert_eq!(c.interaction_range, Real(30.0));
    assert_eq!(c.speed, Real(19.0));
    assert_eq!(c.friction, Real(5.0));
    assert_eq!(c.particle_number, 150);
}

#[test]
fn real_standard_rules_hold_the_seven_coefficients() {
    let rules = ParticleRules::<Real>::standard();
    assert_eq!(rules.coefficient_of(Particle::RED, Particle::BLUE), Some(Real(1.0)));
    assert_eq!(rules.coefficient_of(Particle::RED, Particle::GREEN), Some(Real(0.5)));
    assert_eq!(rules.coefficient_of(Particle::BLUE, Particle::RED), Some(Real(-0.5)));
    assert_eq!(rules.coefficient_of(Particle::BLUE, Particle::GREEN), Some(Real(0.8)));
    assert_eq!(rules.coefficient_of(Particle::GREEN, Particle::GREEN), Some(Real(-0.1)));
    assert_eq!(rules.coefficient_of(Particle::GREEN, Particle::RED), Some(Real(0.3)));
    assert_eq!(rules.coefficient_of(Particle::GREEN, Particle::BLUE), Some(Real(1.0)));
    assert_eq!(rules.coefficient_of(Particle::RED, Particle::RED), None);
    assert_eq!(rules.coefficient_of(Particle::BLUE, Particle::BLUE), None);
}

#[test]
fn real_absent_rule_differs_from_zero_rule() {
    let rules = ParticleRules::<Real>::new().with_rule(Particle::RED, Particle::RED, Real(0.0));
    assert_eq!(rules.coefficient_of(Particle::RED, Particle::RED), Some(Real(0.0)));
    assert_eq!(rules.coefficient_of(Particle::RED, Particle::GREEN), None);
    assert_eq!(rules.coefficient_of(Particle::GREEN, Particle::RED), None);
}

#[test]
fn real_each_body_follows_its_own_rule() {
    // red is drawn to blue with 1.0, blue to red with -0.5
    let rules = ParticleRules::<Real>::standard();
    let mut bodies = vec![
        body(Particle::RED, (0.0, 0.0), (0.0, 0.0)),
        body(Particle::BLUE, (15.0, 0.0), (0.0, 0.0)),
    ];
    interaction_step(&mut bodies, &rules, &config(), Real(0.5));
    // 1 * 19 * 0.5 * 1.0 / (15 / 30) = 19
    assert_eq!(bodies[0].velocity.value, vec2(19.0, 0.0));
    // -1 * 19 * 0.5 * -0.5 / (15 / 30) = 9.5
    assert_eq!(bodies[1].velocity.value.x, Real(9.5));
    assert_eq!(bodies[1].velocity.value.y.0, 0.0);
}

#[test]
fn real_one_sided_rule_moves_one_body_only() {
    let rules = ParticleRules::<Real>::new().with_rule(Particle::RED, Particle::BLUE, Real(1.0));
    let mut bodies = vec![
        body(Particle::RED, (0.0, 0.0), (1.0, 2.0)),
        body(Particle::BLUE, (15.0, 0.0), (3.0, 4.0)),
    ];
    interaction_step(&mut bodies, &rules, &config(), Real(0.5));
    assert_eq!(bodies[0].velocity.value, vec2(20.0, 2.0));
    assert_eq!(bodies[1].velocity.value, vec2(3.0, 4.0));

    // the same with the bodies in the other order
    let mut bodies = vec![
        body(Particle::BLUE, (15.0, 0.0), (3.0, 4.0)),
        body(Particle::RED, (0.0, 0.0), (1.0, 2.0)),
    ];
    interaction_step(&mut bodies, &rules, &config(), Real(0.5));
    assert_eq!(bodies[0].velocity.value, vec2(3.0, 4.0));
    assert_eq!(bodies[1].velocity.value, vec2(20.0, 2.0));
}

#[test]
fn real_collision_overwrites_the_velocity() {
    let rules = ParticleRules::<Real>::standard();
    let mut bodies = vec![
        body(Particle::RED, (0.0, 0.0), (3.0, 4.0)),
        body(Particle::BLUE, (6.0, 0.0), (-7.0, 9.0)),
    ];
    interaction_step(&mut bodies, &rules, &config(), Real(0.5));
    // direction * -5 * 19 * 0.5, the earlier velocity discarded
    assert_eq!(bodies[0].velocity.value.x, Real(-47.5));
    assert_eq!(bodies[0].velocity.value.y.0, 0.0);
    assert_eq!(bodies[1].velocity.value.x, Real(47.5));
    assert_eq!(bodies[1].velocity.value.y.0, 0.0);
    // positions are read, never written
    assert_eq!(bodies[0].position, vec2(0.0, 0.0));
    assert_eq!(bodies[1].position, vec2(6.0, 0.0));
}

#[test]
fn real_field_accumulates_onto_the_velocity() {
    let rules = ParticleRules::<Real>::standard();
    let mut bodies = vec![
        body(Particle::RED, (0.0, 0.0), (3.0, 4.0)),
        body(Particle::BLUE, (0.0, 15.0), (-7.0, 9.0)),
    ];
    interaction_step(&mut bodies, &rules, &config(), Real(0.5));
    assert_eq!(bodies[0].velocity.value, vec2(3.0, 23.0));
    assert_eq!(bodies[1].velocity.value, vec2(-7.0, 18.5));
}

#[test]
fn real_collision_range_excludes_twice_the_size() {
    let c = config();
    let v = vec2(3.0, 4.0);
    // at exactly 10 the field acts: 19 * 0.5 * 1.0 / (10 / 30)
    let at = drawn_velocity(Some(Real(1.0)), vec2(0.0, 0.0), vec2(10.0, 0.0), Real(10.0), v, &c, Real(0.5));
    assert_eq!(at, vec2(3.0 + 9.5 / (10.0f32 / 30.0), 4.0));
    // at exactly 30 nothing acts
    let out = drawn_velocity(Some(Real(1.0)), vec2(0.0, 0.0), vec2(30.0, 0.0), Real(30.0), v, &c, Real(0.5));
    assert_eq!(out, v);
    let far = drawn_velocity(Some(Real(1.0)), vec2(0.0, 0.0), vec2(500.0, 0.0), Real(500.0), v, &c, Real(0.5));
    assert_eq!(far, v);
}

#[test]
fn real_pair_without_rule_is_inert_at_any_distance() {
    let rules = ParticleRules::<Real>::standard();
    for distance in [0.0f32, 1.0, 6.0, 9.99, 10.0, 15.0, 29.0, 30.0, 1000.0] {
        let mut bodies = vec![
            body(Particle::RED, (0.0, 0.0), (3.0, 4.0)),
            body(Particle::RED, (distance, 0.0), (-7.0, 9.0)),
        ];
        let before = bodies.clone();
        interaction_step(&mut bodies, &rules, &config(), Real(0.5));
        assert_eq!(bodies, before);
    }
}

#[test]
fn real_zero_distance_is_no_interaction() {
    let rules = ParticleRules::<Real>::standard();
    let mut bodies = vec![
        body(Particle::RED, (2.0, 3.0), (3.0, 4.0)),
        body(Particle::BLUE, (2.0, 3.0), (-7.0, 9.0)),
    ];
    let before = bodies.clone();
    interaction_step(&mut bodies, &rules, &config(), Real(0.5));
    assert_eq!(bodies, before);
}

#[test]
fn real_friction_floor_is_one_sided() {
    let c = config();
    assert_eq!(slowed(Real(0.02), &c, Real(0.1)), Real(0.0));
    assert_eq!(slowed(Real(-3.0), &c, Real(0.1)), Real(-3.5));
    assert_eq!(slowed(Real(2.0), &c, Real(0.1)), Real(1.5));

    let mut bodies = vec![body(Particle::GREEN, (1.0, 2.0), (0.02, -3.0))];
    friction_step(&mut bodies, &c, Real(0.1));
    assert_eq!(bodies[0].velocity.value, vec2(0.0, -3.5));
    assert_eq!(bodies[0].position, vec2(1.0, 2.0));
}

#[test]
fn real_integration_advances_by_velocity_speed_and_time() {
    let mut bodies = vec![body(Particle::GREEN, (1.0, 2.0), (2.0, -4.0))];
    integration_step(&mut bodies, &config(), Real(0.5));
    // 1 + 2 * 19 * 0.5 and 2 - 4 * 19 * 0.5
    assert_eq!(bodies[0].position, vec2(20.0, -36.0));
    assert_eq!(bodies[0].velocity.value, vec2(2.0, -4.0));
}

#[test]
fn real_boundary_wraps_exactly() {
    assert_eq!(wrapped(Real(-401.0), Real(800.0)), Real(400.0));
    assert_eq!(wrapped(Real(400.0), Real(800.0)), Real(400.0));
    assert_eq!(wrapped(Real(399.9), Real(800.0)), Real(399.9));
    assert_eq!(wrapped(Real(-400.0), Real(800.0)), Real(-400.0));
    assert_eq!(wrapped(Real(400.5), Real(800.0)), Real(-400.0));
    // one wrap, however far outside
    assert_eq!(wrapped(Real(5000.0), Real(800.0)), Real(-400.0));

    let mut bodies = vec![
        body(Particle::RED, (-401.0, 301.0), (1.0, 1.0)),
        body(Particle::BLUE, (400.0, -300.0), (1.0, 1.0)),
    ];
    boundary_step(&mut bodies, Real(800.0), Real(600.0));
    assert_eq!(bodies[0].position, vec2(400.0, -300.0));
    assert_eq!(bodies[1].position, vec2(400.0, -300.0));
    assert_eq!(bodies[0].velocity.value, vec2(1.0, 1.0));
}

#[test]
fn real_interaction_evaluates_each_pair_once() {
    let rules = ParticleRules::<Real>::standard();
    for (n, expected) in [(0usize, 0u128), (1, 0), (2, 1), (3, 3), (5, 10), (12, 66)] {
        let mut bodies: Vec<Body<Real>> = (0..n)
            .map(|k| body(Particle::GREEN, (100.0 * k as f32, 0.0), (0.0, 0.0)))
            .collect();
        assert_eq!(interaction_step(&mut bodies, &rules, &config(), Real(0.1)), expected);
    }
}

#[test]
fn real_tick_runs_the_four_steps_in_order() {
    let rules = ParticleRules::<Real>::standard();
    let start = vec![
        body(Particle::RED, (395.0, 0.0), (3.0, 4.0)),
        body(Particle::BLUE, (395.0, 15.0), (-7.0, 9.0)),
        body(Particle::GREEN, (-200.0, -299.0), (0.25, -1.0)),
    ];
    let mut world = SimulationWorld::with_bodies(rules, config(), start.clone());
    let pairs = world.tick(Real(0.5), Real(800.0), Real(600.0));
    assert_eq!(pairs, 3);

    let mut expected = start;
    interaction_step(&mut expected, &rules, &config(), Real(0.5));
    assert_eq!(expected[0].velocity.value, vec2(3.0, 23.0));
    friction_step(&mut expected, &config(), Real(0.5));
    assert_eq!(expected[0].velocity.value, vec2(0.5, 20.5));
    assert_eq!(expected[2].velocity.value, vec2(0.0, -3.5));
    integration_step(&mut expected, &config(), Real(0.5));
    assert_eq!(expected[0].position, vec2(399.75, 194.75));
    boundary_step(&mut expected, Real(800.0), Real(600.0));
    assert_eq!(expected[2].position, vec2(-200.0, 300.0));

    for k in 0..3 {
        assert_eq!(world.body(k).unwrap(), expected[k]);
    }
}

#[test]
fn real_runs_are_deterministic() {
    let rules = ParticleRules::<Real>::standard();
    let kinds = [Particle::RED, Particle::GREEN, Particle::BLUE];
    let start: Vec<Body<Real>> = (0..40)
        .map(|k| {
            let x = ((k * 37) % 101) as f32 - 50.0;
            let y = ((k * 53) % 89) as f32 - 44.0;
            body(kinds[k % 3], (x, y), (0.0, 0.0))
        })
        .collect();
    let frames: Vec<Frame<Real>> = (0..50)
        .map(|k| Frame { dt: Real(0.01 + 0.001 * (k % 7) as f32), width: Real(800.0), height: Real(600.0) })
        .collect();

    let mut first = SimulationWorld::with_bodies(rules, config(), start.clone());
    first.run(&frames);
    let mut second = SimulationWorld::with_bodies(rules, config(), start.clone());
    for frame in frames.iter() {
        second.tick(frame.dt, frame.width, frame.height);
    }
    assert_eq!(first.len(), 40);
    let mut moved = false;
    for k in 0..40 {
        let a = first.body(k).unwrap();
        let b = second.body(k).unwrap();
        assert_eq!(a.kind, start[k].kind);
        assert_eq!(a.position.x.0.to_bits(), b.position.x.0.to_bits());
        assert_eq!(a.position.y.0.to_bits(), b.position.y.0.to_bits());
        assert_eq!(a.velocity.value.x.0.to_bits(), b.velocity.value.x.0.to_bits());
        assert_eq!(a.velocity.value.y.0.to_bits(), b.velocity.value.y.0.to_bits());
        moved = moved || a.position != start[k].position;
    }
    assert!(moved);
}

#[test]
fn real_spawn_places_a_body_in_the_middle_half() {
    // (0.75 - 0.5) * 800 / 2 and (0.25 - 0.5) * 600 / 2
    let b = spawn_body(1, vec2(0.75, 0.25), Real(800.0), Real(600.0));
    assert_eq!(b.kind, Particle::GREEN);
    assert_eq!(b.position, vec2(100.0, -75.0));
    assert_eq!(b.velocity.value, vec2(0.0, 0.0));
    let corner = spawn_body(0, vec2(0.0, 0.0), Real(800.0), Real(600.0));
    assert_eq!(corner.position, vec2(-200.0, -150.0));
}
