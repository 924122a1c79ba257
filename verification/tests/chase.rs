//! Interpolation and the chase of the red bodies.

use particle_life::components::{Body, Particle, Vec2, Velocity};
use particle_life::fixed::Fixed;
use particle_life::particles::red_particles::{
    chasing, red_particles_update_system, CHASE_PACE, CHASE_RANGE, FLEE_PACE,
};
use particle_life::utils::{lerp, move_to_point};

fn milli(n: i64) -> Fixed {
    Fixed { raw: n * 1_000 }
}

fn vec2(x: i64, y: i64) -> Vec2<Fixed> {
    Vec2 { x: milli(x), y: milli(y) }
}

fn body(kind: Particle, position: (i64, i64)) -> Body<Fixed> {
    Body { kind, position: vec2(position.0, position.1), velocity: Velocity { value: vec2(1, 2) } }
}

#[test]
fn lerp_interpolates_and_extrapolates() {
    assert_eq!(lerp(milli(1_000), milli(3_000), milli(500)), milli(2_000));
    assert_eq!(lerp(milli(1_000), milli(3_000), milli(0)), milli(1_000));
    assert_eq!(lerp(milli(1_000), milli(3_000), milli(1_000)), milli(3_000));
    assert_eq!(lerp(milli(1_000), milli(3_000), milli(-500)), milli(0));
    assert_eq!(lerp(milli(1_000), milli(3_000), milli(2_000)), milli(5_000));
    assert_eq!(lerp(milli(4_000), milli(-4_000), milli(250)), milli(2_000));
}

#[test]
fn move_to_point_interpolates_each_coordinate() {
    assert_eq!(move_to_point(vec2(0, 10_000), vec2(8_000, -10_000), milli(250)), vec2(2_000, 5_000));
    assert_eq!(move_to_point(vec2(1, 2), vec2(3, 4), milli(0)), vec2(1, 2));
    assert_eq!(move_to_point(vec2(1, 2), vec2(3, 4), milli(1_000)), vec2(3, 4));
}

#[test]
fn red_runs_towards_blue_and_away_from_red() {
    assert_eq!(CHASE_RANGE, 300);
    assert_eq!(CHASE_PACE, 150);
    assert_eq!(FLEE_PACE, -150);
    let red = body(Particle::RED, (0, 0));
    // 150 / 100 * 0.1 = 0.15 of the way
    let towards = chasing(red, body(Particle::BLUE, (100_000, 0)), milli(100));
    assert_eq!(towards.position, vec2(15_000, 0));
    assert_eq!(towards.velocity, red.velocity);
    assert_eq!(towards.kind, Particle::RED);
    let away = chasing(red, body(Particle::RED, (0, 100_000)), milli(100));
    assert_eq!(away.position, vec2(0, -15_000));
    // green is of no interest, and neither is anything at 300 or beyond
    assert_eq!(chasing(red, body(Particle::GREEN, (100_000, 0)), milli(100)), red);
    assert_eq!(chasing(red, body(Particle::BLUE, (300_000, 0)), milli(100)), red);
    assert_eq!(chasing(red, body(Particle::BLUE, (0, 299_999)), milli(100)).position.x, milli(0));
    assert!(chasing(red, body(Particle::BLUE, (0, 299_999)), milli(100)).position.y != milli(0));
    // only red bodies chase
    let blue = body(Particle::BLUE, (0, 0));
    assert_eq!(chasing(blue, body(Particle::RED, (100_000, 0)), milli(100)), blue);
    let green = body(Particle::GREEN, (0, 0));
    assert_eq!(chasing(green, body(Particle::BLUE, (100_000, 0)), milli(100)), green);
}

#[test]
fn chase_moves_the_first_body_of_each_pair() {
    let mut bodies = vec![
        body(Particle::RED, (0, 0)),
        body(Particle::BLUE, (100_000, 0)),
        body(Particle::RED, (15_000, 100_000)),
    ];
    red_particles_update_system(&mut bodies, milli(100));
    // pair (0, 1): towards blue, to (15, 0); pair (0, 2): from there, away
    // from the red body straight above at distance 100, to (15, -15)
    assert_eq!(bodies[0].position, vec2(15_000, -15_000));
    // body 1 is blue, and body 2 is first in no pair
    assert_eq!(bodies[1], body(Particle::BLUE, (100_000, 0)));
    assert_eq!(bodies[2], body(Particle::RED, (15_000, 100_000)));

    let mut reversed = vec![
        body(Particle::BLUE, (100_000, 0)),
        body(Particle::RED, (0, 0)),
    ];
    let before = reversed.clone();
    red_particles_update_system(&mut reversed, milli(100));
    assert_eq!(reversed, before);
}
