//! The simulation step: pairwise interaction, friction, integration and the
//! wrap-around border, each over the whole collection before the next begins.

pub mod red_particles;

use vstd::prelude::*;
use crate::components::{Body, ParticleRules, Vec2};
use crate::pairs::{
    lemma_rows_len, lemma_rows_prefix, lemma_schedule_entry, pair_count, pair_schedule, row, rows,
};
use crate::scalar::Scalar;

verus! {

/// The number of bodies in the standard configuration.
pub const PARTICLE_NUMBER: u32 = 150;

/// The radius of a body in the standard configuration.
pub const PARTICLE_SIZE: i32 = 5;

/// The reach of a rule in the standard configuration.
pub const PARTICLE_RANGE: i32 = 30;

/// The speed scale in the standard configuration.
pub const PARTICLE_SPEED: i32 = 19;

/// The loss of velocity per second in the standard configuration.
pub const FRICTION: i32 = 5;

/// The numbers that shape a simulation.
#[derive(Clone, Copy, Debug, PartialEq)]
pub struct SimulationConfig<S> {
    /// The radius of a body: two bodies closer than twice this collide.
    pub particle_size: S,
    /// The distance from which on a rule no longer acts.
    pub interaction_range: S,
    /// The speed scale, applied both to the pull between bodies and to the
    /// step from velocity to position.
    pub speed: S,
    /// The velocity that friction takes from each axis per second.
    pub friction: S,
    /// The number of bodies to start with.
    pub particle_number: u32,
}

impl<S: Scalar> SimulationConfig<S> {
    /// The standard configuration: size 5, range 30, speed 19, friction 5,
    /// 150 bodies.
    pub open spec fn standard_spec() -> Self {
        SimulationConfig {
            particle_size: S::from_int_spec(PARTICLE_SIZE),
            interaction_range: S::from_int_spec(PARTICLE_RANGE),
            speed: S::from_int_spec(PARTICLE_SPEED),
            friction: S::from_int_spec(FRICTION),
            particle_number: PARTICLE_NUMBER,
        }
    }

    /// The standard configuration.
    pub fn standard() -> (r: Self)
        ensures
            r == Self::standard_spec(),
    {
        SimulationConfig {
            particle_size: S::from_int(PARTICLE_SIZE),
            interaction_range: S::from_int(PARTICLE_RANGE),
            speed: S::from_int(PARTICLE_SPEED),
            friction: S::from_int(FRICTION),
            particle_number: PARTICLE_NUMBER,
        }
    }
}

/// The vector from `from` towards `to`, divided by the distance between them.
pub open spec fn direction_spec<S: Scalar>(from: Vec2<S>, to: Vec2<S>, distance: S) -> Vec2<S> {
    to.minus_spec(from).shrunk_spec(distance)
}

/// The velocity that a collision leaves: `direction * -5 * speed * dt`.
pub open spec fn collision_velocity_spec<S: Scalar>(
    direction: Vec2<S>,
    config: SimulationConfig<S>,
    dt: S,
) -> Vec2<S> {
    direction.scaled_spec(S::from_int_spec(-5i32)).scaled_spec(config.speed).scaled_spec(dt)
}

/// What a rule adds to a velocity:
/// `direction * speed * dt * coefficient / (distance / interaction_range)`.
pub open spec fn field_delta_spec<S: Scalar>(
    direction: Vec2<S>,
    coefficient: S,
    distance: S,
    config: SimulationConfig<S>,
    dt: S,
) -> Vec2<S> {
    direction.scaled_spec(config.speed).scaled_spec(dt).scaled_spec(coefficient).shrunk_spec(
        distance.over_spec(config.interaction_range),
    )
}

/// Whether two bodies at this distance collide: it is less than twice the
/// size of a body.
pub open spec fn collides_spec<S: Scalar>(distance: S, config: SimulationConfig<S>) -> bool {
    distance.lt_spec(config.particle_size.times_spec(S::from_int_spec(2)))
}

/// The velocity of a body after another body has acted on it.
///
/// `coefficient` is the rule from the body's type to the other's. Without a
/// rule, or at distance zero, the velocity stays. In a collision the velocity
/// is replaced; within the interaction range the rule's pull is added to it;
/// beyond the range it stays.
pub open spec fn drawn_velocity_spec<S: Scalar>(
    coefficient: Option<S>,
    from: Vec2<S>,
    to: Vec2<S>,
    distance: S,
    velocity: Vec2<S>,
    config: SimulationConfig<S>,
    dt: S,
) -> Vec2<S> {
    match coefficient {
        None => velocity,
        Some(c) => {
            let direction = direction_spec(from, to, distance);
            if distance.is_zero_spec() {
                velocity
            } else if collides_spec(distance, config) {
                collision_velocity_spec(direction, config, dt)
            } else if distance.lt_spec(config.interaction_range) {
                velocity.plus_spec(field_delta_spec(direction, c, distance, config, dt))
            } else {
                velocity
            }
        },
    }
}

/// The velocity of a body at `from` after a body at `to`, `distance` away,
/// has acted on it under the rule `coefficient`.
pub fn drawn_velocity<S: Scalar>(
    coefficient: Option<S>,
    from: Vec2<S>,
    to: Vec2<S>,
    distance: S,
    velocity: Vec2<S>,
    config: &SimulationConfig<S>,
    dt: S,
) -> (r: Vec2<S>)
    ensures
        r == drawn_velocity_spec(coefficient, from, to, distance, velocity, *config, dt),
{
    match coefficient {
        None => velocity,
        Some(c) => {
            if distance.is_zero() {
                velocity
            } else {
                let direction = to.minus(from).shrunk(distance);
                if distance.lt(config.particle_size.times(S::from_int(2))) {
                    direction.scaled(S::from_int(-5)).scaled(config.speed).scaled(dt)
                } else if distance.lt(config.interaction_range) {
                    let delta = direction.scaled(config.speed).scaled(dt).scaled(c).shrunk(
                        distance.over(config.interaction_range),
                    );
                    velocity.plus(delta)
                } else {
                    velocity
                }
            }
        },
    }
}

/// The distance between two bodies.
pub open spec fn distance_spec<S: Scalar>(a: Body<S>, b: Body<S>) -> S {
    b.position.minus_spec(a.position).length_spec()
}

/// The first body of a pair after the second has acted on it: its velocity
/// follows the rule from its own type to the other's, and no other rule.
pub open spec fn acted_on_spec<S: Scalar>(
    a: Body<S>,
    b: Body<S>,
    distance: S,
    rules: ParticleRules<S>,
    config: SimulationConfig<S>,
    dt: S,
) -> Body<S> {
    a.with_velocity_spec(
        drawn_velocity_spec(
            rules.lookup(a.kind, b.kind),
            a.position,
            b.position,
            distance,
            a.velocity.value,
            config,
            dt,
        ),
    )
}

/// The bodies after the pair (`i`, `j`) has interacted: each of the two has
/// been acted on by the other, both at the one distance between them, and
/// every other body is as before.
pub open spec fn interact_pair_spec<S: Scalar>(
    bodies: Seq<Body<S>>,
    i: int,
    j: int,
    rules: ParticleRules<S>,
    config: SimulationConfig<S>,
    dt: S,
) -> Seq<Body<S>> {
    let a = bodies[i];
    let b = bodies[j];
    let distance = distance_spec(a, b);
    bodies.update(i, acted_on_spec(a, b, distance, rules, config, dt)).update(
        j,
        acted_on_spec(b, a, distance, rules, config, dt),
    )
}

/// The bodies after the pairs of `pairs` have interacted, one after another.
pub open spec fn interact_pairs_spec<S: Scalar>(
    bodies: Seq<Body<S>>,
    pairs: Seq<(int, int)>,
    rules: ParticleRules<S>,
    config: SimulationConfig<S>,
    dt: S,
) -> Seq<Body<S>>
    decreases pairs.len(),
{
    if pairs.len() == 0 {
        bodies
    } else {
        interact_pair_spec(
            interact_pairs_spec(bodies, pairs.drop_last(), rules, config, dt),
            pairs.last().0,
            pairs.last().1,
            rules,
            config,
            dt,
        )
    }
}

/// The bodies after the interaction step: every unordered pair of two
/// different bodies has interacted once, in the order of the pair schedule.
pub open spec fn interaction_spec<S: Scalar>(
    bodies: Seq<Body<S>>,
    rules: ParticleRules<S>,
    config: SimulationConfig<S>,
    dt: S,
) -> Seq<Body<S>> {
    interact_pairs_spec(bodies, pair_schedule(bodies.len() as int), rules, config, dt)
}

/// Interacting over `pairs` and then over one more pair is interacting over
/// `pairs` with that pair appended.
pub proof fn lemma_interact_one_more<S: Scalar>(
    bodies: Seq<Body<S>>,
    pairs: Seq<(int, int)>,
    pair: (int, int),
    rules: ParticleRules<S>,
    config: SimulationConfig<S>,
    dt: S,
)
    ensures
        interact_pairs_spec(bodies, pairs.push(pair), rules, config, dt) == interact_pair_spec(
            interact_pairs_spec(bodies, pairs, rules, config, dt),
            pair.0,
            pair.1,
            rules,
            config,
            dt,
        ),
{
    assert(pairs.push(pair).drop_last() =~= pairs);
}

/// The interaction step: lets every unordered pair of two different bodies
/// interact once and returns the number of pairs evaluated.
pub fn interaction_step<S: Scalar>(
    bodies: &mut Vec<Body<S>>,
    rules: &ParticleRules<S>,
    config: &SimulationConfig<S>,
    dt: S,
) -> (pairs: u128)
    ensures
        final(bodies)@ == interaction_spec(old(bodies)@, *rules, *config, dt),
        pairs == pair_count(old(bodies)@.len() as int),
{
    let ghost start = bodies@;
    let n = bodies.len();
    let mut pairs: u128 = 0;
    let mut i: usize = 0;
    proof {
        assert(rows(n as int, 0) =~= Seq::<(int, int)>::empty());
    }
    while i < n
        invariant
            0 <= i <= n,
            bodies@.len() == n,
            start.len() == n,
            bodies@ == interact_pairs_spec(start, rows(n as int, i as int), *rules, *config, dt),
            pairs == rows(n as int, i as int).len(),
        decreases n - i,
    {
        let mut j: usize = i + 1;
        proof {
            assert(rows(n as int, i as int) + row(i as int, 0) =~= rows(n as int, i as int));
        }
        while j < n
            invariant
                0 <= i < j <= n,
                bodies@.len() == n,
                start.len() == n,
                bodies@ == interact_pairs_spec(
                    start,
                    rows(n as int, i as int) + row(i as int, (j - i - 1) as nat),
                    *rules,
                    *config,
                    dt,
                ),
                pairs == rows(n as int, i as int).len() + (j - i - 1),
            decreases n - j,
        {
            let a = bodies[i];
            let b = bodies[j];
            let distance = b.position.minus(a.position).length();
            let va = drawn_velocity(
                rules.coefficient_of(a.kind, b.kind),
                a.position,
                b.position,
                distance,
                a.velocity.value,
                config,
                dt,
            );
            let vb = drawn_velocity(
                rules.coefficient_of(b.kind, a.kind),
                b.position,
                a.position,
                distance,
                b.velocity.value,
                config,
                dt,
            );
            proof {
                let done = rows(n as int, i as int) + row(i as int, (j - i - 1) as nat);
                lemma_interact_one_more(start, done, (i as int, j as int), *rules, *config, dt);
                assert(done.push((i as int, j as int)) =~= rows(n as int, i as int) + row(
                    i as int,
                    (j - i) as nat,
                ));
                lemma_pairs_fit(n as int, i as int, j as int);
            }
            bodies.set(i, a.with_velocity(va));
            bodies.set(j, b.with_velocity(vb));
            pairs = pairs + 1;
            j = j + 1;
        }
        proof {
            assert(rows(n as int, i + 1) == rows(n as int, i as int) + row(
                i as int,
                (n - i - 1) as nat,
            ));
        }
        i = i + 1;
    }
    proof {
        lemma_rows_len(n as int, n as int);
        assert(n * (2 * n - n - 1) == n * (n - 1)) by (nonlinear_arith);
    }
    pairs
}

/// While the pair (`i`, `j`) is still to come, the pairs counted so far are
/// fewer than the largest number that the counter can hold.
proof fn lemma_pairs_fit(n: int, i: int, j: int)
    requires
        0 <= i < j < n <= usize::MAX,
    ensures
        rows(n, i).len() + (j - i - 1) < u128::MAX,
{
    lemma_rows_prefix(n, i + 1, n);
    lemma_rows_len(n, n);
    assert(rows(n, i + 1) == rows(n, i) + row(i, (n - i - 1) as nat));
    assert(n * (2 * n - n - 1) <= 0xffff_ffff_ffff_ffff * 0xffff_ffff_ffff_ffff)
        by (nonlinear_arith)
        requires
            0 <= n <= 0xffff_ffff_ffff_ffff,
    ;
}

/// Whether every pair of `pairs` names two bodies among `n`.
pub open spec fn pairs_within(pairs: Seq<(int, int)>, n: int) -> bool {
    forall|k: int|
        0 <= k < pairs.len() ==> 0 <= (#[trigger] pairs[k]).0 < n && 0 <= pairs[k].1 < n
}

/// Each body follows its own rule: what a pair's interaction leaves the body
/// `i` with depends on the rule from its type to the other's and on no other
/// entry of the table, and likewise for the body `j`. So two tables that agree
/// on the one entry agree on the body, whatever they hold for the reverse
/// pair of types, a different coefficient or none.
pub proof fn lemma_pair_follows_own_rule<S: Scalar>(
    bodies: Seq<Body<S>>,
    i: int,
    j: int,
    rules: ParticleRules<S>,
    other_rules: ParticleRules<S>,
    config: SimulationConfig<S>,
    dt: S,
)
    requires
        0 <= i < bodies.len(),
        0 <= j < bodies.len(),
        i != j,
    ensures
        rules.lookup(bodies[i].kind, bodies[j].kind) == other_rules.lookup(
            bodies[i].kind,
            bodies[j].kind,
        ) ==> interact_pair_spec(bodies, i, j, rules, config, dt)[i] == interact_pair_spec(
            bodies,
            i,
            j,
            other_rules,
            config,
            dt,
        )[i],
        rules.lookup(bodies[j].kind, bodies[i].kind) == other_rules.lookup(
            bodies[j].kind,
            bodies[i].kind,
        ) ==> interact_pair_spec(bodies, i, j, rules, config, dt)[j] == interact_pair_spec(
            bodies,
            i,
            j,
            other_rules,
            config,
            dt,
        )[j],
{
}

/// A collision overwrites: under a rule, at a distance that is not zero and
/// less than twice the size of a body, the velocity becomes
/// `direction * -5 * speed * dt`, whatever it was before.
pub proof fn lemma_collision_overwrites<S: Scalar>(
    coefficient: S,
    from: Vec2<S>,
    to: Vec2<S>,
    distance: S,
    velocity: Vec2<S>,
    config: SimulationConfig<S>,
    dt: S,
)
    requires
        !distance.is_zero_spec(),
        collides_spec(distance, config),
    ensures
        drawn_velocity_spec(Some(coefficient), from, to, distance, velocity, config, dt)
            == collision_velocity_spec(direction_spec(from, to, distance), config, dt),
{
}

/// A rule accumulates: at a distance that is not zero, not a collision and
/// within the interaction range, the rule's pull is added to the velocity
/// that the body had.
pub proof fn lemma_field_accumulates<S: Scalar>(
    coefficient: S,
    from: Vec2<S>,
    to: Vec2<S>,
    distance: S,
    velocity: Vec2<S>,
    config: SimulationConfig<S>,
    dt: S,
)
    requires
        !distance.is_zero_spec(),
        !collides_spec(distance, config),
        distance.lt_spec(config.interaction_range),
    ensures
        drawn_velocity_spec(Some(coefficient), from, to, distance, velocity, config, dt)
            == velocity.plus_spec(
            field_delta_spec(direction_spec(from, to, distance), coefficient, distance, config, dt),
        ),
{
}

/// A pair without a rule in either direction is inert: its interaction
/// changes nothing, at any distance.
pub proof fn lemma_no_rule_pair_is_inert<S: Scalar>(
    bodies: Seq<Body<S>>,
    i: int,
    j: int,
    rules: ParticleRules<S>,
    config: SimulationConfig<S>,
    dt: S,
)
    requires
        0 <= i < bodies.len(),
        0 <= j < bodies.len(),
        rules.lookup(bodies[i].kind, bodies[j].kind) is None,
        rules.lookup(bodies[j].kind, bodies[i].kind) is None,
    ensures
        interact_pair_spec(bodies, i, j, rules, config, dt) == bodies,
{
    assert(interact_pair_spec(bodies, i, j, rules, config, dt) =~= bodies);
}

/// Where no two of the bodies have a rule between their types, the
/// interaction step changes nothing.
pub proof fn lemma_no_rules_no_interaction<S: Scalar>(
    bodies: Seq<Body<S>>,
    rules: ParticleRules<S>,
    config: SimulationConfig<S>,
    dt: S,
)
    requires
        forall|i: int, j: int|
            0 <= i < bodies.len() && 0 <= j < bodies.len() ==> rules.lookup(
                #[trigger] bodies[i].kind,
                #[trigger] bodies[j].kind,
            ) is None,
    ensures
        interaction_spec(bodies, rules, config, dt) == bodies,
{
    let n = bodies.len() as int;
    assert forall|k: int| 0 <= k < pair_schedule(n).len() implies 0 <= (#[trigger] pair_schedule(
        n,
    )[k]).0 < n && 0 <= pair_schedule(n)[k].1 < n by {
        lemma_schedule_entry(n, k);
    }
    lemma_no_rules_no_change(bodies, pair_schedule(n), rules, config, dt);
}

/// The same for any pairs among the bodies.
proof fn lemma_no_rules_no_change<S: Scalar>(
    bodies: Seq<Body<S>>,
    pairs: Seq<(int, int)>,
    rules: ParticleRules<S>,
    config: SimulationConfig<S>,
    dt: S,
)
    requires
        pairs_within(pairs, bodies.len() as int),
        forall|i: int, j: int|
            0 <= i < bodies.len() && 0 <= j < bodies.len() ==> rules.lookup(
                #[trigger] bodies[i].kind,
                #[trigger] bodies[j].kind,
            ) is None,
    ensures
        interact_pairs_spec(bodies, pairs, rules, config, dt) == bodies,
    decreases pairs.len(),
{
    if pairs.len() > 0 {
        lemma_no_rules_no_change(bodies, pairs.drop_last(), rules, config, dt);
        let pair = pairs.last();
        assert(pair == pairs[pairs.len() - 1]);
        lemma_no_rule_pair_is_inert(bodies, pair.0, pair.1, rules, config, dt);
    }
}

/// Interactions change velocities only: the number of the bodies, their
/// types and their positions stay.
pub proof fn lemma_interactions_keep_places<S: Scalar>(
    bodies: Seq<Body<S>>,
    pairs: Seq<(int, int)>,
    rules: ParticleRules<S>,
    config: SimulationConfig<S>,
    dt: S,
)
    requires
        pairs_within(pairs, bodies.len() as int),
    ensures
        interact_pairs_spec(bodies, pairs, rules, config, dt).len() == bodies.len(),
        forall|k: int|
            0 <= k < bodies.len() ==> (#[trigger] interact_pairs_spec(
                bodies,
                pairs,
                rules,
                config,
                dt,
            )[k]).kind == bodies[k].kind && interact_pairs_spec(
                bodies,
                pairs,
                rules,
                config,
                dt,
            )[k].position == bodies[k].position,
    decreases pairs.len(),
{
    if pairs.len() > 0 {
        lemma_interactions_keep_places(bodies, pairs.drop_last(), rules, config, dt);
        let pair = pairs.last();
        assert(pair == pairs[pairs.len() - 1]);
    }
}

/// One component of a velocity after friction: `v - friction * dt`, or zero
/// where that takes a component that was not negative below zero. The floor
/// is one-sided: a component that is negative already is not held at zero, it
/// loses the same amount and becomes more negative.
pub open spec fn slowed_spec<S: Scalar>(v: S, config: SimulationConfig<S>, dt: S) -> S {
    let zero = S::from_int_spec(0);
    let slowed = v.minus_spec(config.friction.times_spec(dt));
    if !v.lt_spec(zero) && slowed.lt_spec(zero) {
        zero
    } else {
        slowed
    }
}

/// A body after friction: both components of its velocity slowed.
pub open spec fn slowed_body_spec<S: Scalar>(
    body: Body<S>,
    config: SimulationConfig<S>,
    dt: S,
) -> Body<S> {
    body.with_velocity_spec(
        Vec2 {
            x: slowed_spec(body.velocity.value.x, config, dt),
            y: slowed_spec(body.velocity.value.y, config, dt),
        },
    )
}

/// The bodies after the friction step.
pub open spec fn friction_spec<S: Scalar>(
    bodies: Seq<Body<S>>,
    config: SimulationConfig<S>,
    dt: S,
) -> Seq<Body<S>> {
    Seq::new(bodies.len(), |k: int| slowed_body_spec(bodies[k], config, dt))
}

/// One component of a velocity after friction.
pub fn slowed<S: Scalar>(v: S, config: &SimulationConfig<S>, dt: S) -> (r: S)
    ensures
        r == slowed_spec(v, *config, dt),
{
    let zero = S::from_int(0);
    let slowed = v.minus(config.friction.times(dt));
    if !v.lt(zero) && slowed.lt(zero) {
        zero
    } else {
        slowed
    }
}

/// The friction step: slows both components of every velocity.
pub fn friction_step<S: Scalar>(bodies: &mut Vec<Body<S>>, config: &SimulationConfig<S>, dt: S)
    ensures
        final(bodies)@ == friction_spec(old(bodies)@, *config, dt),
{
    let ghost start = bodies@;
    let n = bodies.len();
    let mut i: usize = 0;
    while i < n
        invariant
            0 <= i <= n,
            bodies@.len() == n,
            start.len() == n,
            forall|k: int| 0 <= k < i ==> bodies@[k] == slowed_body_spec(start[k], *config, dt),
            forall|k: int| i <= k < n ==> bodies@[k] == start[k],
        decreases n - i,
    {
        let body = bodies[i];
        let value = Vec2 {
            x: slowed(body.velocity.value.x, config, dt),
            y: slowed(body.velocity.value.y, config, dt),
        };
        bodies.set(i, body.with_velocity(value));
        i = i + 1;
    }
    assert(bodies@ =~= friction_spec(start, *config, dt));
}

/// A body after the integration step: its position advanced by
/// `velocity * speed * dt`.
pub open spec fn moved_body_spec<S: Scalar>(
    body: Body<S>,
    config: SimulationConfig<S>,
    dt: S,
) -> Body<S> {
    body.with_position_spec(
        body.position.plus_spec(body.velocity.value.scaled_spec(config.speed).scaled_spec(dt)),
    )
}

/// The bodies after the integration step.
pub open spec fn integration_spec<S: Scalar>(
    bodies: Seq<Body<S>>,
    config: SimulationConfig<S>,
    dt: S,
) -> Seq<Body<S>> {
    Seq::new(bodies.len(), |k: int| moved_body_spec(bodies[k], config, dt))
}

/// The integration step: advances every position by its velocity.
pub fn integration_step<S: Scalar>(bodies: &mut Vec<Body<S>>, config: &SimulationConfig<S>, dt: S)
    ensures
        final(bodies)@ == integration_spec(old(bodies)@, *config, dt),
{
    let ghost start = bodies@;
    let n = bodies.len();
    let mut i: usize = 0;
    while i < n
        invariant
            0 <= i <= n,
            bodies@.len() == n,
            start.len() == n,
            forall|k: int| 0 <= k < i ==> bodies@[k] == moved_body_spec(start[k], *config, dt),
            forall|k: int| i <= k < n ==> bodies@[k] == start[k],
        decreases n - i,
    {
        let body = bodies[i];
        let position = body.position.plus(body.velocity.value.scaled(config.speed).scaled(dt));
        bodies.set(i, body.with_position(position));
        i = i + 1;
    }
    assert(bodies@ =~= integration_spec(start, *config, dt));
}

/// One coordinate wrapped into a world of the given extent, centred at the
/// origin: below `-extent / 2` it becomes `extent / 2`, above `extent / 2` it
/// becomes `-extent / 2`, and from the one border to the other, both
/// included, it stays.
pub open spec fn wrapped_spec<S: Scalar>(coordinate: S, extent: S) -> S {
    let low = extent.neg_spec().over_spec(S::from_int_spec(2));
    let high = extent.over_spec(S::from_int_spec(2));
    if coordinate.lt_spec(low) {
        high
    } else if high.lt_spec(coordinate) {
        low
    } else {
        coordinate
    }
}

/// A body after the border step: both coordinates wrapped.
pub open spec fn wrapped_body_spec<S: Scalar>(body: Body<S>, width: S, height: S) -> Body<S> {
    body.with_position_spec(
        Vec2 { x: wrapped_spec(body.position.x, width), y: wrapped_spec(body.position.y, height) },
    )
}

/// The bodies after the border step.
pub open spec fn boundary_spec<S: Scalar>(bodies: Seq<Body<S>>, width: S, height: S) -> Seq<
    Body<S>,
> {
    Seq::new(bodies.len(), |k: int| wrapped_body_spec(bodies[k], width, height))
}

/// One coordinate wrapped into a world of the given extent. A coordinate far
/// outside is wrapped once, not brought inside.
pub fn wrapped<S: Scalar>(coordinate: S, extent: S) -> (r: S)
    ensures
        r == wrapped_spec(coordinate, extent),
{
    let low = extent.neg().over(S::from_int(2));
    let high = extent.over(S::from_int(2));
    if coordinate.lt(low) {
        high
    } else if high.lt(coordinate) {
        low
    } else {
        coordinate
    }
}

/// The border step: wraps every position into the viewport.
pub fn boundary_step<S: Scalar>(bodies: &mut Vec<Body<S>>, width: S, height: S)
    ensures
        final(bodies)@ == boundary_spec(old(bodies)@, width, height),
{
    let ghost start = bodies@;
    let n = bodies.len();
    let mut i: usize = 0;
    while i < n
        invariant
            0 <= i <= n,
            bodies@.len() == n,
            start.len() == n,
            forall|k: int| 0 <= k < i ==> bodies@[k] == wrapped_body_spec(start[k], width, height),
            forall|k: int| i <= k < n ==> bodies@[k] == start[k],
        decreases n - i,
    {
        let body = bodies[i];
        let position = Vec2 {
            x: wrapped(body.position.x, width),
            y: wrapped(body.position.y, height),
        };
        bodies.set(i, body.with_position(position));
        i = i + 1;
    }
    assert(bodies@ =~= boundary_spec(start, width, height));
}

/// The bodies after one tick: interaction, friction, integration and border,
/// each over all bodies before the next begins.
pub open spec fn tick_spec<S: Scalar>(
    bodies: Seq<Body<S>>,
    rules: ParticleRules<S>,
    config: SimulationConfig<S>,
    dt: S,
    width: S,
    height: S,
) -> Seq<Body<S>> {
    let pulled = interaction_spec(bodies, rules, config, dt);
    let slowed = friction_spec(pulled, config, dt);
    let moved = integration_spec(slowed, config, dt);
    boundary_spec(moved, width, height)
}

/// Nothing is born and nothing dies: a tick keeps the number of the bodies
/// and the type of each.
pub proof fn lemma_tick_keeps_population<S: Scalar>(
    bodies: Seq<Body<S>>,
    rules: ParticleRules<S>,
    config: SimulationConfig<S>,
    dt: S,
    width: S,
    height: S,
)
    ensures
        tick_spec(bodies, rules, config, dt, width, height).len() == bodies.len(),
        forall|k: int|
            0 <= k < bodies.len() ==> (#[trigger] tick_spec(
                bodies,
                rules,
                config,
                dt,
                width,
                height,
            )[k]).kind == bodies[k].kind,
{
    let n = bodies.len() as int;
    assert forall|k: int| 0 <= k < pair_schedule(n).len() implies 0 <= (#[trigger] pair_schedule(
        n,
    )[k]).0 < n && 0 <= pair_schedule(n)[k].1 < n by {
        lemma_schedule_entry(n, k);
    }
    lemma_interactions_keep_places(bodies, pair_schedule(n), rules, config, dt);
}

} // verus!
