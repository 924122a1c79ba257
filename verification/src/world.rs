//! The world: the rule table, the configuration and the bodies, with the
//! operations that an embedding program drives it by.

use rand::Rng;
use vstd::prelude::*;
use crate::components::{ratio_spec, Body, Particle, ParticleRules, Vec2, Velocity};
use crate::particles::{
    boundary_step, friction_step, integration_step, interaction_step, lemma_tick_keeps_population,
    tick_spec, SimulationConfig,
};
use crate::pairs::pair_count;
use crate::scalar::Scalar;

verus! {

/// The type that a draw of 0, 1 or 2 stands for: red, green, blue. Any other
/// draw stands for blue as well.
pub open spec fn kind_of_draw_spec(draw: i32) -> Particle {
    if draw == 0 {
        Particle::RED
    } else if draw == 1 {
        Particle::GREEN
    } else {
        Particle::BLUE
    }
}

/// The type that a draw stands for.
pub fn kind_of_draw(draw: i32) -> (r: Particle)
    ensures
        r == kind_of_draw_spec(draw),
{
    match draw {
        0 => Particle::RED,
        1 => Particle::GREEN,
        _ => Particle::BLUE,
    }
}

/// The coordinate that a unit draw `unit` stands for in a viewport of the
/// given extent: `(unit - 1/2) * extent / 2`. Draws from 0 to 1 fill the
/// middle half of the viewport.
pub open spec fn spawn_coordinate_spec<S: Scalar>(unit: S, extent: S) -> S {
    unit.minus_spec(ratio_spec::<S>(1, 2)).times_spec(extent).over_spec(S::from_int_spec(2))
}

/// A new body of type `kind`: at the place that the pair of unit draws
/// stands for, at rest.
pub open spec fn placed_spec<S: Scalar>(kind: Particle, unit: Vec2<S>, width: S, height: S) -> Body<
    S,
> {
    Body {
        kind,
        position: Vec2 {
            x: spawn_coordinate_spec(unit.x, width),
            y: spawn_coordinate_spec(unit.y, height),
        },
        velocity: Velocity { value: Vec2::zero_spec() },
    }
}

/// The body that a type draw and a pair of unit draws stand for: of the
/// drawn type, at the drawn place, at rest.
pub open spec fn spawned_spec<S: Scalar>(draw: i32, unit: Vec2<S>, width: S, height: S) -> Body<S> {
    placed_spec(kind_of_draw_spec(draw), unit, width, height)
}

/// The body that a type draw and a pair of unit draws stand for.
pub fn spawn_body<S: Scalar>(draw: i32, unit: Vec2<S>, width: S, height: S) -> (r: Body<S>)
    ensures
        r == spawned_spec(draw, unit, width, height),
{
    let half = S::from_int(1).over(S::from_int(2));
    let two = S::from_int(2);
    Body {
        kind: kind_of_draw(draw),
        position: Vec2 {
            x: unit.x.minus(half).times(width).over(two),
            y: unit.y.minus(half).times(height).over(two),
        },
        velocity: Velocity { value: Vec2::zero() },
    }
}

/// Draws 0, 1 or 2 from the thread's random number generator.
///
/// Calls `rand::thread_rng` and `Rng::gen_range` with the range `0..=2`. The
/// contract claims only what holds of every draw: the result lies in the
/// range. The generator seeds itself from the operating system on first use
/// and gives up where that source fails.
#[verifier::external_body]
fn draw_kind() -> (r: i32)
    ensures
        0 <= r <= 2,
{
    rand::thread_rng().gen_range(0..=2)
}

/// One frame's input: the time that has passed and the size of the viewport.
#[derive(Clone, Copy, Debug, PartialEq)]
pub struct Frame<S> {
    pub dt: S,
    pub width: S,
    pub height: S,
}

/// What a world holds, as mathematics.
pub ghost struct WorldModel<S> {
    pub rules: ParticleRules<S>,
    pub config: SimulationConfig<S>,
    pub bodies: Seq<Body<S>>,
}

/// A simulation: a rule table, a configuration and the bodies. Once made, only
/// `tick` and `run` change it, and they change only the bodies.
pub struct SimulationWorld<S> {
    rules: ParticleRules<S>,
    config: SimulationConfig<S>,
    bodies: Vec<Body<S>>,
}

impl<S: Scalar> View for SimulationWorld<S> {
    type V = WorldModel<S>;

    closed spec fn view(&self) -> WorldModel<S> {
        WorldModel { rules: self.rules, config: self.config, bodies: self.bodies@ }
    }
}

/// The bodies after the frames of `frames`, one tick each, in order.
pub open spec fn run_spec<S: Scalar>(
    bodies: Seq<Body<S>>,
    rules: ParticleRules<S>,
    config: SimulationConfig<S>,
    frames: Seq<Frame<S>>,
) -> Seq<Body<S>>
    decreases frames.len(),
{
    if frames.len() == 0 {
        bodies
    } else {
        let frame = frames.last();
        tick_spec(
            run_spec(bodies, rules, config, frames.drop_last()),
            rules,
            config,
            frame.dt,
            frame.width,
            frame.height,
        )
    }
}

/// Determinism: bodies that start alike, under the same rules and the same
/// configuration, are alike after the same frames. A run has no input but
/// these.
pub proof fn lemma_run_is_deterministic<S: Scalar>(
    bodies: Seq<Body<S>>,
    other_bodies: Seq<Body<S>>,
    rules: ParticleRules<S>,
    config: SimulationConfig<S>,
    frames: Seq<Frame<S>>,
    other_frames: Seq<Frame<S>>,
)
    requires
        bodies.len() == other_bodies.len(),
        forall|k: int| 0 <= k < bodies.len() ==> bodies[k] == other_bodies[k],
        frames.len() == other_frames.len(),
        forall|k: int| 0 <= k < frames.len() ==> frames[k] == other_frames[k],
    ensures
        run_spec(bodies, rules, config, frames) == run_spec(
            other_bodies,
            rules,
            config,
            other_frames,
        ),
{
    assert(bodies =~= other_bodies);
    assert(frames =~= other_frames);
}

/// Nothing is born and nothing dies in a run: it keeps the number of the
/// bodies and the type of each.
pub proof fn lemma_run_keeps_population<S: Scalar>(
    bodies: Seq<Body<S>>,
    rules: ParticleRules<S>,
    config: SimulationConfig<S>,
    frames: Seq<Frame<S>>,
)
    ensures
        run_spec(bodies, rules, config, frames).len() == bodies.len(),
        forall|k: int|
            0 <= k < bodies.len() ==> (#[trigger] run_spec(bodies, rules, config, frames)[k]).kind
                == bodies[k].kind,
    decreases frames.len(),
{
    if frames.len() > 0 {
        let frame = frames.last();
        lemma_run_keeps_population(bodies, rules, config, frames.drop_last());
        lemma_tick_keeps_population(
            run_spec(bodies, rules, config, frames.drop_last()),
            rules,
            config,
            frame.dt,
            frame.width,
            frame.height,
        );
    }
}

impl<S: Scalar> SimulationWorld<S> {
    /// A world of the given bodies.
    pub fn with_bodies(
        rules: ParticleRules<S>,
        config: SimulationConfig<S>,
        bodies: Vec<Body<S>>,
    ) -> (r: Self)
        ensures
            r@ == (WorldModel { rules, config, bodies: bodies@ }),
    {
        SimulationWorld { rules, config, bodies }
    }

    /// A world of as many bodies as the configuration asks for, one for each
    /// pair of unit draws in `units`: at the place that the draws stand for in
    /// a viewport of `width` by `height`, at rest, and of a type drawn at
    /// random, so that the contract leaves the type open. There is no world
    /// where the number of the draws is not the number of bodies asked for.
    pub fn initialize(
        rules: ParticleRules<S>,
        config: SimulationConfig<S>,
        units: &Vec<Vec2<S>>,
        width: S,
        height: S,
    ) -> (r: Option<Self>)
        ensures
            r is Some <==> units@.len() == config.particle_number,
            r is Some ==> {
                &&& r->0@.rules == rules
                &&& r->0@.config == config
                &&& r->0@.bodies.len() == units@.len()
                &&& forall|k: int|
                    0 <= k < units@.len() ==> #[trigger] r->0@.bodies[k] == placed_spec(
                        r->0@.bodies[k].kind,
                        units@[k],
                        width,
                        height,
                    )
            },
    {
        if units.len() != config.particle_number as usize {
            return None;
        }
        let mut bodies: Vec<Body<S>> = Vec::new();
        let mut i: usize = 0;
        while i < units.len()
            invariant
                0 <= i <= units@.len(),
                bodies@.len() == i,
                forall|k: int|
                    0 <= k < i ==> #[trigger] bodies@[k] == placed_spec(
                        bodies@[k].kind,
                        units@[k],
                        width,
                        height,
                    ),
            decreases units@.len() - i,
        {
            let draw = draw_kind();
            let body = spawn_body(draw, units[i], width, height);
            bodies.push(body);
            i = i + 1;
        }
        Some(SimulationWorld { rules, config, bodies })
    }

    /// The number of bodies.
    pub fn len(&self) -> (r: usize)
        ensures
            r == self@.bodies.len(),
    {
        self.bodies.len()
    }

    /// The rule table.
    pub fn rules(&self) -> (r: ParticleRules<S>)
        ensures
            r == self@.rules,
    {
        self.rules
    }

    /// The configuration.
    pub fn config(&self) -> (r: SimulationConfig<S>)
        ensures
            r == self@.config,
    {
        self.config
    }

    /// The body at `index`, or `None` where the world has no such body.
    pub fn body(&self, index: usize) -> (r: Option<Body<S>>)
        ensures
            r == if index < self@.bodies.len() {
                Some(self@.bodies[index as int])
            } else {
                None
            },
    {
        if index < self.bodies.len() {
            Some(self.bodies[index])
        } else {
            None
        }
    }

    /// The type and the position of every body, in the order of the bodies:
    /// what a renderer needs to draw the world.
    pub fn particles(&self) -> (r: Vec<(Particle, Vec2<S>)>)
        ensures
            r@.len() == self@.bodies.len(),
            forall|k: int|
                0 <= k < r@.len() ==> r@[k] == (self@.bodies[k].kind, self@.bodies[k].position),
    {
        let mut out: Vec<(Particle, Vec2<S>)> = Vec::new();
        let mut i: usize = 0;
        while i < self.bodies.len()
            invariant
                0 <= i <= self.bodies@.len(),
                out@.len() == i,
                forall|k: int|
                    0 <= k < i ==> out@[k] == (self.bodies@[k].kind, self.bodies@[k].position),
            decreases self.bodies@.len() - i,
        {
            let body = self.bodies[i];
            out.push((body.kind, body.position));
            i = i + 1;
        }
        out
    }

    /// One tick: the interaction, friction, integration and border steps, in
    /// this order, each over all bodies. Returns the number of pairs that the
    /// interaction step evaluated.
    pub fn tick(&mut self, dt: S, width: S, height: S) -> (pairs: u128)
        ensures
            final(self)@.rules == old(self)@.rules,
            final(self)@.config == old(self)@.config,
            final(self)@.bodies == tick_spec(
                old(self)@.bodies,
                old(self)@.rules,
                old(self)@.config,
                dt,
                width,
                height,
            ),
            pairs == pair_count(old(self)@.bodies.len() as int),
    {
        let pairs = interaction_step(&mut self.bodies, &self.rules, &self.config, dt);
        friction_step(&mut self.bodies, &self.config, dt);
        integration_step(&mut self.bodies, &self.config, dt);
        boundary_step(&mut self.bodies, width, height);
        pairs
    }

    /// One tick for each frame of `frames`, in order.
    pub fn run(&mut self, frames: &Vec<Frame<S>>)
        ensures
            final(self)@.rules == old(self)@.rules,
            final(self)@.config == old(self)@.config,
            final(self)@.bodies == run_spec(
                old(self)@.bodies,
                old(self)@.rules,
                old(self)@.config,
                frames@,
            ),
    {
        let ghost start = self@;
        let mut i: usize = 0;
        while i < frames.len()
            invariant
                0 <= i <= frames@.len(),
                self@.rules == start.rules,
                self@.config == start.config,
                self@.bodies == run_spec(
                    start.bodies,
                    start.rules,
                    start.config,
                    frames@.subrange(0, i as int),
                ),
            decreases frames@.len() - i,
        {
            let frame = frames[i];
            proof {
                assert(frames@.subrange(0, i + 1).drop_last() =~= frames@.subrange(0, i as int));
            }
            self.tick(frame.dt, frame.width, frame.height);
            i = i + 1;
        }
        proof {
            assert(frames@.subrange(0, i as int) =~= frames@);
        }
    }
}

} // verus!
