//! The data that the simulation works on: particle types, planar vectors,
//! bodies and the rule table.

use vstd::prelude::*;
use crate::scalar::Scalar;

verus! {

/// The type of a particle. The rule table is keyed by ordered pairs of these.
#[allow(non_camel_case_types)]
#[derive(Clone, Copy, Debug, PartialEq, Eq, Hash, Structural)]
pub enum Particle {
    RED,
    GREEN,
    BLUE,
}

/// A vector in the plane: a position, a displacement or a velocity.
#[derive(Clone, Copy, Debug, PartialEq)]
pub struct Vec2<S> {
    pub x: S,
    pub y: S,
}

/// The velocity of one body.
#[derive(Clone, Copy, Debug, PartialEq)]
pub struct Velocity<S> {
    pub value: Vec2<S>,
}

/// One simulated body: its type, where it is and how it moves.
#[derive(Clone, Copy, Debug, PartialEq)]
pub struct Body<S> {
    pub kind: Particle,
    pub position: Vec2<S>,
    pub velocity: Velocity<S>,
}

impl<S: Scalar> Vec2<S> {
    /// The vector with both components zero.
    pub open spec fn zero_spec() -> Self {
        Vec2 { x: S::from_int_spec(0), y: S::from_int_spec(0) }
    }

    /// Component-wise sum.
    pub open spec fn plus_spec(self, rhs: Self) -> Self {
        Vec2 { x: self.x.plus_spec(rhs.x), y: self.y.plus_spec(rhs.y) }
    }

    /// Component-wise difference.
    pub open spec fn minus_spec(self, rhs: Self) -> Self {
        Vec2 { x: self.x.minus_spec(rhs.x), y: self.y.minus_spec(rhs.y) }
    }

    /// Each component multiplied by `k`.
    pub open spec fn scaled_spec(self, k: S) -> Self {
        Vec2 { x: self.x.times_spec(k), y: self.y.times_spec(k) }
    }

    /// Each component divided by `k`.
    pub open spec fn shrunk_spec(self, k: S) -> Self {
        Vec2 { x: self.x.over_spec(k), y: self.y.over_spec(k) }
    }

    /// The Euclidean length: the square root of `x * x + y * y`.
    pub open spec fn length_spec(self) -> S {
        self.x.times_spec(self.x).plus_spec(self.y.times_spec(self.y)).sqrt_spec()
    }

    /// The vector with both components zero.
    pub fn zero() -> (r: Self)
        ensures
            r == Self::zero_spec(),
    {
        Vec2 { x: S::from_int(0), y: S::from_int(0) }
    }

    /// Component-wise sum.
    pub fn plus(self, rhs: Self) -> (r: Self)
        ensures
            r == self.plus_spec(rhs),
    {
        Vec2 { x: self.x.plus(rhs.x), y: self.y.plus(rhs.y) }
    }

    /// Component-wise difference.
    pub fn minus(self, rhs: Self) -> (r: Self)
        ensures
            r == self.minus_spec(rhs),
    {
        Vec2 { x: self.x.minus(rhs.x), y: self.y.minus(rhs.y) }
    }

    /// Each component multiplied by `k`.
    pub fn scaled(self, k: S) -> (r: Self)
        ensures
            r == self.scaled_spec(k),
    {
        Vec2 { x: self.x.times(k), y: self.y.times(k) }
    }

    /// Each component divided by `k`.
    pub fn shrunk(self, k: S) -> (r: Self)
        ensures
            r == self.shrunk_spec(k),
    {
        Vec2 { x: self.x.over(k), y: self.y.over(k) }
    }

    /// The Euclidean length.
    pub fn length(self) -> (r: S)
        ensures
            r == self.length_spec(),
    {
        self.x.times(self.x).plus(self.y.times(self.y)).sqrt()
    }
}

impl<S: Scalar> Body<S> {
    /// This body with its velocity replaced by `value`.
    pub open spec fn with_velocity_spec(self, value: Vec2<S>) -> Self {
        Body { kind: self.kind, position: self.position, velocity: Velocity { value } }
    }

    /// This body with its position replaced by `position`.
    pub open spec fn with_position_spec(self, position: Vec2<S>) -> Self {
        Body { kind: self.kind, position, velocity: self.velocity }
    }

    /// This body with its velocity replaced by `value`.
    pub fn with_velocity(self, value: Vec2<S>) -> (r: Self)
        ensures
            r == self.with_velocity_spec(value),
    {
        Body { kind: self.kind, position: self.position, velocity: Velocity { value } }
    }

    /// This body with its position replaced by `position`.
    pub fn with_position(self, position: Vec2<S>) -> (r: Self)
        ensures
            r == self.with_position_spec(position),
    {
        Body { kind: self.kind, position, velocity: self.velocity }
    }
}

/// The rules that one source type follows: for each target type, the
/// coefficient with which the source is drawn to it, if there is one.
#[derive(Clone, Copy, Debug, PartialEq)]
struct RuleRow<S> {
    red: Option<S>,
    green: Option<S>,
    blue: Option<S>,
}

impl<S: Scalar> RuleRow<S> {
    /// The entry for `target`.
    spec fn entry(self, target: Particle) -> Option<S> {
        match target {
            Particle::RED => self.red,
            Particle::GREEN => self.green,
            Particle::BLUE => self.blue,
        }
    }
}

/// The rule table: a coefficient for some ordered pairs of particle types.
///
/// A pair without an entry has no rule, which is not the same as a rule with
/// coefficient zero. The table is built once and only read afterwards: the
/// building methods consume the table, and nothing changes one in place.
#[derive(Clone, Copy, Debug, PartialEq)]
pub struct ParticleRules<S> {
    red: RuleRow<S>,
    green: RuleRow<S>,
    blue: RuleRow<S>,
}

/// `n / d` over a scalar's own operations.
pub open spec fn ratio_spec<S: Scalar>(n: i32, d: i32) -> S {
    S::from_int_spec(n).over_spec(S::from_int_spec(d))
}

/// The standard rule table: red chases blue, blue flees red, and so on.
pub open spec fn standard_rules_spec<S: Scalar>() -> Map<(Particle, Particle), S> {
    Map::<(Particle, Particle), S>::empty()
        .insert((Particle::RED, Particle::BLUE), S::from_int_spec(1))
        .insert((Particle::RED, Particle::GREEN), ratio_spec::<S>(1, 2))
        .insert((Particle::BLUE, Particle::RED), ratio_spec::<S>(-1i32, 2))
        .insert((Particle::BLUE, Particle::GREEN), ratio_spec::<S>(4, 5))
        .insert((Particle::GREEN, Particle::GREEN), ratio_spec::<S>(-1i32, 10))
        .insert((Particle::GREEN, Particle::RED), ratio_spec::<S>(3, 10))
        .insert((Particle::GREEN, Particle::BLUE), S::from_int_spec(1))
}

impl<S: Scalar> ParticleRules<S> {
    /// The entry for the ordered pair (`source`, `target`).
    pub closed spec fn entry(self, source: Particle, target: Particle) -> Option<S> {
        match source {
            Particle::RED => self.red.entry(target),
            Particle::GREEN => self.green.entry(target),
            Particle::BLUE => self.blue.entry(target),
        }
    }

    /// The table as a map from ordered type pairs to coefficients.
    pub closed spec fn view(self) -> Map<(Particle, Particle), S> {
        Map::new(
            |k: (Particle, Particle)| self.entry(k.0, k.1) is Some,
            |k: (Particle, Particle)| self.entry(k.0, k.1)->0,
        )
    }

    /// What a lookup of (`source`, `target`) gives: the coefficient, or
    /// nothing where the pair has no rule.
    pub open spec fn lookup(self, source: Particle, target: Particle) -> Option<S> {
        if self@.contains_key((source, target)) {
            Some(self@[(source, target)])
        } else {
            None
        }
    }

    /// The table without any rule.
    pub fn new() -> (r: Self)
        ensures
            r@ == Map::<(Particle, Particle), S>::empty(),
    {
        let row = RuleRow { red: None, green: None, blue: None };
        let r = ParticleRules { red: row, green: row, blue: row };
        assert(r@ =~= Map::<(Particle, Particle), S>::empty());
        r
    }

    /// This table with the rule for (`source`, `target`) set to
    /// `coefficient`, whether or not the pair had a rule before.
    pub fn with_rule(self, source: Particle, target: Particle, coefficient: S) -> (r: Self)
        ensures
            r@ == self@.insert((source, target), coefficient),
    {
        let row = match source {
            Particle::RED => self.red,
            Particle::GREEN => self.green,
            Particle::BLUE => self.blue,
        };
        let row = match target {
            Particle::RED => RuleRow { red: Some(coefficient), green: row.green, blue: row.blue },
            Particle::GREEN => RuleRow { red: row.red, green: Some(coefficient), blue: row.blue },
            Particle::BLUE => RuleRow { red: row.red, green: row.green, blue: Some(coefficient) },
        };
        let r = match source {
            Particle::RED => ParticleRules { red: row, green: self.green, blue: self.blue },
            Particle::GREEN => ParticleRules { red: self.red, green: row, blue: self.blue },
            Particle::BLUE => ParticleRules { red: self.red, green: self.green, blue: row },
        };
        assert(r@ =~= self@.insert((source, target), coefficient));
        r
    }

    /// The standard table.
    pub fn standard() -> (r: Self)
        ensures
            r@ == standard_rules_spec::<S>(),
    {
        let one = S::from_int(1);
        let two = S::from_int(2);
        let ten = S::from_int(10);
        let minus_one = S::from_int(-1);
        Self::new()
            .with_rule(Particle::RED, Particle::BLUE, one)
            .with_rule(Particle::RED, Particle::GREEN, one.over(two))
            .with_rule(Particle::BLUE, Particle::RED, minus_one.over(two))
            .with_rule(Particle::BLUE, Particle::GREEN, S::from_int(4).over(S::from_int(5)))
            .with_rule(Particle::GREEN, Particle::GREEN, minus_one.over(ten))
            .with_rule(Particle::GREEN, Particle::RED, S::from_int(3).over(ten))
            .with_rule(Particle::GREEN, Particle::BLUE, one)
    }

    /// The coefficient with which a particle of type `source` is drawn to one
    /// of type `target`, or `None` where the pair has no rule.
    pub fn coefficient_of(&self, source: Particle, target: Particle) -> (r: Option<S>)
        ensures
            r == self.lookup(source, target),
    {
        let row = match source {
            Particle::RED => self.red,
            Particle::GREEN => self.green,
            Particle::BLUE => self.blue,
        };
        match target {
            Particle::RED => row.red,
            Particle::GREEN => row.green,
            Particle::BLUE => row.blue,
        }
    }
}

} // verus!
