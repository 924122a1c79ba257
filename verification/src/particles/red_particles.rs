//! A chase rule that needs no rule table: red bodies run towards blue ones
//! and away from other red ones.

use vstd::prelude::*;
use crate::components::{Body, Particle};
use crate::pairs::{pair_schedule, row, rows};
use crate::particles::distance_spec;
use crate::scalar::Scalar;
use crate::utils::{move_to_point, move_to_point_spec};

verus! {

/// The distance within which a red body reacts to another body.
pub const CHASE_RANGE: i32 = 300;

/// The pace at which a red body runs towards a blue one.
pub const CHASE_PACE: i32 = 150;

/// The pace at which a red body runs towards another red one: negative, it
/// runs away.
pub const FLEE_PACE: i32 = -150;

/// The fraction of the way to the other body that a chasing body covers:
/// `pace / distance * dt`.
pub open spec fn chase_fraction_spec<S: Scalar>(pace: i32, distance: S, dt: S) -> S {
    S::from_int_spec(pace).over_spec(distance).times_spec(dt)
}

/// `a` moved the fraction `pace / distance * dt` of the way to `b`.
pub open spec fn approached_spec<S: Scalar>(
    a: Body<S>,
    b: Body<S>,
    pace: i32,
    distance: S,
    dt: S,
) -> Body<S> {
    a.with_position_spec(
        move_to_point_spec(a.position, b.position, chase_fraction_spec(pace, distance, dt)),
    )
}

/// The first body of a pair after it has reacted to the second. A red body
/// nearer than the chase range to a blue one moves towards it, and away from
/// a red one; any other body stays.
pub open spec fn chasing_spec<S: Scalar>(a: Body<S>, b: Body<S>, dt: S) -> Body<S> {
    let distance = distance_spec(a, b);
    let near = distance.lt_spec(S::from_int_spec(CHASE_RANGE));
    if a.kind == Particle::RED && near && b.kind == Particle::BLUE {
        approached_spec(a, b, CHASE_PACE, distance, dt)
    } else if a.kind == Particle::RED && near && b.kind == Particle::RED {
        approached_spec(a, b, FLEE_PACE, distance, dt)
    } else {
        a
    }
}

/// The bodies after the first body of each pair of `pairs` has reacted to the
/// second, one pair after another.
pub open spec fn chase_pairs_spec<S: Scalar>(
    bodies: Seq<Body<S>>,
    pairs: Seq<(int, int)>,
    dt: S,
) -> Seq<Body<S>>
    decreases pairs.len(),
{
    if pairs.len() == 0 {
        bodies
    } else {
        let before = chase_pairs_spec(bodies, pairs.drop_last(), dt);
        let (i, j) = pairs.last();
        before.update(i, chasing_spec(before[i], before[j], dt))
    }
}

/// The bodies after the chase: in each unordered pair of two different
/// bodies, taken in the order of the pair schedule, the body with the smaller
/// index has reacted to the other.
pub open spec fn chase_spec<S: Scalar>(bodies: Seq<Body<S>>, dt: S) -> Seq<Body<S>> {
    chase_pairs_spec(bodies, pair_schedule(bodies.len() as int), dt)
}

/// `a` moved the fraction `pace / distance * dt` of the way to `b`.
fn approached<S: Scalar>(a: Body<S>, b: Body<S>, pace: i32, distance: S, dt: S) -> (r: Body<S>)
    ensures
        r == approached_spec(a, b, pace, distance, dt),
{
    let fraction = S::from_int(pace).over(distance).times(dt);
    a.with_position(move_to_point(a.position, b.position, fraction))
}

/// The first body of a pair after it has reacted to the second.
pub fn chasing<S: Scalar>(a: Body<S>, b: Body<S>, dt: S) -> (r: Body<S>)
    ensures
        r == chasing_spec(a, b, dt),
{
    match a.kind {
        Particle::RED => {
            let distance = b.position.minus(a.position).length();
            let near = distance.lt(S::from_int(CHASE_RANGE));
            match b.kind {
                Particle::BLUE if near => approached(a, b, CHASE_PACE, distance, dt),
                Particle::RED if near => approached(a, b, FLEE_PACE, distance, dt),
                _ => a,
            }
        },
        _ => a,
    }
}

/// The chase: lets the body with the smaller index of every unordered pair
/// react to the other.
pub fn red_particles_update_system<S: Scalar>(bodies: &mut Vec<Body<S>>, dt: S)
    ensures
        final(bodies)@ == chase_spec(old(bodies)@, dt),
{
    let ghost start = bodies@;
    let n = bodies.len();
    let mut i: usize = 0;
    proof {
        assert(rows(n as int, 0) =~= Seq::<(int, int)>::empty());
    }
    while i < n
        invariant
            0 <= i <= n,
            bodies@.len() == n,
            bodies@ == chase_pairs_spec(start, rows(n as int, i as int), dt),
        decreases n - i,
    {
        let mut j: usize = i + 1;
        proof {
            assert(rows(n as int, i as int) + row(i as int, 0) =~= rows(n as int, i as int));
        }
        while j < n
            invariant
                0 <= i < j <= n,
                bodies@.len() == n,
                bodies@ == chase_pairs_spec(
                    start,
                    rows(n as int, i as int) + row(i as int, (j - i - 1) as nat),
                    dt,
                ),
            decreases n - j,
        {
            let moved = chasing(bodies[i], bodies[j], dt);
            proof {
                let done = rows(n as int, i as int) + row(i as int, (j - i - 1) as nat);
                let next = rows(n as int, i as int) + row(i as int, (j - i) as nat);
                assert(next.drop_last() =~= done);
                assert(next.last() == (i as int, j as int));
            }
            bodies.set(i, moved);
            j = j + 1;
        }
        proof {
            assert(rows(n as int, i + 1) == rows(n as int, i as int) + row(
                i as int,
                (n - i - 1) as nat,
            ));
        }
        i = i + 1;
    }
}

} // verus!
