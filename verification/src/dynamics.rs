//! Newtonian attraction and one step of semi-implicit Euler integration.

use vstd::prelude::*;
use crate::error::SimError;
use crate::scalar::Scalar;
use crate::simulation::SimData;
use crate::vector::Vector2;

verus! {

/// The cube of the distance from `me` to `other`: what the attraction is
/// divided by.
pub open spec fn distance_cubed<S: Scalar>(me: SimData<S>, other: SimData<S>) -> S {
    let r = (other.pos - me.pos).norm();
    r * r * r
}

/// The force that `other` exerts on `me`: the vector from `me` to `other`,
/// scaled by `univ_g * me.mass * other.mass` over the cube of its length.
pub open spec fn attraction<S: Scalar>(me: SimData<S>, other: SimData<S>, univ_g: S) -> Vector2<S> {
    (other.pos - me.pos).scale((univ_g * me.mass * other.mass).spec_div(distance_cubed(me, other)))
}

/// The sum, in order, of the attractions on `me` of the first `n` entries of
/// `all`, the entry at `own_index` left out.
pub open spec fn net_force_upto<S: Scalar>(
    me: SimData<S>,
    own_index: int,
    all: Seq<SimData<S>>,
    univ_g: S,
    n: nat,
) -> Vector2<S>
    decreases n,
{
    if n == 0 {
        Vector2::spec_zero()
    } else if n - 1 == own_index {
        net_force_upto(me, own_index, all, univ_g, (n - 1) as nat)
    } else {
        net_force_upto(me, own_index, all, univ_g, (n - 1) as nat) + attraction(
            me,
            all[n - 1],
            univ_g,
        )
    }
}

/// The net force on `me` of every entry of `all` but the one at `own_index`.
pub open spec fn net_force<S: Scalar>(
    me: SimData<S>,
    own_index: int,
    all: Seq<SimData<S>>,
    univ_g: S,
) -> Vector2<S> {
    net_force_upto(me, own_index, all, univ_g, all.len())
}

/// Whether some entry of `all`, other than the one at `own_index`, is at a
/// distance from `me` whose cube is a zero.
pub open spec fn singular_for<S: Scalar>(me: SimData<S>, own_index: int, all: Seq<SimData<S>>) -> bool {
    exists|j: int|
        0 <= j < all.len() && j != own_index && distance_cubed(me, #[trigger] all[j]).spec_is_zero()
}

/// The state of `me` one step later. The velocity gains the acceleration
/// times the time step; the position then gains the new velocity times the
/// time step. The mass stays.
pub open spec fn integrated<S: Scalar>(
    me: SimData<S>,
    own_index: int,
    all: Seq<SimData<S>>,
    delta_t: i64,
    univ_g: S,
) -> SimData<S> {
    let accel = net_force(me, own_index, all, univ_g).spec_div(me.mass);
    let dt = S::spec_from_i64(delta_t);
    let vel = me.vel + accel.scale(dt);
    SimData { pos: me.pos + vel.scale(dt), vel, mass: me.mass }
}

/// What [`integrate`] returns.
pub open spec fn integrate_outcome<S: Scalar>(
    me: SimData<S>,
    own_index: int,
    all: Seq<SimData<S>>,
    delta_t: i64,
    univ_g: S,
) -> Result<SimData<S>, SimError> {
    if singular_for(me, own_index, all) {
        Err(SimError::SingularConfiguration)
    } else if me.mass.spec_is_zero() {
        Err(SimError::DivisionByZero)
    } else {
        Ok(integrated(me, own_index, all, delta_t, univ_g))
    }
}

/// The attraction of `other` on `me`, or `None` where its divisor is a zero.
fn attraction_of<S: Scalar>(me: &SimData<S>, other: &SimData<S>, univ_g: S) -> (r: Option<Vector2<S>>)
    ensures
        r == (if distance_cubed(*me, *other).spec_is_zero() {
            None
        } else {
            Some(attraction(*me, *other, univ_g))
        }),
{
    let offset = other.pos.sub(me.pos);
    let distance = offset.norm();
    let cube = distance.mul(distance).mul(distance);
    if cube.is_zero() {
        None
    } else {
        Some(offset.scale(univ_g.mul(me.mass).mul(other.mass).div(cube)))
    }
}

/// Advances `me` by one time step under the attraction of every entry of
/// `all` except the one at `own_index`, which is the copy of `me` itself.
///
/// Nothing is divided by a zero: a configuration in which a distance has a
/// zero cube is refused, and so is a body whose mass is a zero.
pub fn integrate<S: Scalar>(
    me: &SimData<S>,
    own_index: usize,
    all: &Vec<SimData<S>>,
    delta_t: i64,
    univ_g: S,
) -> (r: Result<SimData<S>, SimError>)
    ensures
        r == integrate_outcome(*me, own_index as int, all@, delta_t, univ_g),
{
    let mut force: Vector2<S> = Vector2::new_zero();
    let mut j: usize = 0;
    while j < all.len()
        invariant
            j <= all.len(),
            force == net_force_upto(*me, own_index as int, all@, univ_g, j as nat),
            forall|k: int|
                0 <= k < j && k != own_index ==> !distance_cubed(*me, #[trigger] all@[k]).spec_is_zero(),
        decreases all.len() - j,
    {
        if j != own_index {
            match attraction_of(me, &all[j], univ_g) {
                None => {
                    return Err(SimError::SingularConfiguration);
                },
                Some(pull) => {
                    force = force.add(pull);
                },
            }
        }
        j += 1;
    }
    match force.div(me.mass) {
        Err(e) => Err(e),
        Ok(accel) => {
            let dt = S::from_i64(delta_t);
            let vel = me.vel.add(accel.scale(dt));
            Ok(SimData { pos: me.pos.add(vel.scale(dt)), vel, mass: me.mass })
        },
    }
}

} // verus!
