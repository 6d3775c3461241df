//! What is watched while a simulation runs: the center of mass, the angular
//! momentum about it, and the kinetic and the potential energy.
//!
//! Each is a sum over the snapshots, taken in their order and started from
//! the scalar zero.

use vstd::prelude::*;
use crate::error::SimError;
use crate::scalar::Scalar;
use crate::simulation::{SimData, Simulation};
use crate::vector::Vector2;

verus! {

/// The sum of the positions of the first `n` bodies, each scaled by the mass
/// of its body.
pub open spec fn weighted_positions<S: Scalar>(data: Seq<SimData<S>>, n: nat) -> Vector2<S>
    decreases n,
{
    if n == 0 {
        Vector2::spec_zero()
    } else {
        weighted_positions(data, (n - 1) as nat) + data[n - 1].pos.scale(data[n - 1].mass)
    }
}

/// The sum of the masses of the first `n` bodies.
pub open spec fn total_mass<S: Scalar>(data: Seq<SimData<S>>, n: nat) -> S
    decreases n,
{
    if n == 0 {
        S::spec_zero()
    } else {
        total_mass(data, (n - 1) as nat) + data[n - 1].mass
    }
}

/// The mean of the positions, weighted by the masses. There is none where
/// there is no body, nor where the masses sum to a zero.
pub open spec fn center_of_mass<S: Scalar>(data: Seq<SimData<S>>) -> Result<Vector2<S>, SimError> {
    let mass = total_mass(data, data.len());
    if data.len() == 0 || mass.spec_is_zero() {
        Err(SimError::DivisionByZero)
    } else {
        Ok(weighted_positions(data, data.len()).spec_div(mass))
    }
}

/// The cross product of the position of `body`, taken from `center`, and
/// its velocity.
pub open spec fn moment_about<S: Scalar>(body: SimData<S>, center: Vector2<S>) -> S {
    (body.pos.x - center.x) * body.vel.y - (body.pos.y - center.y) * body.vel.x
}

/// The sum of the moments about `center` of the first `n` bodies.
pub open spec fn moments_about<S: Scalar>(data: Seq<SimData<S>>, center: Vector2<S>, n: nat) -> S
    decreases n,
{
    if n == 0 {
        S::spec_zero()
    } else {
        moments_about(data, center, (n - 1) as nat) + moment_about(data[n - 1], center)
    }
}

/// The angular momentum about the center of mass, where there is one.
pub open spec fn angular_momentum<S: Scalar>(data: Seq<SimData<S>>) -> Result<S, SimError> {
    match center_of_mass(data) {
        Ok(center) => Ok(moments_about(data, center, data.len())),
        Err(e) => Err(e),
    }
}

/// Half the mass of `body` times the square of its speed.
pub open spec fn kinetic_term<S: Scalar>(body: SimData<S>) -> S {
    S::spec_half() * body.mass * (body.vel.x * body.vel.x + body.vel.y * body.vel.y)
}

/// The sum of the kinetic terms of the first `n` bodies.
pub open spec fn kinetic_energy<S: Scalar>(data: Seq<SimData<S>>, n: nat) -> S
    decreases n,
{
    if n == 0 {
        S::spec_zero()
    } else {
        kinetic_energy(data, (n - 1) as nat) + kinetic_term(data[n - 1])
    }
}

/// The distance from `a` to `b`.
pub open spec fn separation<S: Scalar>(a: SimData<S>, b: SimData<S>) -> S {
    (b.pos - a.pos).norm()
}

/// What the pair of `a` and `b` takes from the potential energy: the
/// product of `univ_g` and the two masses, over the distance.
pub open spec fn pair_energy<S: Scalar>(a: SimData<S>, b: SimData<S>, univ_g: S) -> S {
    (univ_g * a.mass * b.mass).spec_div(separation(a, b))
}

/// `start`, less the pair energies of body `i` with the bodies from `i + 1`
/// up to, not including, `k`, taken away one after the other.
pub open spec fn potential_row<S: Scalar>(
    data: Seq<SimData<S>>,
    univ_g: S,
    start: S,
    i: int,
    k: int,
) -> S
    decreases k - i,
{
    if k <= i + 1 {
        start
    } else {
        potential_row(data, univ_g, start, i, k - 1) - pair_energy(data[i], data[k - 1], univ_g)
    }
}

/// The scalar zero, less the pair energies of the first `m` bodies, each
/// with every body behind it: every pair of two bodies is counted once,
/// under its earlier body.
pub open spec fn potential_rows<S: Scalar>(data: Seq<SimData<S>>, univ_g: S, m: nat) -> S
    decreases m,
{
    if m == 0 {
        S::spec_zero()
    } else {
        potential_row(data, univ_g, potential_rows(data, univ_g, (m - 1) as nat), m - 1, data.len() as int)
    }
}

/// Whether two of the bodies are at a distance that is a zero.
pub open spec fn coincident<S: Scalar>(data: Seq<SimData<S>>) -> bool {
    exists|i: int, j: int| 0 <= i < j < data.len() && (#[trigger] separation(data[i], data[j])).spec_is_zero()
}

/// The potential energy, unless two bodies coincide.
pub open spec fn potential_energy<S: Scalar>(data: Seq<SimData<S>>, univ_g: S) -> Result<S, SimError> {
    if coincident(data) {
        Err(SimError::SingularConfiguration)
    } else {
        Ok(potential_rows(data, univ_g, data.len()))
    }
}

impl<S: Scalar> Simulation<S> {
    /// The center of mass of the bodies, as their snapshots show them.
    pub fn calculate_cdm(&self) -> (r: Result<Vector2<S>, SimError>)
        ensures
            r == center_of_mass(self@.data),
    {
        let data = self.snapshots();
        if data.len() == 0 {
            return Err(SimError::DivisionByZero);
        }
        let mut numerator: Vector2<S> = Vector2::new_zero();
        let mut denominator = S::zero();
        let mut i: usize = 0;
        while i < data.len()
            invariant
                i <= data@.len(),
                numerator == weighted_positions(data@, i as nat),
                denominator == total_mass(data@, i as nat),
            decreases data@.len() - i,
        {
            numerator = numerator.add(data[i].pos.scale(data[i].mass));
            denominator = denominator.add(data[i].mass);
            i += 1;
        }
        numerator.div(denominator)
    }

    /// The angular momentum of the bodies about their center of mass.
    pub fn calculate_angular_momentum_cdm(&self) -> (r: Result<S, SimError>)
        ensures
            r == angular_momentum(self@.data),
    {
        let center = match self.calculate_cdm() {
            Ok(center) => center,
            Err(e) => {
                return Err(e);
            },
        };
        let data = self.snapshots();
        let mut sum = S::zero();
        let mut i: usize = 0;
        while i < data.len()
            invariant
                i <= data@.len(),
                sum == moments_about(data@, center, i as nat),
            decreases data@.len() - i,
        {
            let body = &data[i];
            let moment = body.pos.x.sub(center.x).mul(body.vel.y).sub(
                body.pos.y.sub(center.y).mul(body.vel.x),
            );
            sum = sum.add(moment);
            i += 1;
        }
        Ok(sum)
    }

    /// The kinetic energy of the bodies.
    pub fn calculate_kinetic_energy(&self) -> (r: S)
        ensures
            r == kinetic_energy(self@.data, self@.data.len()),
    {
        let data = self.snapshots();
        let mut sum = S::zero();
        let mut i: usize = 0;
        while i < data.len()
            invariant
                i <= data@.len(),
                sum == kinetic_energy(data@, i as nat),
            decreases data@.len() - i,
        {
            let body = &data[i];
            let speed_squared = body.vel.x.mul(body.vel.x).add(body.vel.y.mul(body.vel.y));
            sum = sum.add(S::half().mul(body.mass).mul(speed_squared));
            i += 1;
        }
        sum
    }

    /// The potential energy of the bodies. It is refused where two bodies
    /// coincide: nothing is divided by a zero.
    pub fn calculate_potential_energy(&self) -> (r: Result<S, SimError>)
        ensures
            r == potential_energy(self@.data, self@.univ_g),
    {
        let data = self.snapshots();
        let univ_g = self.gravity();
        let n = data.len();
        let mut cumulative = S::zero();
        let mut i: usize = 0;
        while i < n
            invariant
                data@ == self@.data,
                univ_g == self@.univ_g,
                n == data@.len(),
                i <= n,
                cumulative == potential_rows(data@, univ_g, i as nat),
                forall|a: int, b: int|
                    0 <= a < i && a < b < n ==> !(#[trigger] separation(data@[a], data@[b])).spec_is_zero(),
            decreases n - i,
        {
            let mut j: usize = i + 1;
            while j < n
                invariant
                    data@ == self@.data,
                    univ_g == self@.univ_g,
                    n == data@.len(),
                    i < n,
                    i + 1 <= j <= n,
                    cumulative == potential_row(
                        data@,
                        univ_g,
                        potential_rows(data@, univ_g, i as nat),
                        i as int,
                        j as int,
                    ),
                    forall|a: int, b: int|
                        0 <= a < i && a < b < n ==> !(#[trigger] separation(
                            data@[a],
                            data@[b],
                        )).spec_is_zero(),
                    forall|b: int|
                        i < b < j ==> !(#[trigger] separation(data@[i as int], data@[b])).spec_is_zero(),
                decreases n - j,
            {
                let distance = data[j].pos.sub(data[i].pos).norm();
                if distance.is_zero() {
                    assert(separation(data@[i as int], data@[j as int]).spec_is_zero());
                    return Err(SimError::SingularConfiguration);
                }
                let numerator = univ_g.mul(data[i].mass).mul(data[j].mass);
                cumulative = cumulative.sub(numerator.div(distance));
                j += 1;
            }
            i += 1;
        }
        Ok(cumulative)
    }
}

} // verus!
