//! What the engine simulates: named point masses.

use vstd::prelude::*;
use crate::dynamics::{integrate, integrate_outcome};
use crate::error::SimError;
use crate::scalar::Scalar;
use crate::simulation::SimData;
use crate::vector::Vector2;

verus! {

/// Whether `mass` can be the mass of a body: greater than zero, and no zero.
pub open spec fn valid_mass<S: Scalar>(mass: S) -> bool {
    mass.spec_is_positive() && !mass.spec_is_zero()
}

/// A body that the engine can advance.
pub trait Simulable<S: Scalar> {
    /// The name of the body. Two bodies may share it.
    spec fn name(&self) -> Seq<char>;

    /// The position, velocity and mass of the body.
    spec fn data(&self) -> SimData<S>;

    /// A copy of the name.
    fn get_name(&self) -> (r: String)
        ensures
            r@ == self.name(),
    ;

    /// A snapshot of the body: a copy of its state.
    fn get_data(&self) -> (r: SimData<S>)
        ensures
            r == self.data(),
    ;

    /// Advances the body by one step of `delta_t` ticks. `other_data` holds
    /// the state of every body at the start of the step, the body's own at
    /// `own_index`. The body is left as it was where the step is refused.
    fn simulate_step(
        &mut self,
        own_index: usize,
        other_data: &Vec<SimData<S>>,
        delta_t: i64,
        univ_g: S,
    ) -> (r: Result<(), SimError>)
        ensures
            final(self).name() == old(self).name(),
            match integrate_outcome(old(self).data(), own_index as int, other_data@, delta_t, univ_g) {
                Ok(next) => r == Ok::<(), SimError>(()) && final(self).data() == next,
                Err(e) => r == Err::<(), SimError>(e) && final(self).data() == old(self).data(),
            },
    ;
}

/// A named point mass. Its mass is greater than zero.
pub struct Planet<S: Scalar> {
    name: String,
    data: SimData<S>,
}

/// A planet as contracts see it.
pub struct PlanetView<S: Scalar> {
    pub name: Seq<char>,
    pub data: SimData<S>,
}

impl<S: Scalar> View for Planet<S> {
    type V = PlanetView<S>;

    closed spec fn view(&self) -> PlanetView<S> {
        PlanetView { name: self.name@, data: self.data }
    }
}

impl<S: Scalar> Clone for Planet<S> {
    fn clone(&self) -> (r: Self)
        ensures
            r@ == self@,
    {
        proof {
            use_type_invariant(self);
        }
        Planet { name: self.name.clone(), data: self.data }
    }
}

impl<S: Scalar> Planet<S> {
    #[verifier::type_invariant]
    spec fn has_valid_mass(&self) -> bool {
        valid_mass(self.data.mass)
    }

    /// A planet with the given name, position, velocity and mass, unless the
    /// mass is not greater than zero.
    pub fn new(name: &str, pos: Vector2<S>, vel: Vector2<S>, mass: S) -> (r: Result<Planet<S>, SimError>)
        ensures
            match r {
                Ok(planet) => valid_mass(mass) && planet@ == (PlanetView {
                    name: name@,
                    data: SimData { pos, vel, mass },
                }),
                Err(e) => !valid_mass(mass) && e == SimError::InvalidMass,
            },
    {
        if mass.is_positive() && !mass.is_zero() {
            Ok(Planet { name: name.to_owned(), data: SimData { pos, vel, mass } })
        } else {
            Err(SimError::InvalidMass)
        }
    }

    /// Where the planet is.
    pub fn get_position(&self) -> (r: Vector2<S>)
        ensures
            r == self@.data.pos,
    {
        self.data.pos
    }

    /// How fast the planet moves, and where to.
    pub fn get_velocity(&self) -> (r: Vector2<S>)
        ensures
            r == self@.data.vel,
    {
        self.data.vel
    }

    /// The mass, which is valid.
    pub fn get_mass(&self) -> (r: S)
        ensures
            r == self@.data.mass,
            valid_mass(r),
    {
        proof {
            use_type_invariant(self);
        }
        self.data.mass
    }

    /// Puts the planet into the state that a step has computed for it.
    pub(crate) fn set_data(&mut self, data: SimData<S>)
        requires
            valid_mass(data.mass),
        ensures
            final(self)@ == (PlanetView { name: old(self)@.name, data }),
    {
        self.data = data;
    }
}

impl<S: Scalar> Simulable<S> for Planet<S> {
    open spec fn name(&self) -> Seq<char> {
        self@.name
    }

    open spec fn data(&self) -> SimData<S> {
        self@.data
    }

    fn get_name(&self) -> (r: String) {
        self.name.clone()
    }

    fn get_data(&self) -> (r: SimData<S>)
        ensures
            valid_mass(r.mass),
    {
        proof {
            use_type_invariant(self);
        }
        self.data
    }

    fn simulate_step(
        &mut self,
        own_index: usize,
        other_data: &Vec<SimData<S>>,
        delta_t: i64,
        univ_g: S,
    ) -> (r: Result<(), SimError>)
        ensures
            r is Err ==> r == Err::<(), SimError>(SimError::SingularConfiguration),
    {
        proof {
            use_type_invariant(&*self);
        }
        match integrate(&self.data, own_index, other_data, delta_t, univ_g) {
            Ok(next) => {
                self.data = next;
                Ok(())
            },
            Err(e) => Err(e),
        }
    }
}

} // verus!
