//! The ways in which building or advancing a simulation can fail.

use vstd::prelude::*;

verus! {

/// Why a body, a simulation, a step or a quantity was refused.
#[derive(Clone, Copy, Debug, PartialEq, Eq)]
pub enum SimError {
    /// A body was given a mass that is not greater than zero.
    InvalidMass,
    /// A simulation was given a time step of zero ticks.
    InvalidTimeStep,
    /// A vector was divided by a zero scalar.
    DivisionByZero,
    /// Two bodies are so close that the force between them has a zero divisor.
    SingularConfiguration,
}

} // verus!
