//! An N-body gravitational simulator whose engine is verified with Verus.
//!
//! A fixed set of point masses attract one another by pairwise Newtonian
//! gravity and are advanced in discrete time steps by semi-implicit Euler
//! integration. The engine is generic over the arithmetic of its scalars
//! (see [`Scalar`]): the contracts say which operations are applied to which
//! operands, and in which order.

pub mod diagnostics;
pub mod dynamics;
pub mod error;
pub mod laws;
pub mod scalar;
pub mod sim_elements;
pub mod simulation;
mod ticks;
pub mod vector;

pub use crate::error::SimError;
pub use crate::scalar::Scalar;
pub use crate::sim_elements::{Planet, Simulable};
pub use crate::simulation::{SimData, Simulation};
pub use crate::vector::Vector2;
