//! Analysis of chaotic flows: return maps from local maxima, divergence of
//! nearby trajectories, and cobweb paths of one-dimensional maps.

pub mod analysis;
pub mod error;
pub mod ode;
pub mod persist;
pub mod plotting;
pub mod poincare;
pub mod scalar;
pub mod state;
mod text;
