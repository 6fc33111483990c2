//! Identifiers, integrator categories and capabilities, as they appear on
//! the wire.

pub mod ids;
pub mod integrators;
pub mod permissions;
