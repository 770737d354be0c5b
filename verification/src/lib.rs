//! Arithmetic-circuit gadgets over a fixed prime field, together with a
//! checker that decides whether a witness table satisfies a circuit's
//! selector-gated polynomial constraints, copy constraints and public-input
//! bindings.

pub mod field;
pub mod model;
pub mod checker;
pub mod fibonacci;
pub mod range_check;
