//! Compile-time parameter permutation engine.
//!
//! Given a function's parameter list, split into required parameters and
//! defaulted parameters, the engine enumerates every calling shape a
//! pattern-matching dispatcher can distinguish: a positional prefix in
//! declaration order, the remaining required parameters by name in any
//! order, and any permutation of the defaulted parameters that are
//! supplied, with the omitted ones filled from their default descriptors.
//! Each shape can then be rendered into a match-pattern fragment and a
//! call-expression fragment.

pub mod counting;
pub mod engine;
pub mod params;
pub mod render;
