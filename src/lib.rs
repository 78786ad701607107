//! Move decisions for a grid snake: a single-ply safety check, a one-tick
//! board transition and a depth-bounded look-ahead that counts surviving
//! move sequences, and the per-turn move choice built on them.
pub mod types;
pub mod safety;
pub mod transition;
pub mod lookahead;
pub mod laws;
pub mod decision;
