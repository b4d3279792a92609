//! A fully-connected layer's shape rules, initialisation plan and forward-pass
//! state, with single-precision values carried as their IEEE-754 bit patterns.

pub mod error;
pub mod layer;
pub mod matrix;
pub mod scheme;
