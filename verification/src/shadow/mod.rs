//! Shadow testing: frozen historical datasets that candidate policies are
//! replayed against.
pub mod dataset;
