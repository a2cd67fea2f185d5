//! Error type of the library.
use crate::float_bits::FloatBits;
use vstd::prelude::*;

verus! {

/// Errors of the self-improvement engine.
#[derive(Debug, PartialEq)]
pub enum SieError {
    SelfModel(String),
    Critic(String),
    Policy(String),
    /// Drift and ceiling as binary64 bit patterns.
    DriftCeilingExceeded { drift: FloatBits, ceiling: FloatBits },
    PermissionDenied(String),
    ShadowTest(String),
    Persistence(String),
    /// A (de)serialization failure, with the serializer's message.
    Serialization(String),
}

} // verus!
