//! Meta-cognition (critic): evaluates task outcomes and emits typed actions.
//!
//! Six output kinds: PolicyUpdate, MemoryWrite, ToolAction, Alert, NoAction,
//! Experiment.
pub mod engine;
pub mod output;
pub mod rules;
