//! Frozen historical datasets for shadow testing.
use crate::float_bits::FloatBits;
use crate::json::JsonValue;
use crate::error::SieError;
use crate::types::Timestamp;
use vstd::prelude::*;

verus! {

/// A single case of a frozen dataset.
#[derive(Debug, Clone)]
pub struct TestCase {
    /// Input context of the case.
    pub input: JsonValue,
    /// Expected (baseline) output.
    pub expected_output: JsonValue,
    /// Ground-truth score, if available (a binary64 bit pattern).
    pub ground_truth_score: Option<FloatBits>,
}

/// A frozen dataset: immutable historical data.
#[derive(Debug, Clone)]
pub struct FrozenDataset {
    /// Human-readable name of the dataset.
    pub name: String,
    /// When the dataset was captured.
    pub captured_at: Timestamp,
    /// The cases.
    pub cases: Vec<TestCase>,
}

impl FrozenDataset {
    /// A dataset named `name` holding `cases`, captured at `captured_at`.
    pub fn new(name: &str, cases: Vec<TestCase>, captured_at: Timestamp) -> (r: FrozenDataset)
        ensures
            r.name@ == name@,
            r.cases@ == cases@,
            r.captured_at == captured_at,
    {
        FrozenDataset { name: String::from_str(name), captured_at, cases }
    }

    /// Checks that the dataset can be replayed: an empty dataset is refused
    /// with a shadow-test error "Dataset is empty".
    pub fn ensure_cases(&self) -> (r: Result<(), SieError>)
        ensures
            self.cases@.len() == 0 <==> r is Err,
            r matches Err(e) ==> e matches SieError::ShadowTest(m) && m@ == "Dataset is empty"@,
    {
        if self.cases.len() == 0 {
            proof {
                reveal_strlit("Dataset is empty");
            }
            Err(SieError::ShadowTest(String::from_str("Dataset is empty")))
        } else {
            Ok(())
        }
    }

    /// Number of cases.
    pub fn len(&self) -> (r: usize)
        ensures
            r == self.cases@.len(),
    {
        self.cases.len()
    }

    /// Whether the dataset has no case.
    pub fn is_empty(&self) -> (r: bool)
        ensures
            r == (self.cases@.len() == 0),
    {
        self.cases.len() == 0
    }
}

} // verus!
