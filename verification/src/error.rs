//! The errors of the engine.

use vstd::prelude::*;

verus! {

/// Why a batch was refused.
#[derive(Clone, Copy, Debug, PartialEq, Eq)]
pub enum EngineError {
    /// The chunk width was zero; a chunk holds at least one sample.
    InvalidDimension,
}

impl EngineError {
    /// A short text that names the field at fault.
    pub fn message(&self) -> (text: &'static str)
        ensures
            text@ == "dimensions must be at least 1"@,
    {
        "dimensions must be at least 1"
    }
}

} // verus!
