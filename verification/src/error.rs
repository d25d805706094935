//! The failures that building a query vector can end in.

use vstd::prelude::*;
use vstd::string::*;

verus! {

/// Why a request could not be turned into a query vector.
#[derive(Debug, PartialEq)]
pub enum PipelineError {
    /// There was nothing to aggregate.
    EmptyInput,
    /// The vector at `index` is the first whose length differs from that of
    /// the first vector.
    DimensionMismatch { index: usize },
    /// The weights sum to zero, so the mean is undefined.
    ZeroTotalWeight,
    /// A collaborator (keyword extraction or embedding) failed; its message is
    /// carried unchanged.
    UpstreamFailure(String),
}

/// The text that `PipelineError::message` gives for each kind of failure.
pub open spec fn message_of(e: PipelineError) -> Seq<char> {
    match e {
        PipelineError::EmptyInput => "Vector is empty."@,
        PipelineError::DimensionMismatch { .. } => "All vectors must have the same dimension"@,
        PipelineError::ZeroTotalWeight => "Total weight cannot be zero"@,
        PipelineError::UpstreamFailure(msg) => msg@,
    }
}

impl PipelineError {
    /// A human-readable description, fit for a failure payload.
    pub fn message(&self) -> (text: String)
        ensures
            text@ == message_of(*self),
    {
        match self {
            PipelineError::EmptyInput => String::from_str("Vector is empty."),
            PipelineError::DimensionMismatch { .. } => String::from_str(
                "All vectors must have the same dimension",
            ),
            PipelineError::ZeroTotalWeight => String::from_str("Total weight cannot be zero"),
            PipelineError::UpstreamFailure(msg) => msg.clone(),
        }
    }
}

} // verus!
