//! The engine's error taxonomy.
//!
//! Misuse errors (a scenario-authoring bug), not-ready conditions,
//! configuration errors, timeouts, external rejections and aggregated
//! violations are kept as distinct variants so a caller can tell them apart.

use vstd::prelude::*;

verus! {

/// Every failure the engine can surface. Each variant carries enough context
/// to reproduce the failure: the offending token, node, color or elapsed time.
#[derive(Debug, Clone, PartialEq, Eq)]
pub enum EngineError {
    /// A path token named a node or attribute that does not exist.
    NotFound { token: String },
    /// A property path ended on an object-typed hop, or placed tokens after a
    /// scalar attribute: there is no terminal attribute to act on.
    MalformedPath,
    /// A textual value could not be parsed as the attribute's declared type.
    TypeMismatch { input: String },
    /// A lifecycle transition named an unrecognized state.
    InvalidStateName { name: String },
    /// The pipeline declined a requested state change.
    StateChangeFailed,
    /// An operation needed the pipeline, but none was configured yet.
    PipelineNotConfigured,
    /// The topology description could not be turned into a pipeline.
    TopologyParseError { description: String },
    /// A sink was asked for its latest frame without the retention capability.
    CapabilityNotEnabled { element: String },
    /// A source reported a frame rate of zero, so no polling interval exists.
    ZeroFrameRate,
    /// Color verification ran out of time before the target color dwelled
    /// long enough.
    VerificationTimeout { element: String, elapsed_ms: u64 },
    /// A frame poll ran out of time before the sink retained any frame.
    FrameTimeout { element: String, elapsed_ms: u64 },
    /// The validation monitor was activated a second time in one run.
    AlreadyActivated,
    /// A monitor assertion was issued before the monitor was activated.
    NotActivated,
    /// A timed wait named an unrecognized unit.
    InvalidUnit { unit: String },
    /// The validation monitor accumulated rule-violation reports.
    ViolationsReported { count: usize, summary: String },
    /// The monitor's finalization returned something other than the clean
    /// sentinel.
    FinalizeFailed { code: u64, summary: String },
}

} // verus!
