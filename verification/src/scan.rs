//! The seam to the scan/compliance collaborator.
//!
//! The engine does not judge images itself: a separate analysis subsystem
//! decides, one scan at a time, and reports through these types. Documents
//! it exchanges are held as parsed JSON values of this crate.

use vstd::prelude::*;
use crate::json::JsonValue;

verus! {

/// A step the analysis subsystem can take next.
#[derive(Debug, Clone, Copy, PartialEq, Eq, Structural)]
pub enum Action {
    RunStaticScan,
    RunDynamicScan,
    RunComplianceScan,
    RunObsolescenceAnalysis,
    ComputeFinalScore,
}

/// An action together with its parameters.
#[derive(Debug)]
pub struct ToolCall {
    pub action: Action,
    pub params: Option<JsonValue>,
}

/// The kinds of scan the collaborator runs.
#[derive(Debug, Clone, Copy, PartialEq, Eq, Structural)]
pub enum ScanType {
    Static,
    Dynamic,
    Compliance,
    Obsolescence,
}

/// The outcome of one scan.
#[derive(Debug)]
pub struct ScanResult {
    /// Which scan ran.
    pub scan_type: ScanType,
    /// Its partial score, 0 to 100.
    pub score: u8,
    /// The notable findings.
    pub findings: Vec<String>,
    /// The structured output.
    pub raw: JsonValue,
}

/// The state of one analysis run: one run judges one image reference.
#[derive(Debug)]
pub struct AgentState {
    /// Identifies the run in logs and results.
    pub run_id: String,
    /// The image under analysis, as a reference or digest.
    pub image_ref: String,
    /// The image's manifest, once retrieved.
    pub manifest: Option<JsonValue>,
    /// The normalized bill of materials, once generated.
    pub sbom: Option<JsonValue>,
    /// The scans run so far.
    pub scan_results: Vec<ScanResult>,
    /// The final report, once computed.
    pub final_report: Option<JsonValue>,
}

/// Decides the next analysis step from the current run state.
pub trait ReasoningEngine {
    /// The next action to take for this run.
    fn next_action(&self, state: &AgentState) -> ToolCall;

    /// The final judgement: score, risks, alternatives.
    fn final_assesment(&self, state: &AgentState) -> JsonValue;
}

/// One scan the collaborator can run.
pub trait Scan {
    /// A readable name for logs.
    fn name(&self) -> &'static str;

    /// Runs the scan, recording into the run state.
    fn run(&self, state: &mut AgentState) -> ScanResult;
}

} // verus!
