//! Scan reports as the scanner produces them.

use vstd::prelude::*;

verus! {

/// Which kind of scan was run.
#[derive(Debug, Clone, Copy, PartialEq, Eq, Structural)]
pub enum ScanMode {
    Quick,
    Full,
    Usb,
}

/// A request to run a scan.
#[derive(Debug, Clone)]
pub struct ScanRequest {
    pub mode: ScanMode,
}

impl ScanRequest {
    /// A request for a scan of kind `mode`.
    pub fn new(mode: ScanMode) -> (r: Self)
        ensures
            r.mode == mode,
    {
        ScanRequest { mode }
    }
}

/// How serious a finding is.
#[derive(Debug, Clone, Copy, PartialEq, Eq, Structural)]
pub enum FindingSeverity {
    Critical,
    High,
    Medium,
    Low,
    Info,
}

/// What the user is advised to do about a finding.
#[derive(Debug, Clone, Copy, PartialEq, Eq, Structural)]
pub enum RecommendedAction {
    Quarantine,
    ManualExpertReview,
    OfflineSecurityScan,
    Review,
    Ignore,
}

/// One piece of evidence behind a finding.
#[derive(Debug, Clone)]
pub struct Evidence {
    pub code: String,
}

/// Something suspicious the scanner found.
#[derive(Debug, Clone)]
pub struct Finding {
    pub id: String,
    pub severity: FindingSeverity,
    pub score: u32,
    pub title: String,
    pub explanation: String,
    pub item_path: Option<String>,
    pub process_id: Option<u32>,
    pub persistence_location: Option<String>,
    pub evidences: Vec<Evidence>,
    pub recommended_action: RecommendedAction,
}

/// The outcome of a scan.
#[derive(Debug, Clone)]
pub struct ScanReport {
    pub schema_version: String,
    pub app_version: String,
    pub mode: ScanMode,
    pub started_at: String,
    pub finished_at: String,
    pub duration_ms: u64,
    pub memory_peak_kb: Option<u64>,
    pub scanned_files: u64,
    pub scanned_persistence_entries: u64,
    pub findings: Vec<Finding>,
    pub warnings: Vec<String>,
}

} // verus!
