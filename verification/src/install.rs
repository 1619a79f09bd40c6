//! Tool installation records.
//!
//! A request names the tool to install, the version wanted, whether it
//! is required, and acceptable alternatives; a progress record reports
//! how far a running installation has come.  The installer that spawns
//! package managers lives outside the library and consumes these.

use vstd::prelude::*;

verus! {

/// A request to install one tool into a workspace.
#[derive(Debug, Clone)]
pub struct ToolInstallRequest {
    pub name: String,
    pub tool_type: String,
    pub version: Option<String>,
    pub required: bool,
    pub alternatives: Vec<String>,
}

/// A progress report of a running installation.
#[derive(Debug, Clone)]
pub struct InstallationProgress {
    pub job_id: String,
    pub progress: u8,
    pub message: String,
    pub status: String,
}

impl InstallationProgress {
    /// A report; progress is a percentage and is capped at 100.
    pub fn new(job_id: String, progress: u8, message: String, status: String) -> (r: Self)
        ensures
            r.job_id@ == job_id@,
            r.progress == (if progress > 100 {
                100u8
            } else {
                progress
            }),
            r.message@ == message@,
            r.status@ == status@,
    {
        let capped: u8 = if progress > 100 {
            100
        } else {
            progress
        };
        InstallationProgress { job_id, progress: capped, message, status }
    }
}

} // verus!
