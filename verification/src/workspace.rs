//! Workspace descriptions.
//!
//! A workspace request names the workspace, its kind, the tools it
//! wants, and an optional configuration: port mappings, variables and
//! the commands to run at start and at cleanup.  The manager that
//! creates and runs workspaces — with timestamps, resource figures and
//! identifiers — lives outside the library and consumes these records.

use vstd::prelude::*;

use crate::strmap::StringMap;

verus! {

/// How a workspace behaves: ports, variables and lifecycle commands.
#[derive(Debug, Clone)]
pub struct WorkspaceConfig {
    pub auto_start: bool,
    pub port_mappings: Vec<PortMapping>,
    pub environment_variables: StringMap,
    pub startup_commands: Vec<String>,
    pub cleanup_commands: Vec<String>,
}

/// One forwarded port.
#[derive(Debug, Clone)]
pub struct PortMapping {
    pub host_port: u16,
    pub container_port: u16,
    pub protocol: String,
}

/// One tool installed into a workspace.
#[derive(Debug, Clone)]
pub struct InstalledTool {
    pub name: String,
    pub tool_type: String,
    pub version: String,
    pub path: String,
    pub size: u64,
    pub status: String,
    pub dependencies: Vec<String>,
    pub conflicts: Vec<String>,
}

/// A request to create a workspace.
#[derive(Debug, Clone)]
pub struct CreateWorkspaceRequest {
    pub name: String,
    pub workspace_type: String,
    pub tools: Vec<String>,
    pub config: Option<WorkspaceConfig>,
}

impl WorkspaceConfig {
    /// An inert configuration: nothing forwarded, nothing run.
    pub fn new() -> (r: Self)
        ensures
            !r.auto_start,
            r.port_mappings@.len() == 0,
            r.environment_variables@.len() == 0,
            r.startup_commands@.len() == 0,
            r.cleanup_commands@.len() == 0,
    {
        WorkspaceConfig {
            auto_start: false,
            port_mappings: Vec::new(),
            environment_variables: StringMap::new(),
            startup_commands: Vec::new(),
            cleanup_commands: Vec::new(),
        }
    }
}

} // verus!
