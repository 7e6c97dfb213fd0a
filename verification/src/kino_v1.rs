//! The messages of the `kino.v1` probes snapshot, as plain values.
use vstd::prelude::*;

verus! {

#[derive(Debug, Clone, PartialEq, Eq)]
pub struct FileExistsValue {
    pub path: String,
    pub exists: bool,
}

#[derive(Debug, Clone, PartialEq, Eq)]
pub struct FileRegexCaptureValue {
    pub path: String,
    pub pattern: String,
    pub matched: bool,
    pub full_match: String,
    pub captures: Vec<String>,
    pub file_content: String,
}

#[derive(Debug, Clone, PartialEq, Eq)]
pub struct PortOpenValue {
    pub host: String,
    pub port: u32,
    pub protocol: String,
    pub open: bool,
    pub detail: String,
}

#[derive(Debug, Clone, PartialEq, Eq)]
pub struct K8sPodStateValue {
    pub namespace: String,
    pub selector: String,
    pub desired_state: String,
    pub matched_pods: u32,
    pub matching_pod_names: Vec<String>,
    pub state_satisfied: bool,
}

#[derive(Debug, Clone, PartialEq, Eq)]
pub struct CommandJsonPathValue {
    pub argv: Vec<String>,
    pub json_path: String,
    pub expected_json: String,
    pub matched: bool,
    pub matched_values: Vec<String>,
    pub stdout: String,
    pub stderr: String,
    pub exit_code: i32,
}

/// The value carried by one probe snapshot.
#[derive(Debug, Clone, PartialEq, Eq)]
pub enum SnapshotValue {
    FileExists(FileExistsValue),
    FileRegexCapture(FileRegexCaptureValue),
    PortOpen(PortOpenValue),
    K8sPodState(K8sPodStateValue),
    CommandJsonPath(CommandJsonPathValue),
}

/// One probe in a snapshot.
#[derive(Debug, Clone, PartialEq, Eq)]
pub struct ProbeSnapshot {
    pub id: String,
    pub kind: i32,
    pub status: i32,
    pub every_seconds: u64,
    pub last_attempt_unix_ms: u64,
    pub last_success_unix_ms: u64,
    pub last_duration_ms: u64,
    pub error: String,
    pub value: Option<SnapshotValue>,
}

/// All probes, at one moment.
#[derive(Debug, Clone, PartialEq, Eq)]
pub struct ProbesSnapshotV1 {
    pub generated_at_unix_ms: u64,
    pub probes: Vec<ProbeSnapshot>,
}

} // verus!
