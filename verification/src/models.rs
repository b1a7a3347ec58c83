//! Plain records that the commands hand to the user interface.

use vstd::prelude::*;

verus! {

/// A file or directory of the scanned project, with what lies below it.
#[derive(Debug)]
pub struct FileNode {
    pub name: String,
    pub path: String,
    pub is_dir: bool,
    pub children: Option<Vec<FileNode>>,
    pub size: u64,
}

/// The outcome of looking for one tool on the machine.
#[derive(Debug)]
pub struct CheckResult {
    pub name: String,
    pub status: bool,
    pub version: Option<String>,
    pub message: Option<String>,
}

/// One line of a running task's log.
#[derive(Debug, Clone)]
pub struct TaskLog {
    pub task_id: String,
    pub message: String,
    pub level: String,
    pub timestamp: u64,
}

/// A device as the user interface lists it.
#[derive(Debug)]
pub struct DeviceInfo {
    pub id: String,
    pub model: String,
    pub platform: String,
    pub status: String,
}

} // verus!
