//! The types of log requests and of the log responses that the cluster
//! streams back.

use vstd::prelude::*;
use crate::ank_base;
use crate::workload_state::WorkloadInstanceName;

verus! {

/// What a caller asks of logs: the workload instances, whether to follow
/// them, how many lines at the end (all for -1), and the time window
/// (RFC 3339 timestamps).
#[derive(Debug, PartialEq, Eq)]
pub struct LogsRequest {
    /// The workload instances whose logs are requested.
    pub workload_names: Vec<WorkloadInstanceName>,
    /// Whether to keep following the logs.
    pub follow: bool,
    /// The number of lines at the end of the logs; -1 for all lines.
    pub tail: i32,
    /// Show logs after this timestamp.
    pub since: Option<String>,
    /// Show logs before this timestamp.
    pub until: Option<String>,
}

impl Default for LogsRequest {
    /// No workload instances, not following, all lines, no time window.
    fn default() -> (r: Self)
        ensures
            r.workload_names@.len() == 0,
            !r.follow,
            r.tail == -1,
            r.since is None,
            r.until is None,
    {
        LogsRequest {
            workload_names: Vec::new(),
            follow: false,
            tail: -1,
            since: None,
            until: None,
        }
    }
}

/// A log line and the workload instance that wrote it.
#[derive(Debug, PartialEq, Eq)]
pub struct LogEntry {
    /// The workload instance that wrote the line.
    pub workload_name: WorkloadInstanceName,
    /// The line.
    pub message: String,
}

impl DeepView for LogEntry {
    type V = ((Seq<char>, Seq<char>, Seq<char>), Seq<char>);

    open spec fn deep_view(&self) -> ((Seq<char>, Seq<char>, Seq<char>), Seq<char>) {
        (self.workload_name.deep_view(), self.message@)
    }
}

impl LogEntry {
    /// The log entry of the protocol form `value`, which has an instance
    /// name.
    pub fn from_proto(value: ank_base::LogEntry) -> (r: LogEntry)
        requires
            value.workload_name is Some,
        ensures
            r.workload_name.agent_name == value.workload_name.unwrap().agent_name,
            r.workload_name.workload_name == value.workload_name.unwrap().workload_name,
            r.workload_name.workload_id == value.workload_name.unwrap().id,
            r.message == value.message,
    {
        let name = match value.workload_name {
            Some(n) => n,
            None => vstd::pervasive::unreached(),
        };
        LogEntry { workload_name: WorkloadInstanceName::from_proto(name), message: value.message }
    }

    /// A copy of this log entry.
    pub fn duplicate(&self) -> (r: Self)
        ensures
            r == *self,
    {
        LogEntry { workload_name: self.workload_name.duplicate(), message: self.message.clone() }
    }
}

/// What a log campaign delivers: log entries, or the end of the logs of a
/// workload instance.
#[derive(Debug, PartialEq, Eq)]
pub enum LogResponse {
    /// Log entries.
    LogEntries(Vec<LogEntry>),
    /// The logs of this workload instance have ended.
    LogsStopResponse(WorkloadInstanceName),
}

} // verus!
