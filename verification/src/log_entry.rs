//! A log line of a workload instance, read from the protocol form that may
//! lack the instance name.

use vstd::prelude::*;
use crate::ank_base;
use crate::workload_state::WorkloadInstanceName;

verus! {

/// A log line and the workload instance that wrote it.
#[derive(Debug, PartialEq, Eq)]
pub struct LogEntry {
    /// The workload instance that wrote the line.
    pub workload_name: WorkloadInstanceName,
    /// The line.
    pub message: String,
}

impl LogEntry {
    /// The log entry of the protocol form `value`; an entry without an
    /// instance name is refused.
    pub fn try_from_proto(value: ank_base::LogEntry) -> (r: Result<LogEntry, String>)
        ensures
            match value.workload_name {
                Some(n) => r matches Ok(e) && e.workload_name.agent_name == n.agent_name
                    && e.workload_name.workload_name == n.workload_name
                    && e.workload_name.workload_id == n.id && e.message == value.message,
                None => r matches Err(m) && m@ == "LogEntry has no workload instance name."@,
            },
    {
        match value.workload_name {
            Some(n) => Ok(
                LogEntry { workload_name: WorkloadInstanceName::from_proto(n), message: value.message },
            ),
            None => Err("LogEntry has no workload instance name.".to_owned()),
        }
    }
}

} // verus!
