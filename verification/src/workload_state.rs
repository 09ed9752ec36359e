//! Workload instance names, execution states and collections of workload
//! states, as reported by the Ankaios cluster.

use vstd::prelude::*;
use crate::ank_base;
use crate::ank_base::DeepCopy;
use crate::keyed::{
    KeyedList, keys_unique, has_key, entries_map, same_keys, lemma_index_of_key, lemma_update_map,
    lemma_related_key, lookup3, wf3, flat_ids, flat_names, flat_agents, lemma_flat_names_step,
    lemma_flat_agents_step,
};
use crate::yaml::{YamlValue, YamlView, ystr, pairs_view, lemma_pairs_view_push};

verus! {

// ----------------------------------------------------------------------------
// Workload instance names
// ----------------------------------------------------------------------------

/// Identifies one instance of a workload: the agent it runs on, its name and
/// its id.
#[derive(Debug, PartialEq, Eq)]
pub struct WorkloadInstanceName {
    pub agent_name: String,
    pub workload_name: String,
    pub workload_id: String,
}

impl DeepView for WorkloadInstanceName {
    type V = (Seq<char>, Seq<char>, Seq<char>);

    open spec fn deep_view(&self) -> (Seq<char>, Seq<char>, Seq<char>) {
        (self.agent_name@, self.workload_name@, self.workload_id@)
    }
}

/// `workload_name.workload_id.agent_name`
pub open spec fn instance_name_text(
    agent_name: Seq<char>,
    workload_name: Seq<char>,
    workload_id: Seq<char>,
) -> Seq<char> {
    workload_name + "."@ + workload_id + "."@ + agent_name
}

/// `workloadStates.agent_name.workload_name.workload_id`
pub open spec fn instance_filter_mask(
    agent_name: Seq<char>,
    workload_name: Seq<char>,
    workload_id: Seq<char>,
) -> Seq<char> {
    "workloadStates."@ + agent_name + "."@ + workload_name + "."@ + workload_id
}

/// The mapping `{agent_name, workload_name, workload_id}` of an instance name.
pub open spec fn instance_name_dict(
    agent_name: Seq<char>,
    workload_name: Seq<char>,
    workload_id: Seq<char>,
) -> YamlView {
    YamlView::Mapping(
        seq![
            (ystr("agent_name"@), ystr(agent_name)),
            (ystr("workload_name"@), ystr(workload_name)),
            (ystr("workload_id"@), ystr(workload_id)),
        ],
    )
}

/// Joins three strings with dots.
pub fn join_dotted(a: &String, b: &String, c: &String) -> (r: String)
    ensures
        r@ == a@ + "."@ + b@ + "."@ + c@,
{
    let mut s = a.clone();
    s.append(".");
    s.append(b.as_str());
    s.append(".");
    s.append(c.as_str());
    s
}

impl WorkloadInstanceName {
    /// Creates an instance name from its three parts.
    pub fn new(agent_name: String, workload_name: String, workload_id: String) -> (r: Self)
        ensures
            r.agent_name == agent_name,
            r.workload_name == workload_name,
            r.workload_id == workload_id,
    {
        WorkloadInstanceName { agent_name, workload_name, workload_id }
    }

    /// The textual form `workload_name.workload_id.agent_name`.
    pub fn to_string(&self) -> (r: String)
        ensures
            r@ == instance_name_text(self.agent_name@, self.workload_name@, self.workload_id@),
    {
        join_dotted(&self.workload_name, &self.workload_id, &self.agent_name)
    }

    /// The filter mask that selects the state of this instance:
    /// `workloadStates.agent_name.workload_name.workload_id`.
    pub fn get_filter_mask(&self) -> (r: String)
        ensures
            r@ == instance_filter_mask(self.agent_name@, self.workload_name@, self.workload_id@),
    {
        let mut s = "workloadStates.".to_owned();
        let rest = join_dotted(&self.agent_name, &self.workload_name, &self.workload_id);
        s.append(rest.as_str());
        proof {
            assert(s@ =~= instance_filter_mask(
                self.agent_name@,
                self.workload_name@,
                self.workload_id@,
            ));
        }
        s
    }

    /// The instance name as a mapping with the keys `agent_name`,
    /// `workload_name` and `workload_id`.
    pub fn to_dict(&self) -> (r: YamlValue)
        ensures
            r@ == instance_name_dict(self.agent_name@, self.workload_name@, self.workload_id@),
    {
        let mut entries: Vec<(YamlValue, YamlValue)> = Vec::new();
        let k1 = YamlValue::from_str_slice("agent_name");
        let v1 = YamlValue::from_string(self.agent_name.clone());
        proof {
            lemma_pairs_view_push(entries@, k1, v1);
        }
        entries.push((k1, v1));
        let k2 = YamlValue::from_str_slice("workload_name");
        let v2 = YamlValue::from_string(self.workload_name.clone());
        proof {
            lemma_pairs_view_push(entries@, k2, v2);
        }
        entries.push((k2, v2));
        let k3 = YamlValue::from_str_slice("workload_id");
        let v3 = YamlValue::from_string(self.workload_id.clone());
        proof {
            lemma_pairs_view_push(entries@, k3, v3);
            assert(pairs_view(Seq::<(YamlValue, YamlValue)>::empty()) =~= Seq::empty());
        }
        entries.push((k3, v3));
        proof {
            assert(pairs_view(entries@) =~= seq![
                (ystr("agent_name"@), ystr(self.agent_name@)),
                (ystr("workload_name"@), ystr(self.workload_name@)),
                (ystr("workload_id"@), ystr(self.workload_id@)),
            ]);
        }
        YamlValue::from_entries(entries)
    }

    /// A copy of this instance name.
    pub fn duplicate(&self) -> (r: Self)
        ensures
            r == *self,
    {
        WorkloadInstanceName {
            agent_name: self.agent_name.clone(),
            workload_name: self.workload_name.clone(),
            workload_id: self.workload_id.clone(),
        }
    }

    /// The protocol form of this instance name.
    pub fn to_proto(&self) -> (r: ank_base::WorkloadInstanceName)
        ensures
            r.agent_name == self.agent_name,
            r.workload_name == self.workload_name,
            r.id == self.workload_id,
    {
        ank_base::WorkloadInstanceName {
            agent_name: self.agent_name.clone(),
            workload_name: self.workload_name.clone(),
            id: self.workload_id.clone(),
        }
    }

    /// The instance name carried by a protocol message.
    pub fn from_proto(proto: ank_base::WorkloadInstanceName) -> (r: Self)
        ensures
            r.agent_name == proto.agent_name,
            r.workload_name == proto.workload_name,
            r.workload_id == proto.id,
    {
        WorkloadInstanceName {
            agent_name: proto.agent_name,
            workload_name: proto.workload_name,
            workload_id: proto.id,
        }
    }
}

// ----------------------------------------------------------------------------
// Execution states
// ----------------------------------------------------------------------------

/// The main state of a workload instance.
#[derive(Clone, Copy, Debug, PartialEq, Eq, Structural)]
pub enum WorkloadStateEnum {
    AgentDisconnected,
    Pending,
    Running,
    Stopping,
    Succeeded,
    Failed,
    NotScheduled,
    Removed,
}

/// The sub-state of a workload instance, refining its main state.
#[derive(Clone, Copy, Debug, PartialEq, Eq, Structural)]
pub enum WorkloadSubStateEnum {
    AgentDisconnected,
    PendingInitial,
    PendingWaitingToStart,
    PendingStarting,
    PendingStartingFailed,
    RunningOk,
    Stopping,
    StoppingWaitingToStop,
    StoppingRequestedAtRuntime,
    StoppingDeleteFailed,
    SucceededOk,
    FailedExecFailed,
    FailedUnknown,
    FailedLost,
    NotScheduled,
    Removed,
}

/// The name of a main state.
pub open spec fn state_name(s: WorkloadStateEnum) -> Seq<char> {
    match s {
        WorkloadStateEnum::AgentDisconnected => "AgentDisconnected"@,
        WorkloadStateEnum::Pending => "Pending"@,
        WorkloadStateEnum::Running => "Running"@,
        WorkloadStateEnum::Stopping => "Stopping"@,
        WorkloadStateEnum::Succeeded => "Succeeded"@,
        WorkloadStateEnum::Failed => "Failed"@,
        WorkloadStateEnum::NotScheduled => "NotScheduled"@,
        WorkloadStateEnum::Removed => "Removed"@,
    }
}

/// The protocol name of a sub-state.
pub open spec fn substate_name(s: WorkloadSubStateEnum) -> Seq<char> {
    match s {
        WorkloadSubStateEnum::AgentDisconnected => "AGENT_DISCONNECTED"@,
        WorkloadSubStateEnum::PendingInitial => "PENDING_INITIAL"@,
        WorkloadSubStateEnum::PendingWaitingToStart => "PENDING_WAITING_TO_START"@,
        WorkloadSubStateEnum::PendingStarting => "PENDING_STARTING"@,
        WorkloadSubStateEnum::PendingStartingFailed => "PENDING_STARTING_FAILED"@,
        WorkloadSubStateEnum::RunningOk => "RUNNING_OK"@,
        WorkloadSubStateEnum::Stopping => "STOPPING"@,
        WorkloadSubStateEnum::StoppingWaitingToStop => "STOPPING_WAITING_TO_STOP"@,
        WorkloadSubStateEnum::StoppingRequestedAtRuntime => "STOPPING_REQUESTED_AT_RUNTIME"@,
        WorkloadSubStateEnum::StoppingDeleteFailed => "STOPPING_DELETE_FAILED"@,
        WorkloadSubStateEnum::SucceededOk => "SUCCEEDED_OK"@,
        WorkloadSubStateEnum::FailedExecFailed => "FAILED_EXEC_FAILED"@,
        WorkloadSubStateEnum::FailedUnknown => "FAILED_UNKNOWN"@,
        WorkloadSubStateEnum::FailedLost => "FAILED_LOST"@,
        WorkloadSubStateEnum::NotScheduled => "NOT_SCHEDULED"@,
        WorkloadSubStateEnum::Removed => "REMOVED"@,
    }
}

/// The main state and sub-state that a protocol execution state denotes.
/// A missing state, or a sub-state code that the protocol does not define,
/// denotes an unknown failure.
pub open spec fn interpret_execution_state(e: Option<ank_base::ExecutionStateEnum>) -> (
    WorkloadStateEnum,
    WorkloadSubStateEnum,
) {
    let unknown = (WorkloadStateEnum::Failed, WorkloadSubStateEnum::FailedUnknown);
    match e {
        None => unknown,
        Some(ank_base::ExecutionStateEnum::AgentDisconnected(c)) => if c == 0 {
            (WorkloadStateEnum::AgentDisconnected, WorkloadSubStateEnum::AgentDisconnected)
        } else {
            unknown
        },
        Some(ank_base::ExecutionStateEnum::Pending(c)) => if c == 0 {
            (WorkloadStateEnum::Pending, WorkloadSubStateEnum::PendingInitial)
        } else if c == 1 {
            (WorkloadStateEnum::Pending, WorkloadSubStateEnum::PendingWaitingToStart)
        } else if c == 2 {
            (WorkloadStateEnum::Pending, WorkloadSubStateEnum::PendingStarting)
        } else if c == 8 {
            (WorkloadStateEnum::Pending, WorkloadSubStateEnum::PendingStartingFailed)
        } else {
            unknown
        },
        Some(ank_base::ExecutionStateEnum::Running(c)) => if c == 0 {
            (WorkloadStateEnum::Running, WorkloadSubStateEnum::RunningOk)
        } else {
            unknown
        },
        Some(ank_base::ExecutionStateEnum::Stopping(c)) => if c == 0 {
            (WorkloadStateEnum::Stopping, WorkloadSubStateEnum::Stopping)
        } else if c == 1 {
            (WorkloadStateEnum::Stopping, WorkloadSubStateEnum::StoppingWaitingToStop)
        } else if c == 2 {
            (WorkloadStateEnum::Stopping, WorkloadSubStateEnum::StoppingRequestedAtRuntime)
        } else if c == 8 {
            (WorkloadStateEnum::Stopping, WorkloadSubStateEnum::StoppingDeleteFailed)
        } else {
            unknown
        },
        Some(ank_base::ExecutionStateEnum::Succeeded(c)) => if c == 0 {
            (WorkloadStateEnum::Succeeded, WorkloadSubStateEnum::SucceededOk)
        } else {
            unknown
        },
        Some(ank_base::ExecutionStateEnum::Failed(c)) => if c == 0 {
            (WorkloadStateEnum::Failed, WorkloadSubStateEnum::FailedExecFailed)
        } else if c == 1 {
            (WorkloadStateEnum::Failed, WorkloadSubStateEnum::FailedUnknown)
        } else if c == 2 {
            (WorkloadStateEnum::Failed, WorkloadSubStateEnum::FailedLost)
        } else {
            unknown
        },
        Some(ank_base::ExecutionStateEnum::NotScheduled(c)) => if c == 0 {
            (WorkloadStateEnum::NotScheduled, WorkloadSubStateEnum::NotScheduled)
        } else {
            unknown
        },
        Some(ank_base::ExecutionStateEnum::Removed(c)) => if c == 0 {
            (WorkloadStateEnum::Removed, WorkloadSubStateEnum::Removed)
        } else {
            unknown
        },
    }
}

impl WorkloadStateEnum {
    /// The name of the state.
    pub fn as_str(&self) -> (r: &'static str)
        ensures
            r@ == state_name(*self),
    {
        match self {
            WorkloadStateEnum::AgentDisconnected => "AgentDisconnected",
            WorkloadStateEnum::Pending => "Pending",
            WorkloadStateEnum::Running => "Running",
            WorkloadStateEnum::Stopping => "Stopping",
            WorkloadStateEnum::Succeeded => "Succeeded",
            WorkloadStateEnum::Failed => "Failed",
            WorkloadStateEnum::NotScheduled => "NotScheduled",
            WorkloadStateEnum::Removed => "Removed",
        }
    }
}

impl WorkloadSubStateEnum {
    /// The protocol name of the sub-state.
    pub fn as_str(&self) -> (r: &'static str)
        ensures
            r@ == substate_name(*self),
    {
        match self {
            WorkloadSubStateEnum::AgentDisconnected => "AGENT_DISCONNECTED",
            WorkloadSubStateEnum::PendingInitial => "PENDING_INITIAL",
            WorkloadSubStateEnum::PendingWaitingToStart => "PENDING_WAITING_TO_START",
            WorkloadSubStateEnum::PendingStarting => "PENDING_STARTING",
            WorkloadSubStateEnum::PendingStartingFailed => "PENDING_STARTING_FAILED",
            WorkloadSubStateEnum::RunningOk => "RUNNING_OK",
            WorkloadSubStateEnum::Stopping => "STOPPING",
            WorkloadSubStateEnum::StoppingWaitingToStop => "STOPPING_WAITING_TO_STOP",
            WorkloadSubStateEnum::StoppingRequestedAtRuntime => "STOPPING_REQUESTED_AT_RUNTIME",
            WorkloadSubStateEnum::StoppingDeleteFailed => "STOPPING_DELETE_FAILED",
            WorkloadSubStateEnum::SucceededOk => "SUCCEEDED_OK",
            WorkloadSubStateEnum::FailedExecFailed => "FAILED_EXEC_FAILED",
            WorkloadSubStateEnum::FailedUnknown => "FAILED_UNKNOWN",
            WorkloadSubStateEnum::FailedLost => "FAILED_LOST",
            WorkloadSubStateEnum::NotScheduled => "NOT_SCHEDULED",
            WorkloadSubStateEnum::Removed => "REMOVED",
        }
    }
}

/// The execution state of a workload instance: its main state, its sub-state
/// and additional information given by the agent.
#[derive(Debug, PartialEq, Eq)]
pub struct WorkloadExecutionState {
    pub state: WorkloadStateEnum,
    pub substate: WorkloadSubStateEnum,
    pub additional_info: String,
}

/// The mapping `{state, substate, additional_info}` of an execution state.
pub open spec fn execution_state_dict(e: WorkloadExecutionState) -> YamlView {
    YamlView::Mapping(
        seq![
            (ystr("state"@), ystr(state_name(e.state))),
            (ystr("substate"@), ystr(substate_name(e.substate))),
            (ystr("additional_info"@), ystr(e.additional_info@)),
        ],
    )
}

/// The textual form of an execution state: `state (substate): additional_info`.
pub open spec fn execution_state_text(e: WorkloadExecutionState) -> Seq<char> {
    state_name(e.state) + " ("@ + substate_name(e.substate) + "): "@ + e.additional_info@
}

impl WorkloadExecutionState {
    /// Interprets an execution state received from the cluster.
    pub fn new(state: ank_base::ExecutionState) -> (r: Self)
        ensures
            (r.state, r.substate) == interpret_execution_state(state.execution_state_enum),
            r.additional_info == state.additional_info,
    {
        let (main, sub) = match &state.execution_state_enum {
            None => (WorkloadStateEnum::Failed, WorkloadSubStateEnum::FailedUnknown),
            Some(ank_base::ExecutionStateEnum::AgentDisconnected(c)) => if *c == 0 {
                (WorkloadStateEnum::AgentDisconnected, WorkloadSubStateEnum::AgentDisconnected)
            } else {
                (WorkloadStateEnum::Failed, WorkloadSubStateEnum::FailedUnknown)
            },
            Some(ank_base::ExecutionStateEnum::Pending(c)) => if *c == 0 {
                (WorkloadStateEnum::Pending, WorkloadSubStateEnum::PendingInitial)
            } else if *c == 1 {
                (WorkloadStateEnum::Pending, WorkloadSubStateEnum::PendingWaitingToStart)
            } else if *c == 2 {
                (WorkloadStateEnum::Pending, WorkloadSubStateEnum::PendingStarting)
            } else if *c == 8 {
                (WorkloadStateEnum::Pending, WorkloadSubStateEnum::PendingStartingFailed)
            } else {
                (WorkloadStateEnum::Failed, WorkloadSubStateEnum::FailedUnknown)
            },
            Some(ank_base::ExecutionStateEnum::Running(c)) => if *c == 0 {
                (WorkloadStateEnum::Running, WorkloadSubStateEnum::RunningOk)
            } else {
                (WorkloadStateEnum::Failed, WorkloadSubStateEnum::FailedUnknown)
            },
            Some(ank_base::ExecutionStateEnum::Stopping(c)) => if *c == 0 {
                (WorkloadStateEnum::Stopping, WorkloadSubStateEnum::Stopping)
            } else if *c == 1 {
                (WorkloadStateEnum::Stopping, WorkloadSubStateEnum::StoppingWaitingToStop)
            } else if *c == 2 {
                (WorkloadStateEnum::Stopping, WorkloadSubStateEnum::StoppingRequestedAtRuntime)
            } else if *c == 8 {
                (WorkloadStateEnum::Stopping, WorkloadSubStateEnum::StoppingDeleteFailed)
            } else {
                (WorkloadStateEnum::Failed, WorkloadSubStateEnum::FailedUnknown)
            },
            Some(ank_base::ExecutionStateEnum::Succeeded(c)) => if *c == 0 {
                (WorkloadStateEnum::Succeeded, WorkloadSubStateEnum::SucceededOk)
            } else {
                (WorkloadStateEnum::Failed, WorkloadSubStateEnum::FailedUnknown)
            },
            Some(ank_base::ExecutionStateEnum::Failed(c)) => if *c == 0 {
                (WorkloadStateEnum::Failed, WorkloadSubStateEnum::FailedExecFailed)
            } else if *c == 2 {
                (WorkloadStateEnum::Failed, WorkloadSubStateEnum::FailedLost)
            } else {
                (WorkloadStateEnum::Failed, WorkloadSubStateEnum::FailedUnknown)
            },
            Some(ank_base::ExecutionStateEnum::NotScheduled(c)) => if *c == 0 {
                (WorkloadStateEnum::NotScheduled, WorkloadSubStateEnum::NotScheduled)
            } else {
                (WorkloadStateEnum::Failed, WorkloadSubStateEnum::FailedUnknown)
            },
            Some(ank_base::ExecutionStateEnum::Removed(c)) => if *c == 0 {
                (WorkloadStateEnum::Removed, WorkloadSubStateEnum::Removed)
            } else {
                (WorkloadStateEnum::Failed, WorkloadSubStateEnum::FailedUnknown)
            },
        };
        WorkloadExecutionState { state: main, substate: sub, additional_info: state.additional_info }
    }

    /// The execution state as a mapping with the keys `state`, `substate`
    /// and `additional_info`.
    pub fn to_dict(&self) -> (r: YamlValue)
        ensures
            r@ == execution_state_dict(*self),
    {
        let mut entries: Vec<(YamlValue, YamlValue)> = Vec::new();
        let k1 = YamlValue::from_str_slice("state");
        let v1 = YamlValue::from_str_slice(self.state.as_str());
        proof {
            lemma_pairs_view_push(entries@, k1, v1);
        }
        entries.push((k1, v1));
        let k2 = YamlValue::from_str_slice("substate");
        let v2 = YamlValue::from_str_slice(self.substate.as_str());
        proof {
            lemma_pairs_view_push(entries@, k2, v2);
        }
        entries.push((k2, v2));
        let k3 = YamlValue::from_str_slice("additional_info");
        let v3 = YamlValue::from_string(self.additional_info.clone());
        proof {
            lemma_pairs_view_push(entries@, k3, v3);
            assert(pairs_view(Seq::<(YamlValue, YamlValue)>::empty()) =~= Seq::empty());
        }
        entries.push((k3, v3));
        proof {
            assert(pairs_view(entries@) =~= seq![
                (ystr("state"@), ystr(state_name(self.state))),
                (ystr("substate"@), ystr(substate_name(self.substate))),
                (ystr("additional_info"@), ystr(self.additional_info@)),
            ]);
        }
        YamlValue::from_entries(entries)
    }

    /// The textual form `state (substate): additional_info`.
    pub fn to_string(&self) -> (r: String)
        ensures
            r@ == execution_state_text(*self),
    {
        let mut s = self.state.as_str().to_owned();
        s.append(" (");
        s.append(self.substate.as_str());
        s.append("): ");
        s.append(self.additional_info.as_str());
        s
    }

    /// A copy of this execution state.
    pub fn duplicate(&self) -> (r: Self)
        ensures
            r == *self,
    {
        WorkloadExecutionState {
            state: self.state,
            substate: self.substate,
            additional_info: self.additional_info.clone(),
        }
    }
}

/// The execution state of one workload instance.
#[derive(Debug, PartialEq, Eq)]
pub struct WorkloadState {
    pub execution_state: WorkloadExecutionState,
    pub workload_instance_name: WorkloadInstanceName,
}

impl WorkloadState {
    /// A workload state from the parts of its instance name and an execution
    /// state received from the cluster.
    pub fn new_from_ank_base(
        agent_name: String,
        workload_name: String,
        workload_id: String,
        state: ank_base::ExecutionState,
    ) -> (r: Self)
        ensures
            r.workload_instance_name == (WorkloadInstanceName { agent_name, workload_name, workload_id }),
            (r.execution_state.state, r.execution_state.substate) == interpret_execution_state(
                state.execution_state_enum,
            ),
            r.execution_state.additional_info == state.additional_info,
    {
        WorkloadState {
            execution_state: WorkloadExecutionState::new(state),
            workload_instance_name: WorkloadInstanceName::new(agent_name, workload_name, workload_id),
        }
    }

    /// A workload state from the parts of its instance name and an execution
    /// state.
    pub fn new_from_exec_state(
        agent_name: String,
        workload_name: String,
        workload_id: String,
        exec_state: WorkloadExecutionState,
    ) -> (r: Self)
        ensures
            r.workload_instance_name == (WorkloadInstanceName { agent_name, workload_name, workload_id }),
            r.execution_state == exec_state,
    {
        WorkloadState {
            execution_state: exec_state,
            workload_instance_name: WorkloadInstanceName::new(agent_name, workload_name, workload_id),
        }
    }

    /// The textual form `instance_name: execution_state`.
    pub fn to_string(&self) -> (r: String)
        ensures
            r@ == instance_name_text(
                self.workload_instance_name.agent_name@,
                self.workload_instance_name.workload_name@,
                self.workload_instance_name.workload_id@,
            ) + ": "@ + execution_state_text(self.execution_state),
    {
        let mut s = self.workload_instance_name.to_string();
        s.append(": ");
        let e = self.execution_state.to_string();
        s.append(e.as_str());
        s
    }

    /// A copy of this workload state.
    pub fn duplicate(&self) -> (r: Self)
        ensures
            r == *self,
    {
        WorkloadState {
            execution_state: self.execution_state.duplicate(),
            workload_instance_name: self.workload_instance_name.duplicate(),
        }
    }
}


// ----------------------------------------------------------------------------
// Collections of workload states
// ----------------------------------------------------------------------------

/// The workload states of a cluster, keyed by agent name, then workload name,
/// then workload id.
#[derive(Debug, PartialEq, Eq)]
pub struct WorkloadStateCollection {
    pub workload_states: KeyedList<KeyedList<KeyedList<WorkloadExecutionState>>>,
}

impl WorkloadStateCollection {
    /// No key occurs twice at any level.
    pub open spec fn wf(&self) -> bool {
        wf3(self.workload_states)
    }

    /// The execution state stored for the instance `workload_name.workload_id`
    /// on agent `agent_name`.
    pub open spec fn lookup(
        &self,
        agent_name: Seq<char>,
        workload_name: Seq<char>,
        workload_id: Seq<char>,
    ) -> Option<WorkloadExecutionState> {
        lookup3(self.workload_states, agent_name, workload_name, workload_id)
    }

    /// An empty collection.
    pub fn new() -> (r: Self)
        ensures
            r.wf(),
            r.workload_states.entries@.len() == 0,
            forall|a: Seq<char>, n: Seq<char>, i: Seq<char>| r.lookup(a, n, i) is None,
    {
        WorkloadStateCollection { workload_states: KeyedList::new() }
    }

    /// Stores the execution state of `workload_state` under its instance
    /// name, replacing a state stored there before.
    pub fn add_workload_state(&mut self, workload_state: WorkloadState)
        requires
            old(self).wf(),
        ensures
            final(self).wf(),
            forall|a: Seq<char>, n: Seq<char>, i: Seq<char>|
                #[trigger] final(self).lookup(a, n, i) == if a
                    == workload_state.workload_instance_name.agent_name@ && n
                    == workload_state.workload_instance_name.workload_name@ && i
                    == workload_state.workload_instance_name.workload_id@ {
                    Some(workload_state.execution_state)
                } else {
                    old(self).lookup(a, n, i)
                },
    {
        let WorkloadState { execution_state, workload_instance_name } = workload_state;
        let WorkloadInstanceName { agent_name, workload_name, workload_id } =
            workload_instance_name;
        let ghost a0 = agent_name@;
        let ghost n0 = workload_name@;
        let ghost i0 = workload_id@;
        let ghost e0 = execution_state;
        let ghost old_states = self.workload_states;
        match self.workload_states.find(&agent_name) {
            None => {
                let mut ids: KeyedList<WorkloadExecutionState> = KeyedList::new();
                ids.insert(workload_id, execution_state);
                let mut names: KeyedList<KeyedList<WorkloadExecutionState>> = KeyedList::new();
                names.insert(workload_name, ids);
                proof {
                    assert(names.entries@.len() == 1);
                    assert(names.entries@[0].1 == ids);
                }
                self.workload_states.insert(agent_name, names);
                proof {
                    let m = self.workload_states;
                    assert(m.entries@ == old_states.entries@.push((agent_name, names)));
                    assert forall|x: int| 0 <= x < m.entries@.len() implies (
                    #[trigger] m.entries@[x]).1.wf() by {
                        if x < old_states.entries@.len() {
                            assert(m.entries@[x] == old_states.entries@[x]);
                        }
                    }
                    assert forall|x: int, y: int|
                        0 <= x < m.entries@.len() && 0 <= y < m.entries@[x].1.entries@.len()
                            implies (#[trigger] m.entries@[x].1.entries@[y]).1.wf() by {
                        if x < old_states.entries@.len() {
                            assert(m.entries@[x] == old_states.entries@[x]);
                            assert(old_states.entries@[x].1.entries@[y].1.wf());
                        } else {
                            assert(m.entries@[x].1 == names);
                            assert(y == 0);
                            assert(m.entries@[x].1.entries@[y] == names.entries@[0]);
                            assert(ids.wf());
                        }
                    }
                }
            },
            Some(ai) => {
                let (akey, mut names) = self.workload_states.take_at(ai);
                let ghost old_names = names;
                proof {
                    assert(old_names == old_states.entries@[ai as int].1);
                    assert(old_names.wf());
                }
                match names.find(&workload_name) {
                    None => {
                        let mut ids: KeyedList<WorkloadExecutionState> = KeyedList::new();
                        ids.insert(workload_id, execution_state);
                        names.insert(workload_name, ids);
                        proof {
                            assert(names.entries@ == old_names.entries@.push((workload_name, ids)));
                            assert forall|y: int| 0 <= y < names.entries@.len() implies (
                            #[trigger] names.entries@[y]).1.wf() by {
                                if y < old_names.entries@.len() {
                                    assert(names.entries@[y] == old_names.entries@[y]);
                                    assert(old_states.entries@[ai as int].1.entries@[y].1.wf());
                                }
                            }
                        }
                    },
                    Some(ni) => {
                        let (nkey, mut ids) = names.take_at(ni);
                        proof {
                            assert(ids == old_names.entries@[ni as int].1);
                            assert(old_states.entries@[ai as int].1.entries@[ni as int].1.wf());
                        }
                        let ghost old_ids = ids;
                        ids.insert(workload_id, execution_state);
                        proof {
                            lemma_update_map(old_names.entries@, ni as int, nkey, ids);
                            assert(old_names.entries@.remove(ni as int).insert(ni as int, (nkey, ids))
                                =~= old_names.entries@.update(ni as int, (nkey, ids)));
                        }
                        names.put_at(ni, (nkey, ids));
                        proof {
                            assert(names.entries@ == old_names.entries@.update(ni as int, (nkey, ids)));
                            assert forall|y: int| 0 <= y < names.entries@.len() implies (
                            #[trigger] names.entries@[y]).1.wf() by {
                                if y != ni {
                                    assert(names.entries@[y] == old_names.entries@[y]);
                                    assert(old_states.entries@[ai as int].1.entries@[y].1.wf());
                                }
                            }
                        }
                    },
                }
                proof {
                    lemma_update_map(old_states.entries@, ai as int, akey, names);
                    assert(old_states.entries@.remove(ai as int).insert(ai as int, (akey, names))
                        =~= old_states.entries@.update(ai as int, (akey, names)));
                }
                self.workload_states.put_at(ai, (akey, names));
                proof {
                    let m = self.workload_states;
                    assert(m.entries@ == old_states.entries@.update(ai as int, (akey, names)));
                    assert forall|x: int| 0 <= x < m.entries@.len() implies (
                    #[trigger] m.entries@[x]).1.wf() by {
                        if x != ai {
                            assert(m.entries@[x] == old_states.entries@[x]);
                        }
                    }
                    assert forall|x: int, y: int|
                        0 <= x < m.entries@.len() && 0 <= y < m.entries@[x].1.entries@.len()
                            implies (#[trigger] m.entries@[x].1.entries@[y]).1.wf() by {
                        if x != ai {
                            assert(m.entries@[x] == old_states.entries@[x]);
                            assert(old_states.entries@[x].1.entries@[y].1.wf());
                        } else {
                            assert(m.entries@[x].1 == names);
                            assert(names.entries@[y].1.wf());
                        }
                    }
                }
            },
        }
    }

    /// The execution state stored for `instance_name`, if any.
    pub fn get_for_instance_name(&self, instance_name: &WorkloadInstanceName) -> (r: Option<
        &WorkloadExecutionState,
    >)
        requires
            self.wf(),
        ensures
            match r {
                Some(e) => self.lookup(
                    instance_name.agent_name@,
                    instance_name.workload_name@,
                    instance_name.workload_id@,
                ) == Some(*e),
                None => self.lookup(
                    instance_name.agent_name@,
                    instance_name.workload_name@,
                    instance_name.workload_id@,
                ) is None,
            },
    {
        match self.workload_states.get(&instance_name.agent_name) {
            None => None,
            Some(names) => {
                proof {
                    let j = choose|j: int|
                        0 <= j < self.workload_states.entries@.len()
                            && self.workload_states.entries@[j].0@ == instance_name.agent_name@;
                    crate::keyed::lemma_index_of_key(self.workload_states.entries@, j);
                    assert(names.wf());
                }
                match names.get(&instance_name.workload_name) {
                    None => None,
                    Some(ids) => {
                        proof {
                            let j = choose|j: int|
                                0 <= j < self.workload_states.entries@.len()
                                    && self.workload_states.entries@[j].0@
                                    == instance_name.agent_name@;
                            crate::keyed::lemma_index_of_key(self.workload_states.entries@, j);
                            let y = choose|y: int|
                                0 <= y < names.entries@.len() && names.entries@[y].0@
                                    == instance_name.workload_name@;
                            crate::keyed::lemma_index_of_key(names.entries@, y);
                            assert(self.workload_states.entries@[j].1.entries@[y].1.wf());
                        }
                        ids.get(&instance_name.workload_id)
                    },
                }
            },
        }
    }

    /// All stored workload states, agent by agent, workload name by workload
    /// name, in the order in which they were first stored.
    pub fn get_as_list(&self) -> (r: Vec<WorkloadState>)
        requires
            self.wf(),
        ensures
            states_as_tuples(r@) =~= flat_agents(self.workload_states.entries@),
    {
        let mut list: Vec<WorkloadState> = Vec::new();
        let agents = &self.workload_states.entries;
        let mut x: usize = 0;
        while x < agents.len()
            invariant
                0 <= x <= agents@.len(),
                states_as_tuples(list@) =~= flat_agents(agents@.take(x as int)),
            decreases agents@.len() - x,
        {
            let agent_name = &agents[x].0;
            let names = &agents[x].1.entries;
            let mut y: usize = 0;
            while y < names.len()
                invariant
                    0 <= x < agents@.len(),
                    agent_name == agents@[x as int].0,
                    names == agents@[x as int].1.entries,
                    0 <= y <= names@.len(),
                    states_as_tuples(list@) =~= flat_agents(agents@.take(x as int)) + flat_names(
                        agent_name@,
                        names@.take(y as int),
                    ),
                decreases names@.len() - y,
            {
                let workload_name = &names[y].0;
                let ids = &names[y].1.entries;
                let ghost before = list@;
                let mut z: usize = 0;
                while z < ids.len()
                    invariant
                        0 <= y < names@.len(),
                        workload_name == names@[y as int].0,
                        ids == names@[y as int].1.entries,
                        0 <= z <= ids@.len(),
                        states_as_tuples(list@) =~= states_as_tuples(before) + flat_ids(
                            agent_name@,
                            workload_name@,
                            ids@.take(z as int),
                        ),
                    decreases ids@.len() - z,
                {
                    let ws = WorkloadState {
                        execution_state: ids[z].1.duplicate(),
                        workload_instance_name: WorkloadInstanceName::new(
                            agent_name.clone(),
                            workload_name.clone(),
                            ids[z].0.clone(),
                        ),
                    };
                    let ghost prev = list@;
                    list.push(ws);
                    proof {
                        let t = (agent_name@, workload_name@, ids@[z as int].0@, ids@[z as int].1);
                        assert(states_as_tuples(list@) =~= states_as_tuples(prev).push(t));
                        assert(flat_ids(agent_name@, workload_name@, ids@.take(z + 1)) =~= flat_ids(
                            agent_name@,
                            workload_name@,
                            ids@.take(z as int),
                        ).push(t));
                    }
                    z = z + 1;
                }
                proof {
                    assert(ids@.take(ids@.len() as int) =~= ids@);
                    lemma_flat_names_step(agent_name@, names@, y as int);
                    assert(flat_agents(agents@.take(x as int)) + flat_names(
                        agent_name@,
                        names@.take(y as int),
                    ) + flat_ids(agent_name@, workload_name@, ids@) =~= flat_agents(
                        agents@.take(x as int),
                    ) + flat_names(agent_name@, names@.take(y + 1)));
                }
                y = y + 1;
            }
            proof {
                assert(names@.take(names@.len() as int) =~= names@);
                lemma_flat_agents_step(agents@, x as int);
            }
            x = x + 1;
        }
        proof {
            assert(agents@.take(agents@.len() as int) =~= agents@);
        }
        list
    }

    /// The workload states as a mapping from agent names to mappings from
    /// workload names to mappings from workload ids to execution states.
    pub fn get_as_dict(&self) -> (r: YamlValue)
        requires
            self.wf(),
        ensures
            r@ == states_dict(self.workload_states.entries@),
    {
        let agents = &self.workload_states.entries;
        let mut agent_entries: Vec<(YamlValue, YamlValue)> = Vec::new();
        let mut x: usize = 0;
        while x < agents.len()
            invariant
                0 <= x <= agents@.len(),
                pairs_view(agent_entries@) =~= Seq::new(
                    x as nat,
                    |k: int| (ystr(agents@[k].0@), names_dict(agents@[k].1.entries@)),
                ),
            decreases agents@.len() - x,
        {
            let names = &agents[x].1.entries;
            let mut name_entries: Vec<(YamlValue, YamlValue)> = Vec::new();
            let mut y: usize = 0;
            while y < names.len()
                invariant
                    0 <= y <= names@.len(),
                    pairs_view(name_entries@) =~= Seq::new(
                        y as nat,
                        |k: int| (ystr(names@[k].0@), ids_dict(names@[k].1.entries@)),
                    ),
                decreases names@.len() - y,
            {
                let ids = &names[y].1.entries;
                let mut id_entries: Vec<(YamlValue, YamlValue)> = Vec::new();
                let mut z: usize = 0;
                while z < ids.len()
                    invariant
                        0 <= z <= ids@.len(),
                        pairs_view(id_entries@) =~= Seq::new(
                            z as nat,
                            |k: int| (ystr(ids@[k].0@), execution_state_dict(ids@[k].1)),
                        ),
                    decreases ids@.len() - z,
                {
                    let k = YamlValue::from_string(ids[z].0.clone());
                    let v = ids[z].1.to_dict();
                    proof {
                        crate::yaml::lemma_pairs_view_push(id_entries@, k, v);
                    }
                    id_entries.push((k, v));
                    z = z + 1;
                }
                let k = YamlValue::from_string(names[y].0.clone());
                let v = YamlValue::from_entries(id_entries);
                proof {
                    crate::yaml::lemma_pairs_view_push(name_entries@, k, v);
                }
                name_entries.push((k, v));
                y = y + 1;
            }
            let k = YamlValue::from_string(agents[x].0.clone());
            let v = YamlValue::from_entries(name_entries);
            proof {
                crate::yaml::lemma_pairs_view_push(agent_entries@, k, v);
            }
            agent_entries.push((k, v));
            x = x + 1;
        }
        YamlValue::from_entries(agent_entries)
    }
}

/// The instance-name parts and execution states of a list of workload states.
pub open spec fn states_as_tuples(s: Seq<WorkloadState>) -> Seq<
    (Seq<char>, Seq<char>, Seq<char>, WorkloadExecutionState),
> {
    Seq::new(
        s.len(),
        |k: int|
            (
                s[k].workload_instance_name.agent_name@,
                s[k].workload_instance_name.workload_name@,
                s[k].workload_instance_name.workload_id@,
                s[k].execution_state,
            ),
    )
}

/// The mapping from workload ids to execution states.
pub open spec fn ids_dict(s: Seq<(String, WorkloadExecutionState)>) -> YamlView {
    YamlView::Mapping(
        Seq::new(s.len(), |k: int| (ystr(s[k].0@), execution_state_dict(s[k].1))),
    )
}

/// The mapping from workload names to mappings from ids to execution states.
pub open spec fn names_dict(s: Seq<(String, KeyedList<WorkloadExecutionState>)>) -> YamlView {
    YamlView::Mapping(Seq::new(s.len(), |k: int| (ystr(s[k].0@), ids_dict(s[k].1.entries@))))
}

/// The mapping from agent names to the states of their workloads.
pub open spec fn states_dict(
    s: Seq<(String, KeyedList<KeyedList<WorkloadExecutionState>>)>,
) -> YamlView {
    YamlView::Mapping(Seq::new(s.len(), |k: int| (ystr(s[k].0@), names_dict(s[k].1.entries@))))
}


/// The SDK form of an execution state received from the cluster.
pub open spec fn execution_state_from(e: ank_base::ExecutionState) -> WorkloadExecutionState {
    WorkloadExecutionState {
        state: interpret_execution_state(e.execution_state_enum).0,
        substate: interpret_execution_state(e.execution_state_enum).1,
        additional_info: e.additional_info,
    }
}

/// `out` holds the ids of `src`, in the same order, each with the SDK form
/// of its execution state.
pub open spec fn ids_converted(
    src: Seq<(String, ank_base::ExecutionState)>,
    out: Seq<(String, WorkloadExecutionState)>,
) -> bool {
    &&& same_keys(src, out)
    &&& forall|k: int| 0 <= k < src.len() ==> (#[trigger] out[k]).1 == execution_state_from(src[k].1)
}

/// `out` holds the workload names of `src`, in the same order, each with
/// its ids converted.
pub open spec fn names_converted(
    src: Seq<(String, KeyedList<ank_base::ExecutionState>)>,
    out: Seq<(String, KeyedList<WorkloadExecutionState>)>,
) -> bool {
    &&& same_keys(src, out)
    &&& forall|k: int|
        0 <= k < src.len() ==> ids_converted(src[k].1.entries@, (#[trigger] out[k]).1.entries@)
}

/// `out` holds the agent names of `src`, in the same order, each with its
/// workload names converted.
pub open spec fn agents_converted(
    src: Seq<(String, KeyedList<KeyedList<ank_base::ExecutionState>>)>,
    out: Seq<(String, KeyedList<KeyedList<WorkloadExecutionState>>)>,
) -> bool {
    &&& same_keys(src, out)
    &&& forall|k: int|
        0 <= k < src.len() ==> names_converted(src[k].1.entries@, (#[trigger] out[k]).1.entries@)
}

/// The SDK form of an optional execution state.
pub open spec fn lookup_converted(e: Option<ank_base::ExecutionState>) -> Option<
    WorkloadExecutionState,
> {
    match e {
        Some(e) => Some(execution_state_from(e)),
        None => None,
    }
}

pub proof fn lemma_converted(
    src: KeyedList<KeyedList<KeyedList<ank_base::ExecutionState>>>,
    out: KeyedList<KeyedList<KeyedList<WorkloadExecutionState>>>,
)
    requires
        wf3(src),
        agents_converted(src.entries@, out.entries@),
    ensures
        wf3(out),
        forall|a: Seq<char>, n: Seq<char>, i: Seq<char>|
            #[trigger] lookup3(out, a, n, i) == lookup_converted(lookup3(src, a, n, i)),
{
    crate::keyed::lemma_same_keys(src.entries@, out.entries@);
    assert forall|x: int| 0 <= x < out.entries@.len() implies (#[trigger] out.entries@[x]).1.wf() by {
        crate::keyed::lemma_same_keys(src.entries@[x].1.entries@, out.entries@[x].1.entries@);
    }
    assert forall|x: int, y: int|
        0 <= x < out.entries@.len() && 0 <= y < out.entries@[x].1.entries@.len() implies (
        #[trigger] out.entries@[x].1.entries@[y]).1.wf() by {
        assert(names_converted(src.entries@[x].1.entries@, out.entries@[x].1.entries@));
        assert(ids_converted(
            src.entries@[x].1.entries@[y].1.entries@,
            out.entries@[x].1.entries@[y].1.entries@,
        ));
        crate::keyed::lemma_same_keys(
            src.entries@[x].1.entries@[y].1.entries@,
            out.entries@[x].1.entries@[y].1.entries@,
        );
    }
    assert forall|a: Seq<char>, n: Seq<char>, i: Seq<char>|
        #[trigger] lookup3(out, a, n, i) == lookup_converted(lookup3(src, a, n, i)) by {
        if has_key(src.entries@, a) {
            let x = lemma_related_key(src.entries@, out.entries@, a);
            let sn = src.entries@[x].1.entries@;
            let on = out.entries@[x].1.entries@;
            if has_key(sn, n) {
                let y = lemma_related_key(sn, on, n);
                let si = sn[y].1.entries@;
                let oi = on[y].1.entries@;
                assert(ids_converted(si, oi));
                if has_key(si, i) {
                    let z = lemma_related_key(si, oi, i);
                } else {
                    crate::keyed::lemma_same_keys(si, oi);
                }
            } else {
                crate::keyed::lemma_same_keys(sn, on);
            }
        } else {
            crate::keyed::lemma_same_keys(src.entries@, out.entries@);
        }
    }
}

impl WorkloadStateCollection {
    /// The SDK form of the workload states received from the cluster.
    pub fn new_from_proto(workload_states_map: &ank_base::WorkloadStatesMap) -> (r: Self)
        requires
            wf3(workload_states_map.agent_state_map),
        ensures
            r.wf(),
            agents_converted(
                workload_states_map.agent_state_map.entries@,
                r.workload_states.entries@,
            ),
            forall|a: Seq<char>, n: Seq<char>, i: Seq<char>|
                #[trigger] r.lookup(a, n, i) == lookup_converted(
                    lookup3(workload_states_map.agent_state_map, a, n, i),
                ),
    {
        let src = &workload_states_map.agent_state_map.entries;
        let mut agents: Vec<(String, KeyedList<KeyedList<WorkloadExecutionState>>)> = Vec::new();
        let mut x: usize = 0;
        while x < src.len()
            invariant
                0 <= x <= src@.len(),
                agents_converted(src@.take(x as int), agents@),
            decreases src@.len() - x,
        {
            let src_names = &src[x].1.entries;
            let mut names: Vec<(String, KeyedList<WorkloadExecutionState>)> = Vec::new();
            let mut y: usize = 0;
            while y < src_names.len()
                invariant
                    0 <= y <= src_names@.len(),
                    names_converted(src_names@.take(y as int), names@),
                decreases src_names@.len() - y,
            {
                let src_ids = &src_names[y].1.entries;
                let mut ids: Vec<(String, WorkloadExecutionState)> = Vec::new();
                let mut z: usize = 0;
                while z < src_ids.len()
                    invariant
                        0 <= z <= src_ids@.len(),
                        ids_converted(src_ids@.take(z as int), ids@),
                    decreases src_ids@.len() - z,
                {
                    let e = WorkloadExecutionState::new(src_ids[z].1.duplicate());
                    ids.push((src_ids[z].0.clone(), e));
                    proof {
                        assert(src_ids@.take(z + 1).drop_last() =~= src_ids@.take(z as int));
                    }
                    z = z + 1;
                }
                proof {
                    assert(src_ids@.take(src_ids@.len() as int) =~= src_ids@);
                }
                names.push((src_names[y].0.clone(), KeyedList { entries: ids }));
                proof {
                    assert(src_names@.take(y + 1).drop_last() =~= src_names@.take(y as int));
                }
                y = y + 1;
            }
            proof {
                assert(src_names@.take(src_names@.len() as int) =~= src_names@);
            }
            agents.push((src[x].0.clone(), KeyedList { entries: names }));
            proof {
                assert(src@.take(x + 1).drop_last() =~= src@.take(x as int));
            }
            x = x + 1;
        }
        proof {
            assert(src@.take(src@.len() as int) =~= src@);
            lemma_converted(workload_states_map.agent_state_map, KeyedList { entries: agents });
        }
        WorkloadStateCollection { workload_states: KeyedList { entries: agents } }
    }
}


impl DeepView for WorkloadExecutionState {
    type V = (WorkloadStateEnum, WorkloadSubStateEnum, Seq<char>);

    open spec fn deep_view(&self) -> (WorkloadStateEnum, WorkloadSubStateEnum, Seq<char>) {
        (self.state, self.substate, self.additional_info@)
    }
}

impl ank_base::DeepCopy for WorkloadExecutionState {
    fn deep_copy(&self) -> (r: Self) {
        self.duplicate()
    }
}

impl WorkloadStateCollection {
    /// A copy of this collection.
    pub fn duplicate(&self) -> (r: Self)
        ensures
            r.workload_states.deep_view() == self.workload_states.deep_view(),
    {
        WorkloadStateCollection { workload_states: self.workload_states.deep_copy() }
    }
}

} // verus!
