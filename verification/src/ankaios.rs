//! The decisions of the `Ankaios` client: which masks its requests use, how
//! it waits for the response to a request, and what it makes of each
//! response.

use vstd::prelude::*;
use crate::ank_base;
use crate::complete_state::{
    CompleteState, holds_configs, holds_manifest, holds_workloads, manifest_loadable,
    loadable_workload_entry, supported_api_version,
};
use crate::config::config_value_ok;
use crate::manifest::{Manifest, manifest_masks, manifest_workloads, manifest_configs, names_are_text};
use crate::yaml::{ystr, yaml_field};
use crate::request::{UpdateStateRequest, is_uuid_v4_text};
use crate::workload::Workload;
use crate::yaml::YamlValue;
use crate::errors::AnkaiosError;
use crate::response::{Response, ResponseType, UpdateStateSuccess, response_type_name};
use crate::strings::concat;
use crate::workload_state::{
    WorkloadExecutionState, WorkloadInstanceName, WorkloadState, WorkloadStateCollection,
};

verus! {

/// The mask of the agents in the state.
pub const AGENTS_PREFIX: &'static str = "agents";

/// The mask of the workload states in the state.
pub const WORKLOAD_STATES_PREFIX: &'static str = "workloadStates";

/// The mask of the workloads of the desired state.
pub const WORKLOADS_PREFIX: &'static str = "desiredState.workloads";

/// The mask of the configs of the desired state.
pub const CONFIGS_PREFIX: &'static str = "desiredState.configs";

/// The mask of the API version of the desired state.
pub const API_VERSION_PREFIX: &'static str = "desiredState.apiVersion";

/// The time limit of a request when none is given, in seconds.
pub const DEFAULT_TIMEOUT: u64 = 5;

/// The number of responses that can wait to be read.
pub const CHANNEL_SIZE: usize = 100;

/// `prefix.name`
pub open spec fn child_mask(prefix: Seq<char>, name: Seq<char>) -> Seq<char> {
    prefix + "."@ + name
}

/// The mask of a child of the entry `prefix` of the state: `prefix.name`.
pub fn child_mask_text(prefix: &str, name: &str) -> (r: String)
    ensures
        r@ == child_mask(prefix@, name@),
{
    let p = concat(prefix, ".");
    concat(p.as_str(), name)
}

/// What waiting for the response to a request does with a response that
/// arrives.
pub enum ReceiveStep {
    /// This is the response to the request.
    Answer(Response),
    /// The connection was closed, for this reason.
    Closed(AnkaiosError),
    /// The response answers another request; keep waiting.
    Skip,
}

// ----------------------------------------------------------------------------
// The requests of the client's operations
// ----------------------------------------------------------------------------

/// The state that a request which only deletes carries: the supported API
/// version and nothing else.
pub open spec fn empty_state_view() -> ank_base::CompleteStateView {
    ank_base::CompleteStateView {
        desired_state: Some(
            ank_base::StateView {
                api_version: supported_api_version(),
                workloads: None,
                configs: None,
            },
        ),
        workload_states: None,
        agents: None,
    }
}

/// `r` is a request with a fresh id to update the state to `state` under the
/// update masks `masks`.
pub open spec fn updates_with(
    r: UpdateStateRequest,
    state: ank_base::CompleteStateView,
    masks: Seq<Seq<char>>,
) -> bool {
    &&& is_uuid_v4_text(r.request_id@)
    &&& r.request.request_id == r.request_id
    &&& r.request.request_content matches Some(ank_base::RequestContent::UpdateStateRequest(u))
        && u.update_mask.deep_view() == masks && (u.new_state matches Some(s) && s.deep_view()
        == state)
}

/// A request whose state is that of `CompleteState::new()`.
fn deleting_request(masks: Vec<String>) -> (r: UpdateStateRequest)
    ensures
        updates_with(r, empty_state_view(), masks.deep_view()),
{
    let cs = CompleteState::new();
    let r = UpdateStateRequest::new(&cs, masks);
    proof {
        assert(cs.complete_state.deep_view() =~= empty_state_view());
    }
    r
}

/// The masks `[mask]`.
fn one_mask(mask: String) -> (r: Vec<String>)
    ensures
        r.deep_view() == seq![mask@],
{
    let v = vec![mask];
    proof {
        assert(v.deep_view() =~= seq![mask@]);
    }
    v
}

/// The request that applies a manifest: its workloads and configs, under the
/// masks of the manifest.
pub fn apply_manifest_request(manifest: &Manifest) -> (r: UpdateStateRequest)
    requires
        manifest_loadable(manifest.manifest@),
    ensures
        exists|cs: CompleteState|
            holds_manifest(cs, manifest.manifest@) && updates_with(
                r,
                cs.complete_state.deep_view(),
                manifest_masks(manifest.manifest@),
            ),
{
    proof {
        let m = manifest.manifest@;
        assert forall|i: int| 0 <= i < manifest_workloads(m).len() implies (
        #[trigger] manifest_workloads(m)[i]).0 is Str by {
            let wv = yaml_field(m, ystr("workloads"@)).unwrap();
            assert(manifest_workloads(m) == wv->Mapping_0);
            assert(loadable_workload_entry(wv->Mapping_0[i]));
        }
        assert forall|i: int| 0 <= i < manifest_configs(m).len() implies (
        #[trigger] manifest_configs(m)[i]).0 is Str by {
            let cv = yaml_field(m, ystr("configs"@)).unwrap();
            assert(manifest_configs(m) == cv->Mapping_0);
            assert((cv->Mapping_0[i]).0 is Str);
        }
    }
    let masks = manifest.calculate_masks();
    let cs = CompleteState::new_from_manifest(manifest);
    let r = UpdateStateRequest::new(&cs, masks);
    proof {
        assert(holds_manifest(cs, manifest.manifest@));
    }
    r
}

/// The request that deletes what a manifest describes: the empty state under
/// the masks of the manifest.
pub fn delete_manifest_request(manifest: &Manifest) -> (r: UpdateStateRequest)
    requires
        names_are_text(manifest.manifest@),
    ensures
        updates_with(r, empty_state_view(), manifest_masks(manifest.manifest@)),
{
    deleting_request(manifest.calculate_masks())
}

/// The request that applies a workload: a state holding only it, under the
/// masks of the workload.
pub fn apply_workload_request(workload: Workload) -> (r: UpdateStateRequest)
    ensures
        exists|cs: CompleteState|
            holds_workloads(cs, seq![workload]) && updates_with(
                r,
                cs.complete_state.deep_view(),
                workload.masks.deep_view(),
            ),
{
    let masks = crate::ank_base::clone_strings(&workload.masks);
    let ghost w = workload;
    let cs = CompleteState::new_from_workloads(vec![workload]);
    let r = UpdateStateRequest::new(&cs, masks);
    proof {
        assert(cs.workloads@ =~= seq![w]);
        assert(holds_workloads(cs, seq![w]));
    }
    r
}

/// The request that deletes the workload `workload_name`.
pub fn delete_workload_request(workload_name: &str) -> (r: UpdateStateRequest)
    ensures
        updates_with(r, empty_state_view(), seq![child_mask(WORKLOADS_PREFIX@, workload_name@)]),
{
    deleting_request(one_mask(child_mask_text(WORKLOADS_PREFIX, workload_name)))
}

/// The request that replaces all configs by `configs`.
pub fn update_configs_request(configs: Vec<(String, YamlValue)>) -> (r: UpdateStateRequest)
    requires
        forall|i: int| 0 <= i < configs@.len() ==> config_value_ok(#[trigger] configs@[i].1@),
    ensures
        exists|cs: CompleteState|
            holds_configs(cs, configs@) && updates_with(
                r,
                cs.complete_state.deep_view(),
                seq![CONFIGS_PREFIX@],
            ),
{
    let ghost cfg = configs@;
    let cs = CompleteState::new_from_configs(configs);
    let r = UpdateStateRequest::new(&cs, one_mask(CONFIGS_PREFIX.to_owned()));
    proof {
        assert(holds_configs(cs, cfg));
    }
    r
}

/// The request that sets the config `name` to `value`.
pub fn add_config_request(name: String, value: YamlValue) -> (r: UpdateStateRequest)
    requires
        config_value_ok(value@),
    ensures
        exists|cs: CompleteState|
            holds_configs(cs, seq![(name, value)]) && updates_with(
                r,
                cs.complete_state.deep_view(),
                seq![child_mask(CONFIGS_PREFIX@, name@)],
            ),
{
    let mask = child_mask_text(CONFIGS_PREFIX, name.as_str());
    let ghost n = name;
    let ghost v = value;
    let configs = vec![(name, value)];
    proof {
        assert(configs@ =~= seq![(n, v)]);
    }
    let cs = CompleteState::new_from_configs(configs);
    let r = UpdateStateRequest::new(&cs, one_mask(mask));
    proof {
        assert(holds_configs(cs, seq![(n, v)]));
    }
    r
}

/// The request that deletes all configs.
pub fn delete_all_configs_request() -> (r: UpdateStateRequest)
    ensures
        updates_with(r, empty_state_view(), seq![CONFIGS_PREFIX@]),
{
    deleting_request(one_mask(CONFIGS_PREFIX.to_owned()))
}

/// The request that deletes the config `name`.
pub fn delete_config_request(name: &str) -> (r: UpdateStateRequest)
    ensures
        updates_with(r, empty_state_view(), seq![child_mask(CONFIGS_PREFIX@, name@)]),
{
    deleting_request(one_mask(child_mask_text(CONFIGS_PREFIX, name)))
}

/// What a response that arrives means for the request `request_id`: a
/// closed connection ends the wait with its reason; a response with the id
/// of the request answers it; any other response is passed over.
pub fn receive_response(response: Response, request_id: &str) -> (r: ReceiveStep)
    ensures
        match response.content {
            ResponseType::ConnectionClosedReason(reason) => r matches ReceiveStep::Closed(e) && e
                == AnkaiosError::ConnectionClosedError(reason),
            _ => if response.id@ == request_id@ {
                r matches ReceiveStep::Answer(a) && a == response
            } else {
                r is Skip
            },
        },
{
    match response.content {
        ResponseType::ConnectionClosedReason(reason) => {
            return ReceiveStep::Closed(AnkaiosError::ConnectionClosedError(reason));
        },
        _ => {},
    }
    if crate::strings::str_equal(response.id.as_str(), request_id) {
        ReceiveStep::Answer(response)
    } else {
        ReceiveStep::Skip
    }
}

/// The error when the responses stop before the answer arrives.
pub fn reading_closed_error() -> (r: AnkaiosError)
    ensures
        r matches AnkaiosError::ControlInterfaceError(m) && m@ == "Reading thread closed."@,
{
    AnkaiosError::ControlInterfaceError("Reading thread closed.".to_owned())
}

/// `e` is the error for a response of an unexpected kind.
pub open spec fn is_unexpected_response(e: AnkaiosError) -> bool {
    e matches AnkaiosError::ResponseError(m) && m@ == "Received unexpected response type."@
}

/// What an update (applying or deleting a manifest or a workload, setting
/// configs) gives from its response: the results on success, the cluster's
/// error, or an error for a response of another kind.
pub fn update_outcome(response: Response) -> (r: Result<UpdateStateSuccess, AnkaiosError>)
    ensures
        match response.content {
            ResponseType::UpdateStateSuccess(u) => r == Ok::<UpdateStateSuccess, AnkaiosError>(*u),
            ResponseType::Error(e) => r == Err::<UpdateStateSuccess, AnkaiosError>(
                AnkaiosError::AnkaiosResponseError(e),
            ),
            _ => r matches Err(e) && is_unexpected_response(e),
        },
{
    match response.content {
        ResponseType::UpdateStateSuccess(u) => Ok(*u),
        ResponseType::Error(e) => Err(AnkaiosError::AnkaiosResponseError(e)),
        _ => Err(AnkaiosError::ResponseError("Received unexpected response type.".to_owned())),
    }
}

/// What deleting configs gives from its response: nothing on success, the
/// cluster's error, or an error for a response of another kind.
pub fn delete_outcome(response: Response) -> (r: Result<(), AnkaiosError>)
    ensures
        match response.content {
            ResponseType::UpdateStateSuccess(_) => r is Ok,
            ResponseType::Error(e) => r == Err::<(), AnkaiosError>(
                AnkaiosError::AnkaiosResponseError(e),
            ),
            _ => r matches Err(e) && is_unexpected_response(e),
        },
{
    match response.content {
        ResponseType::UpdateStateSuccess(_) => Ok(()),
        ResponseType::Error(e) => Err(AnkaiosError::AnkaiosResponseError(e)),
        _ => Err(AnkaiosError::ResponseError("Received unexpected response type.".to_owned())),
    }
}

/// What asking for the state gives from its response, and whether the
/// connection counts as established afterwards: a complete state is the
/// answer; the cluster's error is passed on once the connection is
/// established, and before that it is taken as an empty state (the first
/// request only tests the connection); a response of another kind is an
/// error.
pub fn get_state_outcome(response: Response, connection_established: bool) -> (r: (
    Result<CompleteState, AnkaiosError>,
    bool,
))
    ensures
        match response.content {
            ResponseType::CompleteState(c) => r.0 == Ok::<CompleteState, AnkaiosError>(*c) && r.1,
            ResponseType::Error(e) => r.1 && if connection_established {
                r.0 == Err::<CompleteState, AnkaiosError>(AnkaiosError::AnkaiosResponseError(e))
            } else {
                r.0 matches Ok(s) && s.complete_state.desired_state matches Some(d)
                    && d.api_version@ == crate::complete_state::supported_api_version()
                    && d.workloads is None && d.configs is None && s.workloads@.len() == 0
                    && s.configs.entries@.len() == 0
            },
            _ => (r.0 matches Err(e) && is_unexpected_response(e)) && r.1 == connection_established,
        },
{
    match response.content {
        ResponseType::CompleteState(c) => (Ok(*c), true),
        ResponseType::Error(e) => {
            if connection_established {
                (Err(AnkaiosError::AnkaiosResponseError(e)), true)
            } else {
                (Ok(CompleteState::new()), true)
            }
        },
        _ => (
            Err(AnkaiosError::ResponseError("Received unexpected response type.".to_owned())),
            connection_established,
        ),
    }
}

/// What requesting logs gives from its response: the accepted workload
/// instances, the cluster's error, or an error naming the kind of an
/// unexpected response.
pub fn request_logs_outcome(response: Response) -> (r: Result<Vec<WorkloadInstanceName>, AnkaiosError>)
    ensures
        match response.content {
            ResponseType::LogsRequestAccepted(names) => r == Ok::<
                Vec<WorkloadInstanceName>,
                AnkaiosError,
            >(names),
            ResponseType::Error(e) => r == Err::<Vec<WorkloadInstanceName>, AnkaiosError>(
                AnkaiosError::AnkaiosResponseError(e),
            ),
            _ => r matches Err(AnkaiosError::ResponseError(m)) && m@
                == "Received unexpected response type: '"@ + response_type_name(response.content)
                + "'"@,
        },
{
    match response.content {
        ResponseType::LogsRequestAccepted(names) => Ok(names),
        ResponseType::Error(e) => Err(AnkaiosError::AnkaiosResponseError(e)),
        other => {
            let mut m = "Received unexpected response type: '".to_owned();
            m.append(other.to_string().as_str());
            m.append("'");
            Err(AnkaiosError::ResponseError(m))
        },
    }
}

/// What stopping logs gives from its response: nothing when the cluster
/// accepted, the cluster's error, or an error for a response of another
/// kind.
pub fn stop_logs_outcome(response: Response) -> (r: Result<(), AnkaiosError>)
    ensures
        match response.content {
            ResponseType::LogsCancelAccepted => r is Ok,
            ResponseType::Error(e) => r == Err::<(), AnkaiosError>(
                AnkaiosError::AnkaiosResponseError(e),
            ),
            _ => r matches Err(e) && is_unexpected_response(e),
        },
{
    match response.content {
        ResponseType::LogsCancelAccepted => Ok(()),
        ResponseType::Error(e) => Err(AnkaiosError::AnkaiosResponseError(e)),
        _ => Err(AnkaiosError::ResponseError("Received unexpected response type.".to_owned())),
    }
}

/// The execution state of the first of the workload states, or an error
/// when there is none.
pub fn first_execution_state(states: &Vec<WorkloadState>) -> (r: Result<
    WorkloadExecutionState,
    AnkaiosError,
>)
    ensures
        states@.len() > 0 ==> r == Ok::<WorkloadExecutionState, AnkaiosError>(
            states@[0].execution_state,
        ),
        states@.len() == 0 ==> (r matches Err(AnkaiosError::AnkaiosResponseError(m)) && m@
            == "No workload states found."@),
{
    if states.len() > 0 {
        Ok(states[0].execution_state.duplicate())
    } else {
        Err(AnkaiosError::AnkaiosResponseError("No workload states found.".to_owned()))
    }
}

/// The execution state that the last of `states` with the instance name
/// (`agent`, `workload`, `id`) has, if any of them has it.
pub open spec fn last_state_for(
    states: Seq<WorkloadState>,
    agent: Seq<char>,
    workload: Seq<char>,
    id: Seq<char>,
) -> Option<WorkloadExecutionState>
    decreases states.len(),
{
    if states.len() == 0 {
        None
    } else {
        let s = states.last();
        if s.workload_instance_name.agent_name@ == agent && s.workload_instance_name.workload_name@
            == workload && s.workload_instance_name.workload_id@ == id {
            Some(s.execution_state)
        } else {
            last_state_for(states.drop_last(), agent, workload, id)
        }
    }
}

/// The workload states of `states` whose workload is named `workload_name`:
/// for each of their instance names, the state that the last of them with
/// that name has.
pub fn workload_states_for_name(states: &Vec<WorkloadState>, workload_name: &str) -> (r:
    WorkloadStateCollection)
    ensures
        r.wf(),
        forall|a: Seq<char>, n: Seq<char>, i: Seq<char>|
            #[trigger] r.lookup(a, n, i) == if n == workload_name@ {
                last_state_for(states@, a, n, i)
            } else {
                None
            },
{
    let mut out = WorkloadStateCollection::new();
    let mut i: usize = 0;
    while i < states.len()
        invariant
            0 <= i <= states@.len(),
            out.wf(),
            forall|a: Seq<char>, n: Seq<char>, x: Seq<char>|
                #[trigger] out.lookup(a, n, x) == if n == workload_name@ {
                    last_state_for(states@.take(i as int), a, n, x)
                } else {
                    None
                },
        decreases states@.len() - i,
    {
        let ghost prev = out;
        proof {
            assert(states@.take(i + 1).drop_last() =~= states@.take(i as int));
            assert(states@.take(i + 1).last() == states@[i as int]);
        }
        if crate::strings::str_equal(states[i].workload_instance_name.workload_name.as_str(), workload_name) {
            out.add_workload_state(states[i].duplicate());
        }
        i = i + 1;
    }
    proof {
        assert(states@.take(i as int) =~= states@);
    }
    out
}

} // verus!
