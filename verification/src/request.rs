//! The requests that the SDK sends to the cluster: for the state, to update
//! the state, for logs and to stop logs. Each request has a fresh id.

use vstd::prelude::*;
use crate::ank_base::{self, DeepCopy};
use crate::complete_state::CompleteState;
use crate::workload_state::WorkloadInstanceName;
use crate::texts::{DebugText, request_text};

verus! {

/// A lowercase hexadecimal digit.
pub open spec fn is_lower_hex(c: char) -> bool {
    ('0' <= c && c <= '9') || ('a' <= c && c <= 'f')
}

/// The hyphenated lowercase text of a random (version 4) UUID: 36
/// characters, hyphens at positions 8, 13, 18 and 23, the version digit `4`
/// at position 14, a variant digit among `8`, `9`, `a`, `b` at position 19,
/// and lowercase hexadecimal digits elsewhere.
pub open spec fn is_uuid_v4_text(s: Seq<char>) -> bool {
    &&& s.len() == 36
    &&& forall|i: int|
        0 <= i < 36 ==> if i == 8 || i == 13 || i == 18 || i == 23 {
            s[i] == '-'
        } else {
            is_lower_hex(#[trigger] s[i])
        }
    &&& s[14] == '4'
    &&& (s[19] == '8' || s[19] == '9' || s[19] == 'a' || s[19] == 'b')
}

/// A fresh request id: `uuid::Uuid::new_v4` formatted by its `Display`
/// impl, which writes the hyphenated lowercase form. The id is random; the
/// contract states only its form.
#[verifier::external_body]
fn new_request_id() -> (r: String)
    ensures
        is_uuid_v4_text(r@),
{
    uuid::Uuid::new_v4().to_string()
}


/// A request to the cluster.
pub trait Request {
    /// The protocol form of the request, by its deep view.
    spec fn proto_view(&self) -> (Seq<char>, Option<ank_base::RequestContentView>);

    /// The id of the request.
    spec fn id_view(&self) -> Seq<char>;

    /// The request in the protocol form.
    fn to_proto(&self) -> (r: ank_base::Request)
        ensures
            r.deep_view() == self.proto_view(),
    ;

    /// The id of the request.
    fn get_id(&self) -> (r: String)
        ensures
            r@ == self.id_view(),
    ;
}

/// A request for the complete state, filtered by field masks.
#[derive(Debug, PartialEq, Eq)]
pub struct GetStateRequest {
    /// The request in the protocol form.
    pub request: ank_base::Request,
    /// The id of the request.
    pub request_id: String,
}

/// A request to update the state.
#[derive(Debug, PartialEq, Eq)]
pub struct UpdateStateRequest {
    /// The request in the protocol form.
    pub request: ank_base::Request,
    /// The id of the request.
    pub request_id: String,
}

/// A request for the logs of workload instances.
#[derive(Debug, PartialEq, Eq)]
pub struct LogsRequest {
    /// The request in the protocol form.
    pub request: ank_base::Request,
    /// The id of the request.
    pub request_id: String,
}

/// A request to stop the logs of an earlier logs request; it carries the id
/// of that request.
#[derive(Debug, PartialEq, Eq)]
pub struct LogsCancelRequest {
    /// The request in the protocol form.
    pub request: ank_base::Request,
    /// The id of the request.
    pub request_id: String,
}

impl GetStateRequest {
    /// A request with a fresh id for the complete state, filtered by the
    /// field masks `masks`.
    pub fn new(masks: Vec<String>) -> (r: Self)
        ensures
            is_uuid_v4_text(r.request_id@),
            r.request.request_id == r.request_id,
            r.request.request_content == Some(
                ank_base::RequestContent::CompleteStateRequest(
                    ank_base::CompleteStateRequest { field_mask: masks },
                ),
            ),
    {
        let request_id = new_request_id();
        GetStateRequest {
            request: ank_base::Request {
                request_id: request_id.clone(),
                request_content: Some(
                    ank_base::RequestContent::CompleteStateRequest(
                        ank_base::CompleteStateRequest { field_mask: masks },
                    ),
                ),
            },
            request_id,
        }
    }

    /// The text of the request in the protocol form (see `request_text`).
    pub fn to_string(&self) -> (r: String)
        ensures
            r@ == request_text(self.request.deep_view()),
    {
        self.request.debug_text()
    }
}

impl Request for GetStateRequest {
    open spec fn proto_view(&self) -> (Seq<char>, Option<ank_base::RequestContentView>) {
        self.request.deep_view()
    }

    open spec fn id_view(&self) -> Seq<char> {
        self.request_id@
    }

    fn to_proto(&self) -> (r: ank_base::Request) {
        self.request.deep_copy()
    }

    fn get_id(&self) -> (r: String) {
        self.request_id.clone()
    }
}

impl UpdateStateRequest {
    /// A request with a fresh id to update the state to `complete_state`
    /// under the update masks `masks`.
    pub fn new(complete_state: &CompleteState, masks: Vec<String>) -> (r: Self)
        ensures
            is_uuid_v4_text(r.request_id@),
            r.request.request_id == r.request_id,
            r.request.request_content matches Some(ank_base::RequestContent::UpdateStateRequest(u))
                && u.update_mask == masks && (u.new_state matches Some(s) && s.deep_view()
                == complete_state.complete_state.deep_view()),
    {
        let request_id = new_request_id();
        UpdateStateRequest {
            request: ank_base::Request {
                request_id: request_id.clone(),
                request_content: Some(
                    ank_base::RequestContent::UpdateStateRequest(
                        ank_base::UpdateStateRequest {
                            new_state: Some(complete_state.to_proto()),
                            update_mask: masks,
                        },
                    ),
                ),
            },
            request_id,
        }
    }

    /// The text of the request in the protocol form (see `request_text`).
    pub fn to_string(&self) -> (r: String)
        ensures
            r@ == request_text(self.request.deep_view()),
    {
        self.request.debug_text()
    }
}

impl Request for UpdateStateRequest {
    open spec fn proto_view(&self) -> (Seq<char>, Option<ank_base::RequestContentView>) {
        self.request.deep_view()
    }

    open spec fn id_view(&self) -> Seq<char> {
        self.request_id@
    }

    fn to_proto(&self) -> (r: ank_base::Request) {
        self.request.deep_copy()
    }

    fn get_id(&self) -> (r: String) {
        self.request_id.clone()
    }
}

impl LogsRequest {
    /// A request with a fresh id for the logs of the workload instances
    /// `instance_names`: following them or not, the last `tail` lines (all
    /// for a negative number), after `since` and before `until` (RFC 3339
    /// timestamps).
    pub fn new(
        instance_names: Vec<WorkloadInstanceName>,
        follow: bool,
        tail: i32,
        since: Option<String>,
        until: Option<String>,
    ) -> (r: Self)
        ensures
            is_uuid_v4_text(r.request_id@),
            r.request.request_id == r.request_id,
            r.request.request_content matches Some(ank_base::RequestContent::LogsRequest(l))
                && l.follow == Some(follow) && l.tail == Some(tail) && l.since == since && l.until
                == until && l.workload_names@.len() == instance_names@.len() && forall|i: int|
                0 <= i < instance_names@.len() ==> {
                    let p = #[trigger] l.workload_names@[i];
                    &&& p.agent_name == instance_names@[i].agent_name
                    &&& p.workload_name == instance_names@[i].workload_name
                    &&& p.id == instance_names@[i].workload_id
                },
    {
        let request_id = new_request_id();
        let mut names: Vec<ank_base::WorkloadInstanceName> = Vec::new();
        let mut i: usize = 0;
        while i < instance_names.len()
            invariant
                0 <= i <= instance_names@.len(),
                names@.len() == i,
                forall|j: int|
                    0 <= j < i ==> {
                        let p = #[trigger] names@[j];
                        &&& p.agent_name == instance_names@[j].agent_name
                        &&& p.workload_name == instance_names@[j].workload_name
                        &&& p.id == instance_names@[j].workload_id
                    },
            decreases instance_names@.len() - i,
        {
            names.push(instance_names[i].to_proto());
            i = i + 1;
        }
        LogsRequest {
            request: ank_base::Request {
                request_id: request_id.clone(),
                request_content: Some(
                    ank_base::RequestContent::LogsRequest(
                        ank_base::LogsRequest {
                            workload_names: names,
                            follow: Some(follow),
                            tail: Some(tail),
                            since,
                            until,
                        },
                    ),
                ),
            },
            request_id,
        }
    }

    /// The text of the request in the protocol form (see `request_text`).
    pub fn to_string(&self) -> (r: String)
        ensures
            r@ == request_text(self.request.deep_view()),
    {
        self.request.debug_text()
    }
}

impl Request for LogsRequest {
    open spec fn proto_view(&self) -> (Seq<char>, Option<ank_base::RequestContentView>) {
        self.request.deep_view()
    }

    open spec fn id_view(&self) -> Seq<char> {
        self.request_id@
    }

    fn to_proto(&self) -> (r: ank_base::Request) {
        self.request.deep_copy()
    }

    fn get_id(&self) -> (r: String) {
        self.request_id.clone()
    }
}

impl LogsCancelRequest {
    /// A request to stop the logs of the logs request with the id
    /// `request_id`; it carries that id.
    pub fn new(request_id: String) -> (r: Self)
        ensures
            r.request_id == request_id,
            r.request.request_id == request_id,
            r.request.request_content == Some(ank_base::RequestContent::LogsCancelRequest),
    {
        LogsCancelRequest {
            request: ank_base::Request {
                request_id: request_id.clone(),
                request_content: Some(ank_base::RequestContent::LogsCancelRequest),
            },
            request_id,
        }
    }
}

impl Request for LogsCancelRequest {
    open spec fn proto_view(&self) -> (Seq<char>, Option<ank_base::RequestContentView>) {
        self.request.deep_view()
    }

    open spec fn id_view(&self) -> Seq<char> {
        self.request_id@
    }

    fn to_proto(&self) -> (r: ank_base::Request) {
        self.request.deep_copy()
    }

    fn get_id(&self) -> (r: String) {
        self.request_id.clone()
    }
}

/// A request that sets an empty state under the mask `test_mask`, for
/// exercising a connection.
pub fn generate_test_request() -> (r: UpdateStateRequest)
    ensures
        is_uuid_v4_text(r.request_id@),
        r.request.request_id == r.request_id,
        r.request.request_content matches Some(ank_base::RequestContent::UpdateStateRequest(u))
            && u.update_mask@.len() == 1 && u.update_mask@[0]@ == "test_mask"@,
{
    let mut masks: Vec<String> = Vec::new();
    masks.push("test_mask".to_owned());
    UpdateStateRequest::new(&CompleteState::new(), masks)
}

} // verus!
