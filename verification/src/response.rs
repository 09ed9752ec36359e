//! The responses of the cluster as the SDK presents them.

use vstd::prelude::*;
use crate::ank_base;
use crate::complete_state::{CompleteState, proto_wf, state_from_proto};
use crate::log_types::LogEntry;
use crate::strings::{dot_parts, split_on_dots};
use crate::workload_state::{WorkloadInstanceName, instance_name_dict, instance_name_text};
use crate::yaml::{YamlValue, YamlView};
use crate::texts::DebugText;

verus! {

/// The results of an update: the workload instances that were added and
/// deleted.
#[derive(Debug, PartialEq, Eq)]
pub struct UpdateStateSuccess {
    /// The workload instances that were added.
    pub added_workloads: Vec<WorkloadInstanceName>,
    /// The workload instances that were deleted.
    pub deleted_workloads: Vec<WorkloadInstanceName>,
}

impl DeepView for UpdateStateSuccess {
    type V = (Seq<(Seq<char>, Seq<char>, Seq<char>)>, Seq<(Seq<char>, Seq<char>, Seq<char>)>);

    open spec fn deep_view(&self) -> Self::V {
        (self.added_workloads.deep_view(), self.deleted_workloads.deep_view())
    }
}

/// An event of an events campaign as the SDK presents it: the complete
/// state after the change, if the event carries one, and the masks of the
/// fields that the change added, updated and removed.
#[derive(Debug)]
pub struct EventEntry {
    /// The complete state after the change.
    pub complete_state: Option<CompleteState>,
    /// The masks of the fields that the change added.
    pub added_fields: Vec<String>,
    /// The masks of the fields that the change updated.
    pub updated_fields: Vec<String>,
    /// The masks of the fields that the change removed.
    pub removed_fields: Vec<String>,
}

impl DeepView for EventEntry {
    type V = (
        Option<<CompleteState as DeepView>::V>,
        Seq<Seq<char>>,
        Seq<Seq<char>>,
        Seq<Seq<char>>,
    );

    open spec fn deep_view(&self) -> Self::V {
        (
            self.complete_state.deep_view(),
            self.added_fields.deep_view(),
            self.updated_fields.deep_view(),
            self.removed_fields.deep_view(),
        )
    }
}

/// What a response holds.
#[derive(Debug)]
pub enum ResponseType {
    /// The complete state of the cluster.
    CompleteState(Box<CompleteState>),
    /// The results of an update.
    UpdateStateSuccess(Box<UpdateStateSuccess>),
    /// An error reported by the cluster.
    Error(String),
    /// The reason why the cluster closed the connection.
    ConnectionClosedReason(String),
    /// Log entries of a log campaign.
    LogEntriesResponse(Vec<LogEntry>),
    /// The workload instances whose logs will be delivered.
    LogsRequestAccepted(Vec<WorkloadInstanceName>),
    /// The logs of a workload instance have ended.
    LogsStopResponse(WorkloadInstanceName),
    /// A log campaign was stopped.
    LogsCancelAccepted,
    /// An event of an events campaign.
    EventResponse(Box<EventEntry>),
}

/// The mathematical view of a [`ResponseType`].
pub enum ResponseTypeView {
    CompleteState(<CompleteState as DeepView>::V),
    UpdateStateSuccess(<UpdateStateSuccess as DeepView>::V),
    Error(Seq<char>),
    ConnectionClosedReason(Seq<char>),
    LogEntriesResponse(Seq<<LogEntry as DeepView>::V>),
    LogsRequestAccepted(Seq<(Seq<char>, Seq<char>, Seq<char>)>),
    LogsStopResponse((Seq<char>, Seq<char>, Seq<char>)),
    LogsCancelAccepted,
    EventResponse(<EventEntry as DeepView>::V),
}

impl DeepView for ResponseType {
    type V = ResponseTypeView;

    open spec fn deep_view(&self) -> ResponseTypeView {
        match self {
            ResponseType::CompleteState(c) => ResponseTypeView::CompleteState(c.deep_view()),
            ResponseType::UpdateStateSuccess(u) => ResponseTypeView::UpdateStateSuccess(u.deep_view()),
            ResponseType::Error(e) => ResponseTypeView::Error(e@),
            ResponseType::ConnectionClosedReason(e) => ResponseTypeView::ConnectionClosedReason(e@),
            ResponseType::LogEntriesResponse(es) => ResponseTypeView::LogEntriesResponse(es.deep_view()),
            ResponseType::LogsRequestAccepted(ns) => ResponseTypeView::LogsRequestAccepted(
                ns.deep_view(),
            ),
            ResponseType::LogsStopResponse(n) => ResponseTypeView::LogsStopResponse(n.deep_view()),
            ResponseType::LogsCancelAccepted => ResponseTypeView::LogsCancelAccepted,
            ResponseType::EventResponse(e) => ResponseTypeView::EventResponse(e.deep_view()),
        }
    }
}

/// The name of the kind of a response.
pub open spec fn response_type_name(t: ResponseType) -> Seq<char> {
    match t {
        ResponseType::CompleteState(_) => "CompleteState"@,
        ResponseType::UpdateStateSuccess(_) => "UpdateStateSuccess"@,
        ResponseType::Error(_) => "Error"@,
        ResponseType::ConnectionClosedReason(_) => "ConnectionClosedReason"@,
        ResponseType::LogEntriesResponse(_) => "LogEntriesResponse"@,
        ResponseType::LogsRequestAccepted(_) => "LogsRequestAccepted"@,
        ResponseType::LogsStopResponse(_) => "LogsStopResponse"@,
        ResponseType::LogsCancelAccepted => "LogsCancelAccepted"@,
        ResponseType::EventResponse(_) => "EventResponse"@,
    }
}

impl ResponseType {
    /// The name of the kind of this response.
    pub fn to_string(&self) -> (r: String)
        ensures
            r@ == response_type_name(*self),
    {
        let name = match self {
            ResponseType::CompleteState(_) => "CompleteState",
            ResponseType::UpdateStateSuccess(_) => "UpdateStateSuccess",
            ResponseType::Error(_) => "Error",
            ResponseType::ConnectionClosedReason(_) => "ConnectionClosedReason",
            ResponseType::LogEntriesResponse(_) => "LogEntriesResponse",
            ResponseType::LogsRequestAccepted(_) => "LogsRequestAccepted",
            ResponseType::LogsStopResponse(_) => "LogsStopResponse",
            ResponseType::LogsCancelAccepted => "LogsCancelAccepted",
            ResponseType::EventResponse(_) => "EventResponse",
        };
        name.to_owned()
    }

    /// A copy of this content.
    pub fn duplicate(&self) -> (r: Self)
        ensures
            r.deep_view() == self.deep_view(),
    {
        match self {
            ResponseType::CompleteState(c) => ResponseType::CompleteState(Box::new(c.duplicate())),
            ResponseType::UpdateStateSuccess(u) => ResponseType::UpdateStateSuccess(
                Box::new(
                    UpdateStateSuccess {
                        added_workloads: clone_names(&u.added_workloads),
                        deleted_workloads: clone_names(&u.deleted_workloads),
                    },
                ),
            ),
            ResponseType::Error(e) => ResponseType::Error(e.clone()),
            ResponseType::ConnectionClosedReason(e) => ResponseType::ConnectionClosedReason(e.clone()),
            ResponseType::LogEntriesResponse(es) => {
                let mut out: Vec<LogEntry> = Vec::new();
                let mut i: usize = 0;
                while i < es.len()
                    invariant
                        0 <= i <= es@.len(),
                        out@ == es@.take(i as int),
                    decreases es@.len() - i,
                {
                    out.push(es[i].duplicate());
                    proof {
                        assert(out@ =~= es@.take(i + 1));
                    }
                    i = i + 1;
                }
                proof {
                    assert(es@.take(i as int) =~= es@);
                }
                ResponseType::LogEntriesResponse(out)
            },
            ResponseType::LogsRequestAccepted(ns) => ResponseType::LogsRequestAccepted(clone_names(ns)),
            ResponseType::LogsStopResponse(n) => ResponseType::LogsStopResponse(n.duplicate()),
            ResponseType::LogsCancelAccepted => ResponseType::LogsCancelAccepted,
            ResponseType::EventResponse(e) => {
                let complete_state = match &e.complete_state {
                    Some(c) => Some(c.duplicate()),
                    None => None,
                };
                ResponseType::EventResponse(
                    Box::new(
                        EventEntry {
                            complete_state,
                            added_fields: ank_base::clone_strings(&e.added_fields),
                            updated_fields: ank_base::clone_strings(&e.updated_fields),
                            removed_fields: ank_base::clone_strings(&e.removed_fields),
                        },
                    ),
                )
            },
        }
    }
}

/// A copy of a list of instance names.
fn clone_names(v: &Vec<WorkloadInstanceName>) -> (r: Vec<WorkloadInstanceName>)
    ensures
        r@ == v@,
{
    let mut out: Vec<WorkloadInstanceName> = Vec::new();
    let mut i: usize = 0;
    while i < v.len()
        invariant
            0 <= i <= v@.len(),
            out@ == v@.take(i as int),
        decreases v@.len() - i,
    {
        out.push(v[i].duplicate());
        proof {
            assert(out@ =~= v@.take(i + 1));
        }
        i = i + 1;
    }
    proof {
        assert(v@.take(i as int) =~= v@);
    }
    out
}

/// A response of the cluster: its content and the id of the request it
/// answers.
#[derive(Debug)]
pub struct Response {
    /// The content of the response.
    pub content: ResponseType,
    /// The id of the request that the response answers.
    pub id: String,
}

/// The instance names of `names` (each `workload_name.workload_id.agent_name`)
/// that have exactly three parts, as (agent, workload, id), in order.
pub open spec fn parsed_instance_names(names: Seq<Seq<char>>) -> Seq<(Seq<char>, Seq<char>, Seq<char>)>
    decreases names.len(),
{
    if names.len() == 0 {
        Seq::empty()
    } else {
        let prev = parsed_instance_names(names.drop_last());
        let parts = dot_parts(names.last());
        if parts.len() == 3 {
            prev.push((parts[2], parts[0], parts[1]))
        } else {
            prev
        }
    }
}

/// The instance names that an update reports, parsed.
fn parse_instance_names(names: &Vec<String>) -> (r: Vec<WorkloadInstanceName>)
    ensures
        r.deep_view() == parsed_instance_names(names.deep_view()),
{
    let ghost ns = names.deep_view();
    let mut out: Vec<WorkloadInstanceName> = Vec::new();
    let mut i: usize = 0;
    proof {
        assert(ns.take(0) =~= Seq::<Seq<char>>::empty());
    }
    while i < names.len()
        invariant
            ns == names.deep_view(),
            0 <= i <= names@.len(),
            out.deep_view() == parsed_instance_names(ns.take(i as int)),
        decreases names@.len() - i,
    {
        proof {
            assert(ns.take(i + 1).drop_last() =~= ns.take(i as int));
            assert(ns.take(i + 1).last() == names@[i as int]@);
        }
        let parts = split_on_dots(names[i].as_str());
        if parts.len() == 3 {
            let ghost prev = out.deep_view();
            let name = WorkloadInstanceName::new(parts[2].clone(), parts[0].clone(), parts[1].clone());
            out.push(name);
            proof {
                assert(parts.deep_view()[0] == parts@[0]@);
                assert(parts.deep_view()[1] == parts@[1]@);
                assert(parts.deep_view()[2] == parts@[2]@);
                assert(out.deep_view() =~= prev.push(name.deep_view()));
            }
        }
        i = i + 1;
    }
    proof {
        assert(ns.take(i as int) =~= ns);
    }
    out
}

/// The text of the results of an update from the `Debug` texts of the lists
/// of added and deleted workload instances.
pub open spec fn update_state_success_text_of(added: Seq<char>, deleted: Seq<char>) -> Seq<char> {
    "UpdateStateSuccess: added_workloads: "@ + added + ", deleted_workloads: "@ + deleted
}

/// The text of the results of an update from the `Debug` texts of its lists.
pub fn update_state_success_text(added: &str, deleted: &str) -> (r: String)
    ensures
        r@ == update_state_success_text_of(added@, deleted@),
{
    let mut s = "UpdateStateSuccess: added_workloads: ".to_owned();
    s.append(added);
    s.append(", deleted_workloads: ");
    s.append(deleted);
    s
}

impl UpdateStateSuccess {
    /// The results of an update as the SDK presents them: each reported
    /// instance name `workload_name.workload_id.agent_name` with exactly
    /// three parts; other names are left out.
    pub fn new_from_proto(update_state_success: ank_base::UpdateStateSuccess) -> (r: Self)
        ensures
            r.added_workloads.deep_view() == parsed_instance_names(
                update_state_success.added_workloads.deep_view(),
            ),
            r.deleted_workloads.deep_view() == parsed_instance_names(
                update_state_success.deleted_workloads.deep_view(),
            ),
    {
        UpdateStateSuccess {
            added_workloads: parse_instance_names(&update_state_success.added_workloads),
            deleted_workloads: parse_instance_names(&update_state_success.deleted_workloads),
        }
    }

    /// The textual form `UpdateStateSuccess: added_workloads: [..],
    /// deleted_workloads: [..]`, each list in its `Debug` form.
    pub fn to_string(&self) -> (r: String)
        ensures
            r@ == update_state_success_text_of(
                <Vec<WorkloadInstanceName> as DebugText>::text_of(self.added_workloads.deep_view()),
                <Vec<WorkloadInstanceName> as DebugText>::text_of(self.deleted_workloads.deep_view()),
            ),
    {
        let added = self.added_workloads.debug_text();
        let deleted = self.deleted_workloads.debug_text();
        update_state_success_text(added.as_str(), deleted.as_str())
    }

    /// The results as named lists of instance names in mapping form: first
    /// the added, then the deleted workloads.
    pub fn to_dict(&self) -> (r: Vec<(String, Vec<YamlValue>)>)
        ensures
            r@.len() == 2,
            r@[0].0@ == "added_workloads"@,
            r@[1].0@ == "deleted_workloads"@,
            r@[0].1.deep_view() == names_dicts(self.added_workloads@),
            r@[1].1.deep_view() == names_dicts(self.deleted_workloads@),
    {
        let mut out: Vec<(String, Vec<YamlValue>)> = Vec::new();
        out.push(("added_workloads".to_owned(), names_to_dicts(&self.added_workloads)));
        out.push(("deleted_workloads".to_owned(), names_to_dicts(&self.deleted_workloads)));
        out
    }
}

/// The mapping forms of instance names, in order.
pub open spec fn names_dicts(names: Seq<WorkloadInstanceName>) -> Seq<YamlView> {
    Seq::new(
        names.len(),
        |i: int|
            instance_name_dict(
                names[i].agent_name@,
                names[i].workload_name@,
                names[i].workload_id@,
            ),
    )
}

fn names_to_dicts(names: &Vec<WorkloadInstanceName>) -> (r: Vec<YamlValue>)
    ensures
        r.deep_view() == names_dicts(names@),
{
    let mut out: Vec<YamlValue> = Vec::new();
    let mut i: usize = 0;
    while i < names.len()
        invariant
            0 <= i <= names@.len(),
            out.deep_view() == names_dicts(names@).take(i as int),
        decreases names@.len() - i,
    {
        let d = names[i].to_dict();
        let ghost prev = out.deep_view();
        out.push(d);
        proof {
            assert(out.deep_view() =~= prev.push(d@));
            assert(out.deep_view() =~= names_dicts(names@).take(i + 1));
        }
        i = i + 1;
    }
    proof {
        assert(names_dicts(names@).take(i as int) =~= names_dicts(names@));
    }
    out
}

/// A message of the cluster that the SDK can present: its complete states
/// hold no repeated names, and its log entries and stopped logs name their
/// workload instances.
pub open spec fn message_ok(m: ank_base::FromAnkaios) -> bool {
    match m.from_ankaios_enum {
        Some(ank_base::FromAnkaiosEnum::Response(r)) => match r.response_content {
            Some(ank_base::ResponseContent::CompleteState(cs)) => proto_wf(cs),
            Some(ank_base::ResponseContent::LogEntriesResponse(es)) => forall|i: int|
                0 <= i < es@.len() ==> (#[trigger] es@[i]).workload_name is Some,
            Some(ank_base::ResponseContent::LogsStopResponse(n)) => n is Some,
            Some(ank_base::ResponseContent::EventResponse(e)) => match e.complete_state {
                Some(cs) => proto_wf(cs),
                None => true,
            },
            _ => true,
        },
        _ => true,
    }
}

/// Whether a protocol state holds no repeated names.
pub fn is_proto_wf(cs: &ank_base::CompleteState) -> (r: bool)
    ensures
        r == proto_wf(*cs),
{
    match &cs.desired_state {
        Some(s) => {
            match &s.workloads {
                Some(w) => {
                    if !w.has_unique_keys() {
                        return false;
                    }
                },
                None => {},
            }
            match &s.configs {
                Some(c) => {
                    if !c.has_unique_keys() {
                        return false;
                    }
                },
                None => {},
            }
        },
        None => {},
    }
    match &cs.workload_states {
        Some(m) => crate::keyed::has_unique_keys3(&m.agent_state_map),
        None => true,
    }
}

/// Whether a message of the cluster is one that the SDK can present.
pub fn is_message_ok(m: &ank_base::FromAnkaios) -> (r: bool)
    ensures
        r == message_ok(*m),
{
    match &m.from_ankaios_enum {
        Some(ank_base::FromAnkaiosEnum::Response(resp)) => match &resp.response_content {
            Some(ank_base::ResponseContent::CompleteState(cs)) => is_proto_wf(cs),
            Some(ank_base::ResponseContent::LogEntriesResponse(es)) => {
                let mut i: usize = 0;
                while i < es.len()
                    invariant
                        m.from_ankaios_enum == Some(ank_base::FromAnkaiosEnum::Response(*resp)),
                        resp.response_content == Some(
                            ank_base::ResponseContent::LogEntriesResponse(*es),
                        ),
                        i <= es@.len(),
                        forall|k: int| 0 <= k < i ==> (#[trigger] es@[k]).workload_name is Some,
                    decreases es@.len() - i,
                {
                    if es[i].workload_name.is_none() {
                        proof {
                            assert(!(es@[i as int].workload_name is Some));
                        }
                        return false;
                    }
                    i = i + 1;
                }
                true
            },
            Some(ank_base::ResponseContent::LogsStopResponse(n)) => n.is_some(),
            Some(ank_base::ResponseContent::EventResponse(e)) => match &e.complete_state {
                Some(cs) => is_proto_wf(cs),
                None => true,
            },
            _ => true,
        },
        _ => true,
    }
}

/// The SDK form of an instance name in the protocol form.
pub open spec fn name_from_proto(n: ank_base::WorkloadInstanceName) -> (Seq<char>, Seq<char>, Seq<char>) {
    (n.agent_name@, n.workload_name@, n.id@)
}

/// `r` is the SDK form of the message `m`: an empty message is the error
/// `Response is empty.`, a closed connection gives its reason, and a
/// response gives its content (a missing content is the error `Response
/// content is None.`) with the id of its request.
pub open spec fn response_from_message(r: Response, m: ank_base::FromAnkaios) -> bool {
    match m.from_ankaios_enum {
        None => r.id@ == Seq::<char>::empty() && (r.content matches ResponseType::Error(e) && e@
            == "Response is empty."@),
        Some(ank_base::FromAnkaiosEnum::ConnectionClosed(reason)) => r.id@ == Seq::<char>::empty()
            && (r.content matches ResponseType::ConnectionClosedReason(e) && e == reason),
        Some(ank_base::FromAnkaiosEnum::Response(p)) => r.id == p.request_id && match p.response_content {
            None => r.content matches ResponseType::Error(e) && e@ == "Response content is None."@,
            Some(ank_base::ResponseContent::Error(msg)) => r.content matches ResponseType::Error(e)
                && e == msg,
            Some(ank_base::ResponseContent::CompleteState(cs)) => r.content matches ResponseType::CompleteState(
                c,
            ) && state_from_proto(*c, cs),
            Some(ank_base::ResponseContent::UpdateStateSuccess(u)) => r.content matches ResponseType::UpdateStateSuccess(
                s,
            ) && s.added_workloads.deep_view() == parsed_instance_names(u.added_workloads.deep_view())
                && s.deleted_workloads.deep_view() == parsed_instance_names(
                u.deleted_workloads.deep_view(),
            ),
            Some(ank_base::ResponseContent::LogEntriesResponse(es)) => r.content matches ResponseType::LogEntriesResponse(
                out,
            ) && out@.len() == es@.len() && forall|i: int|
                0 <= i < es@.len() ==> (#[trigger] out@[i]).workload_name.deep_view()
                    == name_from_proto(es@[i].workload_name.unwrap()) && out@[i].message
                    == es@[i].message,
            Some(ank_base::ResponseContent::LogsRequestAccepted(ns)) => r.content matches ResponseType::LogsRequestAccepted(
                out,
            ) && out@.len() == ns@.len() && forall|i: int|
                0 <= i < ns@.len() ==> (#[trigger] out@[i]).deep_view() == name_from_proto(ns@[i]),
            Some(ank_base::ResponseContent::LogsStopResponse(n)) => r.content matches ResponseType::LogsStopResponse(
                out,
            ) && out.deep_view() == name_from_proto(n.unwrap()),
            Some(ank_base::ResponseContent::LogsCancelAccepted) => r.content matches ResponseType::LogsCancelAccepted,
            Some(ank_base::ResponseContent::EventResponse(ev)) => r.content matches ResponseType::EventResponse(
                out,
            ) && event_from_proto(*out, ev),
        },
    }
}

/// `e` is the SDK form of the event `ev`: the same field masks, and the
/// complete state of the event, if it carries one, in the SDK form.
pub open spec fn event_from_proto(e: EventEntry, ev: ank_base::EventEntry) -> bool {
    &&& e.added_fields.deep_view() == ev.added_fields.deep_view()
    &&& e.updated_fields.deep_view() == ev.updated_fields.deep_view()
    &&& e.removed_fields.deep_view() == ev.removed_fields.deep_view()
    &&& match ev.complete_state {
        Some(cs) => e.complete_state matches Some(c) && state_from_proto(c, cs),
        None => e.complete_state is None,
    }
}

impl Response {
    /// The SDK form of a message of the cluster.
    pub fn new(response: ank_base::FromAnkaios) -> (r: Self)
        requires
            message_ok(response),
        ensures
            response_from_message(r, response),
    {
        match response.from_ankaios_enum {
            Some(ank_base::FromAnkaiosEnum::Response(p)) => {
                let content = match p.response_content {
                    None => ResponseType::Error("Response content is None.".to_owned()),
                    Some(ank_base::ResponseContent::Error(msg)) => ResponseType::Error(msg),
                    Some(ank_base::ResponseContent::CompleteState(cs)) => ResponseType::CompleteState(
                        Box::new(CompleteState::new_from_proto(cs)),
                    ),
                    Some(ank_base::ResponseContent::UpdateStateSuccess(u)) => ResponseType::UpdateStateSuccess(
                        Box::new(UpdateStateSuccess::new_from_proto(u)),
                    ),
                    Some(ank_base::ResponseContent::LogEntriesResponse(es)) => {
                        let ghost src = es@;
                        let mut rest = es;
                        let mut out: Vec<LogEntry> = Vec::new();
                        while rest.len() > 0
                            invariant
                                out@.len() + rest@.len() == src.len(),
                                rest@ == src.skip(out@.len() as int),
                                forall|i: int| 0 <= i < src.len() ==> (#[trigger] src[i]).workload_name is Some,
                                forall|i: int|
                                    0 <= i < out@.len() ==> (#[trigger] out@[i]).workload_name.deep_view()
                                        == name_from_proto(src[i].workload_name.unwrap()) && out@[i].message
                                        == src[i].message,
                            decreases rest@.len(),
                        {
                            let ghost k: int = out@.len() as int;
                            let e = rest.remove(0);
                            proof {
                                assert(e == src[k]);
                                assert(rest@ =~= src.skip(k + 1));
                            }
                            out.push(LogEntry::from_proto(e));
                        }
                        ResponseType::LogEntriesResponse(out)
                    },
                    Some(ank_base::ResponseContent::LogsRequestAccepted(ns)) => {
                        let ghost src = ns@;
                        let mut rest = ns;
                        let mut out: Vec<WorkloadInstanceName> = Vec::new();
                        while rest.len() > 0
                            invariant
                                out@.len() + rest@.len() == src.len(),
                                rest@ == src.skip(out@.len() as int),
                                forall|i: int|
                                    0 <= i < out@.len() ==> (#[trigger] out@[i]).deep_view()
                                        == name_from_proto(src[i]),
                            decreases rest@.len(),
                        {
                            let ghost k: int = out@.len() as int;
                            let n = rest.remove(0);
                            proof {
                                assert(n == src[k]);
                                assert(rest@ =~= src.skip(k + 1));
                            }
                            out.push(WorkloadInstanceName::from_proto(n));
                        }
                        ResponseType::LogsRequestAccepted(out)
                    },
                    Some(ank_base::ResponseContent::LogsStopResponse(n)) => {
                        let name = match n {
                            Some(name) => name,
                            None => vstd::pervasive::unreached(),
                        };
                        ResponseType::LogsStopResponse(WorkloadInstanceName::from_proto(name))
                    },
                    Some(ank_base::ResponseContent::LogsCancelAccepted) => ResponseType::LogsCancelAccepted,
                    Some(ank_base::ResponseContent::EventResponse(ev)) => {
                        let ank_base::EventEntry {
                            complete_state,
                            added_fields,
                            updated_fields,
                            removed_fields,
                        } = ev;
                        let complete_state = match complete_state {
                            Some(cs) => Some(CompleteState::new_from_proto(cs)),
                            None => None,
                        };
                        ResponseType::EventResponse(
                            Box::new(
                                EventEntry {
                                    complete_state,
                                    added_fields,
                                    updated_fields,
                                    removed_fields,
                                },
                            ),
                        )
                    },
                };
                Response { content, id: p.request_id }
            },
            Some(ank_base::FromAnkaiosEnum::ConnectionClosed(reason)) => Response {
                content: ResponseType::ConnectionClosedReason(reason),
                id: String::new(),
            },
            None => Response {
                content: ResponseType::Error("Response is empty.".to_owned()),
                id: String::new(),
            },
        }
    }

    /// The id of the request that the response answers.
    pub fn get_request_id(&self) -> (r: String)
        ensures
            r == self.id,
    {
        self.id.clone()
    }

    /// A copy of the content of the response.
    pub fn get_content(&self) -> (r: ResponseType)
        ensures
            r.deep_view() == self.content.deep_view(),
    {
        self.content.duplicate()
    }
}

/// A message answering the request `req_id` with the addition of the
/// workload instance `workload_test.1234.agent_Test`, for exercising the
/// handling of responses.
pub fn generate_test_proto_update_state_success(req_id: String) -> (r: ank_base::FromAnkaios)
    ensures
        r.from_ankaios_enum matches Some(ank_base::FromAnkaiosEnum::Response(p)) && p.request_id
            == req_id && (p.response_content matches Some(
            ank_base::ResponseContent::UpdateStateSuccess(u),
        ) && u.added_workloads@.len() == 1 && u.added_workloads@[0]@
            == "workload_test.1234.agent_Test"@ && u.deleted_workloads@.len() == 0),
{
    let mut added: Vec<String> = Vec::new();
    added.push("workload_test.1234.agent_Test".to_owned());
    ank_base::FromAnkaios {
        from_ankaios_enum: Some(
            ank_base::FromAnkaiosEnum::Response(
                ank_base::Response {
                    request_id: req_id,
                    response_content: Some(
                        ank_base::ResponseContent::UpdateStateSuccess(
                            ank_base::UpdateStateSuccess {
                                added_workloads: added,
                                deleted_workloads: Vec::new(),
                            },
                        ),
                    ),
                },
            ),
        ),
    }
}

/// The SDK form of [`generate_test_proto_update_state_success`]: a response
/// to the request `req_id` that reports one added workload instance.
pub fn generate_test_response_update_state_success(req_id: String) -> (r: Response)
    ensures
        r.id == req_id,
        r.content matches ResponseType::UpdateStateSuccess(u) && u.added_workloads.deep_view()
            == parsed_instance_names(seq!["workload_test.1234.agent_Test"@])
            && u.deleted_workloads.deep_view() == Seq::<(Seq<char>, Seq<char>, Seq<char>)>::empty(),
{
    let message = generate_test_proto_update_state_success(req_id);
    proof {
        let u = message.from_ankaios_enum.unwrap()->Response_0.response_content.unwrap()->UpdateStateSuccess_0;
        assert(u.added_workloads.deep_view() =~= seq!["workload_test.1234.agent_Test"@]);
        assert(u.deleted_workloads.deep_view() =~= Seq::<Seq<char>>::empty());
        assert(parsed_instance_names(Seq::<Seq<char>>::empty()) == Seq::<
            (Seq<char>, Seq<char>, Seq<char>),
        >::empty());
    }
    Response::new(message)
}

} // verus!
