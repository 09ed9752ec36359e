use ankaios_sdk::ank_base;
use ankaios_sdk::complete_state::CompleteState;
use ankaios_sdk::log_types::LogEntry;
use ankaios_sdk::request::{
    generate_test_request, GetStateRequest, LogsCancelRequest, LogsRequest, Request, UpdateStateRequest,
};
use ankaios_sdk::response::{generate_test_proto_update_state_success, Response, ResponseType, UpdateStateSuccess};
use ankaios_sdk::workload_state::WorkloadInstanceName;
use ankaios_sdk::yaml::YamlValue;

const AGENT_A: &str = "agent_A";
const WORKLOAD_NAME: &str = "workload_A";
const WORKLOAD_ID: &str = "id_a";
const TEST_LOG_MESSAGE: &str = "test_log_message";

fn ystr(s: &str) -> YamlValue {
    YamlValue::Str(s.to_string())
}

fn response_message(id: &str, content: Option<ank_base::ResponseContent>) -> ank_base::FromAnkaios {
    ank_base::FromAnkaios {
        from_ankaios_enum: Some(ank_base::FromAnkaiosEnum::Response(ank_base::Response {
            request_id: id.to_string(),
            response_content: content,
        })),
    }
}

fn is_uuid_v4(s: &str) -> bool {
    let b: Vec<char> = s.chars().collect();
    b.len() == 36
        && b.iter().enumerate().all(|(i, c)| {
            if i == 8 || i == 13 || i == 18 || i == 23 {
                *c == '-'
            } else {
                c.is_ascii_digit() || ('a'..='f').contains(c)
            }
        })
        && b[14] == '4'
}

#[test]
fn request_test_doc_examples() {
    let complete_state = CompleteState::new();
    let request = UpdateStateRequest::new(&complete_state, Vec::new());
    assert!(is_uuid_v4(&request.get_id()));

    let request = GetStateRequest::new(Vec::new());
    let request_id = request.get_id();
    assert!(is_uuid_v4(&request_id));

    let other = GetStateRequest::new(vec!["desiredState.workloads".to_string()]);
    assert_ne!(other.get_id(), request_id);
}

#[test]
fn utest_request_update_state() {
    let request = UpdateStateRequest::new(&CompleteState::new(), vec!["mask1".to_string(), "mask2".to_string()]);
    let id = request.get_id();

    assert_eq!(
        request.to_proto(),
        ank_base::Request {
            request_id: id,
            request_content: Some(ank_base::RequestContent::UpdateStateRequest(ank_base::UpdateStateRequest {
                new_state: Some(CompleteState::new().to_proto()),
                update_mask: vec!["mask1".to_string(), "mask2".to_string()],
            })),
        }
    );

    assert_eq!(request.to_string(), format!("{:?}", request.to_proto()));
}

#[test]
fn utest_request_get_state() {
    let request = GetStateRequest::new(vec!["mask1".to_string(), "mask2".to_string()]);
    let id = request.get_id();

    assert_eq!(
        request.to_proto(),
        ank_base::Request {
            request_id: id,
            request_content: Some(ank_base::RequestContent::CompleteStateRequest(ank_base::CompleteStateRequest {
                field_mask: vec!["mask1".to_string(), "mask2".to_string()],
            })),
        }
    );

    assert_eq!(request.to_string(), format!("{:?}", request.to_proto()));
}

#[test]
fn logs_request_carries_its_parameters() {
    let names = vec![WorkloadInstanceName::new("agent".to_string(), "wl".to_string(), "id".to_string())];
    let request = LogsRequest::new(names, true, 10, Some("since".to_string()), None);
    let id = request.get_id();
    assert_eq!(
        request.to_proto(),
        ank_base::Request {
            request_id: id,
            request_content: Some(ank_base::RequestContent::LogsRequest(ank_base::LogsRequest {
                workload_names: vec![ank_base::WorkloadInstanceName {
                    agent_name: "agent".to_string(),
                    workload_name: "wl".to_string(),
                    id: "id".to_string(),
                }],
                follow: Some(true),
                tail: Some(10),
                since: Some("since".to_string()),
                until: None,
            })),
        }
    );
    assert_eq!(request.to_string(), format!("{:?}", request.to_proto()));
}

#[test]
fn logs_cancel_request_keeps_the_campaign_id() {
    let request = LogsCancelRequest::new("campaign".to_string());
    assert_eq!(request.get_id(), "campaign");
    assert_eq!(
        request.to_proto(),
        ank_base::Request {
            request_id: "campaign".to_string(),
            request_content: Some(ank_base::RequestContent::LogsCancelRequest),
        }
    );
}

#[test]
fn test_request_has_the_test_mask() {
    let request = generate_test_request();
    match request.to_proto().request_content {
        Some(ank_base::RequestContent::UpdateStateRequest(u)) => {
            assert_eq!(u.update_mask, vec!["test_mask".to_string()]);
        }
        _ => panic!("not an update request"),
    }
}

#[test]
fn response_test_doc_examples() {
    let response = Response::new(generate_test_proto_update_state_success("1234".to_string()));
    let content = response.get_content();
    assert_eq!(content.to_string(), "UpdateStateSuccess");
    assert_eq!(response.get_request_id(), "1234");

    let update_state_success = UpdateStateSuccess::new_from_proto(ank_base::UpdateStateSuccess {
        added_workloads: vec!["workload_test.1234.agent_Test".to_string()],
        deleted_workloads: Vec::new(),
    });
    let dict = update_state_success.to_dict();
    assert_eq!(dict.len(), 2);
    assert_eq!(dict[0].1.len(), 1);
}

#[test]
fn utest_response_type() {
    let mut response_type = ResponseType::Error(String::new());
    assert_eq!(response_type.to_string(), "Error");
    response_type = ResponseType::CompleteState(Box::new(CompleteState::new()));
    assert_eq!(response_type.to_string(), "CompleteState");
    response_type = ResponseType::UpdateStateSuccess(Box::new(UpdateStateSuccess {
        added_workloads: Vec::new(),
        deleted_workloads: Vec::new(),
    }));
    assert_eq!(response_type.to_string(), "UpdateStateSuccess");
    response_type = ResponseType::ConnectionClosedReason(String::new());
    assert_eq!(response_type.to_string(), "ConnectionClosedReason");
}

#[test]
fn utest_response_error() {
    let response = Response::new(response_message("123", Some(ank_base::ResponseContent::Error(String::new()))));
    assert_eq!(response.get_request_id(), "123".to_string());
    assert_eq!(response.get_content().to_string(), ResponseType::Error(String::new()).to_string());
}

#[test]
fn utest_response_complete_state() {
    let response = Response::new(response_message(
        "123",
        Some(ank_base::ResponseContent::CompleteState(ank_base::CompleteState::empty())),
    ));
    assert_eq!(response.get_request_id(), "123".to_string());
    assert_eq!(
        response.get_content().to_string(),
        ResponseType::CompleteState(Box::new(CompleteState::new())).to_string()
    );
}

#[test]
fn utest_response_update_state_success() {
    let response = Response::new(response_message(
        "123",
        Some(ank_base::ResponseContent::UpdateStateSuccess(ank_base::UpdateStateSuccess {
            added_workloads: Vec::new(),
            deleted_workloads: Vec::new(),
        })),
    ));
    assert_eq!(response.get_request_id(), "123".to_string());
    assert_eq!(response.get_content().to_string(), "UpdateStateSuccess");
}

#[test]
fn utest_response_connection_closed() {
    let response = Response::new(ank_base::FromAnkaios {
        from_ankaios_enum: Some(ank_base::FromAnkaiosEnum::ConnectionClosed(String::new())),
    });
    assert_eq!(response.get_request_id(), "".to_string());
    assert_eq!(
        response.get_content().to_string(),
        ResponseType::ConnectionClosedReason(String::new()).to_string()
    );
}

#[test]
fn utest_response_empty() {
    let response = Response::new(ank_base::FromAnkaios { from_ankaios_enum: None });
    assert_eq!(response.get_request_id(), "".to_string());
    assert_eq!(response.get_content().to_string(), "Error");
    match response.get_content() {
        ResponseType::Error(e) => assert_eq!(e, "Response is empty."),
        _ => panic!("not an error"),
    }
}

#[test]
fn response_without_content_is_an_error() {
    let response = Response::new(response_message("7", None));
    assert_eq!(response.get_request_id(), "7");
    match response.get_content() {
        ResponseType::Error(e) => assert_eq!(e, "Response content is None."),
        _ => panic!("not an error"),
    }
}

#[test]
fn utest_update_state_success() {
    let update_state_success = UpdateStateSuccess::new_from_proto(ank_base::UpdateStateSuccess {
        added_workloads: vec!["workload_new.1234.agent_Test".to_string()],
        deleted_workloads: vec!["workload_old.5678.agent_Test".to_string()],
    });

    assert_eq!(update_state_success.added_workloads.len(), 1);
    assert_eq!(update_state_success.deleted_workloads.len(), 1);
    assert_eq!(
        update_state_success.to_dict(),
        vec![
            (
                "added_workloads".to_string(),
                vec![YamlValue::Mapping(vec![
                    (ystr("agent_name"), ystr("agent_Test")),
                    (ystr("workload_name"), ystr("workload_new")),
                    (ystr("workload_id"), ystr("1234")),
                ])]
            ),
            (
                "deleted_workloads".to_string(),
                vec![YamlValue::Mapping(vec![
                    (ystr("agent_name"), ystr("agent_Test")),
                    (ystr("workload_name"), ystr("workload_old")),
                    (ystr("workload_id"), ystr("5678")),
                ])]
            ),
        ]
    );

    assert_eq!(update_state_success.to_string(), "UpdateStateSuccess: added_workloads: [WorkloadInstanceName { agent_name: \"agent_Test\", workload_name: \"workload_new\", workload_id: \"1234\" }], deleted_workloads: [WorkloadInstanceName { agent_name: \"agent_Test\", workload_name: \"workload_old\", workload_id: \"5678\" }]");
}

#[test]
fn malformed_instance_names_are_left_out() {
    let u = UpdateStateSuccess::new_from_proto(ank_base::UpdateStateSuccess {
        added_workloads: vec!["a.b".to_string(), "w.1.agent".to_string(), "x.y.z.w".to_string()],
        deleted_workloads: Vec::new(),
    });
    assert_eq!(u.added_workloads, vec![WorkloadInstanceName::new("agent".to_string(), "w".to_string(), "1".to_string())]);
}

#[test]
fn utest_log_entry_proto_to_sdk_object() {
    let proto_entry = ank_base::LogEntry {
        workload_name: Some(ank_base::WorkloadInstanceName {
            agent_name: AGENT_A.to_string(),
            workload_name: WORKLOAD_NAME.to_string(),
            id: WORKLOAD_ID.to_string(),
        }),
        message: TEST_LOG_MESSAGE.to_string(),
    };
    let sdk_entry = LogEntry::from_proto(proto_entry);
    assert_eq!(
        sdk_entry.workload_name,
        WorkloadInstanceName::new(AGENT_A.to_string(), WORKLOAD_NAME.to_string(), WORKLOAD_ID.to_string())
    );
    assert_eq!(sdk_entry.message, TEST_LOG_MESSAGE.to_string());
}

#[test]
fn log_entry_without_instance_name_is_refused() {
    let proto_entry = ank_base::LogEntry { workload_name: None, message: "m".to_string() };
    let r = ankaios_sdk::log_entry::LogEntry::try_from_proto(proto_entry);
    assert_eq!(r.unwrap_err(), "LogEntry has no workload instance name.");
}

#[test]
fn update_state_success_text_from_parts() {
    assert_eq!(
        ankaios_sdk::response::update_state_success_text("[a]", "[]"),
        "UpdateStateSuccess: added_workloads: [a], deleted_workloads: []"
    );
}

#[test]
fn test_response_reports_one_added_instance() {
    let response = ankaios_sdk::response::generate_test_response_update_state_success("42".to_string());
    assert_eq!(response.get_request_id(), "42");
    match response.get_content() {
        ResponseType::UpdateStateSuccess(u) => {
            assert_eq!(
                u.added_workloads,
                vec![WorkloadInstanceName::new("agent_Test".to_string(), "workload_test".to_string(), "1234".to_string())]
            );
            assert!(u.deleted_workloads.is_empty());
        }
        _ => panic!("not an update"),
    }
}

#[test]
fn event_response_is_presented_with_its_fields() {
    let event = ank_base::EventEntry {
        complete_state: Some(ank_base::CompleteState::empty()),
        added_fields: vec!["desiredState.workloads.nginx".to_string()],
        updated_fields: Vec::new(),
        removed_fields: vec!["desiredState.configs.c".to_string()],
    };
    let response = Response::new(response_message("42", Some(ank_base::ResponseContent::EventResponse(event))));
    assert_eq!(response.get_request_id(), "42");
    assert_eq!(response.get_content().to_string(), "EventResponse");
    match response.content {
        ResponseType::EventResponse(e) => {
            assert!(e.complete_state.is_some());
            assert_eq!(e.added_fields, vec!["desiredState.workloads.nginx".to_string()]);
            assert!(e.updated_fields.is_empty());
            assert_eq!(e.removed_fields, vec!["desiredState.configs.c".to_string()]);
        }
        _ => panic!("expected an event response"),
    }
    let without_state = ank_base::EventEntry {
        complete_state: None,
        added_fields: Vec::new(),
        updated_fields: vec!["x".to_string()],
        removed_fields: Vec::new(),
    };
    let response = Response::new(response_message("7", Some(ank_base::ResponseContent::EventResponse(without_state))));
    match response.content {
        ResponseType::EventResponse(e) => assert!(e.complete_state.is_none()),
        _ => panic!("expected an event response"),
    }
}
