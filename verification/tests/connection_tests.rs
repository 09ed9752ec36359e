use ankaios_sdk::ank_base;
use ankaios_sdk::ankaios::{
    add_config_request, apply_workload_request, delete_all_configs_request, delete_config_request,
    delete_workload_request, update_configs_request, child_mask_text, delete_outcome, first_execution_state, get_state_outcome, reading_closed_error,
    receive_response, request_logs_outcome, stop_logs_outcome, update_outcome, workload_states_for_name,
    ReceiveStep, CONFIGS_PREFIX, WORKLOADS_PREFIX,
};
use ankaios_sdk::command_interface::{
    route_server_response, CommandInterfaceState, ConnectOutcome, GrpcConfig, ServerResponseRoute, StreamEndStep,
};
use ankaios_sdk::complete_state::CompleteState;
use ankaios_sdk::request::Request;
use ankaios_sdk::control_interface::{
    closes_connection, is_last_prefix_byte, message_size, route_response, ControlInterfaceState, FlushOutcome,
    PrefixError, ReadOutcome, ResponseRoute,
};
use ankaios_sdk::response::{EventEntry, Response, ResponseType, UpdateStateSuccess};
use ankaios_sdk::workload_state::{WorkloadInstanceName, WorkloadState, WorkloadStateEnum};
use ankaios_sdk::AnkaiosError;

const SERVER_URL: &str = "http://127.0.0.1:25551";

fn response(id: &str, content: ResponseType) -> Response {
    Response { content, id: id.to_string() }
}

fn empty_update() -> ResponseType {
    ResponseType::UpdateStateSuccess(Box::new(UpdateStateSuccess { added_workloads: Vec::new(), deleted_workloads: Vec::new() }))
}

fn unexpected() -> AnkaiosError {
    AnkaiosError::ResponseError("Received unexpected response type.".to_string())
}

#[test]
fn utest_grpc_config_without_tls() {
    let config = GrpcConfig::insecure(SERVER_URL);

    assert_eq!(config.server_url, SERVER_URL);
    assert!(config.insecure);
    assert!(config.ca_pem.is_none());
    assert!(config.crt_pem.is_none());
    assert!(config.key_pem.is_none());

    assert_eq!(
        config.debug_string(),
        "GrpcConfig { server_url: \"http://127.0.0.1:25551\", insecure: true, ca_pem: None, crt_pem: None, key_pem: None }"
    );
}

#[test]
fn utest_grpc_config_with_tls() {
    let config = GrpcConfig::mtls(SERVER_URL, "ca-secret", "crt-secret", "key-secret");

    assert_eq!(config.server_url, SERVER_URL);
    assert!(!config.insecure);
    assert_eq!(config.ca_pem.as_deref(), Some("ca-secret"));
    assert_eq!(config.crt_pem.as_deref(), Some("crt-secret"));
    assert_eq!(config.key_pem.as_deref(), Some("key-secret"));

    assert_eq!(
        config.debug_string(),
        "GrpcConfig { server_url: \"http://127.0.0.1:25551\", insecure: false, ca_pem: Some(\"<redacted>\"), crt_pem: Some(\"<redacted>\"), key_pem: Some(\"<redacted>\") }"
    );
}

#[test]
fn grpc_config_text_escapes_the_url() {
    let config = GrpcConfig::insecure("a\"b");
    assert_eq!(
        config.debug_string(),
        "GrpcConfig { server_url: \"a\\\"b\", insecure: true, ca_pem: None, crt_pem: None, key_pem: None }"
    );
}

#[test]
fn utest_control_interface_state() {
    let mut cis = ControlInterfaceState::Initialized;
    assert_eq!(cis.to_string(), "Initialized");
    cis = ControlInterfaceState::Terminated;
    assert_eq!(cis.to_string(), "Terminated");
    cis = ControlInterfaceState::AgentDisconnected;
    assert_eq!(cis.to_string(), "AgentDisconnected");
    cis = ControlInterfaceState::ConnectionClosed;
    assert_eq!(cis.to_string(), "ConnectionClosed");
}

#[test]
fn control_interface_connect_and_disconnect() {
    let s = ControlInterfaceState::Terminated;
    assert_eq!(s.connect(true, true).unwrap(), ControlInterfaceState::Initialized);
    assert!(matches!(s.connect(false, true), Err(AnkaiosError::ControlInterfaceError(_))));
    assert!(matches!(s.connect(true, false), Err(AnkaiosError::ControlInterfaceError(_))));
    assert!(matches!(
        ControlInterfaceState::Initialized.connect(true, true),
        Err(AnkaiosError::ControlInterfaceError(_))
    ));
    assert_eq!(ControlInterfaceState::Initialized.disconnect().unwrap(), ControlInterfaceState::Terminated);
    assert!(ControlInterfaceState::Terminated.disconnect().is_err());
    assert!(ControlInterfaceState::Initialized.check_write().is_ok());
    assert!(ControlInterfaceState::Terminated.check_write().is_err());
}

#[test]
fn reader_steps() {
    let gone = ControlInterfaceState::Initialized.on_read(ReadOutcome::EndOfInput);
    assert_eq!(gone.state, ControlInterfaceState::AgentDisconnected);
    assert!(gone.send_hello);
    assert!(!gone.stop);
    let back = gone.state.on_read(ReadOutcome::Message(false));
    assert_eq!(back.state, ControlInterfaceState::Initialized);
    assert!(!back.stop);
    let closed = ControlInterfaceState::Initialized.on_read(ReadOutcome::Message(true));
    assert!(closed.stop);
    let failed = ControlInterfaceState::Initialized.on_read(ReadOutcome::Failure);
    assert_eq!(failed.state, ControlInterfaceState::Terminated);
    assert!(failed.stop);
}

#[test]
fn writer_steps() {
    let broken = ControlInterfaceState::Initialized.on_flush(FlushOutcome::BrokenPipe);
    assert_eq!(broken.state, ControlInterfaceState::AgentDisconnected);
    assert!(broken.resend_hello);
    let ok = broken.state.on_flush(FlushOutcome::Flushed);
    assert_eq!(ok.state, ControlInterfaceState::Initialized);
    assert!(!ok.resend_hello);
    let failed = ControlInterfaceState::Initialized.on_flush(FlushOutcome::Failed);
    assert_eq!(failed.state, ControlInterfaceState::Initialized);
}

#[test]
fn responses_are_routed_by_kind() {
    let stop = ResponseType::LogsStopResponse(WorkloadInstanceName::new("a".into(), "w".into(), "1".into()));
    assert_eq!(route_response(&ResponseType::LogEntriesResponse(Vec::new())), ResponseRoute::LogEntries);
    assert_eq!(route_response(&stop), ResponseRoute::LogsStop);
    assert_eq!(route_response(&ResponseType::Error("x".into())), ResponseRoute::General);
    assert_eq!(route_server_response(&stop), ServerResponseRoute::LogsStop);
    assert_eq!(route_server_response(&ResponseType::LogEntriesResponse(Vec::new())), ServerResponseRoute::LogEntries);
    assert_eq!(route_server_response(&ResponseType::LogsCancelAccepted), ServerResponseRoute::General);
    let event = ResponseType::EventResponse(Box::new(EventEntry {
        complete_state: None,
        added_fields: Vec::new(),
        updated_fields: Vec::new(),
        removed_fields: Vec::new(),
    }));
    assert_eq!(route_server_response(&event), ServerResponseRoute::Events);
    assert_eq!(route_response(&event), ResponseRoute::General);
    assert!(closes_connection(&ResponseType::ConnectionClosedReason("bye".into())));
    assert!(!closes_connection(&ResponseType::Error("bye".into())));
}

#[test]
fn length_prefixes() {
    assert!(is_last_prefix_byte(0x7f));
    assert!(!is_last_prefix_byte(0x80));
    assert_eq!(message_size(&[1]), Ok(1));
    assert_eq!(message_size(&[0xac, 0x02]), Ok(300));
    assert_eq!(message_size(&[]), Err(PrefixError::InvalidVarint));
    assert_eq!(message_size(&[0x80, 0x80]), Err(PrefixError::InvalidVarint));
    assert_eq!(message_size(&[0xff; 10]), Err(PrefixError::InvalidVarint));
}

#[test]
fn command_interface_states() {
    assert_eq!(CommandInterfaceState::Terminated.begin_connect().unwrap(), CommandInterfaceState::Initialized);
    assert_eq!(
        CommandInterfaceState::Connected.begin_connect(),
        Err(AnkaiosError::ConnectionError("Already connected.".to_string()))
    );
    let (s, r) = CommandInterfaceState::Initialized.finish_connect(ConnectOutcome::Connected);
    assert_eq!(s, CommandInterfaceState::Connected);
    assert!(r.is_ok());
    let (s, r) = CommandInterfaceState::Initialized.finish_connect(ConnectOutcome::TimedOut);
    assert_eq!(s, CommandInterfaceState::Initialized);
    assert_eq!(r, Err(AnkaiosError::ConnectionError("Connection to the Ankaios server timed out.".to_string())));
    assert_eq!(
        CommandInterfaceState::Terminated.disconnect(),
        Err(AnkaiosError::ConnectionError("Already disconnected.".to_string()))
    );
    assert_eq!(CommandInterfaceState::Connected.disconnect().unwrap(), CommandInterfaceState::Terminated);
    assert!(CommandInterfaceState::Reconnecting.check_write().is_err());
    assert!(CommandInterfaceState::Connected.check_write().is_ok());
    assert_eq!(CommandInterfaceState::Terminated.on_stream_end(), StreamEndStep::Stop);
    assert_eq!(
        CommandInterfaceState::Connected.on_stream_end(),
        StreamEndStep::Reconnect(CommandInterfaceState::Reconnecting)
    );
    assert_eq!(CommandInterfaceState::Terminated.on_reconnected(), None);
    assert_eq!(CommandInterfaceState::Reconnecting.on_reconnected(), Some(CommandInterfaceState::Connected));
}

#[test]
fn waiting_for_a_response() {
    assert!(matches!(receive_response(response("1", ResponseType::Error("e".into())), "1"), ReceiveStep::Answer(_)));
    assert!(matches!(receive_response(response("2", ResponseType::Error("e".into())), "1"), ReceiveStep::Skip));
    match receive_response(response("", ResponseType::ConnectionClosedReason("bye".into())), "1") {
        ReceiveStep::Closed(e) => assert_eq!(e, AnkaiosError::ConnectionClosedError("bye".to_string())),
        _ => panic!("not closed"),
    }
    assert_eq!(reading_closed_error(), AnkaiosError::ControlInterfaceError("Reading thread closed.".to_string()));
}

#[test]
fn update_and_delete_outcomes() {
    assert!(update_outcome(response("1", empty_update())).is_ok());
    assert_eq!(
        update_outcome(response("1", ResponseType::Error("bad".into()))).unwrap_err(),
        AnkaiosError::AnkaiosResponseError("bad".to_string())
    );
    assert_eq!(update_outcome(response("1", ResponseType::LogsCancelAccepted)).unwrap_err(), unexpected());
    assert!(delete_outcome(response("1", empty_update())).is_ok());
    assert_eq!(delete_outcome(response("1", ResponseType::LogsCancelAccepted)).unwrap_err(), unexpected());
}

#[test]
fn get_state_outcomes() {
    let (r, established) = get_state_outcome(response("1", ResponseType::CompleteState(Box::new(CompleteState::new()))), false);
    assert!(r.is_ok());
    assert!(established);
    let (r, established) = get_state_outcome(response("1", ResponseType::Error("no".into())), false);
    assert_eq!(r.unwrap().get_api_version(), "v0.1");
    assert!(established);
    let (r, _) = get_state_outcome(response("1", ResponseType::Error("no".into())), true);
    assert_eq!(r.unwrap_err(), AnkaiosError::AnkaiosResponseError("no".to_string()));
    let (r, established) = get_state_outcome(response("1", ResponseType::LogsCancelAccepted), false);
    assert_eq!(r.unwrap_err(), unexpected());
    assert!(!established);
}

#[test]
fn logs_outcomes() {
    let names = vec![WorkloadInstanceName::new("a".into(), "w".into(), "1".into())];
    let accepted = ResponseType::LogsRequestAccepted(vec![WorkloadInstanceName::new("a".into(), "w".into(), "1".into())]);
    assert_eq!(request_logs_outcome(response("1", accepted)).unwrap(), names);
    assert_eq!(
        request_logs_outcome(response("1", empty_update())).unwrap_err(),
        AnkaiosError::ResponseError("Received unexpected response type: 'UpdateStateSuccess'".to_string())
    );
    assert!(stop_logs_outcome(response("1", ResponseType::LogsCancelAccepted)).is_ok());
    assert_eq!(
        stop_logs_outcome(response("1", ResponseType::Error("e".into()))).unwrap_err(),
        AnkaiosError::AnkaiosResponseError("e".to_string())
    );
    assert_eq!(stop_logs_outcome(response("1", empty_update())).unwrap_err(), unexpected());
}

fn state(agent: &str, name: &str, id: &str) -> WorkloadState {
    WorkloadState::new_from_ank_base(
        agent.to_string(),
        name.to_string(),
        id.to_string(),
        ank_base::ExecutionState {
            execution_state_enum: Some(ank_base::ExecutionStateEnum::Running(0)),
            additional_info: String::new(),
        },
    )
}

#[test]
fn workload_state_helpers() {
    assert_eq!(
        first_execution_state(&Vec::new()).unwrap_err(),
        AnkaiosError::AnkaiosResponseError("No workload states found.".to_string())
    );
    let states = vec![state("a", "nginx", "1"), state("b", "other", "2"), state("c", "nginx", "3")];
    assert_eq!(first_execution_state(&states).unwrap().state, WorkloadStateEnum::Running);
    let only = workload_states_for_name(&states, "nginx");
    assert_eq!(only.get_as_list().len(), 2);
    assert!(only
        .get_for_instance_name(&WorkloadInstanceName::new("b".into(), "other".into(), "2".into()))
        .is_none());
}

#[test]
fn masks_of_children() {
    assert_eq!(child_mask_text(WORKLOADS_PREFIX, "nginx"), "desiredState.workloads.nginx");
    assert_eq!(child_mask_text(CONFIGS_PREFIX, "c"), "desiredState.configs.c");
}

fn update_of(r: &ankaios_sdk::request::UpdateStateRequest) -> ank_base::UpdateStateRequest {
    match r.to_proto().request_content {
        Some(ank_base::RequestContent::UpdateStateRequest(u)) => u,
        _ => panic!("not an update request"),
    }
}

#[test]
fn operation_requests() {
    let empty = CompleteState::new().to_proto();

    let u = update_of(&delete_workload_request("nginx"));
    assert_eq!(u.update_mask, vec!["desiredState.workloads.nginx".to_string()]);
    assert_eq!(u.new_state, Some(CompleteState::new().to_proto()));

    let u = update_of(&delete_config_request("c"));
    assert_eq!(u.update_mask, vec!["desiredState.configs.c".to_string()]);
    let u = update_of(&delete_all_configs_request());
    assert_eq!(u.update_mask, vec!["desiredState.configs".to_string()]);
    assert_eq!(u.new_state, Some(empty));

    let u = update_of(&add_config_request("c".to_string(), ankaios_sdk::yaml::YamlValue::Str("v".to_string())));
    assert_eq!(u.update_mask, vec!["desiredState.configs.c".to_string()]);
    let configs = u.new_state.unwrap().desired_state.unwrap().configs.unwrap();
    assert_eq!(configs.entries, vec![("c".to_string(), ank_base::ConfigItem::String("v".to_string()))]);

    let u = update_of(&update_configs_request(Vec::new()));
    assert_eq!(u.update_mask, vec!["desiredState.configs".to_string()]);

    let w = ankaios_sdk::workload::Workload::builder()
        .workload_name("nginx")
        .agent_name("agent_A")
        .runtime("podman")
        .runtime_config("image: x")
        .build()
        .unwrap();
    let masks = w.masks.clone();
    let u = update_of(&apply_workload_request(w));
    assert_eq!(u.update_mask, masks);
    let workloads = u.new_state.unwrap().desired_state.unwrap().workloads.unwrap();
    assert_eq!(workloads.entries.len(), 1);
    assert_eq!(workloads.entries[0].0, "nginx");
}

#[test]
fn grpc_config_text_from_parts() {
    assert_eq!(
        ankaios_sdk::command_interface::grpc_config_text_with("\"u\"", false, true, false, true),
        "GrpcConfig { server_url: \"u\", insecure: false, ca_pem: Some(\"<redacted>\"), crt_pem: None, key_pem: Some(\"<redacted>\") }"
    );
}

#[test]
fn secrets_do_not_change_the_text() {
    let a = GrpcConfig::mtls(SERVER_URL, "ca-1", "crt-1", "key-1");
    let b = GrpcConfig::mtls(SERVER_URL, "ca-2", "crt-2", "key-2");
    assert_eq!(a.debug_string(), b.debug_string());
    assert!(!a.debug_string().contains("ca-1"));
}
