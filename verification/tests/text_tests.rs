use ankaios_sdk::ank_base;
use ankaios_sdk::keyed::KeyedList;
use ankaios_sdk::texts::DebugText;
use ankaios_sdk::workload_state::WorkloadInstanceName;

fn strings(items: &[&str]) -> Vec<String> {
    items.iter().map(|s| s.to_string()).collect()
}

fn workload_without_maps() -> ank_base::Workload {
    ank_base::Workload {
        agent: Some("agent_A".to_string()),
        runtime: Some("podman".to_string()),
        runtime_config: Some("image: \"x\"\n".to_string()),
        restart_policy: Some(-1),
        dependencies: None,
        tags: Some(vec![ank_base::Tag { key: "k".to_string(), value: "v".to_string() }]),
        control_interface_access: Some(ank_base::ControlInterfaceAccess {
            allow_rules: vec![ank_base::AccessRightsRule {
                state_rule: Some(ank_base::StateRule { operation: 1, filter_masks: strings(&["a.b"]) }),
            }],
            deny_rules: vec![ank_base::AccessRightsRule { state_rule: None }],
        }),
        configs: None,
    }
}

#[test]
fn text_of_values_without_maps_is_their_debug_text() {
    let w = workload_without_maps();
    assert_eq!(w.debug_text(), format!("{:?}", w));
    let e = ank_base::ExecutionState {
        execution_state_enum: Some(ank_base::ExecutionStateEnum::Running(0)),
        additional_info: "all \"fine\"".to_string(),
    };
    assert_eq!(e.debug_text(), format!("{:?}", e));
    let a = ank_base::AgentAttributes { cpu_usage: Some(42), free_memory: Some(4096) };
    assert_eq!(a.debug_text(), format!("{:?}", a));
    let items = ank_base::ConfigItem::Array(vec![ank_base::ConfigItem::String("x".to_string()), ank_base::ConfigItem::Empty]);
    assert_eq!(items.debug_text(), format!("{:?}", items));
    let names = vec![WorkloadInstanceName::new("agent".to_string(), "wl".to_string(), "1".to_string())];
    assert_eq!(names.debug_text(), format!("{:?}", names));
}

#[test]
fn text_of_keyed_lists_is_a_map() {
    let deps = KeyedList { entries: vec![("w1".to_string(), 1), ("w2".to_string(), 0)] };
    assert_eq!(deps.debug_text(), "{\"w1\": 1, \"w2\": 0}");
    let empty: KeyedList<i32> = KeyedList { entries: Vec::new() };
    assert_eq!(empty.debug_text(), "{}");
    let object = ank_base::ConfigItem::Object(KeyedList {
        entries: vec![("f".to_string(), ank_base::ConfigItem::String("v".to_string()))],
    });
    assert_eq!(object.debug_text(), "Object({\"f\": String(\"v\")})");
}

#[test]
fn text_of_a_complete_state() {
    let state = ank_base::CompleteState {
        desired_state: Some(ank_base::State {
            api_version: "v0.1".to_string(),
            workloads: None,
            configs: Some(KeyedList { entries: vec![("c".to_string(), ank_base::ConfigItem::String("x".to_string()))] }),
        }),
        workload_states: Some(ank_base::WorkloadStatesMap {
            agent_state_map: KeyedList {
                entries: vec![(
                    "agent_A".to_string(),
                    KeyedList {
                        entries: vec![(
                            "nginx".to_string(),
                            KeyedList {
                                entries: vec![(
                                    "1234".to_string(),
                                    ank_base::ExecutionState {
                                        execution_state_enum: Some(ank_base::ExecutionStateEnum::Pending(1)),
                                        additional_info: String::new(),
                                    },
                                )],
                            },
                        )],
                    },
                )],
            },
        }),
        agents: Some(KeyedList {
            entries: vec![("agent_A".to_string(), ank_base::AgentAttributes { cpu_usage: Some(5), free_memory: None })],
        }),
    };
    assert_eq!(
        state.debug_text(),
        "CompleteState { desired_state: Some(State { api_version: \"v0.1\", workloads: None, configs: \
         Some({\"c\": String(\"x\")}) }), workload_states: Some(WorkloadStatesMap { agent_state_map: \
         {\"agent_A\": {\"nginx\": {\"1234\": ExecutionState { execution_state_enum: Some(Pending(1)), \
         additional_info: \"\" }}}} }), agents: Some({\"agent_A\": AgentAttributes { cpu_usage: Some(5), \
         free_memory: None }}) }"
    );
}

#[test]
fn text_of_a_request() {
    let request = ank_base::Request {
        request_id: "id".to_string(),
        request_content: Some(ank_base::RequestContent::LogsRequest(ank_base::LogsRequest {
            workload_names: vec![ank_base::WorkloadInstanceName {
                agent_name: "a".to_string(),
                workload_name: "w".to_string(),
                id: "1".to_string(),
            }],
            follow: Some(true),
            tail: Some(-1),
            since: None,
            until: Some("t".to_string()),
        })),
    };
    assert_eq!(request.debug_text(), format!("{:?}", request));
    let cancel = ank_base::Request { request_id: "x".to_string(), request_content: Some(ank_base::RequestContent::LogsCancelRequest) };
    assert_eq!(cancel.debug_text(), format!("{:?}", cancel));
}
