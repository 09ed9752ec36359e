use ankaios_sdk::ank_base;
use ankaios_sdk::texts::DebugText;
use ankaios_sdk::complete_state::{is_manifest_loadable, CompleteState};
use ankaios_sdk::keyed::has_unique_keys3;
use ankaios_sdk::response::{is_message_ok, is_proto_wf};
use ankaios_sdk::keyed::KeyedList;
use ankaios_sdk::manifest::Manifest;
use ankaios_sdk::workload::Workload;
use ankaios_sdk::workload_state::WorkloadInstanceName;
use ankaios_sdk::yaml::YamlValue;

const SUPPORTED_API_VERSION: &str = "v0.1";
const RUNTIME_CONFIG: &str = "image: image/test\ncommandOptions: [\"-p\", \"8080:80\"]";

const MANIFEST_CONTENT: &str = r#"apiVersion: v0.1
workloads:
    nginx_test:
        runtime: podman
        restartPolicy: NEVER
        agent: agent_A
        configs:
            c: config1
        runtimeConfig: |
            image: image/test
configs:
    config1: \"value1\"
    config2: 
        - \"value2\"
        - \"value3\"
    config3:
        field1: \"value4\"
        field2: \"value5\""#;

fn to_yaml(v: &serde_yaml::Value) -> YamlValue {
    match v {
        serde_yaml::Value::Null => YamlValue::Null,
        serde_yaml::Value::Bool(b) => YamlValue::Bool(*b),
        serde_yaml::Value::Number(n) => YamlValue::Number(n.to_string()),
        serde_yaml::Value::String(s) => YamlValue::Str(s.clone()),
        serde_yaml::Value::Sequence(xs) => YamlValue::Sequence(xs.iter().map(to_yaml).collect()),
        serde_yaml::Value::Mapping(m) => YamlValue::Mapping(m.iter().map(|(k, v)| (to_yaml(k), to_yaml(v))).collect()),
        serde_yaml::Value::Tagged(t) => to_yaml(&t.value),
    }
}

fn generate_test_manifest() -> Manifest {
    Manifest::new(to_yaml(&serde_yaml::from_str::<serde_yaml::Value>(MANIFEST_CONTENT).unwrap())).unwrap()
}

/// A mapping compares as a map: the order of its entries does not count.
fn canonical(v: &YamlValue) -> YamlValue {
    match v {
        YamlValue::Sequence(xs) => YamlValue::Sequence(xs.iter().map(canonical).collect()),
        YamlValue::Mapping(es) => {
            let mut out: Vec<(YamlValue, YamlValue)> = es.iter().map(|(k, v)| (canonical(k), canonical(v))).collect();
            out.sort_by_key(|(k, _)| format!("{:?}", k));
            YamlValue::Mapping(out)
        }
        other => other.duplicate(),
    }
}

fn strings(items: &[&str]) -> Vec<String> {
    items.iter().map(|s| s.to_string()).collect()
}

fn generate_test_workload_proto(agent_name: &str, runtime_name: &str) -> ank_base::Workload {
    ank_base::Workload {
        agent: Some(agent_name.to_string()),
        runtime: Some(runtime_name.to_string()),
        runtime_config: Some(RUNTIME_CONFIG.to_string()),
        restart_policy: Some(2),
        dependencies: Some(KeyedList {
            entries: vec![("workload_A".to_string(), 1), ("workload_C".to_string(), 0)],
        }),
        tags: Some(vec![ank_base::Tag { key: "key_test".to_string(), value: "val_test".to_string() }]),
        control_interface_access: Some(ank_base::ControlInterfaceAccess {
            allow_rules: vec![ank_base::AccessRightsRule {
                state_rule: Some(ank_base::StateRule {
                    operation: 1,
                    filter_masks: strings(&["desiredState.workloads.workload_A"]),
                }),
            }],
            deny_rules: vec![ank_base::AccessRightsRule {
                state_rule: Some(ank_base::StateRule {
                    operation: 2,
                    filter_masks: strings(&["desiredState.workloads.workload_B"]),
                }),
            }],
        }),
        configs: Some(KeyedList { entries: vec![("alias_test".to_string(), "config_1".to_string())] }),
    }
}

fn generate_test_workload(agent_name: &str, workload_name: &str, runtime_name: &str) -> Workload {
    Workload::builder()
        .workload_name(workload_name)
        .agent_name(agent_name)
        .runtime(runtime_name)
        .runtime_config(RUNTIME_CONFIG)
        .restart_policy("ALWAYS")
        .add_dependency("workload_A", "ADD_COND_SUCCEEDED")
        .add_dependency("workload_C", "ADD_COND_RUNNING")
        .add_tag("key_test", "val_test")
        .add_allow_rule("Read", strings(&["desiredState.workloads.workload_A"]))
        .add_deny_rule("Write", strings(&["desiredState.workloads.workload_B"]))
        .add_config("alias_test", "config_1")
        .build()
        .unwrap()
}

fn text_item(s: &str) -> ank_base::ConfigItem {
    ank_base::ConfigItem::String(s.to_string())
}

fn generate_test_configs_proto() -> KeyedList<ank_base::ConfigItem> {
    KeyedList {
        entries: vec![
            ("config1".to_string(), text_item("value1")),
            ("config2".to_string(), ank_base::ConfigItem::Array(vec![text_item("value2"), text_item("value3")])),
            (
                "config3".to_string(),
                ank_base::ConfigItem::Object(KeyedList {
                    entries: vec![
                        ("field1".to_string(), text_item("value4")),
                        ("field2".to_string(), text_item("value5")),
                    ],
                }),
            ),
        ],
    }
}

fn exec_state(e: ank_base::ExecutionStateEnum) -> ank_base::ExecutionState {
    ank_base::ExecutionState { execution_state_enum: Some(e), additional_info: "Random info".to_string() }
}

fn single<V>(key: &str, value: V) -> KeyedList<V> {
    KeyedList { entries: vec![(key.to_string(), value)] }
}

fn generate_test_workload_states_proto() -> ank_base::WorkloadStatesMap {
    ank_base::WorkloadStatesMap {
        agent_state_map: KeyedList {
            entries: vec![
                (
                    "agent_A".to_string(),
                    single("nginx", single("1234", exec_state(ank_base::ExecutionStateEnum::Succeeded(0)))),
                ),
                (
                    "agent_B".to_string(),
                    KeyedList {
                        entries: vec![
                            (
                                "nginx".to_string(),
                                single("5678", exec_state(ank_base::ExecutionStateEnum::Pending(1))),
                            ),
                            (
                                "dyn_nginx".to_string(),
                                single("9012", exec_state(ank_base::ExecutionStateEnum::Stopping(1))),
                            ),
                        ],
                    },
                ),
            ],
        },
    }
}

fn generate_complete_state_proto() -> ank_base::CompleteState {
    ank_base::CompleteState {
        desired_state: Some(ank_base::State {
            api_version: SUPPORTED_API_VERSION.to_string(),
            workloads: Some(single("nginx_test", generate_test_workload_proto("agent_A", "podman"))),
            configs: Some(generate_test_configs_proto()),
        }),
        workload_states: Some(generate_test_workload_states_proto()),
        agents: Some(single("agent_A", ank_base::AgentAttributes { cpu_usage: Some(50), free_memory: Some(1024) })),
    }
}

#[test]
fn complete_state_test_doc_examples() {
    let mut complete_state = CompleteState::new();
    assert_eq!(complete_state.get_api_version(), SUPPORTED_API_VERSION);

    let workload = generate_test_workload("agent_test", "workload_test", "podman");
    complete_state.add_workload(workload);

    assert_eq!(complete_state.get_workload("workload_test").unwrap().name, "workload_test");
    assert_eq!(complete_state.get_workloads().len(), 1);
    assert!(complete_state.get_agents().is_empty());
    assert!(complete_state.get_workload_states().get_as_list().is_empty());

    let manifest = generate_test_manifest();
    let from_manifest = CompleteState::new_from_manifest(&manifest);
    assert_eq!(from_manifest.get_workloads().len(), 1);
}

#[test]
fn utest_api_version() {
    let mut complete_state = CompleteState::new();
    assert_eq!(complete_state.get_api_version(), SUPPORTED_API_VERSION);
    complete_state.set_api_version("v0.2");
    assert_eq!(complete_state.get_api_version(), "v0.2");
}

#[test]
fn utest_proto() {
    let complete_state = CompleteState::new_from_proto(generate_complete_state_proto());
    let other_complete_state = CompleteState::new_from_proto(complete_state.to_proto());
    assert_eq!(complete_state.to_string(), other_complete_state.to_string());
    assert_eq!(complete_state.to_proto(), generate_complete_state_proto());
}

#[test]
fn utest_from_manifest() {
    let manifest = generate_test_manifest();
    let complete_state = CompleteState::new_from_manifest(&manifest);
    assert_eq!(complete_state.get_workloads().len(), 1);
    assert_eq!(complete_state.get_configs().len(), 3);
    assert_eq!(
        canonical(manifest.to_dict().get("workloads").unwrap()),
        canonical(complete_state.to_dict().get("workloads").unwrap())
    );
    assert_eq!(
        canonical(manifest.to_dict().get("configs").unwrap()),
        canonical(complete_state.to_dict().get("configs").unwrap())
    );
}

#[test]
fn utest_invalid_value_config() {
    let mut complete_state = CompleteState::new();
    complete_state.set_configs(vec![("config1".to_string(), YamlValue::Null)]);
    let configs = complete_state.get_configs();
    assert_eq!(configs.len(), 1);
    assert_eq!(configs[0].0, "config1");
    assert_eq!(configs[0].1, YamlValue::Null);
}

#[test]
fn utest_to_dict() {
    let complete_state = CompleteState::new_from_proto(generate_complete_state_proto());
    let dict = complete_state.to_dict();
    assert!(dict.as_mapping().is_some());
    assert_eq!(dict.get("apiVersion"), Some(&YamlValue::Str(SUPPORTED_API_VERSION.to_string())));
    let workloads = dict.get("workloads").unwrap();
    assert_eq!(workloads.get("nginx_test"), Some(&complete_state.get_workloads()[0].to_dict()));
}

#[test]
fn utest_get_workload() {
    let complete_state = CompleteState::new_from_proto(generate_complete_state_proto());
    let workload = complete_state.get_workload("nginx_test").unwrap();
    assert_eq!(workload.name, "nginx_test");
    assert!(complete_state.get_workload("missing").is_none());
}

#[test]
fn utest_get_workload_states() {
    let complete_state = CompleteState::new_from_proto(generate_complete_state_proto());
    let workload_states = complete_state.get_workload_states();
    let workload_instance_name =
        WorkloadInstanceName::new("agent_A".to_string(), "nginx".to_string(), "1234".to_string());
    assert!(workload_states.get_for_instance_name(&workload_instance_name).is_some());
}

#[test]
fn configs_read_back_in_both_forms() {
    let mut complete_state = CompleteState::new();
    let value = YamlValue::Sequence(vec![YamlValue::Str("a".to_string()), YamlValue::Null]);
    complete_state.set_configs(vec![("c".to_string(), value.duplicate())]);
    assert_eq!(complete_state.get_configs(), vec![("c".to_string(), value)]);
    let proto = complete_state.to_proto();
    let configs = proto.desired_state.unwrap().configs.unwrap();
    assert_eq!(
        configs.entries,
        vec![("c".to_string(), ank_base::ConfigItem::Array(vec![text_item("a"), ank_base::ConfigItem::Empty]))]
    );
}

#[test]
fn agents_are_listed_with_their_attributes() {
    let complete_state = CompleteState::new_from_proto(generate_complete_state_proto());
    let agents = complete_state.get_agents();
    assert_eq!(agents.len(), 1);
    assert_eq!(agents[0].0, "agent_A");
    assert!(agents[0].1.contains(&("cpu_usage".to_string(), "50".to_string())));
    assert!(agents[0].1.contains(&("free_memory".to_string(), "1024".to_string())));
}

fn parse(text: &str) -> YamlValue {
    to_yaml(&serde_yaml::from_str::<serde_yaml::Value>(text).unwrap())
}

#[test]
fn which_manifests_can_be_loaded() {
    assert!(is_manifest_loadable(&parse(MANIFEST_CONTENT)));
    assert!(!is_manifest_loadable(&parse("workloads: {}")));
    let bad_policy = "apiVersion: v0.1\nworkloads:\n  w:\n    runtime: podman\n    agent: a\n    runtimeConfig: x\n    restartPolicy: SOMETIMES\n";
    assert!(!is_manifest_loadable(&parse(bad_policy)));
    let bad_shape = "apiVersion: v0.1\nworkloads:\n  w:\n    runtime: [podman]\n    agent: a\n    runtimeConfig: x\n";
    assert!(!is_manifest_loadable(&parse(bad_shape)));
    let bad_config = "apiVersion: v0.1\nconfigs:\n  c:\n    5: x\n";
    assert!(!is_manifest_loadable(&parse(bad_config)));
    let good_config = "apiVersion: v0.1\nconfigs:\n  c:\n    k: [1, {a: b}]\n";
    assert!(is_manifest_loadable(&parse(good_config)));
}

#[test]
fn unique_names_are_checked_at_every_level() {
    let twice = KeyedList { entries: vec![("a".to_string(), 1), ("a".to_string(), 2)] };
    assert!(!twice.has_unique_keys());
    assert!(KeyedList { entries: vec![("a".to_string(), 1), ("b".to_string(), 2)] }.has_unique_keys());
    let states = generate_test_workload_states_proto();
    assert!(has_unique_keys3(&states.agent_state_map));
    let nested_twice = single("agent", KeyedList {
        entries: vec![
            ("w".to_string(), single("1", 0)),
            ("w".to_string(), single("2", 0)),
        ],
    });
    assert!(!has_unique_keys3(&nested_twice));
    assert!(is_proto_wf(&generate_complete_state_proto()));
    let message = ank_base::FromAnkaios {
        from_ankaios_enum: Some(ank_base::FromAnkaiosEnum::Response(ank_base::Response {
            request_id: "1".to_string(),
            response_content: Some(ank_base::ResponseContent::LogEntriesResponse(vec![ank_base::LogEntry {
                workload_name: None,
                message: "m".to_string(),
            }])),
        })),
    };
    assert!(!is_message_ok(&message));
    assert!(is_message_ok(&ank_base::FromAnkaios { from_ankaios_enum: None }));
}

#[test]
fn text_configs_survive_the_protocol_form() {
    let mut complete_state = CompleteState::new();
    let value = YamlValue::Mapping(vec![
        (YamlValue::Str("port".to_string()), YamlValue::Str("80".to_string())),
        (YamlValue::Str("hosts".to_string()), YamlValue::Sequence(vec![YamlValue::Str("a".to_string()), YamlValue::Null])),
    ]);
    complete_state.set_configs(vec![("configuration".to_string(), value.duplicate())]);
    let back = CompleteState::new_from_proto(complete_state.to_proto());
    assert_eq!(back.get_configs(), vec![("configuration".to_string(), value)]);

    let mut other = CompleteState::new();
    other.set_configs(vec![("flag".to_string(), YamlValue::Bool(true))]);
    let back = CompleteState::new_from_proto(other.to_proto());
    assert_eq!(back.get_configs(), vec![("flag".to_string(), YamlValue::Null)]);
}

#[test]
fn complete_state_text_is_the_text_of_its_protocol_form() {
    let complete_state = CompleteState::new_from_proto(generate_complete_state_proto());
    let text = complete_state.to_string();
    assert_eq!(text, complete_state.to_proto().debug_text());
    assert!(text.starts_with("CompleteState { desired_state: Some(State { api_version: \"v0.1\", workloads: Some({"));
    assert!(text.contains(
        "agents: Some({\"agent_A\": AgentAttributes { cpu_usage: Some(50), free_memory: Some(1024) }})"
    ));
    assert!(text.contains("\"config3\": Object({\"field1\": String(\"value4\"), \"field2\": String(\"value5\")})"));
}
