use ankaios_sdk::ank_base;
use ankaios_sdk::keyed::KeyedList;
use ankaios_sdk::workload_state::{
    WorkloadExecutionState, WorkloadInstanceName, WorkloadState, WorkloadStateCollection,
    WorkloadStateEnum, WorkloadSubStateEnum,
};
use ankaios_sdk::yaml::YamlValue;

fn ystr(s: &str) -> YamlValue {
    YamlValue::Str(s.to_string())
}

fn exec_state(e: ank_base::ExecutionStateEnum, info: &str) -> ank_base::ExecutionState {
    ank_base::ExecutionState { execution_state_enum: Some(e), additional_info: info.to_string() }
}

fn one<V>(key: &str, value: V) -> (String, V) {
    (key.to_string(), value)
}

fn generate_test_workload_states_proto() -> ank_base::WorkloadStatesMap {
    ank_base::WorkloadStatesMap {
        agent_state_map: KeyedList {
            entries: vec![
                one(
                    "agent_A",
                    KeyedList {
                        entries: vec![one(
                            "nginx",
                            KeyedList {
                                entries: vec![one(
                                    "1234",
                                    exec_state(ank_base::ExecutionStateEnum::Succeeded(0), "Random info"),
                                )],
                            },
                        )],
                    },
                ),
                one(
                    "agent_B",
                    KeyedList {
                        entries: vec![
                            one(
                                "nginx",
                                KeyedList {
                                    entries: vec![one(
                                        "5678",
                                        exec_state(ank_base::ExecutionStateEnum::Pending(1), "Random info"),
                                    )],
                                },
                            ),
                            one(
                                "dyn_nginx",
                                KeyedList {
                                    entries: vec![one(
                                        "9012",
                                        exec_state(ank_base::ExecutionStateEnum::Stopping(1), "Random info"),
                                    )],
                                },
                            ),
                        ],
                    },
                ),
            ],
        },
    }
}

fn generate_test_workload_state() -> WorkloadState {
    WorkloadState::new_from_ank_base(
        "agent_Test".to_string(),
        "workload_Test".to_string(),
        "1234".to_string(),
        exec_state(ank_base::ExecutionStateEnum::Running(0), "Random info"),
    )
}

#[test]
fn mod_test_doc_examples() {
    let workload_state_collection = WorkloadStateCollection::new();
    let workload_states_list = workload_state_collection.get_as_list();
    let workload_states_map = workload_state_collection.get_as_dict();
    assert!(workload_states_list.is_empty());
    assert_eq!(workload_states_map, YamlValue::Mapping(vec![]));

    let workload_state: WorkloadState = generate_test_workload_state();
    assert_eq!(workload_state.workload_instance_name.agent_name, "agent_Test");
    assert_eq!(workload_state.workload_instance_name.workload_name, "workload_Test");
    assert_eq!(workload_state.workload_instance_name.workload_id, "1234");
    assert_eq!(workload_state.execution_state.state, WorkloadStateEnum::Running);
    assert_eq!(workload_state.execution_state.substate, WorkloadSubStateEnum::RunningOk);
    assert_eq!(workload_state.execution_state.additional_info, "Random info");

    let workload_instance_name = generate_test_workload_state().workload_instance_name;
    let instance_name_dict = workload_instance_name.to_dict();
    assert_eq!(instance_name_dict.get("agent_name"), Some(&ystr("agent_Test")));
}

#[test]
fn utest_instance_name() {
    let instance_name =
        WorkloadInstanceName::new("agent_Test".to_string(), "workload_Test".to_string(), "1234".to_string());
    assert_eq!(instance_name.agent_name, "agent_Test");
    assert_eq!(instance_name.workload_name, "workload_Test");
    assert_eq!(instance_name.workload_id, "1234");

    assert_eq!(instance_name.to_string(), "workload_Test.1234.agent_Test");
    assert_eq!(instance_name.get_filter_mask(), "workloadStates.agent_Test.workload_Test.1234");
    assert_eq!(
        instance_name.to_dict(),
        YamlValue::Mapping(vec![
            (ystr("agent_name"), ystr("agent_Test")),
            (ystr("workload_name"), ystr("workload_Test")),
            (ystr("workload_id"), ystr("1234")),
        ])
    );

    let mut another_instance_name =
        WorkloadInstanceName::new("agent_Test".to_string(), "workload_Test".to_string(), "1234".to_string());
    assert_eq!(instance_name, another_instance_name);
    another_instance_name.agent_name = "agent_Test2".to_string();
    assert_ne!(instance_name, another_instance_name);
}

#[test]
fn test_workload_state() {
    let agent_name = "agent_name".to_string();
    let workload_name = "workload_name".to_string();
    let workload_id = "workload_id".to_string();
    let state = exec_state(ank_base::ExecutionStateEnum::Pending(1), "additional_info");
    let exec = WorkloadExecutionState::new(state.duplicate());

    let workload_state_ank_base = WorkloadState::new_from_ank_base(
        agent_name.clone(),
        workload_name.clone(),
        workload_id.clone(),
        state.duplicate(),
    );
    let workload_state_exec_state =
        WorkloadState::new_from_exec_state(agent_name.clone(), workload_name.clone(), workload_id.clone(), exec);

    assert_eq!(workload_state_ank_base.to_string(), workload_state_exec_state.to_string());
    assert_eq!(workload_state_ank_base.execution_state.state, WorkloadStateEnum::Pending);
    assert_eq!(workload_state_ank_base.execution_state.substate, WorkloadSubStateEnum::PendingWaitingToStart);
    assert_eq!(workload_state_ank_base.execution_state.additional_info, "additional_info");
    assert_eq!(workload_state_ank_base.workload_instance_name.agent_name, agent_name);
    assert_eq!(workload_state_ank_base.workload_instance_name.workload_name, workload_name);
    assert_eq!(workload_state_ank_base.workload_instance_name.workload_id, workload_id);
}

#[test]
fn test_workload_state_collection() {
    let state_collection = WorkloadStateCollection::new_from_proto(&generate_test_workload_states_proto());
    let mut state_list = state_collection.get_as_list();
    state_list.sort_by(|a, b| a.workload_instance_name.agent_name.cmp(&b.workload_instance_name.agent_name));
    assert_eq!(state_list.len(), 3);
    assert_eq!(state_list[0].workload_instance_name.agent_name, "agent_A");
    assert_eq!(state_list[0].workload_instance_name.workload_name, "nginx");
    assert_eq!(state_list[0].workload_instance_name.workload_id, "1234");
    assert_eq!(state_list[1].workload_instance_name.agent_name, "agent_B");
    assert_eq!(state_list[2].workload_instance_name.agent_name, "agent_B");

    let state_dict = state_collection.get_as_dict();
    assert_eq!(state_dict.as_mapping().unwrap().len(), 2);
    assert_eq!(state_dict.get("agent_A").unwrap().as_mapping().unwrap().len(), 1);
    assert_eq!(state_dict.get("agent_B").unwrap().as_mapping().unwrap().len(), 2);

    let workload_instance_name =
        WorkloadInstanceName::new("agent_B".to_string(), "nginx".to_string(), "5678".to_string());
    let workload_state = state_collection.get_for_instance_name(&workload_instance_name).unwrap();
    assert_eq!(workload_state.state, WorkloadStateEnum::Pending);
    assert_eq!(workload_state.substate, WorkloadSubStateEnum::PendingWaitingToStart);
    assert_eq!(workload_state.additional_info, "Random info");
}

#[test]
fn execution_state_text_and_dict() {
    let e = WorkloadExecutionState::new(exec_state(ank_base::ExecutionStateEnum::Failed(2), "lost"));
    assert_eq!(e.state, WorkloadStateEnum::Failed);
    assert_eq!(e.substate, WorkloadSubStateEnum::FailedLost);
    assert_eq!(e.to_string(), "Failed (FAILED_LOST): lost");
    assert_eq!(
        e.to_dict(),
        YamlValue::Mapping(vec![
            (ystr("state"), ystr("Failed")),
            (ystr("substate"), ystr("FAILED_LOST")),
            (ystr("additional_info"), ystr("lost")),
        ])
    );
}

#[test]
fn unknown_execution_codes_read_as_failed_unknown() {
    let none = WorkloadExecutionState::new(ank_base::ExecutionState {
        execution_state_enum: None,
        additional_info: String::new(),
    });
    assert_eq!(none.substate, WorkloadSubStateEnum::FailedUnknown);
    let odd = WorkloadExecutionState::new(exec_state(ank_base::ExecutionStateEnum::Running(7), ""));
    assert_eq!(odd.state, WorkloadStateEnum::Failed);
    assert_eq!(odd.substate, WorkloadSubStateEnum::FailedUnknown);
}

#[test]
fn adding_a_state_twice_keeps_the_last() {
    let mut c = WorkloadStateCollection::new();
    c.add_workload_state(generate_test_workload_state());
    let mut second = generate_test_workload_state();
    second.execution_state.additional_info = "newer".to_string();
    c.add_workload_state(second);
    assert_eq!(c.get_as_list().len(), 1);
    let name = WorkloadInstanceName::new("agent_Test".to_string(), "workload_Test".to_string(), "1234".to_string());
    assert_eq!(c.get_for_instance_name(&name).unwrap().additional_info, "newer");
    let other = WorkloadInstanceName::new("agent_Test".to_string(), "workload_Test".to_string(), "9".to_string());
    assert!(c.get_for_instance_name(&other).is_none());
}
