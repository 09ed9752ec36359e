use ankaios_sdk::ank_base;
use ankaios_sdk::keyed::KeyedList;
use ankaios_sdk::workload::Workload;
use ankaios_sdk::workload_builder::WorkloadBuilder;
use ankaios_sdk::yaml::YamlValue;
use ankaios_sdk::AnkaiosError;

const RUNTIME_CONFIG: &str = "image: image/test\ncommandOptions: [\"-p\", \"8080:80\"]";

fn strings(items: &[&str]) -> Vec<String> {
    items.iter().map(|s| s.to_string()).collect()
}

fn generate_test_workload_proto(agent_name: &str, runtime_name: &str) -> ank_base::Workload {
    ank_base::Workload {
        agent: Some(agent_name.to_string()),
        runtime: Some(runtime_name.to_string()),
        runtime_config: Some(RUNTIME_CONFIG.to_string()),
        restart_policy: Some(2),
        dependencies: Some(KeyedList {
            entries: vec![("workload_A".to_string(), 1), ("workload_C".to_string(), 0)],
        }),
        tags: Some(vec![ank_base::Tag { key: "key_test".to_string(), value: "val_test".to_string() }]),
        control_interface_access: Some(ank_base::ControlInterfaceAccess {
            allow_rules: vec![ank_base::AccessRightsRule {
                state_rule: Some(ank_base::StateRule {
                    operation: 1,
                    filter_masks: strings(&["desiredState.workloads.workload_A"]),
                }),
            }],
            deny_rules: vec![ank_base::AccessRightsRule {
                state_rule: Some(ank_base::StateRule {
                    operation: 2,
                    filter_masks: strings(&["desiredState.workloads.workload_B"]),
                }),
            }],
        }),
        configs: Some(KeyedList { entries: vec![("alias_test".to_string(), "config_1".to_string())] }),
    }
}

fn test_builder(agent_name: &str, workload_name: &str, runtime_name: &str) -> WorkloadBuilder {
    Workload::builder()
        .workload_name(workload_name)
        .agent_name(agent_name)
        .runtime(runtime_name)
        .runtime_config(RUNTIME_CONFIG)
        .restart_policy("ALWAYS")
        .add_dependency("workload_A", "ADD_COND_SUCCEEDED")
        .add_dependency("workload_C", "ADD_COND_RUNNING")
        .add_tag("key_test", "val_test")
        .add_allow_rule("Read", strings(&["desiredState.workloads.workload_A"]))
        .add_deny_rule("Write", strings(&["desiredState.workloads.workload_B"]))
        .add_config("alias_test", "config_1")
}

fn generate_test_workload(agent_name: &str, workload_name: &str, runtime_name: &str) -> Workload {
    test_builder(agent_name, workload_name, runtime_name).build().unwrap()
}

fn mapping_of(v: YamlValue) -> Vec<(YamlValue, YamlValue)> {
    match v {
        YamlValue::Mapping(m) => m,
        _ => panic!("not a mapping"),
    }
}

#[test]
fn utest_workload() {
    let wl_test = generate_test_workload("agent_A", "Test", "podman");
    let wl_proto = generate_test_workload_proto("agent_A", "podman");
    assert_eq!(wl_test.name, "Test");
    assert_eq!(wl_test.main_mask, "desiredState.workloads.Test");
    assert_eq!(wl_test.masks, vec!["desiredState.workloads.Test".to_string()]);
    assert_eq!(wl_test.workload, wl_proto);
}

#[test]
fn utest_workload_proto() {
    let workload_proto = generate_test_workload_proto("agent_A", "podman");
    let wl = Workload::new_from_proto("Test", generate_test_workload_proto("agent_A", "podman"));
    let new_proto = wl.to_proto();
    assert_eq!(workload_proto, new_proto);
}

#[test]
fn utest_workload_dict() {
    let workload = generate_test_workload("agent_A", "nginx", "podman");
    let workload_dict = mapping_of(workload.to_dict());
    let workload_new = Workload::new_from_dict("nginx", &workload_dict);
    assert!(workload_new.is_ok());
    assert_eq!(workload.to_proto(), workload_new.unwrap().to_proto());
}

#[test]
fn utest_update_fields() {
    let mut wl = generate_test_workload("Agent_A", "Test", "podman");
    assert_eq!(wl.masks, vec!["desiredState.workloads.Test".to_string()]);

    wl.update_workload_name("TestNew");
    assert_eq!(wl.name, "TestNew");

    wl.update_agent_name("agent_B");
    assert_eq!(wl.workload.agent, Some("agent_B".to_string()));

    wl.update_runtime("podman-kube");
    assert_eq!(wl.workload.runtime, Some("podman-kube".to_string()));

    wl.update_runtime_config("config_test");
    assert_eq!(wl.workload.runtime_config, Some("config_test".to_string()));

    assert!(wl.update_restart_policy("NEVER").is_ok());
    assert_eq!(wl.workload.restart_policy, Some(0));

    assert!(wl.update_restart_policy("Dance").is_err());

    let tags = vec![vec!["key_test".to_string(), "val_test".to_string()]];
    wl.update_tags(&tags);
    assert_eq!(wl.get_tags(), tags);

    let allow_rules = vec![("Read".to_string(), vec!["desiredState.workloads.workload_A".to_string()])];
    assert!(wl.update_allow_rules(allow_rules.clone()).is_ok());
    assert_eq!(wl.get_allow_rules().unwrap(), allow_rules);

    let deny_rules = vec![("Write".to_string(), vec!["desiredState.workloads.workload_B".to_string()])];
    assert!(wl.update_deny_rules(deny_rules.clone()).is_ok());
    assert_eq!(wl.get_deny_rules().unwrap(), deny_rules);
}

#[test]
fn utest_dependencies() {
    let mut wl = generate_test_workload("Agent_A", "Test", "podman");
    let mut deps = wl.get_dependencies();
    assert_eq!(deps.len(), 2);

    deps.retain(|(name, _)| name != "workload_A");
    assert!(wl.update_dependencies(deps).is_ok());
    assert_eq!(wl.get_dependencies().len(), 1);

    assert!(wl
        .update_dependencies(vec![("workload_A".to_string(), "Dance".to_string())])
        .is_err());
}

#[test]
fn utest_tags() {
    let mut wl = generate_test_workload("Agent_A", "Test", "podman");
    let mut tags = wl.get_tags();
    assert_eq!(tags.len(), 1);

    wl.add_tag("key_test_2", "val_test_2");
    tags.push(vec!["key_test_2".to_string(), "val_test_2".to_string()]);
    assert_eq!(wl.get_tags().len(), 2);
    assert_eq!(wl.get_tags(), tags);

    tags.remove(0);
    wl.update_tags(&tags);
    assert_eq!(wl.get_tags().len(), 1);
}

#[test]
fn utest_rules() {
    let mut wl = generate_test_workload("Agent_A", "Test", "podman");
    let mut allow_rules = wl.get_allow_rules().unwrap();
    assert_eq!(allow_rules.len(), 1);

    allow_rules.push(("Write".to_string(), vec!["desiredState.workloads.workload_B".to_string()]));
    assert!(wl.update_allow_rules(allow_rules).is_ok());
    assert_eq!(wl.get_allow_rules().unwrap().len(), 2);

    assert!(wl
        .update_allow_rules(vec![("Dance".to_string(), vec!["desiredState.workloads.workload_A".to_string()])])
        .is_err());

    let mut deny_rules = wl.get_deny_rules().unwrap();
    assert_eq!(deny_rules.len(), 1);

    deny_rules.push(("Read".to_string(), vec!["desiredState.workloads.workload_A".to_string()]));
    assert!(wl.update_deny_rules(deny_rules).is_ok());
    assert_eq!(wl.get_deny_rules().unwrap().len(), 2);

    assert!(wl
        .update_deny_rules(vec![("Dance".to_string(), vec!["desiredState.workloads.workload_A".to_string()])])
        .is_err());
}

#[test]
fn utest_configs() {
    let mut wl = generate_test_workload("Agent_A", "Test", "podman");
    let mut configs = wl.get_configs();
    assert_eq!(configs.len(), 1);

    wl.add_config("alias_test_2", "config_test_2");
    configs = wl.get_configs();
    assert_eq!(configs.len(), 2);

    configs.push(("alias_test_3".to_string(), "config_test_3".to_string()));
    wl.update_configs(configs.clone());
    assert_eq!(wl.get_configs().len(), 3);
}

fn mask_test_workload() -> Workload {
    Workload {
        workload: generate_test_workload_proto("Agent_A", "podman"),
        main_mask: "desiredState.workloads.Test".to_string(),
        masks: vec![],
        name: "Test".to_string(),
    }
}

fn check_single_mask(mut obj: Workload, call: fn(&mut Workload), expected: &str) {
    call(&mut obj);
    assert_eq!(obj.masks.len(), 1);
    assert_eq!(obj.masks, vec![expected.to_string()]);
    call(&mut obj);
    assert_eq!(obj.masks.len(), 1);
}

#[test]
fn utest_update_workload_name() {
    check_single_mask(mask_test_workload(), |w| w.update_workload_name("TestNew"), "desiredState.workloads.TestNew");
}

#[test]
fn utest_update_agent_name() {
    check_single_mask(mask_test_workload(), |w| w.update_agent_name("agent_B"), "desiredState.workloads.Test.agent");
}

#[test]
fn utest_update_runtime() {
    check_single_mask(mask_test_workload(), |w| w.update_runtime("podman"), "desiredState.workloads.Test.runtime");
}

#[test]
fn utest_update_restart_policy() {
    check_single_mask(
        mask_test_workload(),
        |w| {
            let _ = w.update_restart_policy("NEVER");
        },
        "desiredState.workloads.Test.restartPolicy",
    );
}

#[test]
fn utest_update_runtime_config() {
    check_single_mask(mask_test_workload(), |w| w.update_runtime_config("config"), "desiredState.workloads.Test.runtimeConfig");
}

#[test]
fn utest_update_dependencies() {
    check_single_mask(
        mask_test_workload(),
        |w| {
            let _ = w.update_dependencies(vec![("workload_A".to_string(), "ADD_COND_RUNNING".to_string())]);
        },
        "desiredState.workloads.Test.dependencies",
    );
}

#[test]
fn utest_add_tag() {
    check_single_mask(mask_test_workload(), |w| w.add_tag("key_test", "val_test"), "desiredState.workloads.Test.tags.key_test");
}

#[test]
fn utest_update_tags() {
    check_single_mask(
        mask_test_workload(),
        |w| w.update_tags(&vec![vec!["key_test".to_string(), "val_test".to_string()]]),
        "desiredState.workloads.Test.tags",
    );
}

#[test]
fn utest_update_allow_rule() {
    check_single_mask(
        mask_test_workload(),
        |w| {
            let _ = w.update_allow_rules(vec![("Read".to_string(), vec!["desiredState.workloads.workload_A".to_string()])]);
        },
        "desiredState.workloads.Test.controlInterfaceAccess.allowRules",
    );
}

#[test]
fn utest_update_deny_rule() {
    check_single_mask(
        mask_test_workload(),
        |w| {
            let _ = w.update_deny_rules(vec![("Write".to_string(), vec!["desiredState.workloads.workload_B".to_string()])]);
        },
        "desiredState.workloads.Test.controlInterfaceAccess.denyRules",
    );
}

#[test]
fn utest_add_config() {
    check_single_mask(mask_test_workload(), |w| w.add_config("alias_test", "config_test"), "desiredState.workloads.Test.configs");
}

#[test]
fn workload_utest_workload_builder() {
    let wl = test_builder("agent_A", "Test", "podman").build();
    assert!(wl.is_ok());
    assert_eq!(wl.unwrap().to_proto(), generate_test_workload_proto("agent_A", "podman"));
}

#[test]
fn workload_utest_build_return_err() {
    assert!(Workload::builder().agent_name("agent_A").runtime("podman").runtime_config("config").build().is_err());
    assert!(Workload::builder().workload_name("Test").runtime("podman").runtime_config("config").build().is_err());
    assert!(Workload::builder().workload_name("Test").agent_name("agent_A").runtime_config("config").build().is_err());
    assert!(Workload::builder().workload_name("Test").agent_name("agent_A").runtime("podman").build().is_err());
}

#[test]
fn workload_builder_utest_workload_builder() {
    let wl = test_builder("agent_A", "Test", "podman").build();
    assert!(wl.is_ok());
    assert_eq!(wl.unwrap().to_proto(), generate_test_workload_proto("agent_A", "podman"));
}

fn builder_error(r: Result<Workload, AnkaiosError>) -> String {
    match r {
        Err(AnkaiosError::WorkloadBuilderError(msg)) => msg,
        _ => panic!("expected a builder error"),
    }
}

#[test]
fn workload_builder_utest_build_return_err() {
    assert_eq!(
        builder_error(Workload::builder().agent_name("agent_A").runtime("podman").runtime_config("config").build()),
        "Workload can not be built without a name."
    );
    assert_eq!(
        builder_error(Workload::builder().workload_name("Test").runtime("podman").runtime_config("config").build()),
        "Workload can not be built without an agent name."
    );
    assert_eq!(
        builder_error(Workload::builder().workload_name("Test").agent_name("agent_A").runtime_config("config").build()),
        "Workload can not be built without a runtime."
    );
    assert_eq!(
        builder_error(Workload::builder().workload_name("Test").agent_name("agent_A").runtime("podman").build()),
        "Workload can not be built without a runtime config."
    );
}

#[test]
fn build_refuses_unknown_names_in_order() {
    let base = || Workload::builder().workload_name("Test").agent_name("agent_A").runtime("podman").runtime_config("c");
    match base().restart_policy("SOMETIMES").add_dependency("x", "BAD").build() {
        Err(AnkaiosError::WorkloadFieldError(f, v)) => {
            assert_eq!(f, "restartPolicy");
            assert_eq!(v, "SOMETIMES");
        }
        _ => panic!("expected a field error"),
    }
    match base().add_dependency("x", "BAD").add_allow_rule("Dance", vec![]).build() {
        Err(AnkaiosError::WorkloadFieldError(f, v)) => {
            assert_eq!(f, "dependency condition");
            assert_eq!(v, "BAD");
        }
        _ => panic!("expected a field error"),
    }
    match base().add_allow_rule("Read", vec![]).add_allow_rule("Dance", vec![]).add_deny_rule("Jump", vec![]).build() {
        Err(AnkaiosError::WorkloadFieldError(f, v)) => {
            assert_eq!(f, "operation");
            assert_eq!(v, "Dance");
        }
        _ => panic!("expected a field error"),
    }
    match base().add_deny_rule("Jump", vec![]).build() {
        Err(AnkaiosError::WorkloadFieldError(f, v)) => {
            assert_eq!(f, "operation");
            assert_eq!(v, "Jump");
        }
        _ => panic!("expected a field error"),
    }
}

#[test]
fn built_workload_has_only_main_mask() {
    let wl = generate_test_workload("agent_A", "nginx", "podman");
    assert_eq!(wl.masks, vec!["desiredState.workloads.nginx".to_string()]);
}

#[test]
fn update_dependencies_keeps_entries_before_unknown_condition() {
    let mut wl = generate_test_workload("agent_A", "nginx", "podman");
    let r = wl.update_dependencies(vec![
        ("a".to_string(), "ADD_COND_FAILED".to_string()),
        ("b".to_string(), "NOPE".to_string()),
        ("c".to_string(), "ADD_COND_RUNNING".to_string()),
    ]);
    match r {
        Err(AnkaiosError::WorkloadFieldError(f, v)) => {
            assert_eq!(f, "dependency condition");
            assert_eq!(v, "NOPE");
        }
        _ => panic!("expected a field error"),
    }
    assert_eq!(wl.get_dependencies(), vec![("a".to_string(), "ADD_COND_FAILED".to_string())]);
    assert_eq!(wl.masks, vec!["desiredState.workloads.nginx".to_string()]);
}

#[test]
fn later_dependency_replaces_earlier() {
    let mut wl = mask_test_workload();
    wl.update_dependencies(vec![
        ("a".to_string(), "ADD_COND_FAILED".to_string()),
        ("a".to_string(), "ADD_COND_SUCCEEDED".to_string()),
    ])
    .unwrap();
    assert_eq!(wl.get_dependencies(), vec![("a".to_string(), "ADD_COND_SUCCEEDED".to_string())]);
}

#[test]
fn tag_mask_skipped_when_all_tags_masked() {
    let mut wl = mask_test_workload();
    wl.update_tags(&vec![vec!["k".to_string(), "v".to_string()]]);
    wl.add_tag("k2", "v2");
    assert_eq!(wl.masks, vec!["desiredState.workloads.Test.tags".to_string()]);
}

#[test]
fn update_tags_replaces_single_tag_masks() {
    let mut wl = mask_test_workload();
    wl.add_tag("a", "1");
    wl.update_agent_name("x");
    wl.add_tag("b", "2");
    wl.update_tags(&vec![vec!["c".to_string(), "3".to_string()]]);
    assert_eq!(
        wl.masks,
        vec!["desiredState.workloads.Test.agent".to_string(), "desiredState.workloads.Test.tags".to_string()]
    );
}

#[test]
fn unknown_operation_code_is_reported() {
    let mut proto = generate_test_workload_proto("agent_A", "podman");
    proto.control_interface_access = Some(ank_base::ControlInterfaceAccess {
        allow_rules: vec![
            ank_base::AccessRightsRule { state_rule: None },
            ank_base::AccessRightsRule { state_rule: Some(ank_base::StateRule { operation: -7, filter_masks: vec![] }) },
        ],
        deny_rules: vec![],
    });
    let wl = Workload::new_from_proto("Test", proto);
    match wl.get_allow_rules() {
        Err(AnkaiosError::WorkloadFieldError(f, v)) => {
            assert_eq!(f, "operation");
            assert_eq!(v, "-7");
        }
        _ => panic!("expected a field error"),
    }
    assert_eq!(wl.get_deny_rules().unwrap(), vec![]);
}

#[test]
fn to_dict_writes_fields_in_order() {
    let wl = generate_test_workload("agent_A", "nginx", "podman");
    let dict = mapping_of(wl.to_dict());
    let keys: Vec<String> = dict
        .iter()
        .map(|(k, _)| match k {
            YamlValue::Str(s) => s.clone(),
            _ => panic!("key"),
        })
        .collect();
    assert_eq!(
        keys,
        strings(&["agent", "runtime", "runtimeConfig", "restartPolicy", "dependencies", "tags", "controlInterfaceAccess", "configs"])
    );
    assert_eq!(dict[3].1, YamlValue::Str("ALWAYS".to_string()));
    let deps = mapping_of(dict[4].1.duplicate());
    assert_eq!(deps[0], (YamlValue::Str("workload_A".to_string()), YamlValue::Str("ADD_COND_SUCCEEDED".to_string())));
    assert_eq!(deps[1], (YamlValue::Str("workload_C".to_string()), YamlValue::Str("ADD_COND_RUNNING".to_string())));
}

#[test]
fn to_dict_skips_rules_with_unknown_operation() {
    let mut proto = ank_base::Workload::empty();
    proto.control_interface_access = Some(ank_base::ControlInterfaceAccess {
        allow_rules: vec![ank_base::AccessRightsRule {
            state_rule: Some(ank_base::StateRule { operation: 9, filter_masks: vec![] }),
        }],
        deny_rules: vec![ank_base::AccessRightsRule { state_rule: None }],
    });
    let wl = Workload::new_from_proto("w", proto);
    let dict = mapping_of(wl.to_dict());
    assert_eq!(dict.len(), 1);
    let access = mapping_of(dict[0].1.duplicate());
    assert_eq!(access.len(), 1);
    assert_eq!(access[0].0, YamlValue::Str("denyRules".to_string()));
    assert_eq!(
        access[0].1,
        YamlValue::Sequence(vec![YamlValue::Mapping(vec![(
            YamlValue::Str("type".to_string()),
            YamlValue::Str("StateRule".to_string())
        )])])
    );
}

#[test]
fn new_from_dict_with_missing_agent_fails() {
    let dict = vec![
        (YamlValue::Str("runtime".to_string()), YamlValue::Str("podman".to_string())),
        (YamlValue::Str("runtimeConfig".to_string()), YamlValue::Str("c".to_string())),
    ];
    match Workload::new_from_dict("w", &dict) {
        Err(AnkaiosError::WorkloadBuilderError(m)) => assert_eq!(m, "Workload can not be built without an agent name."),
        _ => panic!("expected a builder error"),
    }
}

#[test]
fn dependencies_read_back_as_given() {
    let mut wl = generate_test_workload("agent_A", "w", "podman");
    let deps = vec![
        ("a".to_string(), "ADD_COND_FAILED".to_string()),
        ("b".to_string(), "ADD_COND_RUNNING".to_string()),
    ];
    assert!(wl.update_dependencies(deps.clone()).is_ok());
    let mut back = wl.get_dependencies();
    back.sort();
    assert_eq!(back, deps);
}

#[test]
fn config_aliases_read_back_as_given() {
    let mut wl = generate_test_workload("agent_A", "w", "podman");
    let configs = vec![("x".to_string(), "cfg_x".to_string()), ("y".to_string(), "cfg_y".to_string())];
    wl.update_configs(configs.clone());
    let mut back = wl.get_configs();
    back.sort();
    assert_eq!(back, configs);
}

#[test]
fn mapping_form_reads_back_for_a_minimal_workload() {
    let wl = Workload::builder()
        .workload_name("min")
        .agent_name("a")
        .runtime("r")
        .runtime_config("c")
        .build()
        .unwrap();
    let back = Workload::new_from_dict("min", &mapping_of(wl.to_dict())).unwrap();
    assert_eq!(back.name, "min");
    assert_eq!(back.to_proto(), wl.to_proto());
}

#[test]
fn build_reports_a_missing_field_before_looking_at_tags() {
    let mut b = Workload::builder();
    b.tags = vec![vec!["only_a_key".to_string()]];
    match b.build() {
        Err(AnkaiosError::WorkloadBuilderError(m)) => assert_eq!(m, "Workload can not be built without a name."),
        _ => panic!("expected a builder error"),
    }
    let mut b = Workload::builder()
        .workload_name("w")
        .agent_name("a")
        .runtime("podman")
        .runtime_config("c")
        .restart_policy("SOMETIMES");
    b.tags = vec![vec!["only_a_key".to_string()]];
    assert_eq!(
        b.build().unwrap_err(),
        AnkaiosError::WorkloadFieldError("restartPolicy".to_string(), "SOMETIMES".to_string())
    );
}

#[test]
fn builder_fields_read_back_through_the_getters() {
    let w = generate_test_workload("agent_A", "workload_A", "podman");
    assert_eq!(w.get_tags(), vec![strings(&["key_test", "val_test"])]);
    assert_eq!(w.get_configs(), vec![("alias_test".to_string(), "config_1".to_string())]);
    assert_eq!(
        w.get_allow_rules().unwrap(),
        vec![("Read".to_string(), strings(&["desiredState.workloads.workload_A"]))]
    );
    assert_eq!(
        w.get_deny_rules().unwrap(),
        vec![("Write".to_string(), strings(&["desiredState.workloads.workload_B"]))]
    );
    let mut deps = w.get_dependencies();
    deps.sort();
    assert_eq!(
        deps,
        vec![
            ("workload_A".to_string(), "ADD_COND_SUCCEEDED".to_string()),
            ("workload_C".to_string(), "ADD_COND_RUNNING".to_string())
        ]
    );
}

#[test]
fn a_later_dependency_on_a_workload_replaces_the_earlier() {
    let b = Workload::builder()
        .workload_name("w")
        .agent_name("a")
        .runtime("podman")
        .runtime_config("c")
        .add_dependency("a", "Dance")
        .add_dependency("other", "ADD_COND_FAILED")
        .add_dependency("a", "ADD_COND_RUNNING");
    assert_eq!(
        b.dependencies,
        vec![
            ("a".to_string(), "ADD_COND_RUNNING".to_string()),
            ("other".to_string(), "ADD_COND_FAILED".to_string())
        ]
    );
    let w = b.build().unwrap();
    let mut deps = w.get_dependencies();
    deps.sort();
    assert_eq!(
        deps,
        vec![
            ("a".to_string(), "ADD_COND_RUNNING".to_string()),
            ("other".to_string(), "ADD_COND_FAILED".to_string())
        ]
    );
}
