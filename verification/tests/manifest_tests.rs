use ankaios_sdk::manifest::Manifest;
use ankaios_sdk::yaml::YamlValue;
use ankaios_sdk::AnkaiosError;

const MANIFEST_CONTENT: &str = r#"apiVersion: v0.1
workloads:
    nginx_test:
        runtime: podman
        restartPolicy: NEVER
        agent: agent_A
        configs:
            c: config1
        runtimeConfig: |
            image: image/test
configs:
    config1: \"value1\"
    config2: 
        - \"value2\"
        - \"value3\"
    config3:
        field1: \"value4\"
        field2: \"value5\""#;

fn to_yaml(v: &serde_yaml::Value) -> YamlValue {
    match v {
        serde_yaml::Value::Null => YamlValue::Null,
        serde_yaml::Value::Bool(b) => YamlValue::Bool(*b),
        serde_yaml::Value::Number(n) => YamlValue::Number(n.to_string()),
        serde_yaml::Value::String(s) => YamlValue::Str(s.clone()),
        serde_yaml::Value::Sequence(xs) => YamlValue::Sequence(xs.iter().map(to_yaml).collect()),
        serde_yaml::Value::Mapping(m) => YamlValue::Mapping(m.iter().map(|(k, v)| (to_yaml(k), to_yaml(v))).collect()),
        serde_yaml::Value::Tagged(t) => to_yaml(&t.value),
    }
}

fn parse(text: &str) -> YamlValue {
    to_yaml(&serde_yaml::from_str::<serde_yaml::Value>(text).unwrap())
}

fn ystr(s: &str) -> YamlValue {
    YamlValue::Str(s.to_string())
}

#[test]
fn manifest_test_doc_examples() {
    let _manifest = Manifest::from_string("apiVersion: v0.1").unwrap();

    let manifest = Manifest::new(parse("apiVersion: v0.1")).unwrap();
    assert_eq!(manifest.to_dict(), parse("apiVersion: v0.1"));

    let dict = YamlValue::Mapping(vec![(ystr("apiVersion"), ystr("v0.1"))]);
    let manifest = Manifest::from_dict(dict).unwrap();
    assert_eq!(manifest.manifest.get("apiVersion"), Some(&ystr("v0.1")));
}

#[test]
fn utest_creation() {
    let manifest = Manifest::from_string(MANIFEST_CONTENT).unwrap();
    assert_eq!(manifest.manifest.get("apiVersion"), Some(&ystr("v0.1")));
    assert_eq!(
        manifest.calculate_masks(),
        vec![
            "desiredState.workloads.nginx_test",
            "desiredState.configs.config1",
            "desiredState.configs.config2",
            "desiredState.configs.config3"
        ]
    );

    assert!(Manifest::new(YamlValue::Null).is_err());
}

#[test]
fn utest_no_workloads() {
    let manifest_result = Manifest::from_string("apiVersion: v0.1");
    assert!(manifest_result.is_ok());
    let manifest: Manifest = manifest_result.unwrap();
    assert_eq!(manifest.calculate_masks().len(), 0);
}

#[test]
fn manifest_without_api_version_is_refused() {
    let r = Manifest::new(parse("workloads: {}"));
    assert_eq!(r.unwrap_err(), AnkaiosError::InvalidManifestError("Manifest is not valid".to_string()));
}

#[test]
fn manifest_workload_missing_a_mandatory_field_is_refused() {
    let text = "apiVersion: v0.1\nworkloads:\n  w:\n    runtime: podman\n    agent: a\n";
    assert!(!Manifest { manifest: parse(text) }.check());
    let full = "apiVersion: v0.1\nworkloads:\n  w:\n    runtime: podman\n    agent: a\n    runtimeConfig: x\n";
    assert!(Manifest { manifest: parse(full) }.check());
}

#[test]
fn manifest_keeps_its_document() {
    let m = Manifest::from_dict(parse(MANIFEST_CONTENT)).unwrap();
    assert_eq!(m.to_dict(), parse(MANIFEST_CONTENT));
}

#[test]
fn field_names_that_the_check_reads() {
    let odd_key = YamlValue::Number("5".to_string());
    let workload = |fields: Vec<(YamlValue, YamlValue)>| {
        YamlValue::Mapping(vec![
            (ystr("apiVersion"), ystr("v0.1")),
            (ystr("workloads"), YamlValue::Mapping(vec![(ystr("w"), YamlValue::Mapping(fields))])),
        ])
    };
    let first = workload(vec![(odd_key.duplicate(), ystr("x"))]);
    assert!(!Manifest::reads_only_text(&first));
    let after_unknown = workload(vec![(ystr("unknown"), ystr("x")), (odd_key.duplicate(), ystr("y"))]);
    assert!(Manifest::reads_only_text(&after_unknown));
    assert!(!Manifest { manifest: after_unknown }.check());
    assert!(Manifest::reads_only_text(&YamlValue::Null));
}

#[test]
fn manifest_from_text_that_is_not_yaml() {
    let text = "apiVersion: [v0.1";
    let expected = serde_yaml::from_str::<serde_yaml::Value>(text).unwrap_err().to_string();
    assert_eq!(Manifest::from_string(text).unwrap_err(), AnkaiosError::InvalidManifestError(expected));
}

#[test]
fn manifest_from_text_keeps_the_document() {
    let m = Manifest::from_string(MANIFEST_CONTENT).unwrap();
    assert_eq!(m.to_dict(), parse(MANIFEST_CONTENT));
    assert_eq!(
        Manifest::from_string("workloads: {}").unwrap_err(),
        AnkaiosError::InvalidManifestError("Manifest is not valid".to_string())
    );
}

#[test]
fn manifest_from_text_with_a_field_not_named_by_a_string() {
    let text = "apiVersion: v0.1\nworkloads:\n  w:\n    5: x\n";
    assert!(!Manifest::reads_only_text(&parse(text)));
    assert_eq!(
        Manifest::from_string(text).unwrap_err(),
        AnkaiosError::InvalidManifestError("Manifest is not valid".to_string())
    );
}
