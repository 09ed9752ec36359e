use ankaios_sdk::ank_base;
use ankaios_sdk::extensions::UnreachableOption;
use ankaios_sdk::file::File;
use ankaios_sdk::yaml::YamlValue;
use ankaios_sdk::AnkaiosError;

fn ystr(s: &str) -> YamlValue {
    YamlValue::Str(s.to_string())
}

fn field_error(msg: &str) -> AnkaiosError {
    AnkaiosError::WorkloadFieldError("file".to_string(), msg.to_string())
}

#[test]
fn text_file_round_trip() {
    let f = File::from_text("/etc/conf", "hello");
    assert!(f.is_text());
    assert!(!f.is_binary());
    assert_eq!(f.mount_point(), "/etc/conf");
    assert_eq!(f.text_content(), Some("hello"));
    assert_eq!(f.binary_content(), None);
    let dict = f.to_dict();
    assert_eq!(dict, YamlValue::Mapping(vec![(ystr("mount_point"), ystr("/etc/conf")), (ystr("data"), ystr("hello"))]));
    let back = File::from_dict(dict.as_mapping().unwrap()).unwrap();
    assert_eq!(back, f);
    assert_eq!(File::from_proto(f.to_proto()), f);
}

#[test]
fn binary_file_round_trip() {
    let f = File::from_binary("/bin/x", "aGVsbG8=");
    assert!(f.is_binary());
    assert_eq!(f.binary_content(), Some("aGVsbG8="));
    assert_eq!(
        f.to_proto(),
        ank_base::File {
            mount_point: "/bin/x".to_string(),
            file_content: Some(ank_base::FileContent::BinaryData("aGVsbG8=".to_string())),
        }
    );
    let back = File::from_dict(f.to_dict().as_mapping().unwrap()).unwrap();
    assert_eq!(back, f);
}

#[test]
fn file_dict_errors() {
    assert_eq!(File::from_dict(&vec![(ystr("data"), ystr("x"))]).unwrap_err(), field_error("Missing mount_point"));
    assert_eq!(
        File::from_dict(&vec![(ystr("mount_point"), ystr("/m"))]).unwrap_err(),
        field_error("File must have either text or binary content")
    );
    assert_eq!(
        File::from_dict(&vec![(ystr("mount_point"), ystr("/m")), (ystr("data"), ystr("a")), (ystr("binaryData"), ystr("b"))])
            .unwrap_err(),
        field_error("File cannot have both text and binary content")
    );
    assert_eq!(
        File::from_dict(&vec![(ystr("mount_point"), ystr("/m")), (ystr("data"), YamlValue::Null)]).unwrap_err(),
        field_error("Invalid text content")
    );
}

#[test]
fn error_messages() {
    assert_eq!(field_error("x").to_string(), "Invalid value for field file: x.");
    assert_eq!(AnkaiosError::TimeoutError("t".to_string()).to_string(), "Timeout error: t");
}

#[test]
fn unwrap_of_a_present_value() {
    assert_eq!(Some::<&str>("foo").unwrap_or_unreachable(), "foo");
}

#[test]
fn file_text_forms() {
    assert_eq!(File::from_text("/etc/x", "hello").to_string(), "File(text): /etc/x -> hello (5 bytes)");
    assert_eq!(File::from_text("/m", "é").to_string(), "File(text): /m -> é (2 bytes)");
    let long = "a".repeat(60);
    assert_eq!(
        File::from_text("/m", &long).to_string(),
        format!("File(text): /m -> {}... (60 bytes)", "a".repeat(50))
    );
    assert_eq!(File::from_binary("/b", "aGVsbG8=").to_string(), "File(binary): /b -> base64 data (8 bytes)");
}
