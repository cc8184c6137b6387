use cr7::config::{load, ConfigModel, Json};
use cr7::process::ConsoleSize;
use cr7::ErrorKind;

const VALID: &str = r#"{
  "ociVersion": "1.0.1-dev",
  "hostname": "container_hostname",
  "process": {
    "terminal": true,
    "consoleSize": {"width": 80, "height": 24},
    "cwd": "/",
    "env": ["PATH=/bin:/usr/bin", "TERM=xterm"],
    "args": ["sh"]
  }
}"#;

const NO_HOSTNAME: &str = r#"{
  "ociVersion": "1.0.1-dev",
  "process": {"cwd": "/"}
}"#;

#[test]
fn load_config_file_not_found() {
    let config = load(None);
    assert!(config.is_err(), "expect {:?} to be err", config);
    assert_eq!(config.err().unwrap().kind(), ErrorKind::NotFound);
}

#[test]
fn load_config_file_with_synxtax_error() {
    let config = load(Some("{not json"));
    assert!(config.is_err(), "expect {:?} to be err", config);
    assert_eq!(config.err().unwrap().kind(), ErrorKind::ConfigSyntax);
}

#[test]
fn load_config_file_invalid() {
    let config = load(Some("{}"));
    assert!(config.is_err(), "expect {:?} to be err", config);
    assert_eq!(config.err().unwrap().kind(), ErrorKind::ParseConfig);
}

#[test]
fn load_config_file_successfully() {
    let config = load(Some(VALID));
    assert!(config.is_ok(), "expect {:?} to be ok", config);
}

#[test]
fn config_public_method_oci_version() {
    let config = load(Some(VALID)).expect("expected config to be ok");
    assert_eq!(config.oci_version(), "1.0.1-dev");
}

#[test]
fn config_public_method_hostname_with_value() {
    let config = load(Some(VALID)).expect("expected config to be ok");
    assert_eq!(config.hostname(), &Some("container_hostname".to_string()));
}

#[test]
fn config_public_method_hostname_with_no_hostname() {
    let config = load(Some(NO_HOSTNAME)).expect("expected config to be ok");
    assert_eq!(config.hostname(), &None);
}

#[test]
fn process_section_is_read_in_full() {
    let config = load(Some(VALID)).unwrap();
    let p = config.process();
    assert_eq!(p.terminal, Some(true));
    assert_eq!(p.console_size, Some(ConsoleSize { width: 80, height: 24 }));
    assert_eq!(p.cwd, "/");
    assert_eq!(p.env, Some(vec!["PATH=/bin:/usr/bin".to_string(), "TERM=xterm".to_string()]));
    assert_eq!(p.args, Some(vec!["sh".to_string()]));
}

#[test]
fn wrong_field_types_are_schema_errors() {
    let cases = [
        r#"{"ociVersion": 1, "process": {"cwd": "/"}}"#,
        r#"{"ociVersion": "", "process": {"cwd": "/"}}"#,
        r#"{"ociVersion": "1", "hostname": 3, "process": {"cwd": "/"}}"#,
        r#"{"ociVersion": "1", "process": {"cwd": "/", "env": ["A=b", 1]}}"#,
        r#"{"ociVersion": "1", "process": {"cwd": "/", "terminal": "yes"}}"#,
        r#"{"ociVersion": "1", "process": {"cwd": "/", "consoleSize": {"width": -1, "height": 2}}}"#,
        r#"{"ociVersion": "1", "process": {"cwd": "/", "consoleSize": {"width": 4294967296, "height": 2}}}"#,
        r#"{"ociVersion": "1", "process": []}"#,
        r#"[]"#,
    ];
    for text in cases.iter() {
        let config = load(Some(text));
        assert_eq!(config.err().map(|e| e.kind()), Some(ErrorKind::ParseConfig), "{}", text);
    }
}

#[test]
fn empty_text_is_a_syntax_error() {
    assert_eq!(load(Some("")).err().map(|e| e.kind()), Some(ErrorKind::ConfigSyntax));
}

#[test]
fn null_optional_fields_count_as_absent() {
    let text = r#"{"ociVersion": "1", "hostname": null, "process": {"cwd": "/x", "env": null}}"#;
    let config = load(Some(text)).unwrap();
    assert_eq!(config.hostname(), &None);
    assert_eq!(config.process().env, None);
    assert_eq!(config.process().cwd, "/x");
}

#[test]
fn config_from_document_tree() {
    let doc = Json::Object(vec![
        ("ociVersion".to_string(), Json::Str("1.0.2".to_string())),
        (
            "process".to_string(),
            Json::Object(vec![
                ("cwd".to_string(), Json::Str("/srv".to_string())),
                ("args".to_string(), Json::Array(vec![Json::Str("a".to_string())])),
            ]),
        ),
    ]);
    let config = ConfigModel::from_json(&doc).unwrap();
    assert_eq!(config.oci_version(), "1.0.2");
    assert_eq!(config.process().cwd, "/srv");
    assert_eq!(config.process().args, Some(vec!["a".to_string()]));
    let missing = Json::Object(vec![("ociVersion".to_string(), Json::Str("1".to_string()))]);
    assert_eq!(ConfigModel::from_json(&missing).unwrap_err().kind(), ErrorKind::ParseConfig);
}

#[test]
fn version_without_hostname() {
    let config = load(Some(NO_HOSTNAME)).unwrap();
    assert_eq!(config.oci_version(), "1.0.1-dev");
    assert_eq!(config.hostname(), &None);
}
