use cr7::bundle::{config_file_path, config_path_in, load_bundle_path, load_config_file_path};
use cr7::process::{child, Process, ProcessConfig};
use cr7::state::{ContainerState, ContainerStore, Status};
use cr7::ErrorKind;

fn process_config(cwd: &str) -> ProcessConfig {
    ProcessConfig { terminal: None, console_size: None, cwd: cwd.to_string(), env: None, args: None }
}

#[test]
fn create_start_state_shows_running() {
    let mut store = ContainerStore::new();
    let created = store.create("c1", "/bundles/a", &process_config("/")).unwrap();
    assert_eq!(created.status, Status::Created);
    assert_eq!(created.pid, None);
    store.start("c1", Ok(4242)).unwrap();
    let json = store.state("c1").unwrap();
    assert_eq!(
        json,
        "{\n  \"id\": \"c1\",\n  \"pid\": 4242,\n  \"status\": \"running\",\n  \"bundle_path\": \"/bundles/a\"\n}"
    );
    assert_eq!(store.state("c1").unwrap(), json);
}

#[test]
fn created_record_renders_null_pid() {
    let mut store = ContainerStore::new();
    store.create("c2", "/b", &process_config("/")).unwrap();
    assert_eq!(
        store.state("c2").unwrap(),
        "{\n  \"id\": \"c2\",\n  \"pid\": null,\n  \"status\": \"created\",\n  \"bundle_path\": \"/b\"\n}"
    );
}

#[test]
fn strings_are_escaped_in_state() {
    let rec = ContainerState { id: "a\"b".to_string(), pid: Some(-7), status: Status::Stopped, bundle_path: "/x\\y".to_string() };
    assert_eq!(
        rec.to_json(),
        "{\n  \"id\": \"a\\\"b\",\n  \"pid\": -7,\n  \"status\": \"stopped\",\n  \"bundle_path\": \"/x\\\\y\"\n}"
    );
}

#[test]
fn start_twice_fails_with_invalid_state() {
    let mut store = ContainerStore::new();
    store.create("c1", "/b", &process_config("/")).unwrap();
    store.start("c1", Ok(10)).unwrap();
    let err = store.start("c1", Ok(11)).unwrap_err();
    assert_eq!(err.kind(), ErrorKind::InvalidState);
    assert!(store.state("c1").unwrap().contains("\"pid\": 10,"));
}

#[test]
fn state_of_unknown_id_fails() {
    let store = ContainerStore::new();
    assert_eq!(store.state("nope").unwrap_err().kind(), ErrorKind::ContainerNotFound);
    let mut store = ContainerStore::new();
    assert_eq!(store.start("nope", Ok(1)).unwrap_err().kind(), ErrorKind::ContainerNotFound);
}

#[test]
fn create_twice_fails_with_container_exists() {
    let mut store = ContainerStore::new();
    store.create("c1", "/b", &process_config("/")).unwrap();
    let err = store.create("c1", "/c", &process_config("/")).unwrap_err();
    assert_eq!(err.kind(), ErrorKind::ContainerExists);
    assert_eq!(store.records().len(), 1);
}

#[test]
fn create_rejects_bad_process_config() {
    let mut store = ContainerStore::new();
    let err = store.create("c1", "/b", &process_config("./tmp")).unwrap_err();
    assert_eq!(err.kind(), ErrorKind::InvalidWorkingDirectory);
    assert_eq!(store.records().len(), 0);
}

#[test]
fn failed_spawn_keeps_created() {
    let mut store = ContainerStore::new();
    store.create("c1", "/b", &process_config("/")).unwrap();
    let err = store.start("c1", Err("EAGAIN".to_string())).unwrap_err();
    assert_eq!(err.kind(), ErrorKind::SpawnFailed);
    assert_eq!(err.context(), "EAGAIN");
    assert!(store.state("c1").unwrap().contains("\"created\""));
    store.start("c1", Ok(5)).unwrap();
}

#[test]
fn wait_moves_to_stopped_and_keeps_pid() {
    let mut store = ContainerStore::new();
    store.create("c1", "/b", &process_config("/")).unwrap();
    assert_eq!(store.record_wait("c1", Ok(())).unwrap_err().kind(), ErrorKind::InvalidState);
    store.start("c1", Ok(33)).unwrap();
    let err = store.record_wait("c1", Err("ECHILD".to_string())).unwrap_err();
    assert_eq!(err.kind(), ErrorKind::WaitFailed);
    store.record_wait("c1", Ok(())).unwrap();
    let json = store.state("c1").unwrap();
    assert!(json.contains("\"stopped\""));
    assert!(json.contains("\"pid\": 33,"));
    assert_eq!(store.start("c1", Ok(34)).unwrap_err().kind(), ErrorKind::InvalidState);
}

#[test]
fn config_path_joins_file_name() {
    assert_eq!(config_path_in("/bundles/a"), "/bundles/a/config.json");
    assert_eq!(config_path_in("/bundles/a/"), "/bundles/a/config.json");
    assert_eq!(config_path_in(""), "config.json");
}

#[test]
fn bundle_lookup_errors_name_the_path() {
    let err = load_bundle_path("/nope", Err("No such file or directory".to_string())).unwrap_err();
    assert_eq!(err.kind(), ErrorKind::NotFound);
    assert_eq!(err.context(), "/nope: No such file or directory");
    let err = load_config_file_path(Err("gone".to_string())).unwrap_err();
    assert_eq!(err.context(), "config.json: gone");
    assert_eq!(
        config_file_path("/b", Ok("/b".to_string()), Ok("/b/config.json".to_string())).unwrap(),
        "/b/config.json"
    );
    assert_eq!(
        config_file_path("/b", Err("x".to_string()), Ok("/b/config.json".to_string())).unwrap_err().context(),
        "/b: x"
    );
}

#[test]
fn child_reports_success() {
    let p = Process::from_spec(&process_config("/")).unwrap();
    assert_eq!(child(&p), 0);
}

#[test]
fn persisted_record_reads_back() {
    let rec = ContainerState { id: "c9".to_string(), pid: Some(77), status: Status::Running, bundle_path: "/b".to_string() };
    let back = ContainerState::parse(&rec.to_json()).unwrap();
    assert_eq!(back, rec);
    assert_eq!(ContainerState::parse("{\"id\": \"x\"}"), None);
    assert_eq!(ContainerState::parse("nope"), None);
}

#[test]
fn store_from_records_checks_ids() {
    let a = ContainerState { id: "a".to_string(), pid: None, status: Status::Created, bundle_path: "/b".to_string() };
    let b = ContainerState { id: "a".to_string(), pid: Some(3), status: Status::Running, bundle_path: "/c".to_string() };
    assert!(ContainerStore::from_records(vec![a.clone(), b.clone()]).is_none());
    let lost = ContainerState { id: "z".to_string(), pid: None, status: Status::Running, bundle_path: "/c".to_string() };
    assert!(ContainerStore::from_records(vec![lost]).is_none());
    let store = ContainerStore::from_records(vec![a]).unwrap();
    assert_eq!(store.find("a"), Some(0));
}

#[test]
fn store_rejects_pid_that_does_not_fit_status() {
    let created_with_pid = ContainerState { id: "a".to_string(), pid: Some(5), status: Status::Created, bundle_path: "/b".to_string() };
    assert!(ContainerStore::from_records(vec![created_with_pid]).is_none());
    let stopped_without_pid = ContainerState { id: "s".to_string(), pid: None, status: Status::Stopped, bundle_path: "/b".to_string() };
    assert!(ContainerStore::from_records(vec![stopped_without_pid]).is_none());
    let stopped = ContainerState { id: "s".to_string(), pid: Some(9), status: Status::Stopped, bundle_path: "/b".to_string() };
    assert!(ContainerStore::from_records(vec![stopped]).is_some());
}

#[test]
fn check_startable_follows_status() {
    let mut store = ContainerStore::new();
    assert_eq!(store.check_startable("c1").unwrap_err().kind(), ErrorKind::ContainerNotFound);
    store.create("c0", "/b", &process_config("/")).unwrap();
    store.create("c1", "/b", &process_config("/")).unwrap();
    assert_eq!(store.check_startable("c1"), Ok(1));
    store.start("c1", Ok(8)).unwrap();
    assert_eq!(store.check_startable("c1").unwrap_err().kind(), ErrorKind::InvalidState);
}

#[test]
fn pid_renders_in_decimal() {
    let rec = |pid: i32| ContainerState { id: "x".to_string(), pid: Some(pid), status: Status::Running, bundle_path: "/".to_string() };
    assert!(rec(0).to_json().contains("\"pid\": 0,"));
    assert!(rec(1234567).to_json().contains("\"pid\": 1234567,"));
    assert!(rec(i32::MIN).to_json().contains("\"pid\": -2147483648,"));
    assert!(rec(i32::MAX).to_json().contains("\"pid\": 2147483647,"));
}

#[test]
fn control_characters_are_escaped() {
    let rec = ContainerState { id: "t\tn\n\u{1}".to_string(), pid: None, status: Status::Created, bundle_path: "é".to_string() };
    assert_eq!(
        rec.to_json(),
        "{\n  \"id\": \"t\\tn\\n\\u0001\",\n  \"pid\": null,\n  \"status\": \"created\",\n  \"bundle_path\": \"é\"\n}"
    );
}
