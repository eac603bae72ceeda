use orkesy::cli::{log_line, status_report, targets, CliAction};
use orkesy::health::{health_checkers, HealthChecker};
use orkesy::init::detect_project_name;
use orkesy::lifecycle::AdapterCommand;
use orkesy::log_history::{project_dir, project_hash, state_root};
use orkesy::model::HealthStatus;
use orkesy::runner::{arbitrary_spec, run_error_line};
use orkesy::state::LogStream;
use orkesy::strmap::StrMap;
use orkesy::topology::service_status_of;
use orkesy::model::ServiceStatus;
use orkesy::unit::{HealthCheck, StopBehavior, Unit, UnitKind, UnitStatus};
use orkesy::command::CommandCategory;

fn ids() -> Vec<String> {
    vec!["api".to_string(), "db".to_string()]
}

#[test]
fn targets_expand_all_and_reject_unknown_units() {
    assert_eq!(targets(&ids(), &vec!["all".to_string()]).unwrap(), ids());
    assert_eq!(targets(&ids(), &vec!["db".to_string()]).unwrap(), vec!["db".to_string()]);
    let err = targets(&ids(), &vec!["db".to_string(), "web".to_string(), "x".to_string()]).unwrap_err();
    assert_eq!(err, "Unknown unit 'web'. Available: api, db");
}

#[test]
fn progress_lines() {
    assert_eq!(log_line("api", LogStream::Stderr, "boom"), "[api] [stderr] boom");
    assert_eq!(log_line("api", LogStream::Stdout, "ok"), "[api] ok");
    let r = status_report(CliAction::Stop, "api", &UnitStatus::Stopped);
    assert_eq!(r.line.as_deref(), Some("[api] Status: stopped"));
    assert!(r.done);
    let r = status_report(CliAction::Start, "api", &UnitStatus::Stopped);
    assert!(!r.done);
    let r = status_report(CliAction::Start, "api", &UnitStatus::Errored { message: "bad".into() });
    assert_eq!(r.error.as_deref(), Some("[api] Error: bad"));
    assert_eq!(r.line.as_deref(), Some("[api] Status: error"));
    let r = status_report(CliAction::Start, "api", &UnitStatus::Starting);
    assert!(r.line.is_none());
    assert!(matches!(CliAction::Install.request("db".into()), AdapterCommand::Install { ref id } if id == "db"));
    assert_eq!(CliAction::Install.wait_ms(), 30_000);
    assert!(CliAction::Stop.ends_when_done());
    assert!(!CliAction::Restart.ends_when_done());
}

fn unit(id: &str, health: Option<HealthCheck>) -> Unit {
    Unit {
        id: id.to_string(),
        name: None,
        kind: UnitKind::Process,
        cwd: None,
        env: StrMap::new(),
        install: Vec::new(),
        start: "x".to_string(),
        stop: StopBehavior::default(),
        logs: None,
        health,
        description: None,
        port: Some(8080),
        autostart: false,
    }
}

#[test]
fn health_probes() {
    let units = vec![
        unit("api", Some(HealthCheck::Tcp { port: 8080, interval_ms: 500 })),
        unit("job", None),
        unit("web", Some(HealthCheck::Exec { command: "true".into(), interval_ms: 900 })),
    ];
    let probes = health_checkers(&units);
    assert_eq!(probes.len(), 2);
    assert_eq!(probes[1].service_id, "web");
    assert_eq!(probes[1].interval_ms(), 900);
    assert_eq!(HealthChecker::http_target("http://localhost:3000/health"), "localhost:3000");
    assert_eq!(HealthChecker::http_target("https://db:5432"), "db:5432");
    assert!(matches!(HealthChecker::exec_result("", Ok((true, Some(0)))), HealthStatus::Unknown));
    match HealthChecker::exec_result("check", Ok((false, Some(3)))) {
        HealthStatus::Unhealthy { reason } => assert_eq!(reason, "exit code: Some(3)"),
        other => panic!("unexpected: {:?}", other),
    }
    match HealthChecker::connect_result(None) {
        HealthStatus::Unhealthy { reason } => assert_eq!(reason, "connection timeout"),
        other => panic!("unexpected: {:?}", other),
    }
}

#[test]
fn runner_records_ad_hoc_runs() {
    let spec = arbitrary_spec("r1", "Lint".into(), "npm run lint".into(), None);
    assert_eq!(spec.id, "arbitrary:r1");
    assert_eq!(spec.display_name, "Lint");
    assert_eq!(spec.category, CommandCategory::Script);
    assert_eq!(run_error_line("no such file"), "[error] no such file");
}

#[test]
fn project_name_prefers_package_files() {
    let pkg = "{\n  \"name\": \"web-app\",\n  \"version\": \"1.0.0\"\n}";
    let cargo = "[package]\nname = \"tool\"\n";
    assert_eq!(detect_project_name(Some(pkg), None, Some(cargo), Some("dir")), Some("web-app".to_string()));
    assert_eq!(detect_project_name(None, None, Some(cargo), Some("dir")), Some("tool".to_string()));
    assert_eq!(detect_project_name(None, None, None, Some("dir")), Some("dir".to_string()));
    assert_eq!(detect_project_name(None, None, None, None), None);
}

#[test]
fn history_locations() {
    assert_eq!(state_root(Some("/s"), Some("/x"), Some("/h"), true), "/s");
    assert_eq!(state_root(None, Some("/x"), Some("/h"), true), "/x/orkesy");
    assert_eq!(state_root(None, None, Some("/h"), true), "/h/.local/state/orkesy");
    assert_eq!(state_root(None, None, Some("/h"), false), "/h/.orkesy");
    assert_eq!(state_root(None, None, None, false), ".orkesy");
    let dir = project_dir("/s", "/tmp/foo");
    assert_eq!(dir, format!("/s/projects/{}", project_hash("/tmp/foo")));
}

#[test]
fn adapter_statuses_show_in_the_graph() {
    assert!(matches!(service_status_of(UnitStatus::Stopping), ServiceStatus::Stopped));
    assert!(matches!(service_status_of(UnitStatus::Exited { code: Some(1) }), ServiceStatus::Exited { code: Some(1) }));
}
