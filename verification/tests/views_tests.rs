use orkesy::doctor::{managers_info, unit_check, version_text, Check};
use orkesy::model::{HealthStatus, ServiceKind, ServiceStatus};
use orkesy::plugin::{categorize_npm_script, DetectContext, DockerPlugin, NodePlugin, PythonPlugin, RustPlugin};
use orkesy::command::{CommandCategory, PackageManager, PythonPackageManager};
use orkesy::render::{clock_time, fit_title, format_timestamp, health_icon, kind_icon, status_icon, status_label};
use orkesy::theme;
use orkesy::topology::{demo_graph, units_to_graph};
use orkesy::unit::{EdgeKind as UnitEdgeKind, StopBehavior, Unit, UnitEdge, UnitKind};
use orkesy::strmap::StrMap;
use orkesy::detectors::{DockerComposeDetector, NodeDetector, RustDetector};
use orkesy::command::DetectedTool;
use std::time::{Duration, UNIX_EPOCH};

#[test]
fn status_words_and_icons() {
    assert_eq!(status_label(&ServiceStatus::Errored { message: "x".into() }), "error");
    assert_eq!(status_icon(&ServiceStatus::Exited { code: Some(0) }), "◌");
    assert_eq!(status_icon(&ServiceStatus::Exited { code: Some(3) }), "✗");
    assert_eq!(health_icon(&HealthStatus::Unknown), " ");
    assert_eq!(kind_icon(&ServiceKind::Queue), "≡");
    assert_eq!(theme::status_icon(&ServiceStatus::Restarting), "⟲");
    assert_eq!(theme::health_icon(&HealthStatus::Degraded { reason: "slow".into() }), "~");
}

#[test]
fn clock_time_is_utc_time_of_day() {
    assert_eq!(clock_time(0), "00:00:00");
    assert_eq!(clock_time(1_704_067_200 + 3_725), "01:02:05");
    let t = UNIX_EPOCH + Duration::from_secs(86_400 + 59);
    assert_eq!(format_timestamp(&t), "00:00:59");
}

#[test]
fn fit_title_cuts_with_an_ellipsis() {
    assert_eq!(fit_title("services", 20), "services");
    assert_eq!(fit_title("services", 8), "ser…");
    assert_eq!(fit_title("services", 5), "…");
    assert_eq!(fit_title("services", 4), "");
}

#[test]
fn plugin_commands() {
    let cmds = RustPlugin.commands();
    assert_eq!(cmds.len(), 7);
    assert_eq!(cmds[1].id, "cargo:build---release");
    assert_eq!(cmds[1].command, "cargo build --release");
    let cmds = DockerPlugin.commands("/p/compose.yml");
    assert_eq!(cmds[1].id, "docker:up--d");
    let cmds = PythonPlugin.commands(PythonPackageManager::Pip);
    assert_eq!(cmds.len(), 2);
    assert_eq!(PythonPlugin::package_manager(false, true, Some("[tool.poetry]\nname='x'")), PythonPackageManager::Poetry);
    assert_eq!(PythonPlugin::package_manager(false, true, None), PythonPackageManager::Pip);
    let c = NodePlugin::script_command(PackageManager::Pnpm, "dev:web");
    assert_eq!(c.command, "pnpm dev:web");
    assert_eq!(c.category, CommandCategory::Dev);
    assert_eq!(categorize_npm_script("Prettier-check"), CommandCategory::Lint);
    assert_eq!(DetectContext::new("/repo".into()).file_path("package.json"), "/repo/package.json");
    assert_eq!(DetectContext::new("/repo/".into()).file_path("/etc/x"), "/etc/x");
}

#[test]
fn detectors_pick_tools_from_files() {
    assert_eq!(RustDetector.detect(true), Some(DetectedTool::Rust));
    assert_eq!(NodeDetector.detect(true, false, true, true), Some(DetectedTool::Node { pm: PackageManager::Yarn }));
    assert_eq!(
        DockerComposeDetector.detect("/p", &[false, false, true, true]),
        Some(DetectedTool::DockerCompose { file: "/p/compose.yml".into() })
    );
    assert_eq!(DockerComposeDetector.detect("/p", &[false; 4]), None);
}

fn unit(id: &str, kind: UnitKind, start: &str) -> Unit {
    Unit {
        id: id.to_string(),
        name: None,
        kind,
        cwd: None,
        env: StrMap::new(),
        install: Vec::new(),
        start: start.to_string(),
        stop: StopBehavior::default(),
        logs: None,
        health: None,
        description: None,
        port: None,
        autostart: false,
    }
}

#[test]
fn doctor_checks_units() {
    let mut u = unit("api", UnitKind::Process, "node server.js");
    u.port = Some(3000);
    u.autostart = true;
    let c = unit_check(&u, true, true);
    assert!(c.passed);
    assert_eq!(c.message, "ok :3000 [autostart]");
    u.cwd = Some("backend".into());
    u.install = vec![String::new()];
    let c = unit_check(&u, false, false);
    assert!(!c.passed);
    assert_eq!(c.message, "cwd 'backend' not found, port 3000 is in use, empty install command");
    let c = Check::fail("docker", "not running").with_hint("Start Docker");
    assert_eq!(c.hint.as_deref(), Some("Start Docker"));
}

#[test]
fn doctor_reads_versions() {
    assert_eq!(version_text("Docker version 24.0.6, build ed223bc\n", "Docker version ", ','), "24.0.6");
    assert_eq!(version_text("rustc 1.75.0 (82e1608df 2023-12-21)", "rustc ", ' '), "1.75.0");
    assert_eq!(version_text("go version go1.21.5 linux/amd64", "go version go", ' '), "1.21.5");
    assert_eq!(managers_info(&vec!["npm".into(), "pnpm".into()]), " (npm, pnpm)");
    assert_eq!(managers_info(&Vec::new()), "");
}

#[test]
fn graph_from_units_guesses_kinds() {
    let units = vec![
        unit("api-server", UnitKind::Process, "x"),
        unit("redis", UnitKind::Docker, "x"),
        unit("tool", UnitKind::Generic, "x"),
    ];
    let edges = vec![UnitEdge { from: "api-server".into(), to: "redis".into(), kind: UnitEdgeKind::TalksTo }];
    let g = units_to_graph(&units, &edges);
    assert_eq!(g.nodes.len(), 3);
    assert_eq!(g.nodes.get("api-server").unwrap().kind, ServiceKind::HttpApi);
    assert_eq!(g.nodes.get("redis").unwrap().kind, ServiceKind::Cache);
    assert_eq!(g.nodes.get("tool").unwrap().kind, ServiceKind::Generic);
    assert_eq!(g.edges.len(), 1);
    let d = demo_graph();
    assert_eq!(d.nodes.len(), 3);
    assert_eq!(d.edges.len(), 2);
    assert_eq!(d.nodes.get("postgres").unwrap().port, Some(5432));
}

#[test]
fn timestamps_show_utc_time_of_day() {
    assert_eq!(format_timestamp(&(UNIX_EPOCH + Duration::from_secs(3661))), "01:01:01");
    assert_eq!(format_timestamp(&(UNIX_EPOCH + Duration::from_secs(90061))), "01:01:01");
    assert_eq!(format_timestamp(&(UNIX_EPOCH - Duration::from_secs(5))), "??:??:??");
}
