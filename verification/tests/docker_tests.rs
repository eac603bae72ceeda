use orkesy::config::{RestartPolicy, ServiceConfig};
use orkesy::docker::{
    adapter_halt, adapter_launch, container_name, engine_container, shell_failure, stop_failure,
    ContainerHalt, ContainerLaunch,
};
use orkesy::strmap::StrMap;
use orkesy::unit::{StopBehavior, Unit, UnitKind};

fn unit(id: &str, start: &str) -> Unit {
    Unit {
        id: id.to_string(),
        name: None,
        kind: UnitKind::Docker,
        cwd: None,
        env: StrMap::new(),
        install: Vec::new(),
        start: start.to_string(),
        stop: StopBehavior::default(),
        logs: None,
        health: None,
        description: None,
        port: None,
        autostart: false,
    }
}

#[test]
fn docker_start_lines_run_through_the_shell() {
    let mut u = unit("db", "docker compose up -d db");
    u.logs = Some("docker compose logs -f db".to_string());
    match adapter_launch(&u) {
        ContainerLaunch::Shell { command, logs } => {
            assert_eq!(command, "docker compose up -d db");
            assert_eq!(logs.as_deref(), Some("docker compose logs -f db"));
        }
        _ => panic!("expected a shell launch"),
    }
}

#[test]
fn other_start_lines_name_an_image() {
    let mut u = unit("cache", "  redis:7   --save 60 1 ");
    u.env.insert("B".to_string(), "2".to_string());
    u.env.insert("A".to_string(), "1".to_string());
    match adapter_launch(&u) {
        ContainerLaunch::Create(spec) => {
            assert_eq!(spec.name, "orkesy-cache");
            assert_eq!(spec.image, "redis:7");
            assert_eq!(spec.cmd, Some(vec!["--save".to_string(), "60".to_string(), "1".to_string()]));
            assert_eq!(spec.env, vec!["A=1".to_string(), "B=2".to_string()]);
        }
        _ => panic!("expected a container"),
    }
    match adapter_launch(&unit("x", "   ")) {
        ContainerLaunch::Create(spec) => {
            assert_eq!(spec.image, "busybox");
            assert_eq!(spec.cmd, None);
            assert!(spec.env.is_empty());
        }
        _ => panic!("expected a container"),
    }
}

#[test]
fn engine_containers_come_from_the_command() {
    let mut env = StrMap::new();
    env.insert("PORT".to_string(), "80".to_string());
    let config = ServiceConfig {
        name: None,
        command: vec!["nginx".to_string()],
        cwd: None,
        env,
        port: None,
        kind: "generic".to_string(),
        autostart: true,
        health_check: None,
        depends_on: Vec::new(),
        description: None,
        restart: RestartPolicy::default(),
        restart_delay_ms: None,
    };
    let spec = engine_container("web", &config);
    assert_eq!(spec.name, "orkesy-web");
    assert_eq!(spec.image, "nginx");
    assert_eq!(spec.cmd, None);
    assert_eq!(spec.env, vec!["PORT=80".to_string()]);
    assert_eq!(container_name("a"), "orkesy-a");
}

#[test]
fn halting_and_failures() {
    let mut u = unit("db", "docker compose up");
    assert!(matches!(adapter_halt(Some(&u)), ContainerHalt::Api));
    u.stop = StopBehavior::Command("docker compose stop".to_string());
    match adapter_halt(Some(&u)) {
        ContainerHalt::Shell(c) => assert_eq!(c, "docker compose stop"),
        _ => panic!("expected the stop command"),
    }
    assert!(matches!(adapter_halt(None), ContainerHalt::Api));
    assert_eq!(shell_failure(Some(1)), "docker command failed: Some(1)");
    assert_eq!(shell_failure(None), "docker command failed: None");
    assert_eq!(stop_failure(Some(-9)), "stop command failed: Some(-9)");
}
