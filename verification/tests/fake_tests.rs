use orkesy::fake::{fake_command, fake_startup, open_demo, step_event, EnvelopeCounter, FakeEngine, FakeStep, Outgoing};
use orkesy::lifecycle::EngineCommand;
use orkesy::model::{DesiredState, HealthStatus, ObservedState, ServiceKind, ServiceNode, ServiceStatus};
use orkesy::reducer::RuntimeEvent;
use orkesy::state::LogStream;
use orkesy::strmap::StrMap;

fn node(id: &str, desired: DesiredState) -> ServiceNode {
    ServiceNode {
        id: id.to_string(),
        display_name: id.to_string(),
        kind: ServiceKind::Generic,
        desired,
        observed: ObservedState { instance_id: None, status: ServiceStatus::Unknown, health: HealthStatus::Unknown },
        port: None,
        description: None,
    }
}

fn describe(steps: &[FakeStep]) -> Vec<String> {
    steps
        .iter()
        .map(|s| match s {
            FakeStep::Status { id, status } => format!("{} {:?}", id, status),
            FakeStep::Log { id, text } => format!("{}: {}", id, text),
            FakeStep::ClearLogs { id } => format!("clear {}", id),
            FakeStep::Sleep { ms } => format!("sleep {}", ms),
        })
        .collect()
}

#[test]
fn engine_defaults() {
    let e = FakeEngine::new();
    assert_eq!(e.tick_interval_ms, 600);
    assert_eq!(e.tick_counter, 0);
    let e = FakeEngine::default().with_tick_interval(50);
    assert_eq!(e.tick_interval_ms, 50);
}

#[test]
fn startup_runs_wanted_services() {
    let mut nodes = StrMap::new();
    nodes.insert("worker".to_string(), node("worker", DesiredState::Running));
    nodes.insert("api".to_string(), node("api", DesiredState::Running));
    nodes.insert("db".to_string(), node("db", DesiredState::Stopped));
    let (steps, statuses) = fake_startup(&nodes);
    assert_eq!(
        describe(&steps),
        vec![
            "api Starting",
            "worker Starting",
            "sleep 250",
            "api Running",
            "api: api started",
            "worker Running",
            "worker: worker started",
        ]
    );
    assert!(matches!(statuses.get("db"), Some(ServiceStatus::Stopped)));
    assert!(matches!(statuses.get("api"), Some(ServiceStatus::Running)));
}

#[test]
fn requests_are_answered() {
    let mut st = StrMap::new();
    st.insert("api".to_string(), ServiceStatus::Stopped);
    let r = fake_command(&mut st, EngineCommand::Toggle { id: "api".into() });
    assert_eq!(describe(&r.steps), vec!["api Starting", "sleep 250", "api Running"]);
    assert!(matches!(st.get("api"), Some(ServiceStatus::Running)));
    let r = fake_command(&mut st, EngineCommand::Toggle { id: "api".into() });
    assert_eq!(describe(&r.steps), vec!["api Stopped"]);
    let r = fake_command(&mut st, EngineCommand::Restart { id: "api".into() });
    assert_eq!(describe(&r.steps), vec!["api Restarting", "sleep 200", "api Running", "api: restarted"]);
    let r = fake_command(&mut st, EngineCommand::Kill { id: "api".into() });
    assert_eq!(describe(&r.steps), vec!["api Stopped", "api: process killed"]);
    let r = fake_command(&mut st, EngineCommand::Exec { id: "api".into(), cmd: vec!["ls".into(), "-la".into()] });
    assert_eq!(describe(&r.steps), vec!["api: $ ls -la", "sleep 120", "api: ok"]);
    let r = fake_command(&mut st, EngineCommand::Shutdown);
    assert!(r.quit);
    assert!(r.steps.is_empty());
}

#[test]
fn ticks_print_lines_of_running_services() {
    let mut st = StrMap::new();
    st.insert("api".to_string(), ServiceStatus::Running);
    st.insert("worker".to_string(), ServiceStatus::Running);
    st.insert("cache".to_string(), ServiceStatus::Running);
    st.insert("db".to_string(), ServiceStatus::Stopped);
    let mut e = FakeEngine::new();
    let lines = e.tick(&st);
    assert_eq!(e.tick_counter, 1);
    assert_eq!(e.job_counter, 1);
    assert_eq!(
        lines,
        vec![
            ("api".to_string(), "GET /api/users 200".to_string()),
            ("cache".to_string(), "keys: 1001, memory: 2.1MB".to_string()),
            ("worker".to_string(), "processed job id=1".to_string()),
        ]
    );
    for _ in 0..6 {
        e.tick(&st);
    }
    let lines = e.tick(&st);
    assert_eq!(e.tick_counter, 8);
    assert_eq!(lines[0].1, "GET /health 200");
}

#[test]
fn steps_become_events() {
    match step_event(FakeStep::Log { id: "a".into(), text: "x".into() }) {
        Some(RuntimeEvent::LogLine { stream: LogStream::System, text, .. }) => assert_eq!(text, "x"),
        _ => panic!("expected a log line"),
    }
    assert!(step_event(FakeStep::Sleep { ms: 5 }).is_none());
}

fn outgoing(out: &[Outgoing]) -> Vec<String> {
    out.iter()
        .map(|o| match o {
            Outgoing::Send(env) => match &env.event {
                RuntimeEvent::TopologyLoaded { graph } => format!("{} topology {}", env.id, graph.nodes.len()),
                RuntimeEvent::StatusChanged { id, status } => format!("{} {} {:?}", env.id, id, status),
                RuntimeEvent::LogLine { id, text, .. } => format!("{} {}: {}", env.id, id, text),
                other => format!("{} {:?}", env.id, other),
            },
            Outgoing::Pause(ms) => format!("pause {}", ms),
        })
        .collect()
}

#[test]
fn demo_opening_is_numbered_from_one_and_starts_with_the_topology() {
    let (out, counter, statuses) = open_demo(orkesy::topology::demo_graph());
    assert_eq!(
        outgoing(&out),
        vec![
            "1 topology 3",
            "2 api Starting",
            "3 postgres Starting",
            "4 worker Starting",
            "pause 250",
            "5 api Running",
            "6 api: api started",
            "7 postgres Running",
            "8 postgres: postgres started",
            "9 worker Running",
            "10 worker: worker started",
        ]
    );
    assert_eq!(counter.next_id, 11);
    assert!(matches!(statuses.get("api"), Some(ServiceStatus::Running)));
}

#[test]
fn counter_numbers_steps_on_without_gaps() {
    let mut counter = EnvelopeCounter::new();
    let first = counter.emit(RuntimeEvent::ClearLogs { id: "a".to_string() });
    assert_eq!(first.id, 1);
    let out = counter.send_steps(vec![
        FakeStep::Status { id: "a".to_string(), status: ServiceStatus::Restarting },
        FakeStep::Sleep { ms: 300 },
        FakeStep::Status { id: "a".to_string(), status: ServiceStatus::Stopped },
    ]);
    assert_eq!(outgoing(&out), vec!["2 a Restarting", "pause 300", "3 a Stopped"]);
    assert_eq!(counter.next_id, 4);
}
