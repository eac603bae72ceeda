use orkesy::command::{CommandRun, RunStatus};
use orkesy::model::{
    DesiredState, EdgeSet, HealthStatus, ObservedState, RuntimeGraph, ServiceKind, ServiceNode,
    ServiceStatus,
};
use orkesy::reducer::{reduce, EventEnvelope, RuntimeEvent};
use orkesy::state::{LogStream, RuntimeState, MAX_RUNS};
use orkesy::strmap::StrMap;
use std::time::SystemTime;

fn make_envelope(id: u64, event: RuntimeEvent) -> EventEnvelope {
    EventEnvelope { id, at: SystemTime::now(), event }
}

fn make_test_graph() -> RuntimeGraph {
    let mut nodes = StrMap::new();
    nodes.insert(
        "api".to_string(),
        ServiceNode {
            id: "api".to_string(),
            display_name: "API Server".to_string(),
            kind: ServiceKind::HttpApi,
            desired: DesiredState::Running,
            observed: ObservedState {
                instance_id: None,
                status: ServiceStatus::Stopped,
                health: HealthStatus::Unknown,
            },
            port: Some(8080),
            description: Some("Main API".to_string()),
        },
    );
    RuntimeGraph { nodes, edges: EdgeSet::new() }
}

fn empty_graph() -> RuntimeGraph {
    RuntimeGraph { nodes: StrMap::new(), edges: EdgeSet::new() }
}

fn started(run_id: &str) -> RuntimeEvent {
    RuntimeEvent::CommandStarted {
        run_id: run_id.to_string(),
        command_id: "test".to_string(),
        command: "npm test".to_string(),
        display_name: "Test".to_string(),
        pid: Some(1234),
    }
}

#[test]
fn test_topology_loaded() {
    let graph = make_test_graph();
    let mut state = RuntimeState::new(empty_graph());

    let env = make_envelope(1, RuntimeEvent::TopologyLoaded { graph });
    reduce(&mut state, env);

    assert_eq!(state.graph.nodes.len(), 1);
    assert!(state.graph.nodes.contains_key("api"));
    assert_eq!(state.last_event_id, 1);
}

#[test]
fn test_status_changed() {
    let graph = make_test_graph();
    let mut state = RuntimeState::new(graph);

    let env = make_envelope(
        1,
        RuntimeEvent::StatusChanged { id: "api".to_string(), status: ServiceStatus::Running },
    );
    reduce(&mut state, env);

    let node = state.graph.nodes.get("api").unwrap();
    assert!(matches!(node.observed.status, ServiceStatus::Running));
}

#[test]
fn test_health_changed() {
    let graph = make_test_graph();
    let mut state = RuntimeState::new(graph);

    let env = make_envelope(
        1,
        RuntimeEvent::HealthChanged { id: "api".to_string(), health: HealthStatus::Healthy },
    );
    reduce(&mut state, env);

    let node = state.graph.nodes.get("api").unwrap();
    assert!(matches!(node.observed.health, HealthStatus::Healthy));
}

#[test]
fn test_log_line() {
    let graph = make_test_graph();
    let mut state = RuntimeState::new(graph);

    let env = make_envelope(
        1,
        RuntimeEvent::LogLine {
            id: "api".to_string(),
            stream: LogStream::Stdout,
            text: "Server started".to_string(),
        },
    );
    reduce(&mut state, env);

    assert_eq!(state.logs.per_service.get("api").unwrap().len(), 1);
    assert_eq!(state.logs.merged.len(), 1);
}

#[test]
fn test_clear_logs() {
    let graph = make_test_graph();
    let mut state = RuntimeState::new(graph);

    let env = make_envelope(
        1,
        RuntimeEvent::LogLine {
            id: "api".to_string(),
            stream: LogStream::Stdout,
            text: "Log line".to_string(),
        },
    );
    reduce(&mut state, env);

    let env = make_envelope(2, RuntimeEvent::ClearLogs { id: "api".to_string() });
    reduce(&mut state, env);

    assert!(!state.logs.per_service.contains_key("api"));
}

#[test]
fn test_command_lifecycle() {
    let mut state = RuntimeState::new(make_test_graph());

    let env = make_envelope(1, started("run-1"));
    reduce(&mut state, env);

    assert!(state.runs.contains_key("run-1"));
    assert!(matches!(state.runs.get("run-1").unwrap().status, RunStatus::Running));

    let env = make_envelope(
        2,
        RuntimeEvent::CommandFinished { run_id: "run-1".to_string(), exit_code: Some(0) },
    );
    reduce(&mut state, env);

    let run = state.runs.get("run-1").unwrap();
    assert!(matches!(run.status, RunStatus::Exited { code: Some(0) }));
    assert!(run.finished_at.is_some());
}

#[test]
fn test_command_killed() {
    let mut state = RuntimeState::new(make_test_graph());

    let env = make_envelope(1, started("run-1"));
    reduce(&mut state, env);

    let env = make_envelope(2, RuntimeEvent::CommandKilled { run_id: "run-1".to_string() });
    reduce(&mut state, env);

    let run = state.runs.get("run-1").unwrap();
    assert!(matches!(run.status, RunStatus::Killed));
}

#[test]
fn status_of_unknown_service_changes_nothing() {
    let mut state = RuntimeState::new(make_test_graph());
    let env = make_envelope(
        7,
        RuntimeEvent::StatusChanged { id: "db".to_string(), status: ServiceStatus::Running },
    );
    reduce(&mut state, env);
    assert_eq!(state.graph.nodes.len(), 1);
    assert!(!state.graph.nodes.contains_key("db"));
    assert!(matches!(state.graph.nodes.get("api").unwrap().observed.status, ServiceStatus::Stopped));
    assert_eq!(state.last_event_id, 7);
}

#[test]
fn run_output_goes_to_run_buffer_only() {
    let mut state = RuntimeState::new(make_test_graph());
    reduce(&mut state, make_envelope(1, started("run-1")));
    reduce(
        &mut state,
        make_envelope(
            2,
            RuntimeEvent::CommandOutput {
                run_id: "run-1".to_string(),
                stream: LogStream::Stderr,
                text: "boom".to_string(),
            },
        ),
    );
    assert_eq!(state.logs.per_run.get("run-1").unwrap().len(), 1);
    assert_eq!(state.logs.merged.len(), 0);
    reduce(&mut state, make_envelope(3, RuntimeEvent::ClearRunLogs { run_id: "run-1".to_string() }));
    assert!(!state.logs.per_run.contains_key("run-1"));
    assert!(state.runs.contains_key("run-1"));
}

#[test]
fn finishing_unknown_run_changes_nothing() {
    let mut state = RuntimeState::new(make_test_graph());
    reduce(
        &mut state,
        make_envelope(1, RuntimeEvent::CommandFinished { run_id: "nope".to_string(), exit_code: Some(1) }),
    );
    assert_eq!(state.runs.len(), 0);
    assert_eq!(state.run_order.len(), 0);
}

#[test]
fn run_history_keeps_newest_two_hundred() {
    let mut state = RuntimeState::new(empty_graph());
    for i in 0..(MAX_RUNS + 5) {
        let id = format!("run-{}", i);
        reduce(
            &mut state,
            make_envelope(
                i as u64,
                RuntimeEvent::CommandOutput {
                    run_id: id.clone(),
                    stream: LogStream::Stdout,
                    text: "x".to_string(),
                },
            ),
        );
        reduce(&mut state, make_envelope(i as u64, started(&id)));
    }
    assert_eq!(state.run_order.len(), MAX_RUNS);
    assert_eq!(state.runs.len(), MAX_RUNS);
    assert_eq!(state.run_order[0], format!("run-{}", MAX_RUNS + 4));
    assert!(!state.runs.contains_key("run-4"));
    assert!(state.runs.contains_key("run-5"));
    assert!(!state.logs.per_run.contains_key("run-0"));
    assert!(state.logs.per_run.contains_key("run-5"));
    let ordered = state.runs_ordered();
    assert_eq!(ordered.len(), MAX_RUNS);
    let first: &CommandRun = ordered[0];
    assert_eq!(first.id, format!("run-{}", MAX_RUNS + 4));
    assert_eq!(ordered[MAX_RUNS - 1].id, "run-5");
}
