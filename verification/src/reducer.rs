//! Folding runtime events into the runtime state, and turning adapter
//! reports into runtime events.
use vstd::prelude::*;

use std::collections::VecDeque;
use std::time::SystemTime;

use crate::command::{CommandRun, CommandSpec, ProjectIndex, RunStatus};
use crate::lifecycle::AdapterEvent;
use crate::unit::{UnitHealth, UnitStatus};
use crate::model::{HealthStatus, ObservedState, RuntimeGraph, ServiceNode, ServiceStatus};
use crate::state::{
    added_order, buffer_at, dropped_ids, ids_of, keep_last, LogLine, LogStream, RuntimeState,
};

verus! {

/// Something that happened to the services or the command runs.
#[derive(Debug)]
pub enum RuntimeEvent {
    TopologyLoaded { graph: RuntimeGraph },
    StatusChanged { id: String, status: ServiceStatus },
    HealthChanged { id: String, health: HealthStatus },
    LogLine { id: String, stream: LogStream, text: String },
    ClearLogs { id: String },
    /// The project was indexed (tools and commands detected).
    ProjectIndexed { project: ProjectIndex },
    /// A command started running.
    CommandStarted {
        run_id: String,
        command_id: String,
        command: String,
        display_name: String,
        pid: Option<u32>,
    },
    /// Output from a running command.
    CommandOutput { run_id: String, stream: LogStream, text: String },
    /// A command exited.
    CommandFinished { run_id: String, exit_code: Option<i32> },
    /// A command was killed.
    CommandKilled { run_id: String },
    /// Clear the logs of a command run.
    ClearRunLogs { run_id: String },
}

/// An event with its sequence number and the time it happened.
#[derive(Debug)]
pub struct EventEnvelope {
    pub id: u64,
    pub at: SystemTime,
    pub event: RuntimeEvent,
}

/// `n` with its observed status replaced.
pub open spec fn with_status(n: ServiceNode, status: ServiceStatus) -> ServiceNode {
    ServiceNode {
        id: n.id,
        display_name: n.display_name,
        kind: n.kind,
        desired: n.desired,
        observed: ObservedState {
            instance_id: n.observed.instance_id,
            status: status,
            health: n.observed.health,
        },
        port: n.port,
        description: n.description,
    }
}

/// `n` with its observed health replaced.
pub open spec fn with_health(n: ServiceNode, health: HealthStatus) -> ServiceNode {
    ServiceNode {
        id: n.id,
        display_name: n.display_name,
        kind: n.kind,
        desired: n.desired,
        observed: ObservedState {
            instance_id: n.observed.instance_id,
            status: n.observed.status,
            health: health,
        },
        port: n.port,
        description: n.description,
    }
}

/// The nodes after one of them, if present, took a new status.
pub open spec fn nodes_with_status(
    nodes: Map<Seq<char>, ServiceNode>,
    id: Seq<char>,
    status: ServiceStatus,
) -> Map<Seq<char>, ServiceNode> {
    if nodes.dom().contains(id) {
        nodes.insert(id, with_status(nodes[id], status))
    } else {
        nodes
    }
}

/// The nodes after one of them, if present, took a new health.
pub open spec fn nodes_with_health(
    nodes: Map<Seq<char>, ServiceNode>,
    id: Seq<char>,
    health: HealthStatus,
) -> Map<Seq<char>, ServiceNode> {
    if nodes.dom().contains(id) {
        nodes.insert(id, with_health(nodes[id], health))
    } else {
        nodes
    }
}

/// A run that has just started.
pub open spec fn started_run(
    run_id: String,
    command_id: String,
    command: String,
    display_name: String,
    pid: Option<u32>,
    at: SystemTime,
) -> CommandRun {
    CommandRun {
        id: run_id,
        command_id: command_id,
        command: command,
        display_name: display_name,
        status: RunStatus::Running,
        started_at: at,
        finished_at: None,
        exit_code: None,
        pid: pid,
    }
}

/// `r` after it exited with `code` at `at`.
pub open spec fn finished_run(r: CommandRun, code: Option<i32>, at: SystemTime) -> CommandRun {
    CommandRun {
        id: r.id,
        command_id: r.command_id,
        command: r.command,
        display_name: r.display_name,
        status: RunStatus::Exited { code: code },
        started_at: r.started_at,
        finished_at: Some(at),
        exit_code: code,
        pid: r.pid,
    }
}

/// `r` after it was killed at `at`.
pub open spec fn killed_run(r: CommandRun, at: SystemTime) -> CommandRun {
    CommandRun {
        id: r.id,
        command_id: r.command_id,
        command: r.command,
        display_name: r.display_name,
        status: RunStatus::Killed,
        started_at: r.started_at,
        finished_at: Some(at),
        exit_code: r.exit_code,
        pid: r.pid,
    }
}

/// The runs after one of them, if present, was changed by `f`.
pub open spec fn runs_updated(
    runs: Map<Seq<char>, CommandRun>,
    id: Seq<char>,
    f: spec_fn(CommandRun) -> CommandRun,
) -> Map<Seq<char>, CommandRun> {
    if runs.dom().contains(id) {
        runs.insert(id, f(runs[id]))
    } else {
        runs
    }
}

/// Only the graph's nodes changed.
pub open spec fn only_nodes_changed(a: RuntimeState, b: RuntimeState) -> bool {
    &&& b.graph.edges == a.graph.edges
    &&& b.logs == a.logs
    &&& b.project == a.project
    &&& b.runs@ == a.runs@
    &&& b.run_order@ == a.run_order@
}

/// Only the log buffers changed, and the merged one and the run ones as said.
pub open spec fn only_logs_changed(a: RuntimeState, b: RuntimeState) -> bool {
    &&& b.graph == a.graph
    &&& b.logs.cap == a.logs.cap
    &&& b.project == a.project
    &&& b.runs@ == a.runs@
    &&& b.run_order@ == a.run_order@
}

/// Only the runs changed.
pub open spec fn only_runs_changed(a: RuntimeState, b: RuntimeState) -> bool {
    &&& b.graph == a.graph
    &&& b.logs == a.logs
    &&& b.project == a.project
    &&& b.run_order@ == a.run_order@
}

/// Applies one event to the state and records its id as the last applied.
pub fn reduce(state: &mut RuntimeState, env: EventEnvelope)
    ensures
        final(state).last_event_id == env.id,
        old(state).wf() ==> final(state).wf(),
        match env.event {
            RuntimeEvent::TopologyLoaded { graph } => {
                &&& final(state).graph == graph
                &&& final(state).logs == old(state).logs
                &&& final(state).project == old(state).project
                &&& final(state).runs@ == old(state).runs@
                &&& final(state).run_order@ == old(state).run_order@
            },
            RuntimeEvent::StatusChanged { id, status } => {
                &&& final(state).graph.nodes@ == nodes_with_status(old(state).graph.nodes@, id@, status)
                &&& only_nodes_changed(*old(state), *final(state))
            },
            RuntimeEvent::HealthChanged { id, health } => {
                &&& final(state).graph.nodes@ == nodes_with_health(old(state).graph.nodes@, id@, health)
                &&& only_nodes_changed(*old(state), *final(state))
            },
            RuntimeEvent::LogLine { id, stream, text } => {
                let line = LogLine { at: env.at, service_id: id, stream: stream, text: text };
                &&& final(state).logs.per_service@.dom() == old(state).logs.per_service@.dom().insert(id@)
                &&& final(state).logs.per_service@[id@]@ == keep_last(
                    buffer_at(old(state).logs.per_service@, id@).push(line),
                    old(state).logs.cap as nat,
                )
                &&& forall|k: Seq<char>|
                    k != id@ && old(state).logs.per_service@.dom().contains(k)
                        ==> #[trigger] final(state).logs.per_service@[k] == old(state).logs.per_service@[k]
                &&& final(state).logs.merged@ == keep_last(
                    old(state).logs.merged@.push(line),
                    old(state).logs.cap as nat,
                )
                &&& final(state).logs.per_run@ == old(state).logs.per_run@
                &&& only_logs_changed(*old(state), *final(state))
            },
            RuntimeEvent::ClearLogs { id } => {
                &&& final(state).logs.per_service@ == old(state).logs.per_service@.remove(id@)
                &&& final(state).logs.merged@ == old(state).logs.merged@
                &&& final(state).logs.per_run@ == old(state).logs.per_run@
                &&& only_logs_changed(*old(state), *final(state))
            },
            RuntimeEvent::ProjectIndexed { project } => {
                &&& final(state).project == Some(project)
                &&& final(state).graph == old(state).graph
                &&& final(state).logs == old(state).logs
                &&& final(state).runs@ == old(state).runs@
                &&& final(state).run_order@ == old(state).run_order@
            },
            RuntimeEvent::CommandStarted { run_id, command_id, command, display_name, pid } => {
                let run = started_run(run_id, command_id, command, display_name, pid, env.at);
                let gone = dropped_ids(ids_of(old(state).run_order@), run_id@);
                &&& ids_of(final(state).run_order@) == added_order(ids_of(old(state).run_order@), run_id@)
                &&& final(state).runs@ == old(state).runs@.insert(run_id@, run).remove_keys(gone)
                &&& final(state).logs.per_run@ == old(state).logs.per_run@.remove_keys(gone)
                &&& final(state).logs.per_service@ == old(state).logs.per_service@
                &&& final(state).logs.merged@ == old(state).logs.merged@
                &&& final(state).logs.cap == old(state).logs.cap
                &&& final(state).graph == old(state).graph
                &&& final(state).project == old(state).project
            },
            RuntimeEvent::CommandOutput { run_id, stream, text } => {
                let line = LogLine { at: env.at, service_id: run_id, stream: stream, text: text };
                &&& final(state).logs.per_run@.dom() == old(state).logs.per_run@.dom().insert(run_id@)
                &&& final(state).logs.per_run@[run_id@]@ == keep_last(
                    buffer_at(old(state).logs.per_run@, run_id@).push(line),
                    old(state).logs.cap as nat,
                )
                &&& forall|k: Seq<char>|
                    k != run_id@ && old(state).logs.per_run@.dom().contains(k)
                        ==> #[trigger] final(state).logs.per_run@[k] == old(state).logs.per_run@[k]
                &&& final(state).logs.per_service@ == old(state).logs.per_service@
                &&& final(state).logs.merged@ == old(state).logs.merged@
                &&& only_logs_changed(*old(state), *final(state))
            },
            RuntimeEvent::CommandFinished { run_id, exit_code } => {
                &&& final(state).runs@ == runs_updated(
                    old(state).runs@,
                    run_id@,
                    |r: CommandRun| finished_run(r, exit_code, env.at),
                )
                &&& only_runs_changed(*old(state), *final(state))
            },
            RuntimeEvent::CommandKilled { run_id } => {
                &&& final(state).runs@ == runs_updated(
                    old(state).runs@,
                    run_id@,
                    |r: CommandRun| killed_run(r, env.at),
                )
                &&& only_runs_changed(*old(state), *final(state))
            },
            RuntimeEvent::ClearRunLogs { run_id } => {
                &&& final(state).logs.per_run@ == old(state).logs.per_run@.remove(run_id@)
                &&& final(state).logs.per_service@ == old(state).logs.per_service@
                &&& final(state).logs.merged@ == old(state).logs.merged@
                &&& only_logs_changed(*old(state), *final(state))
            },
        },
{
    state.last_event_id = env.id;
    let at = env.at;
    match env.event {
        RuntimeEvent::TopologyLoaded { graph } => {
            state.graph = graph;
        },
        RuntimeEvent::StatusChanged { id, status } => {
            if let Some(mut node) = state.graph.nodes.remove(id.as_str()) {
                node.observed.status = status;
                let _ = state.graph.nodes.insert(id, node);
            }
        },
        RuntimeEvent::HealthChanged { id, health } => {
            if let Some(mut node) = state.graph.nodes.remove(id.as_str()) {
                node.observed.health = health;
                let _ = state.graph.nodes.insert(id, node);
            }
        },
        RuntimeEvent::LogLine { id, stream, text } => {
            let line = LogLine { at, service_id: id.clone(), stream, text };
            state.logs.push(&id, line);
        },
        RuntimeEvent::ClearLogs { id } => {
            state.logs.clear(&id);
        },
        RuntimeEvent::ProjectIndexed { project } => {
            state.project = Some(project);
        },
        RuntimeEvent::CommandStarted { run_id, command_id, command, display_name, pid } => {
            let run = CommandRun {
                id: run_id,
                command_id,
                command,
                display_name,
                status: RunStatus::Running,
                started_at: at,
                finished_at: None,
                exit_code: None,
                pid,
            };
            state.add_run(run);
        },
        RuntimeEvent::CommandOutput { run_id, stream, text } => {
            let line = LogLine { at, service_id: run_id.clone(), stream, text };
            state.logs.push_run(&run_id, line);
        },
        RuntimeEvent::CommandFinished { run_id, exit_code } => {
            if let Some(mut run) = state.runs.remove(run_id.as_str()) {
                run.status = RunStatus::Exited { code: exit_code };
                run.finished_at = Some(at);
                run.exit_code = exit_code;
                let _ = state.runs.insert(run_id, run);
            }
        },
        RuntimeEvent::CommandKilled { run_id } => {
            if let Some(mut run) = state.runs.remove(run_id.as_str()) {
                run.status = RunStatus::Killed;
                run.finished_at = Some(at);
                let _ = state.runs.insert(run_id, run);
            }
        },
        RuntimeEvent::ClearRunLogs { run_id } => {
            state.logs.clear_run(&run_id);
        },
    }
}


/// The service status an adapter's unit status stands for; a stopping unit
/// counts as stopped.
pub open spec fn service_status_for(s: UnitStatus) -> ServiceStatus {
    match s {
        UnitStatus::Unknown => ServiceStatus::Unknown,
        UnitStatus::Starting => ServiceStatus::Starting,
        UnitStatus::Running => ServiceStatus::Running,
        UnitStatus::Stopping => ServiceStatus::Stopped,
        UnitStatus::Stopped => ServiceStatus::Stopped,
        UnitStatus::Exited { code } => ServiceStatus::Exited { code },
        UnitStatus::Errored { message } => ServiceStatus::Errored { message },
    }
}

/// The health status an adapter's unit health stands for.
pub open spec fn health_status_for(h: UnitHealth) -> HealthStatus {
    match h {
        UnitHealth::Unknown => HealthStatus::Unknown,
        UnitHealth::Healthy => HealthStatus::Healthy,
        UnitHealth::Degraded { reason } => HealthStatus::Degraded { reason },
        UnitHealth::Unhealthy { reason } => HealthStatus::Unhealthy { reason },
    }
}

/// The runtime event an adapter report becomes.
pub fn adapter_event_to_runtime(event: AdapterEvent) -> (r: RuntimeEvent)
    ensures
        match event {
            AdapterEvent::StatusChanged { id, status } => r == RuntimeEvent::StatusChanged {
                id,
                status: service_status_for(status),
            },
            AdapterEvent::HealthChanged { id, health } => r == RuntimeEvent::HealthChanged {
                id,
                health: health_status_for(health),
            },
            AdapterEvent::LogLine { id, stream, text } => r == RuntimeEvent::LogLine { id, stream, text },
        },
{
    match event {
        AdapterEvent::StatusChanged { id, status } => {
            let service_status = match status {
                UnitStatus::Unknown => ServiceStatus::Unknown,
                UnitStatus::Starting => ServiceStatus::Starting,
                UnitStatus::Running => ServiceStatus::Running,
                UnitStatus::Stopping => ServiceStatus::Stopped,
                UnitStatus::Stopped => ServiceStatus::Stopped,
                UnitStatus::Exited { code } => ServiceStatus::Exited { code },
                UnitStatus::Errored { message } => ServiceStatus::Errored { message },
            };
            RuntimeEvent::StatusChanged { id, status: service_status }
        },
        AdapterEvent::HealthChanged { id, health } => {
            let health_status = match health {
                UnitHealth::Unknown => HealthStatus::Unknown,
                UnitHealth::Healthy => HealthStatus::Healthy,
                UnitHealth::Degraded { reason } => HealthStatus::Degraded { reason },
                UnitHealth::Unhealthy { reason } => HealthStatus::Unhealthy { reason },
            };
            RuntimeEvent::HealthChanged { id, health: health_status }
        },
        AdapterEvent::LogLine { id, stream, text } => RuntimeEvent::LogLine { id, stream, text },
    }
}


/// The event announcing that a command of the project started as `run_id`.
pub fn command_started(spec: &CommandSpec, run_id: &str, pid: Option<u32>) -> (r: RuntimeEvent)
    ensures
        r matches RuntimeEvent::CommandStarted { run_id: rid, command_id, command, display_name, pid: p }
            && rid@ == run_id@ && command_id@ == spec.id@ && command@ == spec.command@
            && display_name@ == spec.display_name@ && p == pid,
{
    RuntimeEvent::CommandStarted {
        run_id: run_id.to_owned(),
        command_id: spec.id.clone(),
        command: spec.command.clone(),
        display_name: spec.display_name.clone(),
        pid,
    }
}

} // verus!
