//! Units: the things a workspace runs, and the edges between them.
use vstd::prelude::*;

use crate::strmap::StrMap;

verus! {

#[derive(Clone, Copy, Debug, PartialEq, Eq, Structural)]
pub enum UnitKind {
    Process,
    Docker,
    Generic,
}

impl Default for UnitKind {
    fn default() -> (r: Self)
        ensures
            r == UnitKind::Process,
    {
        UnitKind::Process
    }
}

#[derive(Clone, Copy, Debug, PartialEq, Eq, Structural)]
pub enum StopSignal {
    SigInt,
    SigTerm,
    SigKill,
}

/// How a unit is stopped: a signal, or a command to run.
#[derive(Clone, Debug)]
pub enum StopBehavior {
    Signal(StopSignal),
    Command(String),
}

impl Default for StopBehavior {
    fn default() -> (r: Self)
        ensures
            r matches StopBehavior::Signal(StopSignal::SigInt),
    {
        StopBehavior::Signal(StopSignal::SigInt)
    }
}

/// How a unit's health is checked.
#[derive(Debug)]
pub enum HealthCheck {
    Tcp { port: u16, interval_ms: u64 },
    Http { url: String, interval_ms: u64, timeout_ms: u64 },
    Exec { command: String, interval_ms: u64 },
}

impl Clone for HealthCheck {
    fn clone(&self) -> (r: Self)
        ensures
            r == *self,
    {
        match self {
            HealthCheck::Tcp { port, interval_ms } => HealthCheck::Tcp { port: *port, interval_ms: *interval_ms },
            HealthCheck::Http { url, interval_ms, timeout_ms } => HealthCheck::Http {
                url: url.clone(),
                interval_ms: *interval_ms,
                timeout_ms: *timeout_ms,
            },
            HealthCheck::Exec { command, interval_ms } => HealthCheck::Exec {
                command: command.clone(),
                interval_ms: *interval_ms,
            },
        }
    }
}

/// A unit of a workspace.
#[derive(Debug)]
pub struct Unit {
    pub id: String,
    pub name: Option<String>,
    pub kind: UnitKind,
    pub cwd: Option<String>,
    pub env: StrMap<String>,
    pub install: Vec<String>,
    pub start: String,
    pub stop: StopBehavior,
    pub logs: Option<String>,
    pub health: Option<HealthCheck>,
    pub description: Option<String>,
    pub port: Option<u16>,
    pub autostart: bool,
}

/// The name a unit is shown by: its name, else its id.
pub open spec fn unit_display_name(u: Unit) -> Seq<char> {
    match u.name {
        Some(n) => n@,
        None => u.id@,
    }
}

impl Unit {
    pub fn display_name(&self) -> (r: &str)
        ensures
            r@ == unit_display_name(*self),
    {
        match &self.name {
            Some(n) => n.as_str(),
            None => self.id.as_str(),
        }
    }
}

#[derive(Clone, Debug)]
pub enum UnitStatus {
    Unknown,
    Starting,
    Running,
    Stopping,
    Stopped,
    Exited { code: Option<i32> },
    Errored { message: String },
}

impl Default for UnitStatus {
    fn default() -> (r: Self)
        ensures
            r is Unknown,
    {
        UnitStatus::Unknown
    }
}

impl UnitStatus {
    pub fn is_running(&self) -> (r: bool)
        ensures
            r == (*self is Running),
    {
        match self {
            UnitStatus::Running => true,
            _ => false,
        }
    }

    /// Stopped, or exited with whatever code.
    pub fn is_stopped(&self) -> (r: bool)
        ensures
            r == (*self is Stopped || *self is Exited),
    {
        match self {
            UnitStatus::Stopped | UnitStatus::Exited { .. } => true,
            _ => false,
        }
    }
}

#[derive(Clone, Debug)]
pub enum UnitHealth {
    Unknown,
    Healthy,
    Degraded { reason: String },
    Unhealthy { reason: String },
}

impl Default for UnitHealth {
    fn default() -> (r: Self)
        ensures
            r is Unknown,
    {
        UnitHealth::Unknown
    }
}

#[derive(Clone, Copy, Debug, PartialEq, Eq, Structural, PartialOrd, Ord)]
pub enum EdgeKind {
    DependsOn,
    TalksTo,
    Produces,
    Consumes,
}

impl Default for EdgeKind {
    fn default() -> (r: Self)
        ensures
            r == EdgeKind::DependsOn,
    {
        EdgeKind::DependsOn
    }
}

#[derive(Clone, Debug)]
pub struct UnitEdge {
    pub from: String,
    pub to: String,
    pub kind: EdgeKind,
}

} // verus!
