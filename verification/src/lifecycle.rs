//! What the runtimes do for a lifecycle request, apart from the outside work
//! itself.
//!
//! A runtime (the local-process engine, the Docker engine, the process
//! adapter, the Docker adapter) answers a request by announcing status
//! changes and log lines and by doing outside work: launching a process or
//! container, halting it, waiting, installing, running a command.  The plan
//! for a request lists the announcements and the work in order; what is
//! announced after the last piece of work depends on whether it succeeded.
use vstd::prelude::*;

use crate::restart::ExitDecision;
use crate::state::LogStream;
use crate::unit::{StopBehavior, StopSignal, UnitHealth, UnitStatus};
use crate::text::{
    chars_of, decimal, join, join_strings, lines_of, owned, push_str, split_lines, string_views, trim,
    trim_seq, u64_to_string,
};

verus! {

/// A request to a runtime engine.
#[derive(Clone, Debug)]
pub enum EngineCommand {
    Start { id: String },
    Stop { id: String },
    Restart { id: String },
    Kill { id: String },
    Toggle { id: String },
    ClearLogs { id: String },
    Exec { id: String, cmd: Vec<String> },
    EmitLog { id: String, text: String },
    Shutdown,
}

/// Why a runtime engine refused a request.
#[derive(Clone, Debug)]
pub enum EngineError {
    ServiceNotFound { id: String },
    AlreadyRunning { id: String },
    AlreadyStopped { id: String },
    SpawnFailed { id: String, reason: String },
    KillFailed { id: String, reason: String },
    NotSupported { operation: String },
}

pub open spec fn engine_error_text(e: EngineError) -> Seq<char> {
    match e {
        EngineError::ServiceNotFound { id } => "service not found: "@ + id@,
        EngineError::AlreadyRunning { id } => "service already running: "@ + id@,
        EngineError::AlreadyStopped { id } => "service already stopped: "@ + id@,
        EngineError::SpawnFailed { id, reason } => "failed to spawn "@ + id@ + ": "@ + reason@,
        EngineError::KillFailed { id, reason } => "failed to kill "@ + id@ + ": "@ + reason@,
        EngineError::NotSupported { operation } => "operation not supported: "@ + operation@,
    }
}

fn cat(a: &str, b: &str) -> (r: String)
    ensures
        r@ == a@ + b@,
{
    let mut s = owned(a);
    push_str(&mut s, b);
    s
}

fn cat4(a: &str, b: &str, c: &str, d: &str) -> (r: String)
    ensures
        r@ == a@ + b@ + c@ + d@,
{
    let mut s = owned(a);
    push_str(&mut s, b);
    push_str(&mut s, c);
    push_str(&mut s, d);
    s
}

impl EngineError {
    /// The error as a sentence.
    pub fn message(&self) -> (r: String)
        ensures
            r@ == engine_error_text(*self),
    {
        match self {
            EngineError::ServiceNotFound { id } => cat("service not found: ", id.as_str()),
            EngineError::AlreadyRunning { id } => cat("service already running: ", id.as_str()),
            EngineError::AlreadyStopped { id } => cat("service already stopped: ", id.as_str()),
            EngineError::SpawnFailed { id, reason } => cat4("failed to spawn ", id.as_str(), ": ", reason.as_str()),
            EngineError::KillFailed { id, reason } => cat4("failed to kill ", id.as_str(), ": ", reason.as_str()),
            EngineError::NotSupported { operation } => cat("operation not supported: ", operation.as_str()),
        }
    }
}

/// A request to a runtime adapter.
#[derive(Clone, Debug)]
pub enum AdapterCommand {
    Start { id: String },
    Stop { id: String },
    Restart { id: String },
    Kill { id: String },
    Toggle { id: String },
    Exec { id: String, cmd: Vec<String> },
    ClearLogs { id: String },
    Install { id: String },
    Shutdown,
}

/// A report from a runtime adapter about one of its units.
#[derive(Debug)]
pub enum AdapterEvent {
    StatusChanged { id: String, status: UnitStatus },
    HealthChanged { id: String, health: UnitHealth },
    LogLine { id: String, stream: LogStream, text: String },
}

/// Why a runtime adapter refused a request.
#[derive(Clone, Debug)]
pub enum AdapterError {
    NotFound { id: String },
    AlreadyRunning { id: String },
    AlreadyStopped { id: String },
    SpawnFailed { id: String, message: String },
    StopFailed { id: String, message: String },
    ExecFailed { id: String, message: String },
    NotSupported { operation: String },
    Other { message: String },
}

pub open spec fn adapter_error_text(e: AdapterError) -> Seq<char> {
    match e {
        AdapterError::NotFound { id } => "unit not found: "@ + id@,
        AdapterError::AlreadyRunning { id } => "unit already running: "@ + id@,
        AdapterError::AlreadyStopped { id } => "unit already stopped: "@ + id@,
        AdapterError::SpawnFailed { id, message } => "failed to spawn "@ + id@ + ": "@ + message@,
        AdapterError::StopFailed { id, message } => "failed to stop "@ + id@ + ": "@ + message@,
        AdapterError::ExecFailed { id, message } => "failed to exec in "@ + id@ + ": "@ + message@,
        AdapterError::NotSupported { operation } => "operation not supported: "@ + operation@,
        AdapterError::Other { message } => message@,
    }
}

impl AdapterError {
    /// The error as a sentence.
    pub fn message(&self) -> (r: String)
        ensures
            r@ == adapter_error_text(*self),
    {
        match self {
            AdapterError::NotFound { id } => cat("unit not found: ", id.as_str()),
            AdapterError::AlreadyRunning { id } => cat("unit already running: ", id.as_str()),
            AdapterError::AlreadyStopped { id } => cat("unit already stopped: ", id.as_str()),
            AdapterError::SpawnFailed { id, message } => cat4("failed to spawn ", id.as_str(), ": ", message.as_str()),
            AdapterError::StopFailed { id, message } => cat4("failed to stop ", id.as_str(), ": ", message.as_str()),
            AdapterError::ExecFailed { id, message } => cat4("failed to exec in ", id.as_str(), ": ", message.as_str()),
            AdapterError::NotSupported { operation } => cat("operation not supported: ", operation.as_str()),
            AdapterError::Other { message } => message.clone(),
        }
    }
}

/// The runtimes that carry out lifecycle requests.
#[derive(Clone, Copy, Debug, PartialEq, Eq, Structural)]
pub enum Runtime {
    /// Runs services as local processes, restarting them by policy.
    LocalEngine,
    /// Runs services as Docker containers.
    DockerEngine,
    /// Runs units as local processes.
    ProcessAdapter,
    /// Runs the Docker units among the units as containers.
    DockerAdapter,
}

/// A status without data that a runtime announces.
#[derive(Clone, Copy, Debug, PartialEq, Eq, Structural)]
pub enum Phase {
    Starting,
    Running,
    Stopping,
    Stopped,
    Restarting,
}

/// An announcement about the unit a request is for.
#[derive(Debug)]
pub enum Note {
    Status(Phase),
    /// The status becomes an error with this message.
    Failed(String),
    /// The status becomes "exited" with this code.
    Exited(Option<i32>),
    /// A system log line.
    Log(String),
    /// A log line of the unit's own output, from stderr when `err` is set.
    Output { err: bool, text: String },
    /// The unit's logs are cleared.
    ClearLogs,
}

impl Clone for Note {
    fn clone(&self) -> (r: Self)
        ensures
            r == *self,
    {
        match self {
            Note::Status(p) => Note::Status(*p),
            Note::Failed(m) => Note::Failed(m.clone()),
            Note::Exited(c) => Note::Exited(*c),
            Note::Log(t) => Note::Log(t.clone()),
            Note::Output { err, text } => Note::Output { err: *err, text: text.clone() },
            Note::ClearLogs => Note::ClearLogs,
        }
    }
}

/// Outside work a runtime does.
#[derive(Clone, Debug)]
pub enum Work {
    /// Launch the process or container.
    Launch,
    /// Halt it; `force` kills at once.
    Halt { force: bool },
    /// Halt everything that runs.
    HaltAll,
    /// Wait this many milliseconds.
    Wait { ms: u64 },
    /// Run the unit's install commands.
    Install,
    /// Run a command and collect its output.
    Exec { cmd: Vec<String> },
}

#[derive(Clone, Debug)]
pub enum Step {
    Say(Note),
    Do(Work),
}

/// How a failure of the last piece of work is announced.
#[derive(Clone, Debug)]
pub enum Failure {
    /// As a success would be.
    Ignore,
    /// With an error status when `errored` is set, then a log line of
    /// `prefix` and the error.
    Report { errored: bool, prefix: String },
}

/// What a runtime does for a request.
#[derive(Clone, Debug)]
pub struct Plan {
    pub steps: Vec<Step>,
    /// Announced when the last piece of work succeeded.
    pub on_ok: Vec<Note>,
    pub on_err: Failure,
    /// The runtime stops after the plan.
    pub quit: bool,
}

// ---------------------------------------------------------------------------
// Views
// ---------------------------------------------------------------------------

pub enum NoteView {
    Status(Phase),
    Failed(Seq<char>),
    Exited(Option<i32>),
    Log(Seq<char>),
    Output { err: bool, text: Seq<char> },
    ClearLogs,
}

impl View for Note {
    type V = NoteView;

    open spec fn view(&self) -> NoteView {
        match self {
            Note::Status(p) => NoteView::Status(*p),
            Note::Failed(m) => NoteView::Failed(m@),
            Note::Exited(c) => NoteView::Exited(*c),
            Note::Log(t) => NoteView::Log(t@),
            Note::Output { err, text } => NoteView::Output { err: *err, text: text@ },
            Note::ClearLogs => NoteView::ClearLogs,
        }
    }
}

pub enum WorkView {
    Launch,
    Halt { force: bool },
    HaltAll,
    Wait { ms: u64 },
    Install,
    Exec { cmd: Seq<Seq<char>> },
}

impl View for Work {
    type V = WorkView;

    open spec fn view(&self) -> WorkView {
        match self {
            Work::Launch => WorkView::Launch,
            Work::Halt { force } => WorkView::Halt { force: *force },
            Work::HaltAll => WorkView::HaltAll,
            Work::Wait { ms } => WorkView::Wait { ms: *ms },
            Work::Install => WorkView::Install,
            Work::Exec { cmd } => WorkView::Exec { cmd: string_views(cmd@) },
        }
    }
}

pub enum StepView {
    Say(NoteView),
    Do(WorkView),
}

impl View for Step {
    type V = StepView;

    open spec fn view(&self) -> StepView {
        match self {
            Step::Say(n) => StepView::Say(n@),
            Step::Do(w) => StepView::Do(w@),
        }
    }
}

pub enum FailureView {
    Ignore,
    Report { errored: bool, prefix: Seq<char> },
}

impl View for Failure {
    type V = FailureView;

    open spec fn view(&self) -> FailureView {
        match self {
            Failure::Ignore => FailureView::Ignore,
            Failure::Report { errored, prefix } => FailureView::Report { errored: *errored, prefix: prefix@ },
        }
    }
}

pub struct PlanView {
    pub steps: Seq<StepView>,
    pub on_ok: Seq<NoteView>,
    pub on_err: FailureView,
    pub quit: bool,
}

pub open spec fn note_views(v: Seq<Note>) -> Seq<NoteView> {
    v.map_values(|n: Note| n@)
}

pub open spec fn step_views(v: Seq<Step>) -> Seq<StepView> {
    v.map_values(|s: Step| s@)
}

impl View for Plan {
    type V = PlanView;

    open spec fn view(&self) -> PlanView {
        PlanView { steps: step_views(self.steps@), on_ok: note_views(self.on_ok@), on_err: self.on_err@, quit: self.quit }
    }
}

// ---------------------------------------------------------------------------
// The plans
// ---------------------------------------------------------------------------

pub open spec fn say_status(p: Phase) -> StepView {
    StepView::Say(NoteView::Status(p))
}

pub open spec fn say_log(t: Seq<char>) -> StepView {
    StepView::Say(NoteView::Log(t))
}

pub open spec fn doing(w: WorkView) -> StepView {
    StepView::Do(w)
}

pub open spec fn plan_of(steps: Seq<StepView>, on_ok: Seq<NoteView>, on_err: FailureView) -> PlanView {
    PlanView { steps, on_ok, on_err, quit: false }
}

/// A plan that only announces.
pub open spec fn notes_only(steps: Seq<StepView>) -> PlanView {
    plan_of(steps, seq![], FailureView::Ignore)
}

pub open spec fn report(errored: bool, prefix: Seq<char>) -> FailureView {
    FailureView::Report { errored, prefix }
}

/// Announce "starting", launch, then "running" or the error after `prefix`.
pub open spec fn launch_plan(prefix: Seq<char>) -> PlanView {
    plan_of(
        seq![say_status(Phase::Starting), doing(WorkView::Launch)],
        seq![NoteView::Status(Phase::Running)],
        report(true, prefix),
    )
}

pub open spec fn shutdown_plan() -> PlanView {
    PlanView { steps: seq![doing(WorkView::HaltAll)], on_ok: seq![], on_err: FailureView::Ignore, quit: true }
}

/// The command line as it is echoed: its words joined by spaces.
pub open spec fn shown(cmd: Seq<Seq<char>>) -> Seq<char> {
    join(cmd, " "@)
}

/// Echo the command line, then run it unless it is empty.
pub open spec fn exec_plan(cmd: Seq<Seq<char>>) -> PlanView {
    if cmd.len() == 0 {
        notes_only(seq![say_log("$ "@ + shown(cmd)), say_log("[error] empty command"@)])
    } else {
        notes_only(seq![say_log("$ "@ + shown(cmd)), doing(WorkView::Exec { cmd })])
    }
}

/// What a runtime engine does for a request; `running` says whether the
/// service runs now.
pub open spec fn engine_plan_spec(rt: Runtime, cmd: EngineCommand, running: bool) -> PlanView {
    let docker = rt == Runtime::DockerEngine;
    match cmd {
        EngineCommand::Start { .. } => if running && !docker {
            notes_only(seq![say_log("[warn] already running"@)])
        } else {
            launch_plan("[error] "@)
        },
        EngineCommand::Stop { .. } => plan_of(
            if docker {
                seq![doing(WorkView::Halt { force: false })]
            } else {
                seq![say_log("stopping..."@), doing(WorkView::Halt { force: false })]
            },
            seq![NoteView::Status(Phase::Stopped)],
            report(false, "[warn] "@),
        ),
        EngineCommand::Restart { .. } => plan_of(
            seq![
                say_status(Phase::Restarting),
                doing(WorkView::Halt { force: false }),
                doing(WorkView::Wait { ms: 100 }),
                doing(WorkView::Launch),
            ],
            seq![NoteView::Status(Phase::Running), NoteView::Log("restarted"@)],
            report(true, "[error] restart failed: "@),
        ),
        EngineCommand::Kill { .. } => plan_of(
            seq![doing(WorkView::Halt { force: true })],
            seq![NoteView::Status(Phase::Stopped), NoteView::Log("killed"@)],
            if docker {
                FailureView::Ignore
            } else {
                report(false, "[warn] "@)
            },
        ),
        EngineCommand::Toggle { .. } => if running {
            plan_of(
                if docker {
                    seq![doing(WorkView::Halt { force: false })]
                } else {
                    seq![say_log("stopping..."@), doing(WorkView::Halt { force: false })]
                },
                seq![NoteView::Status(Phase::Stopped)],
                FailureView::Ignore,
            )
        } else {
            launch_plan("[error] "@)
        },
        EngineCommand::ClearLogs { .. } => notes_only(seq![StepView::Say(NoteView::ClearLogs)]),
        EngineCommand::Exec { cmd, .. } => if docker {
            notes_only(seq![say_log("$ "@ + shown(string_views(cmd@)) + " (docker exec not yet implemented)"@)])
        } else {
            exec_plan(string_views(cmd@))
        },
        EngineCommand::EmitLog { text, .. } => notes_only(seq![say_log(text@)]),
        EngineCommand::Shutdown => shutdown_plan(),
    }
}

/// What a runtime adapter does for a request; `running` says whether the
/// unit runs now and `known` whether the adapter manages it (the Docker
/// adapter manages only Docker units and ignores requests for others).
pub open spec fn adapter_plan_spec(rt: Runtime, cmd: AdapterCommand, running: bool, known: bool) -> PlanView {
    let docker = rt == Runtime::DockerAdapter;
    if docker && !known && !(cmd is Shutdown) {
        notes_only(seq![])
    } else {
        match cmd {
            AdapterCommand::Start { .. } => if running {
                notes_only(seq![say_log("[warn] already running"@)])
            } else {
                launch_plan("[error] "@)
            },
            AdapterCommand::Stop { .. } => plan_of(
                seq![say_log("stopping..."@), say_status(Phase::Stopping), doing(WorkView::Halt { force: false })],
                seq![NoteView::Status(Phase::Stopped)],
                report(false, "[warn] "@),
            ),
            AdapterCommand::Restart { .. } => plan_of(
                seq![
                    say_log("restarting..."@),
                    doing(WorkView::Halt { force: false }),
                    doing(WorkView::Wait { ms: 100 }),
                    say_status(Phase::Starting),
                    doing(WorkView::Launch),
                ],
                seq![NoteView::Status(Phase::Running), NoteView::Log("restarted"@)],
                report(true, "[error] restart failed: "@),
            ),
            AdapterCommand::Kill { .. } => plan_of(
                seq![doing(WorkView::Halt { force: true })],
                seq![NoteView::Status(Phase::Stopped), NoteView::Log("killed"@)],
                if docker {
                    FailureView::Ignore
                } else {
                    report(false, "[warn] "@)
                },
            ),
            AdapterCommand::Toggle { .. } => if running {
                plan_of(
                    seq![say_log("stopping..."@), say_status(Phase::Stopping), doing(WorkView::Halt { force: false })],
                    seq![NoteView::Status(Phase::Stopped)],
                    FailureView::Ignore,
                )
            } else {
                launch_plan("[error] "@)
            },
            AdapterCommand::ClearLogs { .. } => notes_only(seq![say_log("logs cleared"@)]),
            AdapterCommand::Install { .. } => if docker {
                notes_only(seq![say_log("docker units have no install step"@)])
            } else {
                plan_of(
                    seq![say_log("installing dependencies..."@), doing(WorkView::Install)],
                    seq![],
                    report(false, "[error] install failed: "@),
                )
            },
            AdapterCommand::Exec { cmd, .. } => if docker {
                notes_only(
                    seq![
                        say_log("$ "@ + shown(string_views(cmd@))),
                        say_log("(docker exec not yet implemented for compose-style units)"@),
                    ],
                )
            } else {
                exec_plan(string_views(cmd@))
            },
            AdapterCommand::Shutdown => shutdown_plan(),
        }
    }
}

/// What is announced after the last piece of work of a plan, given how it
/// went.
pub open spec fn finish_spec(p: PlanView, outcome: Result<(), Seq<char>>) -> Seq<NoteView> {
    match outcome {
        Ok(()) => p.on_ok,
        Err(e) => match p.on_err {
            FailureView::Ignore => p.on_ok,
            FailureView::Report { errored, prefix } => if errored {
                seq![NoteView::Failed(e), NoteView::Log(prefix + e)]
            } else {
                seq![NoteView::Log(prefix + e)]
            },
        },
    }
}

/// A whole number as Rust prints it.
pub open spec fn int_text(n: int) -> Seq<char> {
    if n < 0 {
        "-"@ + decimal((-n) as nat)
    } else {
        decimal(n as nat)
    }
}

/// An exit code as Rust's `{:?}` prints an `Option<i32>`.
pub open spec fn code_text(code: Option<i32>) -> Seq<char> {
    match code {
        Some(c) => "Some("@ + int_text(c as int) + ")"@,
        None => "None"@,
    }
}

/// What a runtime does when a unit's process exits with `code`: announce
/// it, then restart it, say the restart limit is reached, or leave it, as
/// `decision` says.
pub open spec fn exit_plan_spec(code: Option<i32>, decision: ExitDecision) -> PlanView {
    let told = seq![
        StepView::Say(NoteView::Exited(code)),
        say_log("process exited with code: "@ + code_text(code)),
    ];
    match decision {
        ExitDecision::Restart { delay_ms, attempt } => plan_of(
            told + seq![
                say_log("restarting in "@ + decimal(delay_ms as nat) + "ms (attempt "@ + decimal(attempt as nat)
                    + "/3)..."@),
                doing(WorkView::Wait { ms: delay_ms }),
                say_status(Phase::Restarting),
                doing(WorkView::Launch),
            ],
            seq![NoteView::Status(Phase::Running)],
            report(true, "[error] restart failed: "@),
        ),
        ExitDecision::LimitReached => notes_only(
            told + seq![say_log("restart limit reached (3 restarts in 60s), not restarting"@)],
        ),
        ExitDecision::Stay => notes_only(told),
    }
}

/// What a runtime engine does for a service that should run when it
/// starts: launch it.
pub open spec fn autostart_plan_spec(rt: Runtime) -> PlanView {
    if rt == Runtime::LocalEngine {
        launch_plan("[error] failed to start: "@)
    } else {
        launch_plan("[error] "@)
    }
}

/// What running a command produced: its output as text (`None` when it is
/// not UTF-8), whether it succeeded and its exit code.
pub struct ExecOutput {
    pub stdout: Option<String>,
    pub stderr: Option<String>,
    pub success: bool,
    pub code: Option<i32>,
}

pub open spec fn output_lines(text: Option<String>, err: bool) -> Seq<NoteView> {
    match text {
        Some(t) => lines_of(t@).map_values(|l: Seq<char>| NoteView::Output { err, text: l }),
        None => seq![],
    }
}

/// What is announced after running a command: its output line by line,
/// stdout first, then "ok" or its exit code; or the reason it could not
/// run.
pub open spec fn exec_report_spec(outcome: Result<ExecOutput, String>) -> Seq<NoteView> {
    match outcome {
        Ok(out) => output_lines(out.stdout, false) + output_lines(out.stderr, true) + seq![
            NoteView::Log(
                if out.success {
                    "ok"@
                } else {
                    "exit code: "@ + code_text(out.code)
                },
            ),
        ],
        Err(e) => seq![NoteView::Log("[error] "@ + e@)],
    }
}

// ---------------------------------------------------------------------------
// Building the plans
// ---------------------------------------------------------------------------

fn log_step(t: String) -> (r: Step)
    ensures
        r@ == say_log(t@),
{
    Step::Say(Note::Log(t))
}

fn status_step(p: Phase) -> (r: Step)
    ensures
        r@ == say_status(p),
{
    Step::Say(Note::Status(p))
}

fn work_step(w: Work) -> (r: Step)
    ensures
        r@ == doing(w@),
{
    Step::Do(w)
}

fn steps1(a: Step) -> (r: Vec<Step>)
    ensures
        step_views(r@) == seq![a@],
{
    let mut v: Vec<Step> = Vec::new();
    v.push(a);
    assert(step_views(v@) =~= seq![a@]);
    v
}

fn steps2(a: Step, b: Step) -> (r: Vec<Step>)
    ensures
        step_views(r@) == seq![a@, b@],
{
    let mut v: Vec<Step> = Vec::new();
    v.push(a);
    v.push(b);
    assert(step_views(v@) =~= seq![a@, b@]);
    v
}

fn steps3(a: Step, b: Step, c: Step) -> (r: Vec<Step>)
    ensures
        step_views(r@) == seq![a@, b@, c@],
{
    let mut v: Vec<Step> = Vec::new();
    v.push(a);
    v.push(b);
    v.push(c);
    assert(step_views(v@) =~= seq![a@, b@, c@]);
    v
}

/// Appends the steps of `more` to `v`.
fn add_steps(v: &mut Vec<Step>, more: Vec<Step>)
    ensures
        step_views(final(v)@) == step_views(old(v)@) + step_views(more@),
{
    let mut more = more;
    let ghost start = v@;
    let ghost extra = more@;
    v.append(&mut more);
    assert(step_views(v@) =~= step_views(start) + step_views(extra));
}

fn notes0() -> (r: Vec<Note>)
    ensures
        note_views(r@) == Seq::<NoteView>::empty(),
{
    let v: Vec<Note> = Vec::new();
    assert(note_views(v@) =~= Seq::<NoteView>::empty());
    v
}

fn notes1(a: Note) -> (r: Vec<Note>)
    ensures
        note_views(r@) == seq![a@],
{
    let mut v: Vec<Note> = Vec::new();
    v.push(a);
    assert(note_views(v@) =~= seq![a@]);
    v
}

fn notes2(a: Note, b: Note) -> (r: Vec<Note>)
    ensures
        note_views(r@) == seq![a@, b@],
{
    let mut v: Vec<Note> = Vec::new();
    v.push(a);
    v.push(b);
    assert(note_views(v@) =~= seq![a@, b@]);
    v
}

fn plan(steps: Vec<Step>, on_ok: Vec<Note>, on_err: Failure) -> (r: Plan)
    ensures
        r@ == plan_of(step_views(steps@), note_views(on_ok@), on_err@),
{
    Plan { steps, on_ok, on_err, quit: false }
}

fn only(steps: Vec<Step>) -> (r: Plan)
    ensures
        r@ == notes_only(step_views(steps@)),
{
    plan(steps, notes0(), Failure::Ignore)
}

fn reporting(errored: bool, prefix: &str) -> (r: Failure)
    ensures
        r@ == report(errored, prefix@),
{
    Failure::Report { errored, prefix: owned(prefix) }
}

fn launch(prefix: &str) -> (r: Plan)
    ensures
        r@ == launch_plan(prefix@),
{
    plan(
        steps2(status_step(Phase::Starting), work_step(Work::Launch)),
        notes1(Note::Status(Phase::Running)),
        reporting(true, prefix),
    )
}

fn shutdown() -> (r: Plan)
    ensures
        r@ == shutdown_plan(),
{
    let r = Plan { steps: steps1(work_step(Work::HaltAll)), on_ok: notes0(), on_err: Failure::Ignore, quit: true };
    r
}

fn say(t: &str) -> (r: Step)
    ensures
        r@ == say_log(t@),
{
    log_step(owned(t))
}

fn echo(cmd: &Vec<String>) -> (r: String)
    ensures
        r@ == "$ "@ + shown(string_views(cmd@)),
{
    cat("$ ", join_strings(cmd, " ").as_str())
}

fn exec_steps(cmd: &Vec<String>) -> (r: Plan)
    ensures
        r@ == exec_plan(string_views(cmd@)),
{
    let line = echo(cmd);
    if cmd.len() == 0 {
        only(steps2(log_step(line), say("[error] empty command")))
    } else {
        only(steps2(log_step(line), work_step(Work::Exec { cmd: cmd.clone() })))
    }
}

/// The halting steps of a stop: announced unless on the Docker engine.
fn halting(docker: bool) -> (r: Vec<Step>)
    ensures
        step_views(r@) == (if docker {
            seq![doing(WorkView::Halt { force: false })]
        } else {
            seq![say_log("stopping..."@), doing(WorkView::Halt { force: false })]
        }),
{
    if docker {
        steps1(work_step(Work::Halt { force: false }))
    } else {
        steps2(say("stopping..."), work_step(Work::Halt { force: false }))
    }
}

/// What a runtime engine does for a request, as `engine_plan_spec` says.
pub fn engine_plan(rt: Runtime, cmd: &EngineCommand, running: bool) -> (r: Plan)
    ensures
        r@ == engine_plan_spec(rt, *cmd, running),
{
    let docker = rt == Runtime::DockerEngine;
    match cmd {
        EngineCommand::Start { .. } => {
            if running && !docker {
                only(steps1(say("[warn] already running")))
            } else {
                launch("[error] ")
            }
        },
        EngineCommand::Stop { .. } => plan(
            halting(docker),
            notes1(Note::Status(Phase::Stopped)),
            reporting(false, "[warn] "),
        ),
        EngineCommand::Restart { .. } => {
            let mut steps = steps2(status_step(Phase::Restarting), work_step(Work::Halt { force: false }));
            add_steps(&mut steps, steps2(work_step(Work::Wait { ms: 100 }), work_step(Work::Launch)));
            assert(step_views(steps@) =~= seq![
                say_status(Phase::Restarting),
                doing(WorkView::Halt { force: false }),
                doing(WorkView::Wait { ms: 100 }),
                doing(WorkView::Launch),
            ]);
            plan(
                steps,
                notes2(Note::Status(Phase::Running), Note::Log(owned("restarted"))),
                reporting(true, "[error] restart failed: "),
            )
        },
        EngineCommand::Kill { .. } => plan(
            steps1(work_step(Work::Halt { force: true })),
            notes2(Note::Status(Phase::Stopped), Note::Log(owned("killed"))),
            if docker {
                Failure::Ignore
            } else {
                reporting(false, "[warn] ")
            },
        ),
        EngineCommand::Toggle { .. } => {
            if running {
                plan(halting(docker), notes1(Note::Status(Phase::Stopped)), Failure::Ignore)
            } else {
                launch("[error] ")
            }
        },
        EngineCommand::ClearLogs { .. } => only(steps1(Step::Say(Note::ClearLogs))),
        EngineCommand::Exec { cmd, .. } => {
            if docker {
                let line = cat(echo(cmd).as_str(), " (docker exec not yet implemented)");
                only(steps1(log_step(line)))
            } else {
                exec_steps(cmd)
            }
        },
        EngineCommand::EmitLog { text, .. } => only(steps1(log_step(text.clone()))),
        EngineCommand::Shutdown => shutdown(),
    }
}

/// What a runtime adapter does for a request, as `adapter_plan_spec` says.
pub fn adapter_plan(rt: Runtime, cmd: &AdapterCommand, running: bool, known: bool) -> (r: Plan)
    ensures
        r@ == adapter_plan_spec(rt, *cmd, running, known),
{
    let docker = rt == Runtime::DockerAdapter;
    let is_shutdown = match cmd {
        AdapterCommand::Shutdown => true,
        _ => false,
    };
    if docker && !known && !is_shutdown {
        let none: Vec<Step> = Vec::new();
        assert(step_views(none@) =~= Seq::<StepView>::empty());
        return only(none);
    }
    match cmd {
        AdapterCommand::Start { .. } => {
            if running {
                only(steps1(say("[warn] already running")))
            } else {
                launch("[error] ")
            }
        },
        AdapterCommand::Stop { .. } => plan(
            steps3(say("stopping..."), status_step(Phase::Stopping), work_step(Work::Halt { force: false })),
            notes1(Note::Status(Phase::Stopped)),
            reporting(false, "[warn] "),
        ),
        AdapterCommand::Restart { .. } => {
            let mut steps = steps3(
                say("restarting..."),
                work_step(Work::Halt { force: false }),
                work_step(Work::Wait { ms: 100 }),
            );
            add_steps(&mut steps, steps2(status_step(Phase::Starting), work_step(Work::Launch)));
            assert(step_views(steps@) =~= seq![
                say_log("restarting..."@),
                doing(WorkView::Halt { force: false }),
                doing(WorkView::Wait { ms: 100 }),
                say_status(Phase::Starting),
                doing(WorkView::Launch),
            ]);
            plan(
                steps,
                notes2(Note::Status(Phase::Running), Note::Log(owned("restarted"))),
                reporting(true, "[error] restart failed: "),
            )
        },
        AdapterCommand::Kill { .. } => plan(
            steps1(work_step(Work::Halt { force: true })),
            notes2(Note::Status(Phase::Stopped), Note::Log(owned("killed"))),
            if docker {
                Failure::Ignore
            } else {
                reporting(false, "[warn] ")
            },
        ),
        AdapterCommand::Toggle { .. } => {
            if running {
                plan(
                    steps3(say("stopping..."), status_step(Phase::Stopping), work_step(Work::Halt { force: false })),
                    notes1(Note::Status(Phase::Stopped)),
                    Failure::Ignore,
                )
            } else {
                launch("[error] ")
            }
        },
        AdapterCommand::ClearLogs { .. } => only(steps1(say("logs cleared"))),
        AdapterCommand::Install { .. } => {
            if docker {
                only(steps1(say("docker units have no install step")))
            } else {
                plan(
                    steps2(say("installing dependencies..."), work_step(Work::Install)),
                    notes0(),
                    reporting(false, "[error] install failed: "),
                )
            }
        },
        AdapterCommand::Exec { cmd, .. } => {
            if docker {
                only(steps2(log_step(echo(cmd)), say("(docker exec not yet implemented for compose-style units)")))
            } else {
                exec_steps(cmd)
            }
        },
        AdapterCommand::Shutdown => shutdown(),
    }
}

fn clone_notes(v: &Vec<Note>) -> (r: Vec<Note>)
    ensures
        r@ == v@,
{
    let mut out: Vec<Note> = Vec::new();
    let mut i: usize = 0;
    while i < v.len()
        invariant
            i <= v.len(),
            out@ == v@.take(i as int),
        decreases v.len() - i,
    {
        let n = v[i].clone();
        out.push(n);
        i = i + 1;
        assert(out@ =~= v@.take(i as int));
    }
    assert(v@.take(v.len() as int) =~= v@);
    out
}

/// What is announced after the last piece of work of a plan, as
/// `finish_spec` says.
pub fn finish(p: &Plan, outcome: &Result<(), String>) -> (r: Vec<Note>)
    ensures
        note_views(r@) == finish_spec(
            p@,
            match outcome {
                Ok(()) => Ok(()),
                Err(e) => Err(e@),
            },
        ),
{
    match outcome {
        Ok(()) => clone_notes(&p.on_ok),
        Err(e) => match &p.on_err {
            Failure::Ignore => clone_notes(&p.on_ok),
            Failure::Report { errored, prefix } => {
                let line = cat(prefix.as_str(), e.as_str());
                if *errored {
                    notes2(Note::Failed(e.clone()), Note::Log(line))
                } else {
                    notes1(Note::Log(line))
                }
            },
        },
    }
}

/// A whole number as Rust prints it.
pub fn int_to_string(n: i32) -> (r: String)
    ensures
        r@ == int_text(n as int),
{
    if n < 0 {
        let m: i64 = -(n as i64);
        cat("-", u64_to_string(m as u64).as_str())
    } else {
        u64_to_string(n as u64)
    }
}

/// An exit code as `{:?}` prints it.
pub fn code_to_string(code: Option<i32>) -> (r: String)
    ensures
        r@ == code_text(code),
{
    match code {
        Some(c) => {
            let mut s = cat("Some(", int_to_string(c).as_str());
            push_str(&mut s, ")");
            s
        },
        None => owned("None"),
    }
}

/// What a runtime does when a unit's process exits, as `exit_plan_spec`
/// says.
pub fn exit_plan(code: Option<i32>, decision: ExitDecision) -> (r: Plan)
    ensures
        r@ == exit_plan_spec(code, decision),
{
    let mut steps = steps2(
        Step::Say(Note::Exited(code)),
        log_step(cat("process exited with code: ", code_to_string(code).as_str())),
    );
    let ghost told = step_views(steps@);
    match decision {
        ExitDecision::Restart { delay_ms, attempt } => {
            let mut line = cat("restarting in ", u64_to_string(delay_ms).as_str());
            push_str(&mut line, "ms (attempt ");
            push_str(&mut line, u64_to_string(attempt as u64).as_str());
            push_str(&mut line, "/3)...");
            let more = steps2(log_step(line), work_step(Work::Wait { ms: delay_ms }));
            add_steps(&mut steps, more);
            add_steps(&mut steps, steps2(status_step(Phase::Restarting), work_step(Work::Launch)));
            assert(step_views(steps@) =~= told + seq![
                say_log("restarting in "@ + decimal(delay_ms as nat) + "ms (attempt "@ + decimal(attempt as nat)
                    + "/3)..."@),
                doing(WorkView::Wait { ms: delay_ms }),
                say_status(Phase::Restarting),
                doing(WorkView::Launch),
            ]);
            plan(steps, notes1(Note::Status(Phase::Running)), reporting(true, "[error] restart failed: "))
        },
        ExitDecision::LimitReached => {
            add_steps(&mut steps, steps1(say("restart limit reached (3 restarts in 60s), not restarting")));
            only(steps)
        },
        ExitDecision::Stay => only(steps),
    }
}

/// What a runtime engine does for a service that should run when it
/// starts, as `autostart_plan_spec` says.
pub fn autostart_plan(rt: Runtime) -> (r: Plan)
    ensures
        r@ == autostart_plan_spec(rt),
{
    if rt == Runtime::LocalEngine {
        launch("[error] failed to start: ")
    } else {
        launch("[error] ")
    }
}

/// Appends the lines of `text` as output notes.
fn add_output(out: &mut Vec<Note>, text: &Option<String>, err: bool)
    ensures
        note_views(final(out)@) == note_views(old(out)@) + output_lines(*text, err),
{
    let ghost start = note_views(out@);
    match text {
        Some(t) => {
            let lines = split_lines(t.as_str());
            let ghost ls = lines_of(t@);
            let mut i: usize = 0;
            while i < lines.len()
                invariant
                    i <= lines.len(),
                    string_views(lines@) == ls,
                    note_views(out@) == start + ls.take(i as int).map_values(
                        |l: Seq<char>| NoteView::Output { err, text: l },
                    ),
                decreases lines.len() - i,
            {
                let ghost before = note_views(out@);
                out.push(Note::Output { err, text: lines[i].clone() });
                proof {
                    assert(note_views(out@) =~= before.push(NoteView::Output { err, text: ls[i as int] }));
                    assert(ls.take(i + 1).map_values(|l: Seq<char>| NoteView::Output { err, text: l }) =~= ls.take(
                        i as int,
                    ).map_values(|l: Seq<char>| NoteView::Output { err, text: l }).push(
                        NoteView::Output { err, text: ls[i as int] },
                    ));
                }
                i = i + 1;
            }
            assert(ls.take(lines.len() as int) =~= ls);
        },
        None => {
            assert(note_views(out@) =~= start + Seq::<NoteView>::empty());
        },
    }
}

/// What is announced after running a command, as `exec_report_spec` says.
pub fn exec_report(outcome: &Result<ExecOutput, String>) -> (r: Vec<Note>)
    ensures
        note_views(r@) == exec_report_spec(*outcome),
{
    match outcome {
        Ok(out) => {
            let mut notes = notes0();
            add_output(&mut notes, &out.stdout, false);
            add_output(&mut notes, &out.stderr, true);
            let last = if out.success {
                owned("ok")
            } else {
                cat("exit code: ", code_to_string(out.code).as_str())
            };
            let ghost before = note_views(notes@);
            notes.push(Note::Log(last));
            assert(note_views(notes@) =~= before.push(NoteView::Log(last@)));
            notes
        },
        Err(e) => notes1(Note::Log(cat("[error] ", e.as_str()))),
    }
}

/// A command's output line by line, stdout first.
pub fn output_report(out: &ExecOutput) -> (r: Vec<Note>)
    ensures
        note_views(r@) == output_lines(out.stdout, false) + output_lines(out.stderr, true),
{
    let mut notes = notes0();
    add_output(&mut notes, &out.stdout, false);
    add_output(&mut notes, &out.stderr, true);
    notes
}

/// The error of an install command that failed with `code`.
pub fn install_failure(code: Option<i32>) -> (r: String)
    ensures
        r@ == "install command failed with exit code: "@ + code_text(code),
{
    cat("install command failed with exit code: ", code_to_string(code).as_str())
}

/// Starting a unit that runs already does no work on the local engine and
/// on the adapters: it only warns.
pub proof fn law_start_when_running_only_warns(rt: Runtime, id: String, known: bool)
    ensures
        rt != Runtime::DockerEngine ==> engine_plan_spec(rt, EngineCommand::Start { id }, true).steps == seq![
            say_log("[warn] already running"@),
        ],
        (rt != Runtime::DockerAdapter || known) ==> adapter_plan_spec(rt, AdapterCommand::Start { id }, true, known).steps
            == seq![say_log("[warn] already running"@)],
{
}

/// A shutdown request halts everything and ends the runtime; no other
/// request ends it.
pub proof fn law_only_shutdown_quits(rt: Runtime, e: EngineCommand, a: AdapterCommand, running: bool, known: bool)
    ensures
        engine_plan_spec(rt, e, running).quit == (e is Shutdown),
        adapter_plan_spec(rt, a, running, known).quit == (a is Shutdown),
        e is Shutdown ==> engine_plan_spec(rt, e, running).steps == seq![doing(WorkView::HaltAll)],
        a is Shutdown ==> adapter_plan_spec(rt, a, running, known).steps == seq![doing(WorkView::HaltAll)],
{
}

/// Whenever a request ends by launching the unit, a failed launch marks the
/// unit as failed with the error and logs the error.
pub proof fn law_failed_launch_is_reported(rt: Runtime, e: EngineCommand, a: AdapterCommand, running: bool, known: bool, err: Seq<char>)
    ensures
        ({
            let p = engine_plan_spec(rt, e, running);
            p.steps.len() > 0 && p.steps.last() == doing(WorkView::Launch) ==> exists|prefix: Seq<char>|
                finish_spec(p, Err(err)) == seq![NoteView::Failed(err), NoteView::Log(prefix + err)]
        }),
        ({
            let p = adapter_plan_spec(rt, a, running, known);
            p.steps.len() > 0 && p.steps.last() == doing(WorkView::Launch) ==> exists|prefix: Seq<char>|
                finish_spec(p, Err(err)) == seq![NoteView::Failed(err), NoteView::Log(prefix + err)]
        }),
{
    let p = engine_plan_spec(rt, e, running);
    match p.on_err {
        FailureView::Report { errored, prefix } => {
            if p.steps.len() > 0 && p.steps.last() == doing(WorkView::Launch) {
                assert(finish_spec(p, Err(err)) == seq![NoteView::Failed(err), NoteView::Log(prefix + err)]);
            }
        },
        FailureView::Ignore => {},
    }
    let q = adapter_plan_spec(rt, a, running, known);
    match q.on_err {
        FailureView::Report { errored, prefix } => {
            if q.steps.len() > 0 && q.steps.last() == doing(WorkView::Launch) {
                assert(finish_spec(q, Err(err)) == seq![NoteView::Failed(err), NoteView::Log(prefix + err)]);
            }
        },
        FailureView::Ignore => {},
    }
}


/// How long a process group gets to exit after a gentle signal before it is
/// killed, in milliseconds.
pub const HALT_GRACE_MS: u64 = 500;

/// Why a unit cannot be launched: its start line is blank.
pub fn launch_check(start: &str) -> (r: Result<(), String>)
    ensures
        r is Ok <==> trim(start@).len() > 0,
        r matches Err(e) ==> e@ == "empty start command"@,
{
    let t = trim_seq(chars_of(start).as_slice());
    if t.len() == 0 {
        Err(owned("empty start command"))
    } else {
        Ok(())
    }
}

/// How a process is halted.
#[derive(Clone, Debug)]
pub enum HaltPlan {
    /// Send `signal` to its process group; unless it is a kill, wait
    /// `HALT_GRACE_MS` and kill the group if it still runs.
    Signal { signal: StopSignal, escalate: bool },
    /// Run the stop command; if it cannot be run, kill the process.
    Command(String),
    /// Kill the process group at once.
    Kill,
}

/// The stop behaviour of a unit, or a terminate signal for an unknown one;
/// forcing kills at once.
pub fn halt_plan(stop: Option<&StopBehavior>, force: bool) -> (r: HaltPlan)
    ensures
        force ==> r is Kill,
        !force ==> match stop {
            None => r == HaltPlan::Signal { signal: StopSignal::SigTerm, escalate: true },
            Some(StopBehavior::Signal(sig)) => r == HaltPlan::Signal { signal: *sig, escalate: *sig != StopSignal::SigKill },
            Some(StopBehavior::Command(c)) => r matches HaltPlan::Command(cmd) && cmd@ == c@,
        },
{
    if force {
        return HaltPlan::Kill;
    }
    match stop {
        None => HaltPlan::Signal { signal: StopSignal::SigTerm, escalate: true },
        Some(StopBehavior::Signal(sig)) => HaltPlan::Signal { signal: *sig, escalate: *sig != StopSignal::SigKill },
        Some(StopBehavior::Command(c)) => HaltPlan::Command(c.clone()),
    }
}

/// The error when a stop command could not be run and the process was
/// killed instead.
pub fn stop_command_failure(error: &str) -> (r: String)
    ensures
        r@ == "stop command failed: "@ + error@ + ", killed process"@,
{
    let mut s = owned("stop command failed: ");
    push_str(&mut s, error);
    push_str(&mut s, ", killed process");
    s
}

} // verus!
