use orkesy::lifecycle::{
    adapter_plan, code_to_string, engine_plan, exec_report, exit_plan, finish, int_to_string, AdapterCommand,
    AdapterError, EngineCommand, EngineError, ExecOutput, Note, Phase, Runtime, Step, Work,
};
use orkesy::restart::{decide_exit, ExitDecision, RestartTracker};
use orkesy::config::RestartPolicy;
use orkesy::lifecycle::launch_check;
use orkesy::lifecycle::{halt_plan, stop_command_failure, HaltPlan};
use orkesy::unit::{StopBehavior, StopSignal};

fn describe_steps(steps: &[Step]) -> Vec<String> {
    steps
        .iter()
        .map(|s| match s {
            Step::Say(n) => describe(n),
            Step::Do(w) => match w {
                Work::Launch => "launch".to_string(),
                Work::Halt { force } => format!("halt force={force}"),
                Work::HaltAll => "halt all".to_string(),
                Work::Wait { ms } => format!("wait {ms}"),
                Work::Install => "install".to_string(),
                Work::Exec { cmd } => format!("exec {}", cmd.join(" ")),
            },
        })
        .collect()
}

fn describe(n: &Note) -> String {
    match n {
        Note::Status(p) => format!("status {:?}", p),
        Note::Failed(m) => format!("failed {m}"),
        Note::Exited(c) => format!("exited {:?}", c),
        Note::Log(t) => format!("log {t}"),
        Note::Output { err, text } => format!("out{} {text}", if *err { "!" } else { "" }),
        Note::ClearLogs => "clear".to_string(),
    }
}

fn id() -> String {
    "api".to_string()
}

#[test]
fn engine_start_launches_unless_running() {
    let p = engine_plan(Runtime::LocalEngine, &EngineCommand::Start { id: id() }, false);
    assert_eq!(describe_steps(&p.steps), vec!["status Starting", "launch"]);
    let ok = finish(&p, &Ok(()));
    assert_eq!(ok.iter().map(describe).collect::<Vec<_>>(), vec!["status Running"]);
    let err = finish(&p, &Err("no such file".to_string()));
    assert_eq!(
        err.iter().map(describe).collect::<Vec<_>>(),
        vec!["failed no such file", "log [error] no such file"]
    );
    let p = engine_plan(Runtime::LocalEngine, &EngineCommand::Start { id: id() }, true);
    assert_eq!(describe_steps(&p.steps), vec!["log [warn] already running"]);
    // The Docker engine starts the container whatever it knows.
    let p = engine_plan(Runtime::DockerEngine, &EngineCommand::Start { id: id() }, true);
    assert_eq!(describe_steps(&p.steps), vec!["status Starting", "launch"]);
}

#[test]
fn engine_restart_halts_waits_and_launches() {
    let p = engine_plan(Runtime::LocalEngine, &EngineCommand::Restart { id: id() }, true);
    assert_eq!(
        describe_steps(&p.steps),
        vec!["status Restarting", "halt force=false", "wait 100", "launch"]
    );
    let err = finish(&p, &Err("boom".to_string()));
    assert_eq!(
        err.iter().map(describe).collect::<Vec<_>>(),
        vec!["failed boom", "log [error] restart failed: boom"]
    );
}

#[test]
fn toggle_stops_a_running_unit_whatever_happens() {
    let p = adapter_plan(Runtime::ProcessAdapter, &AdapterCommand::Toggle { id: id() }, true, true);
    assert_eq!(describe_steps(&p.steps), vec!["log stopping...", "status Stopping", "halt force=false"]);
    let after = finish(&p, &Err("gone".to_string()));
    assert_eq!(after.iter().map(describe).collect::<Vec<_>>(), vec!["status Stopped"]);
}

#[test]
fn docker_adapter_ignores_units_it_does_not_manage() {
    let p = adapter_plan(Runtime::DockerAdapter, &AdapterCommand::Start { id: id() }, false, false);
    assert!(p.steps.is_empty());
    let p = adapter_plan(Runtime::DockerAdapter, &AdapterCommand::Shutdown, false, false);
    assert!(p.quit);
    assert_eq!(describe_steps(&p.steps), vec!["halt all"]);
}

#[test]
fn exec_echoes_and_reports_output() {
    let cmd = vec!["ls".to_string(), "-la".to_string()];
    let p = adapter_plan(Runtime::ProcessAdapter, &AdapterCommand::Exec { id: id(), cmd: cmd.clone() }, true, true);
    assert_eq!(describe_steps(&p.steps), vec!["log $ ls -la", "exec ls -la"]);
    let p = engine_plan(Runtime::LocalEngine, &EngineCommand::Exec { id: id(), cmd: Vec::new() }, true);
    assert_eq!(describe_steps(&p.steps), vec!["log $ ", "log [error] empty command"]);
    let out = ExecOutput {
        stdout: Some("a\nb\n".to_string()),
        stderr: Some("warn\r\n".to_string()),
        success: false,
        code: Some(2),
    };
    let notes = exec_report(&Ok(out));
    assert_eq!(
        notes.iter().map(describe).collect::<Vec<_>>(),
        vec!["out a", "out b", "out! warn", "log exit code: Some(2)"]
    );
}

#[test]
fn exit_plan_follows_the_decision() {
    let p = exit_plan(Some(1), ExitDecision::Restart { delay_ms: 1000, attempt: 2 });
    assert_eq!(
        describe_steps(&p.steps),
        vec![
            "exited Some(1)",
            "log process exited with code: Some(1)",
            "log restarting in 1000ms (attempt 2/3)...",
            "wait 1000",
            "status Restarting",
            "launch",
        ]
    );
    let p = exit_plan(None, ExitDecision::LimitReached);
    assert_eq!(
        describe_steps(&p.steps),
        vec![
            "exited None",
            "log process exited with code: None",
            "log restart limit reached (3 restarts in 60s), not restarting",
        ]
    );
}

#[test]
fn numbers_print_as_rust_prints_them() {
    assert_eq!(int_to_string(-42), "-42");
    assert_eq!(int_to_string(i32::MIN), "-2147483648");
    assert_eq!(code_to_string(Some(0)), "Some(0)");
    assert_eq!(code_to_string(None), "None");
}

#[test]
fn error_messages() {
    let e = EngineError::SpawnFailed { id: "api".into(), reason: "no such file".into() };
    assert_eq!(e.message(), "failed to spawn api: no such file");
    let e = AdapterError::ExecFailed { id: "db".into(), message: "denied".into() };
    assert_eq!(e.message(), "failed to exec in db: denied");
    assert_eq!(AdapterError::Other { message: "x".into() }.message(), "x");
}

#[test]
fn phases_are_plain_values() {
    assert_ne!(Phase::Starting, Phase::Running);
}

#[test]
fn blank_start_lines_cannot_launch() {
    assert_eq!(launch_check("  \t"), Err("empty start command".to_string()));
    assert_eq!(launch_check(" npm start "), Ok(()));
}

#[test]
fn halting_follows_the_stop_behaviour() {
    assert!(matches!(halt_plan(None, false), HaltPlan::Signal { signal: StopSignal::SigTerm, escalate: true }));
    assert!(matches!(
        halt_plan(Some(&StopBehavior::Signal(StopSignal::SigKill)), false),
        HaltPlan::Signal { signal: StopSignal::SigKill, escalate: false }
    ));
    assert!(matches!(
        halt_plan(Some(&StopBehavior::Signal(StopSignal::SigInt)), false),
        HaltPlan::Signal { signal: StopSignal::SigInt, escalate: true }
    ));
    match halt_plan(Some(&StopBehavior::Command("pkill x".into())), false) {
        HaltPlan::Command(c) => assert_eq!(c, "pkill x"),
        _ => panic!("expected the stop command"),
    }
    assert!(matches!(halt_plan(Some(&StopBehavior::Command("pkill x".into())), true), HaltPlan::Kill));
    assert_eq!(stop_command_failure("no sh"), "stop command failed: no sh, killed process");
}


#[test]
fn restarts_back_off_exponentially() {
    let mut t = RestartTracker::new(0);
    let mut delays = Vec::new();
    for now in [1_000u64, 2_000, 3_000] {
        match decide_exit(RestartPolicy::OnFailure, None, Some(1), &mut t, now) {
            ExitDecision::Restart { delay_ms, attempt } => delays.push((delay_ms, attempt)),
            other => panic!("expected a restart, got {:?}", other),
        }
    }
    assert_eq!(delays, vec![(1000, 1), (2000, 2), (4000, 3)]);
    assert_eq!(decide_exit(RestartPolicy::OnFailure, None, Some(1), &mut t, 4_000), ExitDecision::LimitReached);
    let mut t = RestartTracker::new(0);
    assert_eq!(
        decide_exit(RestartPolicy::Always, Some(250), Some(0), &mut t, 10),
        ExitDecision::Restart { delay_ms: 250, attempt: 1 }
    );
    assert_eq!(decide_exit(RestartPolicy::OnFailure, Some(250), Some(0), &mut t, 10), ExitDecision::Stay);
    let mut t = RestartTracker::new(0);
    decide_exit(RestartPolicy::Always, Some(u64::MAX / 2 + 1), None, &mut t, 0);
    assert_eq!(
        decide_exit(RestartPolicy::Always, Some(u64::MAX / 2 + 1), None, &mut t, 0),
        ExitDecision::Restart { delay_ms: u64::MAX, attempt: 2 }
    );
}
