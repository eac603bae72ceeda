use orkesy::tui_input::{parse_command, TuiCommand};

fn ids() -> Vec<String> {
    vec!["api".into(), "worker".into(), "db".into()]
}

#[test]
fn parses_start_with_alias() {
    let out = parse_command("up api", &ids()).unwrap();
    assert_eq!(out.len(), 1);
    assert!(matches!(out[0], TuiCommand::Start { ref id } if id == "api"));
}

#[test]
fn expands_all() {
    let out = parse_command("restart all", &ids()).unwrap();
    assert_eq!(out.len(), 3);
}

#[test]
fn rejects_unknown_service() {
    let err = parse_command("stop nope", &ids()).unwrap_err();
    assert!(err.contains("Unknown service"), "got: {err}");
}

#[test]
fn clear_with_logs_keyword() {
    let out = parse_command("clear logs api", &ids()).unwrap();
    assert!(matches!(out[0], TuiCommand::ClearLogs { ref id } if id == "api"));
}

#[test]
fn exec_requires_command() {
    let err = parse_command("exec api", &ids()).unwrap_err();
    assert!(err.contains("Usage"), "got: {err}");
}

#[test]
fn rejects_empty_input() {
    let err = parse_command("", &ids()).unwrap_err();
    assert!(err.contains("Empty"), "got: {err}");
}

#[test]
fn exec_keeps_the_command_words() {
    let out = parse_command("exec api ls -la", &ids()).unwrap();
    assert_eq!(out.len(), 1);
    match &out[0] {
        TuiCommand::Exec { id, cmd } => {
            assert_eq!(id, "api");
            assert_eq!(cmd, &vec!["ls".to_string(), "-la".to_string()]);
        }
        other => panic!("unexpected: {:?}", other),
    }
}

#[test]
fn verbs_are_case_insensitive() {
    let out = parse_command("STOP db", &ids()).unwrap();
    assert!(matches!(out[0], TuiCommand::Stop { ref id } if id == "db"));
}

#[test]
fn missing_target_is_reported() {
    let err = parse_command("kill", &ids()).unwrap_err();
    assert!(err.contains("Missing target"), "got: {err}");
}
