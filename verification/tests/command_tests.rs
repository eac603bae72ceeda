use std::time::SystemTime;

use orkesy::command::{
    format_elapsed, CommandCategory, CommandRegistry, CommandRun, CommandScope, CommandSpec, DetectedTool,
    LifecycleAction, PackageManager, ProjectIndex, RegistryCommand, RunStatus, UiAction,
};

#[test]
fn test_command_run_duration() {
    let run = CommandRun {
        id: "run-1".to_string(),
        command_id: "test".to_string(),
        command: "npm test".to_string(),
        display_name: "Test".to_string(),
        status: RunStatus::Running,
        started_at: SystemTime::now(),
        finished_at: None,
        exit_code: None,
        pid: Some(1234),
    };

    let duration = run.duration();
    assert!(duration.as_secs() < 1);
}

#[test]
fn test_run_status_icons() {
    assert_eq!(RunStatus::Running.icon(), "●");
    assert_eq!(RunStatus::Exited { code: Some(0) }.icon(), "✓");
    assert_eq!(RunStatus::Exited { code: Some(1) }.icon(), "✗");
    assert_eq!(RunStatus::Killed.icon(), "⊘");
}

#[test]
fn test_run_status_predicates() {
    assert!(RunStatus::Running.is_running());
    assert!(!RunStatus::Exited { code: Some(0) }.is_running());

    assert!(RunStatus::Exited { code: Some(0) }.is_success());
    assert!(!RunStatus::Exited { code: Some(1) }.is_success());
    assert!(!RunStatus::Running.is_success());
}

#[test]
fn test_registry_command_lifecycle() {
    let cmd = RegistryCommand::lifecycle("api", LifecycleAction::Start);

    assert_eq!(cmd.title, "Start api");
    assert!(cmd.id.contains("start"));
    assert!(cmd.id.contains("api"));
    assert!(matches!(cmd.scope, CommandScope::Unit(_)));
}

#[test]
fn test_registry_command_ui_action() {
    let cmd = RegistryCommand::ui_action(UiAction::Quit);

    assert_eq!(cmd.title, "Quit");
    assert!(matches!(cmd.scope, CommandScope::Global));
    assert!(cmd.default_key.is_some());
}

#[test]
fn test_registry_command_matches() {
    let cmd = RegistryCommand::lifecycle("api-server", LifecycleAction::Restart);

    assert!(cmd.matches("api"));
    assert!(cmd.matches("restart"));
    assert!(cmd.matches("API"));
    assert!(!cmd.matches("nonexistent"));
}

#[test]
fn test_registry_command_match_score() {
    let cmd = RegistryCommand::lifecycle("api", LifecycleAction::Start);

    let exact_score = cmd.match_score("Start api");
    let partial_score = cmd.match_score("start");
    let no_match_score = cmd.match_score("xyz");

    assert!(exact_score > partial_score);
    assert!(partial_score > no_match_score);
}

#[test]
fn test_command_registry_add() {
    let mut registry = CommandRegistry::new();
    assert!(registry.is_empty());

    registry.add(RegistryCommand::lifecycle("api", LifecycleAction::Start));
    assert_eq!(registry.len(), 1);

    registry.add(RegistryCommand::lifecycle("api", LifecycleAction::Start));
    assert_eq!(registry.len(), 1);
}

#[test]
fn test_command_registry_add_unit_lifecycle() {
    let mut registry = CommandRegistry::new();
    registry.add_unit_lifecycle("api");

    assert_eq!(registry.len(), 5);
}

#[test]
fn test_command_registry_add_ui_actions() {
    let mut registry = CommandRegistry::new();
    registry.add_ui_actions();

    assert!(!registry.is_empty());
    assert!(!registry.ui_commands().is_empty());
}

#[test]
fn test_command_registry_search() {
    let mut registry = CommandRegistry::new();
    registry.add_unit_lifecycle("api");
    registry.add_unit_lifecycle("worker");

    let results = registry.search("api", None);
    assert!(!results.is_empty());
    assert!(results.iter().all(|c| c.matches("api")));

    let results = registry.search("start", None);
    assert!(results.len() >= 2);
    assert!(results.iter().all(|c| c.matches("start")));
}

#[test]
fn test_command_registry_list_by_scope() {
    let mut registry = CommandRegistry::new();
    registry.add_unit_lifecycle("api");
    registry.add_ui_actions();

    let global_cmds = registry.list(Some(&CommandScope::Global));
    let unit_cmds = registry.list(Some(&CommandScope::Unit("api".to_string())));

    assert!(unit_cmds.len() > global_cmds.len() - registry.ui_commands().len());
}

#[test]
fn test_command_registry_get_by_id() {
    let mut registry = CommandRegistry::new();
    registry.add(RegistryCommand::lifecycle("api", LifecycleAction::Start));

    let cmd = registry.get("builtin.lifecycle.start.api");
    assert!(cmd.is_some());
    assert_eq!(cmd.unwrap().title, "Start api");

    let cmd = registry.get("nonexistent");
    assert!(cmd.is_none());
}

#[test]
fn test_command_registry_lifecycle_commands() {
    let mut registry = CommandRegistry::new();
    registry.add_unit_lifecycle("api");
    registry.add_unit_lifecycle("worker");

    let api_cmds = registry.lifecycle_commands("api");
    assert_eq!(api_cmds.len(), 5);
}

#[test]
fn test_package_manager_prefixes() {
    assert_eq!(PackageManager::Npm.run_prefix(), "npm run");
    assert_eq!(PackageManager::Pnpm.run_prefix(), "pnpm");
    assert_eq!(PackageManager::Yarn.run_prefix(), "yarn");
    assert_eq!(PackageManager::Bun.run_prefix(), "bun run");
}

#[test]
fn test_command_category_icons() {
    assert_eq!(CommandCategory::Dev.icon(), "◉");
    assert_eq!(CommandCategory::Build.icon(), "⚙");
    assert_eq!(CommandCategory::Test.icon(), "✓");
}

#[test]
fn test_detected_tool_short_name() {
    assert_eq!(DetectedTool::Node { pm: PackageManager::Npm }.short_name(), "Node");
    assert_eq!(DetectedTool::Rust.short_name(), "Rust");
    assert_eq!(DetectedTool::Go.short_name(), "Go");
}

fn spec(id: &str, display: &str, command: &str, category: CommandCategory) -> CommandSpec {
    CommandSpec {
        id: id.to_string(),
        tool: DetectedTool::Node { pm: PackageManager::Npm },
        name: id.to_string(),
        display_name: display.to_string(),
        command: command.to_string(),
        cwd: None,
        description: None,
        category,
    }
}

#[test]
fn test_project_index_commands_sorted() {
    let mut index = ProjectIndex::new("/test".to_string());
    index.commands.insert("test".to_string(), spec("test", "npm test", "npm test", CommandCategory::Test));
    index.commands.insert("build".to_string(), spec("build", "npm build", "npm run build", CommandCategory::Build));

    let sorted = index.commands_sorted();
    assert_eq!(sorted.len(), 2);
    assert_eq!(sorted[0].category, CommandCategory::Build);
}

#[test]
fn elapsed_time_is_rendered_by_magnitude() {
    assert_eq!(format_elapsed(5), "5s");
    assert_eq!(format_elapsed(65), "1m 5s");
    assert_eq!(format_elapsed(3_725), "1h 2m");
}

#[test]
fn registry_search_scoped_to_a_unit() {
    let mut registry = CommandRegistry::new();
    registry.add_unit_lifecycle("api");
    registry.add_unit_lifecycle("worker");
    let results = registry.search("stop", Some(&CommandScope::Unit("worker".to_string())));
    assert!(!results.is_empty());
    assert!(results.iter().all(|c| c.id.contains("worker")));
}

#[test]
fn lifecycle_commands_come_in_order() {
    let mut registry = CommandRegistry::new();
    registry.add_unit_lifecycle("api");
    registry.add_unit_lifecycle("api");
    let ids: Vec<String> = registry.list(None).iter().map(|c| c.id.clone()).collect();
    assert_eq!(
        ids,
        vec![
            "builtin.lifecycle.start.api",
            "builtin.lifecycle.stop.api",
            "builtin.lifecycle.restart.api",
            "builtin.lifecycle.toggle.api",
            "builtin.lifecycle.kill.api",
        ]
    );
    registry.add_ui_actions();
    registry.add_ui_actions();
    assert_eq!(registry.len(), 14);
}
