use orkesy::config::{parse_workspace, ConfigError, OrkesyConfig};

#[test]
fn test_parse_simple_config() {
    let yaml = r#"
name: test-app
services:
  api:
    command: ["node", "server.js"]
    port: 8000
    kind: http
"#;
    let config = OrkesyConfig::parse(yaml).unwrap();
    assert_eq!(config.name, Some("test-app".to_string()));
    assert_eq!(config.services.len(), 1);
    assert!(config.services.contains_key("api"));
}

#[test]
fn test_cyclic_dependency_detection() {
    let yaml = r#"
services:
  a:
    command: ["echo"]
    depends_on: [b]
  b:
    command: ["echo"]
    depends_on: [c]
  c:
    command: ["echo"]
    depends_on: [a]
"#;
    let result = OrkesyConfig::parse(yaml);
    assert!(matches!(result, Err(ConfigError::CyclicDependency { .. })));
}

#[test]
fn test_invalid_dependency() {
    let yaml = r#"
services:
  api:
    command: ["node"]
    depends_on: [nonexistent]
"#;
    let result = OrkesyConfig::parse(yaml);
    assert!(matches!(result, Err(ConfigError::InvalidDependency { .. })));
}

#[test]
fn test_start_order() {
    let yaml = r#"
services:
  api:
    command: ["node"]
    depends_on: [db]
  db:
    command: ["postgres"]
  worker:
    command: ["python"]
    depends_on: [api, db]
"#;
    let config = OrkesyConfig::parse(yaml).unwrap();
    let order = config.start_order();

    let db_pos = order.iter().position(|s| s == "db").unwrap();
    let api_pos = order.iter().position(|s| s == "api").unwrap();
    let worker_pos = order.iter().position(|s| s == "worker").unwrap();

    assert!(db_pos < api_pos);
    assert!(db_pos < worker_pos);
    assert!(api_pos < worker_pos);
}

#[test]
fn parses_canonical_units_schema() {
    let yaml = r#"
version: 1
project:
  name: my-app
units:
  api:
    kind: process
    start: "npm run dev"
    port: 3000
    autostart: true
edges: []
"#;
    let ws = parse_workspace(yaml).unwrap();
    assert_eq!(ws.project_name.as_deref(), Some("my-app"));
    assert_eq!(ws.units.len(), 1);
    assert_eq!(ws.units[0].id, "api");
    assert_eq!(ws.units[0].port, Some(3000));
    assert!(!ws.legacy);
}

#[test]
fn falls_back_to_legacy_services_schema() {
    let yaml = r#"
name: legacy-app
services:
  api:
    command: ["node", "server.js"]
    port: 8000
"#;
    let ws = parse_workspace(yaml).unwrap();
    assert_eq!(ws.project_name.as_deref(), Some("legacy-app"));
    assert_eq!(ws.units.len(), 1);
    assert!(ws.legacy);
}

#[test]
fn rejects_unit_with_empty_start() {
    let yaml = r#"
units:
  api:
    kind: process
    start: ""
"#;
    let err = parse_workspace(yaml).unwrap_err();
    assert!(matches!(err, ConfigError::MissingCommand { .. }));
}

#[test]
fn rejects_edge_to_unknown_unit() {
    let yaml = r#"
units:
  api:
    start: "node"
edges:
  - { from: api, to: db, kind: depends_on }
"#;
    let err = parse_workspace(yaml).unwrap_err();
    match err {
        ConfigError::UnknownUnit { referenced, .. } => assert_eq!(referenced, "db"),
        other => panic!("unexpected error: {:?}", other),
    }
}

#[test]
fn detects_units_schema_cycle() {
    let yaml = r#"
units:
  a: { start: "echo a" }
  b: { start: "echo b" }
  c: { start: "echo c" }
edges:
  - { from: a, to: b, kind: depends_on }
  - { from: b, to: c, kind: depends_on }
  - { from: c, to: a, kind: depends_on }
"#;
    let err = parse_workspace(yaml).unwrap_err();
    assert!(matches!(err, ConfigError::CyclicDependency { .. }));
}

#[test]
fn rejects_file_with_neither_schema() {
    let yaml = "version: 1\nproject: { name: foo }\n";
    let err = parse_workspace(yaml).unwrap_err();
    assert!(matches!(err, ConfigError::UnknownSchema { .. }));
}

#[test]
fn error_messages_are_actionable() {
    let yaml = r#"
units:
  api: { start: "node" }
edges:
  - { from: api, to: missing_db, kind: depends_on }
"#;
    let err = parse_workspace(yaml).unwrap_err();
    let msg = err.message();
    assert!(msg.contains("api"), "error should mention referrer: {msg}");
    assert!(msg.contains("missing_db"), "error should mention missing unit: {msg}");
}

#[test]
fn malformed_yaml_is_a_yaml_error() {
    let err = parse_workspace("units: [unclosed").unwrap_err();
    assert!(matches!(err, ConfigError::Yaml(_)));
}

#[test]
fn missing_command_in_legacy_schema_is_reported() {
    let yaml = r#"
services:
  api:
    command: []
"#;
    let result = OrkesyConfig::parse(yaml);
    assert!(matches!(result, Err(ConfigError::MissingCommand { .. })));
}

#[test]
fn config_search_order() {
    let dirs = vec!["/work/app".to_string(), "/work".to_string(), "/".to_string()];
    let paths = orkesy::config::search_paths(Some("/etc/o.yml"), &dirs, false);
    assert_eq!(paths.len(), 13);
    assert_eq!(paths[0], "/etc/o.yml");
    assert_eq!(paths[1], "/work/app/orkesy.yml");
    assert_eq!(paths[4], "/work/app/.orkesy.yaml");
    assert_eq!(paths[12], "/.orkesy.yaml");
    let legacy = orkesy::config::search_paths(None, &dirs[..1], true);
    assert_eq!(legacy, vec!["/work/app/orkesy.yaml", "/work/app/orkesy.yml", "/work/app/.orkesy.yaml", "/work/app/.orkesy.yml"]);
}

#[test]
fn numbers_and_booleans_read_as_text_in_string_fields() {
    let yaml = r#"
services:
  api:
    command: [node, 8080]
    env:
      PORT: 3000
      DEBUG: true
      RATIO: 1.5
    depends_on: []
"#;
    let config = OrkesyConfig::parse(yaml).unwrap();
    let api = config.services.get("api").unwrap();
    assert_eq!(api.command, vec!["node".to_string(), "8080".to_string()]);
    assert_eq!(api.env.get("PORT").map(|s| s.as_str()), Some("3000"));
    assert_eq!(api.env.get("DEBUG").map(|s| s.as_str()), Some("true"));
    assert_eq!(api.env.get("RATIO").map(|s| s.as_str()), Some("1.5"));
}

#[test]
fn numeric_env_in_units_schema_reads_as_text() {
    let yaml = r#"
version: 1
units:
  api:
    start: "npm run dev"
    env:
      PORT: 3000
      VERBOSE: false
"#;
    let ws = parse_workspace(yaml).unwrap();
    let api = &ws.units[0];
    assert_eq!(api.env.get("PORT").map(|s| s.as_str()), Some("3000"));
    assert_eq!(api.env.get("VERBOSE").map(|s| s.as_str()), Some("false"));
}

#[test]
fn null_env_value_is_refused() {
    let yaml = r#"
services:
  api:
    command: [node]
    env:
      PORT: ~
"#;
    assert!(matches!(OrkesyConfig::parse(yaml), Err(ConfigError::Yaml(_))));
}
