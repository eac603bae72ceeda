use orkesy::config::{parse_workspace, OrkesyConfig};
use orkesy::migrate::{generate_units_yaml, yaml_string};

#[test]
fn yaml_string_quotes_special_values() {
    assert_eq!(yaml_string("hello"), "hello");
    assert_eq!(yaml_string("true"), "\"true\"");
    assert_eq!(yaml_string("123"), "\"123\"");
    assert_eq!(yaml_string("a: b"), "\"a: b\"");
    assert_eq!(yaml_string(""), "\"\"");
}

#[test]
fn yaml_string_escapes_quotes_and_backslashes() {
    assert_eq!(yaml_string("say \"hi\""), "\"say \\\"hi\\\"\"");
    assert_eq!(yaml_string("null"), "\"null\"");
    assert_eq!(yaml_string("1.5"), "\"1.5\"");
}

#[test]
fn generated_yaml_round_trips_through_canonical_parser() {
    let legacy = r#"
name: roundtrip-app
services:
  api:
    command: ["node", "server.js"]
    port: 3000
    kind: http
    autostart: true
    depends_on: [db]
  db:
    command: ["postgres"]
    port: 5432
"#;
    let cfg = OrkesyConfig::parse(legacy).unwrap();
    let yaml = generate_units_yaml(cfg.project_name(), &cfg.to_units(), &cfg.to_edges());

    let ws = match parse_workspace(&yaml) {
        Ok(ws) => ws,
        Err(e) => panic!("generated YAML did not parse: {}\n---\n{yaml}", e.message()),
    };

    assert!(!ws.legacy);
    assert_eq!(ws.project_name.as_deref(), Some("roundtrip-app"));
    assert_eq!(ws.units.len(), 2);
    assert_eq!(ws.edges.len(), 1);
}
