use orkesy::lifecycle::AdapterEvent;
use orkesy::log_filter::LogFilterMode;
use orkesy::model::{DesiredState, HealthStatus, ObservedState, ServiceKind, ServiceNode, ServiceStatus};
use orkesy::palette::{build_picker_items, PickerItem};
use orkesy::reducer::{adapter_event_to_runtime, RuntimeEvent};
use orkesy::render::{health_style, status_style};
use orkesy::state::LogStream;
use orkesy::strmap::StrMap;
use orkesy::theme::{Color, Palette, Style, Theme};
use orkesy::ui_state::{Focus, InspectSection, TuiView, UiState};
use orkesy::unit::{UnitHealth, UnitStatus};
use orkesy::views::{
    context_hints, footer_hints, global_hints, help_lines, help_rect, palette_layout, running_summary,
    search_title, uptime, view_tab_hints, Hint, PaletteRow, Rect, Tone,
};
use orkesy::model::{Edge, EdgeKind, EdgeSet};

fn texts(v: &[Hint]) -> Vec<String> {
    v.iter().map(|h| h.text.clone()).collect()
}

fn node(id: &str, status: ServiceStatus) -> ServiceNode {
    ServiceNode {
        id: id.to_string(),
        display_name: id.to_string(),
        kind: ServiceKind::Generic,
        desired: DesiredState::Running,
        observed: ObservedState { instance_id: None, status, health: HealthStatus::Unknown },
        port: None,
        description: None,
    }
}

#[test]
fn view_tabs_highlight_the_active_view() {
    let v = view_tab_hints(TuiView::Deps);
    assert_eq!(texts(&v), vec!["l", " Logs  ", "i", " Inspect  ", "d", " Deps  ", "m", " Metrics", "  |  "]);
    assert_eq!(v[5].tone, Tone::Accent);
    assert_eq!(v[1].tone, Tone::TextDim);
    assert_eq!(v[8].tone, Tone::TextMuted);
}

#[test]
fn log_pane_hints_show_the_filter() {
    let mut ui = UiState::default();
    ui.focus = Focus::RightPane;
    ui.view = TuiView::Logs;
    let v = context_hints(&ui);
    assert_eq!(v.last().unwrap().text, "[ALL]");
    assert_eq!(v.last().unwrap().tone, Tone::TextDim);
    ui.logs.log_filter = LogFilterMode::ErrorOnly;
    let v = context_hints(&ui);
    assert_eq!(v.last().unwrap().text, "[ERROR]");
    assert_eq!(v.last().unwrap().tone, Tone::Warn);
    ui.logs.paused = true;
    assert_eq!(texts(&context_hints(&ui)), vec!["Space", " resume  ", "↑↓", " scroll"]);
    ui.logs.search = Some("x".to_string());
    assert_eq!(texts(&context_hints(&ui)), vec!["n/N", " match  ", "Esc", " clear"]);
}

#[test]
fn other_panels_hints() {
    let mut ui = UiState::default();
    ui.focus = Focus::InspectPanel(InspectSection::Health);
    assert_eq!(texts(&context_hints(&ui)), vec!["Tab", " section  ", "[Health]"]);
    ui.focus = Focus::RightPane;
    ui.view = TuiView::Metrics;
    ui.metrics_paused = true;
    assert_eq!(texts(&context_hints(&ui)), vec!["p", " resume  ", "[PAUSED]"]);
    ui.view = TuiView::Exec;
    assert_eq!(texts(&context_hints(&ui)), vec!["↑↓", " scroll"]);
    ui.focus = Focus::Palette;
    assert_eq!(context_hints(&ui).len(), 6);
}

#[test]
fn footer_is_tabs_then_context_then_globals() {
    let ui = UiState::default();
    let all = footer_hints(&ui);
    let n = view_tab_hints(ui.view).len() + context_hints(&ui).len() + global_hints().len();
    assert_eq!(all.len(), n);
    assert_eq!(all.last().unwrap().text, " quit");
    assert_eq!(all[0].text, "l");
}

#[test]
fn help_screen_lines() {
    let lines = help_lines();
    assert_eq!(lines.len(), 24);
    assert_eq!(lines[0][0].text, "VIEWS");
    assert_eq!(lines[0][0].tone, Tone::SectionHeader);
    assert!(lines[6].is_empty());
    assert_eq!(lines[23][1].text, "Quit Orkesy");
}

#[test]
fn help_box_is_centred() {
    let r = help_rect(Rect { x: 0, y: 0, width: 100, height: 40 });
    assert_eq!(r, Rect { x: 25, y: 8, width: 50, height: 24 });
    let r = help_rect(Rect { x: 0, y: 0, width: 20, height: 3 });
    assert_eq!(r, Rect { x: 2, y: 1, width: 16, height: 0 });
}

#[test]
fn search_titles() {
    assert_eq!(search_title("", 0, 0), " Search ");
    assert_eq!(search_title("err", 0, 0), " Search (no matches) ");
    assert_eq!(search_title("err", 2, 7), " Search (3/7) ");
}

#[test]
fn status_bar_texts() {
    assert_eq!(uptime(3725), "01:02:05");
    assert_eq!(uptime(360_000), "100:00:00");
    let mut nodes = StrMap::new();
    nodes.insert("a".to_string(), node("a", ServiceStatus::Running));
    nodes.insert("b".to_string(), node("b", ServiceStatus::Stopped));
    nodes.insert("c".to_string(), node("c", ServiceStatus::Running));
    assert_eq!(running_summary(&nodes), "2/3 running");
}

#[test]
fn palette_layout_groups_and_scrolls() {
    let items = build_picker_items(&["api".to_string()], None, &[]);
    let n = items.len();
    let area = Rect { x: 0, y: 0, width: 100, height: 20 };
    let l = palette_layout(area, "", n - 1, 0, &items);
    assert_eq!(l.modal, Rect { x: 20, y: 2, width: 60, height: 16 });
    assert_eq!(l.items_area.height, 13);
    assert_eq!(l.offset, n.saturating_sub(13));
    assert!(l.rows.iter().any(|r| matches!(r, PaletteRow::Gap)));
    match l.rows.last().unwrap() {
        PaletteRow::Item { index, selected, .. } => {
            assert_eq!(*index, n - 1);
            assert!(*selected);
        }
        _ => panic!("last row should be an item"),
    }
}

#[test]
fn palette_layout_without_items() {
    let items: Vec<PickerItem> = Vec::new();
    let area = Rect { x: 0, y: 0, width: 40, height: 30 };
    let l = palette_layout(area, "abcdefghijklmnopqrstuvwxyz0123456789", 0, 0, &items);
    assert_eq!(l.modal.width, 30);
    assert_eq!(l.modal.height, 6);
    assert_eq!(l.input_display, "abcdefghijklmnopqrstuvwxy");
    assert_eq!(l.rows.len(), 1);
    assert!(matches!(l.rows[0], PaletteRow::NoMatch));
}

#[test]
fn palette_detail_is_cut_to_fit() {
    let items = vec![PickerItem::new_project_action("Go", Some("0123456789abcdefghijklmnopqrstuvwxyz0123456789abcdefghij"), "go")];
    let l = palette_layout(Rect { x: 0, y: 0, width: 100, height: 20 }, "g", 0, 0, &items);
    match &l.rows[0] {
        PaletteRow::Item { detail: Some(d), selected: true, .. } => {
            assert_eq!(d.chars().count(), 60 - (4 + 3 + 2 + 6));
        }
        _ => panic!("expected the item with its detail"),
    }
}

#[test]
fn theme_styles_follow_palette() {
    let t = Theme::new(Palette::high_contrast());
    assert_eq!(t.status_style(&ServiceStatus::Running).fg, Some(Color::Green));
    assert_eq!(t.status_style(&ServiceStatus::Exited { code: Some(0) }).fg, Some(Color::Rgb(200, 200, 200)));
    assert_eq!(t.health_style(&HealthStatus::Unhealthy { reason: "x".into() }).fg, Some(Color::Red));
    assert_eq!(t.selection_style(), Style { fg: Some(Color::White), bg: Some(Color::Blue), bold: true });
    let d = Theme::default();
    assert_eq!(d.palette, Palette::dark());
    assert_eq!(d.tab_style(true), Style { fg: Some(Color::Rgb(79, 193, 255)), bg: None, bold: true });
    assert_eq!(d.status_icon(&ServiceStatus::Starting), "◐");
}

#[test]
fn plain_status_colours() {
    assert_eq!(status_style(&ServiceStatus::Exited { code: Some(2) }).fg, Some(Color::Red));
    assert_eq!(status_style(&ServiceStatus::Restarting).fg, Some(Color::Yellow));
    assert_eq!(health_style(&HealthStatus::Unknown).fg, None);
}

#[test]
fn adapter_events_become_runtime_events() {
    match adapter_event_to_runtime(AdapterEvent::StatusChanged { id: "api".into(), status: UnitStatus::Stopping }) {
        RuntimeEvent::StatusChanged { id, status } => {
            assert_eq!(id, "api");
            assert!(matches!(status, ServiceStatus::Stopped));
        }
        _ => panic!("expected a status change"),
    }
    match adapter_event_to_runtime(AdapterEvent::HealthChanged {
        id: "db".into(),
        health: UnitHealth::Degraded { reason: "slow".into() },
    }) {
        RuntimeEvent::HealthChanged { health: HealthStatus::Degraded { reason }, .. } => assert_eq!(reason, "slow"),
        _ => panic!("expected a health change"),
    }
    match adapter_event_to_runtime(AdapterEvent::LogLine { id: "w".into(), stream: LogStream::Stderr, text: "t".into() }) {
        RuntimeEvent::LogLine { stream: LogStream::Stderr, text, .. } => assert_eq!(text, "t"),
        _ => panic!("expected a log line"),
    }
}

#[test]
fn overview_counts() {
    let mut nodes = StrMap::new();
    nodes.insert("a".to_string(), node("a", ServiceStatus::Running));
    nodes.insert("b".to_string(), node("b", ServiceStatus::Stopped));
    nodes.insert("c".to_string(), node("c", ServiceStatus::Errored { message: "x".into() }));
    nodes.insert("d".to_string(), node("d", ServiceStatus::Starting));
    let c = orkesy::views::status_counts(&nodes);
    assert_eq!(c, orkesy::views::StatusCounts { total: 4, running: 1, stopped: 1, errored: 1 });
}

#[test]
fn dependency_lists() {
    let mut edges = EdgeSet::new();
    for (from, to) in [("api", "db"), ("api", "cache"), ("worker", "db")] {
        edges.insert(Edge { from: from.to_string(), to: to.to_string(), kind: EdgeKind::DependsOn });
    }
    assert_eq!(orkesy::views::depends_on(&edges, "api"), vec!["cache".to_string(), "db".to_string()]);
    assert_eq!(orkesy::views::used_by(&edges, "db"), vec!["api".to_string(), "worker".to_string()]);
    assert!(orkesy::views::depends_on(&edges, "db").is_empty());
}

#[test]
fn default_theme_styles() {
    assert_eq!(orkesy::theme::key_hint().fg, Some(Color::Rgb(206, 145, 120)));
    assert_eq!(orkesy::theme::section_header(), Style { fg: Some(Color::Rgb(79, 193, 255)), bg: None, bold: true });
    assert_eq!(orkesy::theme::status(&ServiceStatus::Running).fg, Some(Color::Rgb(78, 201, 176)));
    assert_eq!(orkesy::theme::health(&HealthStatus::Unknown).fg, Some(Color::Rgb(100, 100, 100)));
    assert!(!orkesy::theme::tab(false).bold);
    assert_eq!(orkesy::theme::selection().bg, Some(Color::Rgb(38, 79, 120)));
}

#[test]
fn plugin_manager_lists_builtins() {
    let m = orkesy::plugin::PluginManager::new();
    assert_eq!(m.plugin_ids(), vec!["node", "rust", "python", "docker"]);
    assert_eq!(m.get("python").unwrap().name(), "Python");
    assert!(m.get("go").is_none());
}
