use orkesy::keys::{handle_key, search_matches, sync_selection, KeyAction, KeyCode, KeyContext, KeyPress};
use orkesy::palette::{build_picker_items, filter_picker_items};
use orkesy::tui_input::TuiCommand;
use orkesy::ui_state::{Focus, InspectSection, LeftMode, TuiView, UiState};

fn key(c: KeyCode) -> KeyPress {
    KeyPress { code: c, ctrl: false }
}

fn ch(c: char) -> KeyPress {
    key(KeyCode::Char(c))
}

fn ctx(ids: &[&str]) -> KeyContext {
    KeyContext {
        service_ids: ids.iter().map(|s| s.to_string()).collect(),
        command_count: 2,
        run_ids: vec!["run-1".to_string(), "run-2".to_string()],
        picker: Vec::new(),
        log_texts: vec![
            "starting server".to_string(),
            "ERROR: db down".to_string(),
            "retrying".to_string(),
            "error again".to_string(),
        ],
        service_lines: Vec::new(),
    }
}

fn sent(a: &KeyAction) -> Vec<String> {
    match a {
        KeyAction::Send(cs) => cs
            .iter()
            .map(|c| match c {
                TuiCommand::Start { id } => format!("start {id}"),
                TuiCommand::Stop { id } => format!("stop {id}"),
                TuiCommand::Restart { id } => format!("restart {id}"),
                TuiCommand::Kill { id } => format!("kill {id}"),
                TuiCommand::Toggle { id } => format!("toggle {id}"),
                TuiCommand::ClearLogs { id } => format!("clear {id}"),
                TuiCommand::Exec { id, .. } => format!("exec {id}"),
            })
            .collect(),
        _ => Vec::new(),
    }
}

#[test]
fn q_quits_and_help_swallows_keys() {
    let mut ui = UiState::default();
    let mut sel = 0usize;
    let c = ctx(&["api", "db"]);
    assert!(matches!(handle_key(&mut ui, &mut sel, &c, ch('?')), KeyAction::Nothing));
    assert!(ui.help_open);
    // While help is open, `r` does nothing and `q` only closes help.
    assert!(matches!(handle_key(&mut ui, &mut sel, &c, ch('r')), KeyAction::Nothing));
    assert!(matches!(handle_key(&mut ui, &mut sel, &c, ch('q')), KeyAction::Nothing));
    assert!(!ui.help_open);
    assert!(matches!(handle_key(&mut ui, &mut sel, &c, ch('q')), KeyAction::Quit));
}

#[test]
fn service_keys_act_on_the_selection() {
    let mut ui = UiState::default();
    let mut sel = 0usize;
    let c = ctx(&["api", "db"]);
    // "all" is selected: restart goes to every service.
    let a = handle_key(&mut ui, &mut sel, &c, ch('r'));
    assert_eq!(sent(&a), vec!["restart api", "restart db"]);
    // Enter on "all" toggles nothing.
    assert!(matches!(handle_key(&mut ui, &mut sel, &c, key(KeyCode::Enter)), KeyAction::Nothing));
    handle_key(&mut ui, &mut sel, &c, key(KeyCode::Down));
    assert_eq!(sel, 1);
    let a = handle_key(&mut ui, &mut sel, &c, key(KeyCode::Enter));
    assert_eq!(sent(&a), vec!["toggle api"]);
    let a = handle_key(&mut ui, &mut sel, &c, ch('x'));
    assert_eq!(sent(&a), vec!["kill api"]);
    // The selection stops at the last line.
    handle_key(&mut ui, &mut sel, &c, ch('j'));
    handle_key(&mut ui, &mut sel, &c, ch('j'));
    assert_eq!(sel, 2);
    handle_key(&mut ui, &mut sel, &c, key(KeyCode::Up));
    assert_eq!(sel, 1);
}

#[test]
fn tab_cycles_inspect_sections() {
    let mut ui = UiState::default();
    let mut sel = 0usize;
    let c = ctx(&["api"]);
    handle_key(&mut ui, &mut sel, &c, ch('i'));
    assert_eq!(ui.view, TuiView::Inspect);
    handle_key(&mut ui, &mut sel, &c, key(KeyCode::Tab));
    assert_eq!(ui.focus, Focus::InspectPanel(InspectSection::Summary));
    handle_key(&mut ui, &mut sel, &c, key(KeyCode::Tab));
    assert_eq!(ui.focus, Focus::InspectPanel(InspectSection::Metrics));
    handle_key(&mut ui, &mut sel, &c, key(KeyCode::BackTab));
    assert_eq!(ui.focus, Focus::InspectPanel(InspectSection::Summary));
}

#[test]
fn palette_runs_the_picked_command_and_records_history() {
    let mut ui = UiState::default();
    let mut sel = 0usize;
    let mut c = ctx(&["api"]);
    handle_key(&mut ui, &mut sel, &c, ch('/'));
    assert!(ui.palette_open);
    assert_eq!(ui.focus, Focus::Palette);
    for x in "stop".chars() {
        handle_key(&mut ui, &mut sel, &c, ch(x));
    }
    assert_eq!(ui.palette_input, "stop");
    let items = build_picker_items(&c.service_ids, Some("all"), &[]);
    c.picker = filter_picker_items(&items, &ui.palette_input);
    sync_selection(&mut ui, &mut sel, &c);
    let a = handle_key(&mut ui, &mut sel, &c, key(KeyCode::Enter));
    assert_eq!(sent(&a), vec!["stop api"]);
    assert!(!ui.palette_open);
    assert_eq!(ui.view, TuiView::Logs);
    assert_eq!(ui.history, vec!["Stop all".to_string()]);
    // Ctrl+P brings the last command line back.
    c.picker = Vec::new();
    handle_key(&mut ui, &mut sel, &c, ch('/'));
    handle_key(&mut ui, &mut sel, &c, KeyPress { code: KeyCode::Char('p'), ctrl: true });
    assert_eq!(ui.palette_input, "Stop all");
    assert_eq!(ui.history_cursor, Some(0));
    handle_key(&mut ui, &mut sel, &c, key(KeyCode::Esc));
    assert!(!ui.palette_open);
    assert_eq!(ui.palette_input, "");
}

#[test]
fn palette_enter_without_items_reports_an_error() {
    let mut ui = UiState::default();
    let mut sel = 0usize;
    let c = ctx(&["api"]);
    handle_key(&mut ui, &mut sel, &c, ch('/'));
    handle_key(&mut ui, &mut sel, &c, key(KeyCode::Enter));
    assert_eq!(ui.palette_error.as_deref(), Some("No command selected"));
    assert!(ui.palette_open);
}

#[test]
fn search_finds_lines_ignoring_case_and_scrolls_to_them() {
    let mut ui = UiState::default();
    let mut sel = 0usize;
    let c = ctx(&["api"]);
    handle_key(&mut ui, &mut sel, &c, key(KeyCode::Tab));
    assert_eq!(ui.focus, Focus::RightPane);
    handle_key(&mut ui, &mut sel, &c, ch('s'));
    assert!(ui.logs.search.is_some());
    for x in "error".chars() {
        handle_key(&mut ui, &mut sel, &c, ch(x));
    }
    assert_eq!(ui.logs.matches, vec![1, 3]);
    assert_eq!(ui.logs.match_idx, 0);
    assert!(!ui.logs.follow);
    // `n` goes to the next match, wrapping around.
    handle_key(&mut ui, &mut sel, &c, ch('n'));
    assert_eq!(ui.logs.match_idx, 1);
    handle_key(&mut ui, &mut sel, &c, ch('n'));
    assert_eq!(ui.logs.match_idx, 0);
    handle_key(&mut ui, &mut sel, &c, key(KeyCode::Esc));
    assert!(ui.logs.search.is_none());
    assert!(ui.logs.matches.is_empty());
}

#[test]
fn search_matches_by_position() {
    let texts = vec!["Alpha".to_string(), "beta".to_string(), "ALPHABET".to_string()];
    assert_eq!(search_matches(&texts, "alpha"), vec![0, 2]);
    assert_eq!(search_matches(&texts, ""), Vec::<usize>::new());
    assert_eq!(search_matches(&texts, "zzz"), Vec::<usize>::new());
}

#[test]
fn command_and_run_lists() {
    let mut ui = UiState::default();
    let mut sel = 0usize;
    let c = ctx(&["api"]);
    handle_key(&mut ui, &mut sel, &c, ch('2'));
    assert_eq!(ui.left_mode, LeftMode::Commands);
    handle_key(&mut ui, &mut sel, &c, key(KeyCode::Down));
    handle_key(&mut ui, &mut sel, &c, key(KeyCode::Down));
    assert_eq!(ui.selected_command, 1);
    let a = handle_key(&mut ui, &mut sel, &c, key(KeyCode::Enter));
    assert!(matches!(a, KeyAction::RunCommand(1)));
    assert_eq!(ui.left_mode, LeftMode::Runs);
    assert_eq!(ui.selected_run, 0);
    let a = handle_key(&mut ui, &mut sel, &c, ch('x'));
    assert!(matches!(a, KeyAction::KillRun(ref id) if id == "run-1"));
    handle_key(&mut ui, &mut sel, &c, ch('j'));
    let a = handle_key(&mut ui, &mut sel, &c, ch('r'));
    assert!(matches!(a, KeyAction::RerunRun(ref id) if id == "run-2"));
}

#[test]
fn log_view_scrolls_and_pauses() {
    let mut ui = UiState::default();
    let mut sel = 1usize;
    let c = ctx(&["api"]);
    handle_key(&mut ui, &mut sel, &c, key(KeyCode::Tab));
    handle_key(&mut ui, &mut sel, &c, key(KeyCode::PageUp));
    assert_eq!(ui.logs.scroll, 20);
    assert!(!ui.logs.follow);
    handle_key(&mut ui, &mut sel, &c, key(KeyCode::Down));
    assert_eq!(ui.logs.scroll, 19);
    handle_key(&mut ui, &mut sel, &c, ch('G'));
    assert_eq!(ui.logs.scroll, 0);
    assert!(ui.logs.follow);
    handle_key(&mut ui, &mut sel, &c, ch(' '));
    assert!(ui.logs.paused);
    handle_key(&mut ui, &mut sel, &c, ch(' '));
    assert!(!ui.logs.paused);
}

#[test]
fn sync_selection_clamps_to_what_is_shown() {
    let mut ui = UiState::default();
    let mut sel = 9usize;
    let c = ctx(&["api", "db"]);
    ui.palette_pick = 4;
    sync_selection(&mut ui, &mut sel, &c);
    assert_eq!(sel, 2);
    assert_eq!(ui.palette_pick, 0);
}
