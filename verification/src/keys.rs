//! What a key press does in the terminal UI.
//!
//! The terminal loop reads a key, hands it here with the state of the UI and
//! what it currently shows, and performs the action that comes back (sending
//! requests to the runtime, running or stopping a command, quitting).
use vstd::prelude::*;

use crate::log_filter::LogFilterMode;
use crate::palette::PickerItem;
use crate::text::{chars_of, push_char, seq_contains, str_contains, to_lower, unicode_lower};
use crate::tui_input::{commands_view, make, parse_command, parse_spec, simple, strings_view, TuiCommand, TuiCommandView, TuiVerb};
use crate::state::{buffer_at, LogLine, LogStore};
use crate::strmap::StrMap;
use std::collections::VecDeque;
use crate::ui_state::{
    focus_toggle, section_next, section_prev, DisplayLogLine, Focus, InspectSection, LeftMode, LogsModel, TuiView,
    UiModel, UiState,
};

verus! {

/// How many entries the palette history keeps.
pub const HISTORY_CAP: usize = 50;

/// How far PageUp and PageDown move the palette selection.
pub const PALETTE_PAGE: usize = 10;

/// How many palette suggestions are assumed to be visible.
pub const PALETTE_VISIBLE: usize = 15;

/// How far PageUp and PageDown scroll the log view.
pub const LOG_PAGE: usize = 20;

/// Half the height assumed for the log view when centring a search match.
pub const HALF_VIEWPORT: usize = 10;

/// A key, as far as the UI tells keys apart.
#[derive(Clone, Copy, Debug, PartialEq, Eq, Structural)]
pub enum KeyCode {
    Char(char),
    Enter,
    Esc,
    Tab,
    BackTab,
    Backspace,
    Up,
    Down,
    PageUp,
    PageDown,
    Home,
    End,
    Other,
}

/// A key press; `ctrl` is set when Control is the only modifier held.
#[derive(Clone, Copy, Debug, PartialEq, Eq, Structural)]
pub struct KeyPress {
    pub code: KeyCode,
    pub ctrl: bool,
}

/// What the UI shows when the key arrives.
pub struct KeyContext {
    /// The service ids in display order; the list shows "all" before them.
    pub service_ids: Vec<String>,
    /// How many detected commands the project has.
    pub command_count: usize,
    /// The command runs, in display order.
    pub run_ids: Vec<String>,
    /// The palette items listed for the current palette input.
    pub picker: Vec<PickerItem>,
    /// The texts of the log lines the log view shows.
    pub log_texts: Vec<String>,
    /// The lines of the selected service's own log buffer.
    pub service_lines: Vec<DisplayLogLine>,
}

/// What the terminal loop is asked to do after a key.
pub enum KeyAction {
    Nothing,
    Quit,
    /// Send these requests to the runtime, in order.
    Send(Vec<TuiCommand>),
    /// Run the detected command at this position of the command list.
    RunCommand(usize),
    KillRun(String),
    RerunRun(String),
}

pub enum KeyActionView {
    Nothing,
    Quit,
    Send(Seq<TuiCommandView>),
    RunCommand(usize),
    KillRun(Seq<char>),
    RerunRun(Seq<char>),
}

impl View for KeyAction {
    type V = KeyActionView;

    open spec fn view(&self) -> KeyActionView {
        match self {
            KeyAction::Nothing => KeyActionView::Nothing,
            KeyAction::Quit => KeyActionView::Quit,
            KeyAction::Send(v) => KeyActionView::Send(commands_view(v@)),
            KeyAction::RunCommand(i) => KeyActionView::RunCommand(*i),
            KeyAction::KillRun(s) => KeyActionView::KillRun(s@),
            KeyAction::RerunRun(s) => KeyActionView::RerunRun(s@),
        }
    }
}

// ---------------------------------------------------------------------------
// The model of a key press
// ---------------------------------------------------------------------------

pub open spec fn sat_sub(a: int, b: int) -> int {
    if a >= b {
        a - b
    } else {
        0
    }
}

pub open spec fn min_of(a: int, b: int) -> int {
    if a <= b {
        a
    } else {
        b
    }
}

pub open spec fn all_id() -> Seq<char> {
    "all"@
}

/// The id on the given line of the service list: "all" first, then the
/// services.
pub open spec fn selected_id(ctx: KeyContext, sel: int) -> Option<Seq<char>> {
    let ids = strings_view(ctx.service_ids@);
    if sel == 0 {
        Some(all_id())
    } else if 0 < sel <= ids.len() {
        Some(ids[sel - 1])
    } else {
        None
    }
}

/// The requests with `verb` for the selected line: one per service (but a
/// service named "all") when "all" is selected, else one for the line.
pub open spec fn requests_for(ctx: KeyContext, id: Seq<char>, verb: TuiVerb) -> Seq<TuiCommandView> {
    if id == all_id() {
        strings_view(ctx.service_ids@).filter(|s: Seq<char>| s != all_id()).map_values(
            |s: Seq<char>| simple(verb, s),
        )
    } else {
        seq![simple(verb, id)]
    }
}

pub open spec fn following(m: UiModel) -> UiModel {
    UiModel { logs: LogsModel { follow: true, scroll: 0, ..m.logs }, ..m }
}

pub open spec fn without_search(m: UiModel) -> UiModel {
    UiModel { logs: LogsModel { search: None, matches: seq![], match_idx: 0, ..m.logs }, ..m }
}

pub open spec fn palette_closed(m: UiModel) -> UiModel {
    UiModel {
        palette_open: false,
        focus: Focus::Units,
        palette_input: seq![],
        palette_error: None,
        palette_pick: 0,
        palette_scroll: 0,
        palette_sugg_offset: 0,
        history_cursor: None,
        ..m
    }
}

pub open spec fn palette_opened(m: UiModel) -> UiModel {
    UiModel {
        palette_open: true,
        focus: Focus::Palette,
        palette_input: seq![],
        palette_error: None,
        palette_pick: 0,
        palette_scroll: 0,
        palette_sugg_offset: 0,
        history_cursor: None,
        ..m
    }
}

pub open spec fn is_right(f: Focus) -> bool {
    f is RightPane || f is InspectPanel
}

/// Where Tab moves the focus.
pub open spec fn tab_focus(f: Focus, v: TuiView) -> Focus {
    match f {
        Focus::Units => if v == TuiView::Inspect {
            Focus::InspectPanel(InspectSection::Summary)
        } else {
            Focus::RightPane
        },
        Focus::InspectPanel(s) => if v == TuiView::Inspect {
            Focus::InspectPanel(section_next(s))
        } else {
            Focus::Units
        },
        _ => focus_toggle(f),
    }
}

/// Where Shift+Tab moves the focus.
pub open spec fn backtab_focus(f: Focus, v: TuiView) -> Focus {
    match f {
        Focus::Units => if v == TuiView::Inspect {
            Focus::InspectPanel(InspectSection::Health)
        } else {
            Focus::RightPane
        },
        Focus::InspectPanel(s) => if v == TuiView::Inspect {
            Focus::InspectPanel(section_prev(s))
        } else {
            Focus::Units
        },
        _ => focus_toggle(f),
    }
}

/// The palette history after running `label`: appended unless it is the
/// last entry already, and only the newest `HISTORY_CAP` entries kept.
pub open spec fn recorded(h: Seq<Seq<char>>, label: Seq<char>) -> Seq<Seq<char>> {
    if h.len() > 0 && h.last() == label {
        h
    } else if h.len() + 1 > HISTORY_CAP {
        h.push(label).drop_first()
    } else {
        h.push(label)
    }
}

/// Whether the text of a log line matches a search, ignoring case.
pub open spec fn line_matches(text: Seq<char>, query: Seq<char>) -> bool {
    seq_contains(unicode_lower(text), unicode_lower(query))
}

/// The positions of the lines that match the query, in order.
pub open spec fn match_lines(texts: Seq<Seq<char>>, query: Seq<char>) -> Seq<usize>
    decreases texts.len(),
{
    if texts.len() == 0 {
        seq![]
    } else {
        let prev = match_lines(texts.drop_last(), query);
        if line_matches(texts.last(), query) {
            prev.push((texts.len() - 1) as usize)
        } else {
            prev
        }
    }
}

/// The search hits: none for an empty query.
pub open spec fn search_hits(texts: Seq<Seq<char>>, query: Seq<char>) -> Seq<usize> {
    if query.len() == 0 {
        seq![]
    } else {
        match_lines(texts, query)
    }
}

/// The scroll offset (lines up from the newest) that puts a line of a
/// buffer of `total` lines near the middle of the view.
pub open spec fn scroll_to(total: int, line: int) -> usize {
    sat_sub(sat_sub(total, line + 1), HALF_VIEWPORT as int) as usize
}

/// The log view after the search query becomes `q`: the matches are found
/// again, the first one is current and shown.
pub open spec fn searched(m: UiModel, ctx: KeyContext, q: Seq<char>) -> UiModel {
    let texts = strings_view(ctx.log_texts@);
    let hits = search_hits(texts, q);
    let logs = LogsModel { search: Some(q), matches: hits, match_idx: 0, ..m.logs };
    if hits.len() > 0 {
        UiModel {
            logs: LogsModel { scroll: scroll_to(texts.len() as int, hits[0] as int), follow: false, ..logs },
            ..m
        }
    } else {
        UiModel { logs, ..m }
    }
}

/// Shows the current match, if there is one.
pub open spec fn show_match(m: UiModel, ctx: KeyContext) -> UiModel {
    let i = m.logs.match_idx;
    if i < m.logs.matches.len() {
        UiModel {
            logs: LogsModel {
                scroll: scroll_to(ctx.log_texts@.len() as int, m.logs.matches[i as int] as int),
                follow: false,
                ..m.logs
            },
            ..m
        }
    } else {
        m
    }
}

pub open spec fn next_match_idx(l: LogsModel) -> usize {
    if l.matches.len() > 0 {
        ((l.match_idx + 1) % (l.matches.len() as int)) as usize
    } else {
        l.match_idx
    }
}

pub open spec fn prev_match_idx(l: LogsModel) -> usize {
    if l.matches.len() > 0 {
        if l.match_idx == 0 {
            (l.matches.len() - 1) as usize
        } else {
            (l.match_idx - 1) as usize
        }
    } else {
        l.match_idx
    }
}

/// A key while the help overlay is open: Esc, `?` and `q` close it.
pub open spec fn help_step(m: UiModel, k: KeyPress) -> UiModel {
    match k.code {
        KeyCode::Esc => UiModel { help_open: false, ..m },
        KeyCode::Char(c) => if c == '?' || c == 'q' {
            UiModel { help_open: false, ..m }
        } else {
            m
        },
        _ => m,
    }
}

/// The palette input after typing `c`.
pub open spec fn palette_typed(m: UiModel, input: Seq<char>) -> UiModel {
    UiModel {
        palette_input: input,
        palette_error: None,
        palette_pick: 0,
        palette_sugg_offset: 0,
        history_cursor: None,
        ..m
    }
}

/// Ctrl+P: the previous history entry.
pub open spec fn history_prev(m: UiModel) -> UiModel {
    let h = m.history;
    if h.len() > 0 {
        let idx = match m.history_cursor {
            Some(i) => sat_sub(i as int, 1),
            None => h.len() - 1,
        };
        UiModel {
            history_cursor: Some(idx as usize),
            palette_input: h[idx],
            palette_error: None,
            palette_pick: 0,
            ..m
        }
    } else {
        m
    }
}

/// Ctrl+N: the next history entry, or an empty input after the last one.
pub open spec fn history_next(m: UiModel) -> UiModel {
    let h = m.history;
    if h.len() > 0 {
        let idx = match m.history_cursor {
            Some(i) => min_of(i + 1, h.len() as int),
            None => h.len() as int,
        };
        if idx >= h.len() {
            UiModel { history_cursor: None, palette_input: seq![], palette_error: None, palette_pick: 0, ..m }
        } else {
            UiModel {
                history_cursor: Some(idx as usize),
                palette_input: h[idx],
                palette_error: None,
                palette_pick: 0,
                ..m
            }
        }
    } else {
        m
    }
}

pub open spec fn pick_up(m: UiModel) -> UiModel {
    if m.palette_pick > 0 {
        let p = (m.palette_pick - 1) as usize;
        UiModel {
            palette_pick: p,
            palette_sugg_offset: if p < m.palette_sugg_offset {
                p
            } else {
                m.palette_sugg_offset
            },
            ..m
        }
    } else {
        m
    }
}

pub open spec fn pick_down(m: UiModel, n: int) -> UiModel {
    if m.palette_pick + 1 < n {
        let p = (m.palette_pick + 1) as usize;
        UiModel {
            palette_pick: p,
            palette_sugg_offset: if p >= m.palette_sugg_offset + PALETTE_VISIBLE {
                sat_sub(p as int, PALETTE_VISIBLE - 1) as usize
            } else {
                m.palette_sugg_offset
            },
            ..m
        }
    } else {
        m
    }
}

/// Enter in the palette: open the chosen view, or run the chosen command
/// line and show the logs.
pub open spec fn palette_enter(m: UiModel, ctx: KeyContext) -> (UiModel, KeyActionView) {
    let items = ctx.picker@;
    if m.palette_pick < items.len() {
        let item = items[m.palette_pick as int];
        match item.target_view {
            Some(v) => {
                let shown = UiModel { view: v, ..m };
                (palette_closed(if v == TuiView::Logs {
                    following(shown)
                } else {
                    shown
                }), KeyActionView::Nothing)
            },
            None => match item.command {
                Some(cmd) => match parse_spec(cmd@, strings_view(ctx.service_ids@)) {
                    Ok(cs) => (
                        palette_closed(following(UiModel {
                            view: TuiView::Logs,
                            history: recorded(m.history, item.label@),
                            ..m
                        })),
                        KeyActionView::Send(cs),
                    ),
                    Err(e) => (UiModel { palette_error: Some(e), ..m }, KeyActionView::Nothing),
                },
                None => (
                    UiModel { palette_error: Some("No action for this item"@), ..m },
                    KeyActionView::Nothing,
                ),
            },
        }
    } else {
        (UiModel { palette_error: Some("No command selected"@), ..m }, KeyActionView::Nothing)
    }
}

/// A key while the command palette is open.
pub open spec fn palette_step(m: UiModel, ctx: KeyContext, k: KeyPress) -> (UiModel, KeyActionView) {
    let n = ctx.picker@.len() as int;
    match k.code {
        KeyCode::Esc => (palette_closed(m), KeyActionView::Nothing),
        KeyCode::Up => (pick_up(m), KeyActionView::Nothing),
        KeyCode::Down => (pick_down(m, n), KeyActionView::Nothing),
        KeyCode::PageUp => (
            UiModel {
                palette_pick: sat_sub(m.palette_pick as int, PALETTE_PAGE as int) as usize,
                palette_sugg_offset: sat_sub(m.palette_sugg_offset as int, PALETTE_PAGE as int) as usize,
                ..m
            },
            KeyActionView::Nothing,
        ),
        KeyCode::PageDown => (
            UiModel {
                palette_pick: min_of(m.palette_pick + PALETTE_PAGE, sat_sub(n, 1)) as usize,
                palette_sugg_offset: min_of(
                    m.palette_sugg_offset + PALETTE_PAGE,
                    sat_sub(n, PALETTE_VISIBLE as int),
                ) as usize,
                ..m
            },
            KeyActionView::Nothing,
        ),
        KeyCode::Home => (UiModel { palette_pick: 0, palette_sugg_offset: 0, ..m }, KeyActionView::Nothing),
        KeyCode::End => (
            UiModel {
                palette_pick: sat_sub(n, 1) as usize,
                palette_sugg_offset: sat_sub(n, PALETTE_VISIBLE as int) as usize,
                ..m
            },
            KeyActionView::Nothing,
        ),
        KeyCode::Tab => if m.palette_pick < n {
            (
                UiModel { palette_input: ctx.picker@[m.palette_pick as int].label@, palette_error: None, ..m },
                KeyActionView::Nothing,
            )
        } else {
            (m, KeyActionView::Nothing)
        },
        KeyCode::Backspace => (
            palette_typed(m, if m.palette_input.len() > 0 {
                m.palette_input.drop_last()
            } else {
                m.palette_input
            }),
            KeyActionView::Nothing,
        ),
        KeyCode::Char(c) => if k.ctrl && c == 'p' {
            (history_prev(m), KeyActionView::Nothing)
        } else if k.ctrl && c == 'n' {
            (history_next(m), KeyActionView::Nothing)
        } else if k.ctrl && c == 'k' {
            (pick_up(m), KeyActionView::Nothing)
        } else if k.ctrl && c == 'j' {
            (pick_down(m, n), KeyActionView::Nothing)
        } else {
            (palette_typed(m, m.palette_input.push(c)), KeyActionView::Nothing)
        },
        KeyCode::Enter => palette_enter(m, ctx),
        _ => (m, KeyActionView::Nothing),
    }
}

/// A key while a log search is being typed.
pub open spec fn search_step(m: UiModel, ctx: KeyContext, k: KeyPress) -> UiModel {
    let q = match m.logs.search {
        Some(q) => q,
        None => seq![],
    };
    match k.code {
        KeyCode::Esc => without_search(m),
        KeyCode::Enter => without_search(m),
        KeyCode::Backspace => searched(m, ctx, if q.len() > 0 {
            q.drop_last()
        } else {
            q
        }),
        KeyCode::Down => show_match(UiModel { logs: LogsModel { match_idx: next_match_idx(m.logs), ..m.logs }, ..m }, ctx),
        KeyCode::Up => show_match(UiModel { logs: LogsModel { match_idx: prev_match_idx(m.logs), ..m.logs }, ..m }, ctx),
        KeyCode::Char(c) => if c == 'n' {
            show_match(UiModel { logs: LogsModel { match_idx: next_match_idx(m.logs), ..m.logs }, ..m }, ctx)
        } else if c == 'N' {
            show_match(UiModel { logs: LogsModel { match_idx: prev_match_idx(m.logs), ..m.logs }, ..m }, ctx)
        } else {
            searched(m, ctx, q.push(c))
        },
        _ => m,
    }
}

/// The keys that work wherever the focus is; `None` for the others.
pub open spec fn global_step(m: UiModel, k: KeyPress) -> Option<(UiModel, KeyActionView)> {
    match k.code {
        KeyCode::Char(c) => if c == 'q' {
            Some((m, KeyActionView::Quit))
        } else if c == '?' {
            Some((UiModel { help_open: true, ..m }, KeyActionView::Nothing))
        } else if c == '/' || (c == 'k' && k.ctrl) {
            Some((palette_opened(m), KeyActionView::Nothing))
        } else if c == '1' {
            Some((UiModel { left_mode: LeftMode::Services, ..m }, KeyActionView::Nothing))
        } else if c == '2' {
            Some((UiModel { left_mode: LeftMode::Commands, ..m }, KeyActionView::Nothing))
        } else if c == '3' {
            Some((UiModel { left_mode: LeftMode::Runs, ..m }, KeyActionView::Nothing))
        } else if c == 'l' {
            Some((following(UiModel { view: TuiView::Logs, ..m }), KeyActionView::Nothing))
        } else if c == 'i' {
            Some((
                UiModel {
                    view: TuiView::Inspect,
                    focus: if is_right(m.focus) {
                        Focus::InspectPanel(InspectSection::Summary)
                    } else {
                        m.focus
                    },
                    ..m
                },
                KeyActionView::Nothing,
            ))
        } else if c == 'd' {
            Some((UiModel { view: TuiView::Deps, ..m }, KeyActionView::Nothing))
        } else if c == 'm' {
            Some((UiModel { view: TuiView::Metrics, ..m }, KeyActionView::Nothing))
        } else {
            None
        },
        KeyCode::Tab => Some((UiModel { focus: tab_focus(m.focus, m.view), ..m }, KeyActionView::Nothing)),
        KeyCode::BackTab => Some((UiModel { focus: backtab_focus(m.focus, m.view), ..m }, KeyActionView::Nothing)),
        KeyCode::Esc => Some((following(without_search(m)), KeyActionView::Nothing)),
        _ => None,
    }
}

pub open spec fn is_up(k: KeyPress) -> bool {
    k.code == KeyCode::Up || k.code == KeyCode::Char('k')
}

pub open spec fn is_down(k: KeyPress) -> bool {
    k.code == KeyCode::Down || k.code == KeyCode::Char('j')
}

/// The verb a service key asks for.
pub open spec fn service_verb(c: char) -> Option<TuiVerb> {
    if c == 'r' {
        Some(TuiVerb::Restart)
    } else if c == 's' {
        Some(TuiVerb::Stop)
    } else if c == 't' {
        Some(TuiVerb::Start)
    } else if c == 'x' {
        Some(TuiVerb::Kill)
    } else if c == 'c' {
        Some(TuiVerb::ClearLogs)
    } else {
        None
    }
}

/// A key on the service list.
pub open spec fn services_step(m: UiModel, sel: usize, ctx: KeyContext, k: KeyPress) -> (UiModel, usize, KeyActionView) {
    let len = ctx.service_ids@.len() + 1;
    if is_up(k) {
        if sel > 0 {
            (following(m), (sel - 1) as usize, KeyActionView::Nothing)
        } else {
            (m, sel, KeyActionView::Nothing)
        }
    } else if is_down(k) {
        if sel + 1 < len {
            (following(m), (sel + 1) as usize, KeyActionView::Nothing)
        } else {
            (m, sel, KeyActionView::Nothing)
        }
    } else if k.code == KeyCode::Enter {
        match selected_id(ctx, sel as int) {
            Some(id) => if id != all_id() {
                (m, sel, KeyActionView::Send(seq![simple(TuiVerb::Toggle, id)]))
            } else {
                (m, sel, KeyActionView::Nothing)
            },
            None => (m, sel, KeyActionView::Nothing),
        }
    } else if k.code == KeyCode::Char('e') {
        (UiModel { view: TuiView::Exec, ..m }, sel, KeyActionView::Nothing)
    } else {
        match k.code {
            KeyCode::Char(c) => match (service_verb(c), selected_id(ctx, sel as int)) {
                (Some(verb), Some(id)) => (m, sel, KeyActionView::Send(requests_for(ctx, id, verb))),
                _ => (m, sel, KeyActionView::Nothing),
            },
            _ => (m, sel, KeyActionView::Nothing),
        }
    }
}

/// A key on the command list.
pub open spec fn commands_step(m: UiModel, ctx: KeyContext, k: KeyPress) -> (UiModel, KeyActionView) {
    let i = m.selected_command;
    if is_up(k) {
        if i > 0 {
            (UiModel { selected_command: (i - 1) as usize, ..m }, KeyActionView::Nothing)
        } else {
            (m, KeyActionView::Nothing)
        }
    } else if is_down(k) {
        if i + 1 < ctx.command_count {
            (UiModel { selected_command: (i + 1) as usize, ..m }, KeyActionView::Nothing)
        } else {
            (m, KeyActionView::Nothing)
        }
    } else if k.code == KeyCode::Enter && i < ctx.command_count {
        (UiModel { left_mode: LeftMode::Runs, selected_run: 0, ..m }, KeyActionView::RunCommand(i))
    } else {
        (m, KeyActionView::Nothing)
    }
}

/// A key on the list of command runs.
pub open spec fn runs_step(m: UiModel, ctx: KeyContext, k: KeyPress) -> (UiModel, KeyActionView) {
    let i = m.selected_run;
    let runs = strings_view(ctx.run_ids@);
    if is_up(k) {
        if i > 0 {
            (following(UiModel { selected_run: (i - 1) as usize, ..m }), KeyActionView::Nothing)
        } else {
            (m, KeyActionView::Nothing)
        }
    } else if is_down(k) {
        if i + 1 < runs.len() {
            (following(UiModel { selected_run: (i + 1) as usize, ..m }), KeyActionView::Nothing)
        } else {
            (m, KeyActionView::Nothing)
        }
    } else if k.code == KeyCode::Enter {
        (following(UiModel { view: TuiView::Logs, ..m }), KeyActionView::Nothing)
    } else if k.code == KeyCode::Char('x') && i < runs.len() {
        (m, KeyActionView::KillRun(runs[i as int]))
    } else if k.code == KeyCode::Char('r') && i < runs.len() {
        (m, KeyActionView::RerunRun(runs[i as int]))
    } else {
        (m, KeyActionView::Nothing)
    }
}

pub open spec fn with_logs(m: UiModel, l: LogsModel) -> UiModel {
    UiModel { logs: l, ..m }
}

/// A key in the log view when it has the focus.
pub open spec fn log_view_step(m: UiModel, sel: usize, ctx: KeyContext, k: KeyPress) -> UiModel {
    let l = m.logs;
    if k.code == KeyCode::Char('s') {
        with_logs(m, LogsModel { search: Some(seq![]), matches: seq![], match_idx: 0, ..l })
    } else if k.code == KeyCode::Char('f') {
        with_logs(m, LogsModel { follow: !l.follow, scroll: if !l.follow { 0 } else { l.scroll }, ..l })
    } else if is_up(k) || k.code == KeyCode::PageUp {
        let n: int = if k.code == KeyCode::PageUp { LOG_PAGE as int } else { 1 };
        with_logs(m, LogsModel { follow: false, scroll: min_of(l.scroll + n, usize::MAX as int) as usize, ..l })
    } else if is_down(k) || k.code == KeyCode::PageDown {
        let n: int = if k.code == KeyCode::PageDown { LOG_PAGE as int } else { 1 };
        let s = sat_sub(l.scroll as int, n);
        with_logs(m, LogsModel { scroll: s as usize, follow: s == 0 || l.follow, ..l })
    } else if k.code == KeyCode::Home {
        with_logs(
            m,
            LogsModel { scroll: sat_sub(ctx.service_lines@.len() as int, LOG_PAGE as int) as usize, follow: false, ..l },
        )
    } else if k.code == KeyCode::End || k.code == KeyCode::Char('g') || k.code == KeyCode::Char('G') {
        following(m)
    } else if k.code == KeyCode::Char(' ') {
        if !l.paused && selected_id(ctx, sel as int) is Some {
            with_logs(m, LogsModel { paused: true, frozen_logs: ctx.service_lines@, ..l })
        } else {
            with_logs(m, LogsModel { paused: !l.paused, ..l })
        }
    } else if k.code == KeyCode::Char('e') {
        with_logs(m, LogsModel { log_filter: LogFilterMode::ErrorOnly, ..l })
    } else if k.code == KeyCode::Char('w') {
        with_logs(m, LogsModel { log_filter: LogFilterMode::WarnAndAbove, ..l })
    } else if k.code == KeyCode::Char('a') {
        with_logs(m, LogsModel { log_filter: LogFilterMode::All, ..l })
    } else {
        m
    }
}

/// A key in the right pane when it has the focus.
pub open spec fn right_pane_step(m: UiModel, sel: usize, ctx: KeyContext, k: KeyPress) -> UiModel {
    match m.view {
        TuiView::Logs => log_view_step(m, sel, ctx, k),
        TuiView::Metrics => if k.code == KeyCode::Char('p') {
            UiModel { metrics_paused: !m.metrics_paused, ..m }
        } else if k.code == KeyCode::Char('e') {
            UiModel { view: TuiView::Exec, ..m }
        } else {
            m
        },
        _ => if k.code == KeyCode::Char('e') {
            UiModel { view: TuiView::Exec, ..m }
        } else {
            m
        },
    }
}

/// A key that is not global: it goes to the part of the UI with the focus.
pub open spec fn focus_step(m: UiModel, sel: usize, ctx: KeyContext, k: KeyPress) -> (UiModel, usize, KeyActionView) {
    match m.focus {
        Focus::Units => match m.left_mode {
            LeftMode::Services => services_step(m, sel, ctx, k),
            LeftMode::Commands => {
                let (m2, a) = commands_step(m, ctx, k);
                (m2, sel, a)
            },
            LeftMode::Runs => {
                let (m2, a) = runs_step(m, ctx, k);
                (m2, sel, a)
            },
        },
        Focus::RightPane => (right_pane_step(m, sel, ctx, k), sel, KeyActionView::Nothing),
        _ => (m, sel, KeyActionView::Nothing),
    }
}

/// What a key press does: the new UI state, the new selected line of the
/// service list and the action for the terminal loop.  The help overlay,
/// then the palette, then a search being typed take the key first; then the
/// global keys; then the part of the UI with the focus.
pub open spec fn key_step(m: UiModel, sel: usize, ctx: KeyContext, k: KeyPress) -> (UiModel, usize, KeyActionView) {
    if m.help_open {
        (help_step(m, k), sel, KeyActionView::Nothing)
    } else if m.palette_open {
        let (m2, a) = palette_step(m, ctx, k);
        (m2, sel, a)
    } else if m.logs.search is Some {
        (search_step(m, ctx, k), sel, KeyActionView::Nothing)
    } else {
        match global_step(m, k) {
            Some((m2, a)) => (m2, sel, a),
            None => focus_step(m, sel, ctx, k),
        }
    }
}

/// The invariant of the UI state that key presses keep: the history holds
/// at most `HISTORY_CAP` entries, no entry repeats the one before it, the
/// history cursor is within the history and the current search match is one
/// of the matches.
pub open spec fn ui_wf(m: UiModel) -> bool {
    &&& m.history.len() <= HISTORY_CAP
    &&& forall|j: int| 0 < j < m.history.len() ==> m.history[j - 1] != #[trigger] m.history[j]
    &&& (m.history_cursor matches Some(i) ==> i <= m.history.len())
    &&& (m.logs.matches.len() > 0 ==> m.logs.match_idx < m.logs.matches.len())
}

// ---------------------------------------------------------------------------
// Carrying it out
// ---------------------------------------------------------------------------

/// The text without its last character (unchanged when empty).
fn drop_last_char(s: &String) -> (r: String)
    ensures
        r@ == (if s@.len() > 0 {
            s@.drop_last()
        } else {
            s@
        }),
{
    let cs = chars_of(s.as_str());
    if cs.len() == 0 {
        return s.clone();
    }
    let mut out = String::new();
    let mut i: usize = 0;
    while i + 1 < cs.len()
        invariant
            cs@ == s@,
            cs.len() > 0,
            i < cs.len(),
            out@ == cs@.take(i as int),
        decreases cs.len() - i,
    {
        push_char(&mut out, cs[i]);
        i = i + 1;
        assert(out@ =~= cs@.take(i as int));
    }
    assert(out@ =~= s@.drop_last());
    out
}

/// The lines of `texts` that contain `query`, ignoring case; none for an
/// empty query.
pub fn search_matches(texts: &Vec<String>, query: &str) -> (r: Vec<usize>)
    ensures
        r@ == search_hits(strings_view(texts@), query@),
{
    let ghost all = strings_view(texts@);
    if chars_of(query).len() == 0 {
        return Vec::new();
    }
    let q = to_lower(query);
    let mut out: Vec<usize> = Vec::new();
    let mut i: usize = 0;
    while i < texts.len()
        invariant
            i <= texts.len(),
            all == strings_view(texts@),
            q@ == unicode_lower(query@),
            out@ == match_lines(all.take(i as int), query@),
        decreases texts.len() - i,
    {
        let t = to_lower(texts[i].as_str());
        proof {
            assert(all.take(i + 1).drop_last() =~= all.take(i as int));
            assert(all.take(i + 1).last() == texts@[i as int]@);
        }
        if str_contains(t.as_str(), q.as_str()) {
            out.push(i);
        }
        i = i + 1;
    }
    assert(all.take(texts.len() as int) =~= all);
    out
}

/// `a - b`, or 0 when `b` is larger.
fn sub_or_zero(a: usize, b: usize) -> (r: usize)
    ensures
        r == sat_sub(a as int, b as int),
{
    if a >= b {
        a - b
    } else {
        0
    }
}

/// The scroll offset that shows `line` of a buffer of `total` lines.
fn scroll_for(total: usize, line: usize) -> (r: usize)
    ensures
        r == scroll_to(total as int, line as int),
{
    let from_bottom = if line >= total {
        0
    } else {
        total - line - 1
    };
    sub_or_zero(from_bottom, HALF_VIEWPORT)
}

fn follow_newest(ui: &mut UiState)
    ensures
        final(ui)@ == following(old(ui)@),
{
    ui.enter_follow();
}

fn close_palette(ui: &mut UiState)
    ensures
        final(ui)@ == palette_closed(old(ui)@),
{
    ui.palette_open = false;
    ui.focus = Focus::Units;
    ui.palette_input = String::new();
    ui.palette_error = None;
    ui.palette_pick = 0;
    ui.palette_scroll = 0;
    ui.palette_sugg_offset = 0;
    ui.history_cursor = None;
    assert(ui@.palette_input =~= seq![]);
}

fn open_palette(ui: &mut UiState)
    ensures
        final(ui)@ == palette_opened(old(ui)@),
{
    ui.palette_open = true;
    ui.focus = Focus::Palette;
    ui.palette_input = String::new();
    ui.palette_error = None;
    ui.palette_pick = 0;
    ui.palette_scroll = 0;
    ui.palette_sugg_offset = 0;
    ui.history_cursor = None;
    assert(ui@.palette_input =~= seq![]);
}

/// A key while the help overlay is open.
fn help_key(ui: &mut UiState, k: KeyPress)
    ensures
        final(ui)@ == help_step(old(ui)@, k),
{
    match k.code {
        KeyCode::Esc => {
            ui.help_open = false;
        },
        KeyCode::Char(c) => {
            if c == '?' || c == 'q' {
                ui.help_open = false;
            }
        },
        _ => {},
    }
}

/// Ctrl+P in the palette.
fn recall_previous(ui: &mut UiState)
    requires
        ui_wf(old(ui)@),
    ensures
        final(ui)@ == history_prev(old(ui)@),
{
    let n = ui.history.len();
    if n > 0 {
        let idx = match ui.history_cursor {
            Some(i) => sub_or_zero(i, 1),
            None => n - 1,
        };
        ui.history_cursor = Some(idx);
        ui.palette_input = ui.history[idx].clone();
        ui.palette_error = None;
        ui.palette_pick = 0;
    }
}

/// Ctrl+N in the palette.
fn recall_next(ui: &mut UiState)
    requires
        ui_wf(old(ui)@),
    ensures
        final(ui)@ == history_next(old(ui)@),
{
    let n = ui.history.len();
    if n > 0 {
        let idx = match ui.history_cursor {
            Some(i) => if i + 1 < n {
                i + 1
            } else {
                n
            },
            None => n,
        };
        if idx >= n {
            ui.history_cursor = None;
            ui.palette_input = String::new();
            assert(ui@.palette_input =~= seq![]);
        } else {
            ui.history_cursor = Some(idx);
            ui.palette_input = ui.history[idx].clone();
        }
        ui.palette_error = None;
        ui.palette_pick = 0;
    }
}

fn move_pick_up(ui: &mut UiState)
    ensures
        final(ui)@ == pick_up(old(ui)@),
{
    if ui.palette_pick > 0 {
        ui.palette_pick = ui.palette_pick - 1;
        if ui.palette_pick < ui.palette_sugg_offset {
            ui.palette_sugg_offset = ui.palette_pick;
        }
    }
}

fn move_pick_down(ui: &mut UiState, n: usize)
    ensures
        final(ui)@ == pick_down(old(ui)@, n as int),
{
    if n > 0 && ui.palette_pick < n - 1 {
        ui.palette_pick = ui.palette_pick + 1;
        let p = ui.palette_pick;
        if p >= ui.palette_sugg_offset && p - ui.palette_sugg_offset >= PALETTE_VISIBLE {
            ui.palette_sugg_offset = sub_or_zero(p, PALETTE_VISIBLE - 1);
        }
    }
}

/// `min(a + b, c)` without overflow.
fn add_capped(a: usize, b: usize, c: usize) -> (r: usize)
    ensures
        r == min_of(a + b, c as int),
{
    if a >= c || c - a <= b {
        c
    } else {
        a + b
    }
}

/// The palette input becomes `input`, which starts a new search.
fn set_input(ui: &mut UiState, input: String)
    ensures
        final(ui)@ == palette_typed(old(ui)@, input@),
{
    ui.palette_input = input;
    ui.palette_error = None;
    ui.palette_pick = 0;
    ui.palette_sugg_offset = 0;
    ui.history_cursor = None;
}

/// Appends a run command line to the history, as `recorded` says.
fn record_history(h: &mut Vec<String>, label: &String)
    ensures
        final(h)@.map_values(|x: String| x@) == recorded(old(h)@.map_values(|x: String| x@), label@),
{
    let ghost before = old(h)@.map_values(|x: String| x@);
    let n = h.len();
    if n > 0 && crate::command::str_eq(h[n - 1].as_str(), label.as_str()) {
        assert(before.last() == label@);
        return;
    }
    h.push(label.clone());
    assert(h@.map_values(|x: String| x@) =~= before.push(label@));
    if h.len() > HISTORY_CAP {
        h.remove(0);
        assert(h@.map_values(|x: String| x@) =~= before.push(label@).drop_first());
    }
}

/// Enter in the palette.
fn enter_in_palette(ui: &mut UiState, ctx: &KeyContext) -> (r: KeyAction)
    ensures
        (final(ui)@, r@) == palette_enter(old(ui)@, *ctx),
{
    let n = ctx.picker.len();
    if ui.palette_pick < n {
        let item = &ctx.picker[ui.palette_pick];
        match item.target_view {
            Some(v) => {
                ui.view = v;
                if v == TuiView::Logs {
                    follow_newest(ui);
                }
                close_palette(ui);
                KeyAction::Nothing
            },
            None => match &item.command {
                Some(cmd) => match parse_command(cmd.as_str(), ctx.service_ids.as_slice()) {
                    Ok(cs) => {
                        record_history(&mut ui.history, &item.label);
                        ui.view = TuiView::Logs;
                        follow_newest(ui);
                        close_palette(ui);
                        KeyAction::Send(cs)
                    },
                    Err(e) => {
                        ui.palette_error = Some(e);
                        KeyAction::Nothing
                    },
                },
                None => {
                    ui.palette_error = Some(crate::text::owned("No action for this item"));
                    KeyAction::Nothing
                },
            },
        }
    } else {
        ui.palette_error = Some(crate::text::owned("No command selected"));
        KeyAction::Nothing
    }
}

/// A key while the command palette is open.
pub fn palette_key(ui: &mut UiState, ctx: &KeyContext, k: KeyPress) -> (r: KeyAction)
    requires
        ui_wf(old(ui)@),
    ensures
        (final(ui)@, r@) == palette_step(old(ui)@, *ctx, k),
{
    let n = ctx.picker.len();
    match k.code {
        KeyCode::Esc => {
            close_palette(ui);
            KeyAction::Nothing
        },
        KeyCode::Up => {
            move_pick_up(ui);
            KeyAction::Nothing
        },
        KeyCode::Down => {
            move_pick_down(ui, n);
            KeyAction::Nothing
        },
        KeyCode::PageUp => {
            ui.palette_pick = sub_or_zero(ui.palette_pick, PALETTE_PAGE);
            ui.palette_sugg_offset = sub_or_zero(ui.palette_sugg_offset, PALETTE_PAGE);
            KeyAction::Nothing
        },
        KeyCode::PageDown => {
            ui.palette_pick = add_capped(ui.palette_pick, PALETTE_PAGE, sub_or_zero(n, 1));
            ui.palette_sugg_offset = add_capped(ui.palette_sugg_offset, PALETTE_PAGE, sub_or_zero(n, PALETTE_VISIBLE));
            KeyAction::Nothing
        },
        KeyCode::Home => {
            ui.palette_pick = 0;
            ui.palette_sugg_offset = 0;
            KeyAction::Nothing
        },
        KeyCode::End => {
            ui.palette_pick = sub_or_zero(n, 1);
            ui.palette_sugg_offset = sub_or_zero(n, PALETTE_VISIBLE);
            KeyAction::Nothing
        },
        KeyCode::Tab => {
            if ui.palette_pick < n {
                ui.palette_input = ctx.picker[ui.palette_pick].label.clone();
                ui.palette_error = None;
            }
            KeyAction::Nothing
        },
        KeyCode::Backspace => {
            let shorter = drop_last_char(&ui.palette_input);
            set_input(ui, shorter);
            KeyAction::Nothing
        },
        KeyCode::Char(c) => {
            if k.ctrl && c == 'p' {
                recall_previous(ui);
            } else if k.ctrl && c == 'n' {
                recall_next(ui);
            } else if k.ctrl && c == 'k' {
                move_pick_up(ui);
            } else if k.ctrl && c == 'j' {
                move_pick_down(ui, n);
            } else {
                let mut longer = ui.palette_input.clone();
                push_char(&mut longer, c);
                set_input(ui, longer);
            }
            KeyAction::Nothing
        },
        KeyCode::Enter => enter_in_palette(ui, ctx),
        _ => KeyAction::Nothing,
    }
}

/// The search query becomes `q`: the matches are found again and the first
/// one is shown.
fn set_search(ui: &mut UiState, ctx: &KeyContext, q: String)
    ensures
        final(ui)@ == searched(old(ui)@, *ctx, q@),
{
    let hits = search_matches(&ctx.log_texts, q.as_str());
    ui.logs.search = Some(q);
    ui.logs.matches = hits;
    ui.logs.match_idx = 0;
    if ui.logs.matches.len() > 0 {
        ui.logs.scroll = scroll_for(ctx.log_texts.len(), ui.logs.matches[0]);
        ui.logs.follow = false;
    }
}

/// Scrolls to the current match, if there is one.
fn show_current_match(ui: &mut UiState, ctx: &KeyContext)
    ensures
        final(ui)@ == show_match(old(ui)@, *ctx),
{
    let i = ui.logs.match_idx;
    if i < ui.logs.matches.len() {
        ui.logs.scroll = scroll_for(ctx.log_texts.len(), ui.logs.matches[i]);
        ui.logs.follow = false;
    }
}

/// A key while a log search is being typed.
pub fn search_key(ui: &mut UiState, ctx: &KeyContext, k: KeyPress)
    requires
        ui_wf(old(ui)@),
    ensures
        final(ui)@ == search_step(old(ui)@, *ctx, k),
{
    let matches_len = ui.logs.matches.len();
    assert(ui@.logs.matches.len() == matches_len);
    let q = match &ui.logs.search {
        Some(q) => q.clone(),
        None => String::new(),
    };
    assert(q@ == (match old(ui)@.logs.search {
        Some(q) => q,
        None => seq![],
    }));
    match k.code {
        KeyCode::Esc => ui.logs.exit_search(),
        KeyCode::Enter => ui.logs.exit_search(),
        KeyCode::Backspace => {
            let shorter = drop_last_char(&q);
            set_search(ui, ctx, shorter);
        },
        KeyCode::Down => {
            ui.logs.next_match();
            show_current_match(ui, ctx);
        },
        KeyCode::Up => {
            ui.logs.prev_match();
            show_current_match(ui, ctx);
        },
        KeyCode::Char(c) => {
            if c == 'n' {
                ui.logs.next_match();
                show_current_match(ui, ctx);
            } else if c == 'N' {
                ui.logs.prev_match();
                show_current_match(ui, ctx);
            } else {
                let mut longer = q;
                push_char(&mut longer, c);
                set_search(ui, ctx, longer);
            }
        },
        _ => {},
    }
}

fn tab_focus_exec(f: Focus, v: TuiView) -> (r: Focus)
    ensures
        r == tab_focus(f, v),
{
    match f {
        Focus::Units => if v == TuiView::Inspect {
            Focus::InspectPanel(InspectSection::Summary)
        } else {
            Focus::RightPane
        },
        Focus::InspectPanel(s) => if v == TuiView::Inspect {
            Focus::InspectPanel(s.next())
        } else {
            Focus::Units
        },
        _ => f.toggle(),
    }
}

fn backtab_focus_exec(f: Focus, v: TuiView) -> (r: Focus)
    ensures
        r == backtab_focus(f, v),
{
    match f {
        Focus::Units => if v == TuiView::Inspect {
            Focus::InspectPanel(InspectSection::Health)
        } else {
            Focus::RightPane
        },
        Focus::InspectPanel(s) => if v == TuiView::Inspect {
            Focus::InspectPanel(s.prev())
        } else {
            Focus::Units
        },
        _ => f.toggle(),
    }
}

/// The keys that work wherever the focus is; `None`, with the state
/// unchanged, for the others.
pub fn global_key(ui: &mut UiState, k: KeyPress) -> (r: Option<KeyAction>)
    ensures
        match global_step(old(ui)@, k) {
            Some((m2, a)) => r matches Some(x) && x@ == a && final(ui)@ == m2,
            None => r is None && final(ui)@ == old(ui)@,
        },
{
    match k.code {
        KeyCode::Char(c) => {
            if c == 'q' {
                Some(KeyAction::Quit)
            } else if c == '?' {
                ui.help_open = true;
                Some(KeyAction::Nothing)
            } else if c == '/' || (c == 'k' && k.ctrl) {
                open_palette(ui);
                Some(KeyAction::Nothing)
            } else if c == '1' {
                ui.left_mode = LeftMode::Services;
                Some(KeyAction::Nothing)
            } else if c == '2' {
                ui.left_mode = LeftMode::Commands;
                Some(KeyAction::Nothing)
            } else if c == '3' {
                ui.left_mode = LeftMode::Runs;
                Some(KeyAction::Nothing)
            } else if c == 'l' {
                ui.view = TuiView::Logs;
                follow_newest(ui);
                Some(KeyAction::Nothing)
            } else if c == 'i' {
                ui.view = TuiView::Inspect;
                if ui.focus.is_right() {
                    ui.focus = Focus::InspectPanel(InspectSection::Summary);
                }
                Some(KeyAction::Nothing)
            } else if c == 'd' {
                ui.view = TuiView::Deps;
                Some(KeyAction::Nothing)
            } else if c == 'm' {
                ui.view = TuiView::Metrics;
                Some(KeyAction::Nothing)
            } else {
                None
            }
        },
        KeyCode::Tab => {
            ui.focus = tab_focus_exec(ui.focus, ui.view);
            Some(KeyAction::Nothing)
        },
        KeyCode::BackTab => {
            ui.focus = backtab_focus_exec(ui.focus, ui.view);
            Some(KeyAction::Nothing)
        },
        KeyCode::Esc => {
            ui.logs.exit_search();
            follow_newest(ui);
            Some(KeyAction::Nothing)
        },
        _ => None,
    }
}

/// The id on the given line of the service list.
fn selected_id_exec(ctx: &KeyContext, sel: usize) -> (r: Option<String>)
    ensures
        crate::log_filter::opt_view(r) == selected_id(*ctx, sel as int),
{
    if sel == 0 {
        Some(crate::text::owned("all"))
    } else if sel <= ctx.service_ids.len() {
        Some(ctx.service_ids[sel - 1].clone())
    } else {
        None
    }
}

/// The services other than one named "all".
pub open spec fn not_all_ids(ids: Seq<Seq<char>>) -> Seq<Seq<char>> {
    ids.filter(|s: Seq<char>| s != all_id())
}

/// The requests with `verb` for the selected line.
fn requests(ctx: &KeyContext, id: &String, verb: TuiVerb) -> (r: Vec<TuiCommand>)
    requires
        verb != TuiVerb::Exec,
    ensures
        commands_view(r@) == requests_for(*ctx, id@, verb),
{
    let mut out: Vec<TuiCommand> = Vec::new();
    if crate::command::str_eq(id.as_str(), "all") {
        let ghost ids = strings_view(ctx.service_ids@);
        let ghost p = |s: Seq<char>| s != all_id();
        let mut i: usize = 0;
        while i < ctx.service_ids.len()
            invariant
                i <= ctx.service_ids.len(),
                verb != TuiVerb::Exec,
                ids == strings_view(ctx.service_ids@),
                p == (|s: Seq<char>| s != all_id()),
                commands_view(out@) == ids.take(i as int).filter(p).map_values(|s: Seq<char>| simple(verb, s)),
            decreases ctx.service_ids.len() - i,
        {
            proof {
                crate::command::lemma_filter_step(ids, p, i as int);
            }
            let sid = &ctx.service_ids[i];
            if !crate::command::str_eq(sid.as_str(), "all") {
                let c = make(verb, sid.clone());
                let ghost prev = out@;
                out.push(c);
                proof {
                    assert(commands_view(out@) =~= commands_view(prev).push(c@));
                    assert(ids.take(i + 1).filter(p).map_values(|s: Seq<char>| simple(verb, s)) =~= ids.take(
                        i as int,
                    ).filter(p).map_values(|s: Seq<char>| simple(verb, s)).push(simple(verb, ids[i as int])));
                }
            }
            i = i + 1;
        }
        assert(ids.take(ctx.service_ids.len() as int) =~= ids);
    } else {
        let c = make(verb, id.clone());
        out.push(c);
        assert(commands_view(out@) =~= seq![simple(verb, id@)]);
    }
    out
}

/// A key on the service list.
fn services_key(ui: &mut UiState, selected: &mut usize, ctx: &KeyContext, k: KeyPress) -> (r: KeyAction)
    requires
        ctx.service_ids.len() < usize::MAX,
    ensures
        (final(ui)@, *final(selected), r@) == services_step(old(ui)@, *old(selected), *ctx, k),
{
    let len = ctx.service_ids.len() + 1;
    let sel = *selected;
    let up = k.code == KeyCode::Up || k.code == KeyCode::Char('k');
    let down = k.code == KeyCode::Down || k.code == KeyCode::Char('j');
    if up {
        if sel > 0 {
            *selected = sel - 1;
            follow_newest(ui);
        }
        KeyAction::Nothing
    } else if down {
        if sel < len - 1 {
            *selected = sel + 1;
            follow_newest(ui);
        }
        KeyAction::Nothing
    } else if k.code == KeyCode::Enter {
        match selected_id_exec(ctx, sel) {
            Some(id) => {
                if !crate::command::str_eq(id.as_str(), "all") {
                    let mut v: Vec<TuiCommand> = Vec::new();
                    let c = make(TuiVerb::Toggle, id);
                    v.push(c);
                    assert(commands_view(v@) =~= seq![c@]);
                    KeyAction::Send(v)
                } else {
                    KeyAction::Nothing
                }
            },
            None => KeyAction::Nothing,
        }
    } else if k.code == KeyCode::Char('e') {
        ui.view = TuiView::Exec;
        KeyAction::Nothing
    } else {
        match k.code {
            KeyCode::Char(c) => {
                let verb = if c == 'r' {
                    Some(TuiVerb::Restart)
                } else if c == 's' {
                    Some(TuiVerb::Stop)
                } else if c == 't' {
                    Some(TuiVerb::Start)
                } else if c == 'x' {
                    Some(TuiVerb::Kill)
                } else if c == 'c' {
                    Some(TuiVerb::ClearLogs)
                } else {
                    None
                };
                assert(verb == service_verb(c));
                match (verb, selected_id_exec(ctx, sel)) {
                    (Some(verb), Some(id)) => KeyAction::Send(requests(ctx, &id, verb)),
                    _ => KeyAction::Nothing,
                }
            },
            _ => KeyAction::Nothing,
        }
    }
}

/// A key on the command list.
fn commands_key(ui: &mut UiState, ctx: &KeyContext, k: KeyPress) -> (r: KeyAction)
    ensures
        (final(ui)@, r@) == commands_step(old(ui)@, *ctx, k),
{
    let i = ui.selected_command;
    let n = ctx.command_count;
    if k.code == KeyCode::Up || k.code == KeyCode::Char('k') {
        if i > 0 {
            ui.selected_command = i - 1;
        }
        KeyAction::Nothing
    } else if k.code == KeyCode::Down || k.code == KeyCode::Char('j') {
        if n > 0 && i < n - 1 {
            ui.selected_command = i + 1;
        }
        KeyAction::Nothing
    } else if k.code == KeyCode::Enter && i < n {
        ui.left_mode = LeftMode::Runs;
        ui.selected_run = 0;
        KeyAction::RunCommand(i)
    } else {
        KeyAction::Nothing
    }
}

/// A key on the list of command runs.
fn runs_key(ui: &mut UiState, ctx: &KeyContext, k: KeyPress) -> (r: KeyAction)
    ensures
        (final(ui)@, r@) == runs_step(old(ui)@, *ctx, k),
{
    let i = ui.selected_run;
    let n = ctx.run_ids.len();
    if k.code == KeyCode::Up || k.code == KeyCode::Char('k') {
        if i > 0 {
            ui.selected_run = i - 1;
            follow_newest(ui);
        }
        KeyAction::Nothing
    } else if k.code == KeyCode::Down || k.code == KeyCode::Char('j') {
        if n > 0 && i < n - 1 {
            ui.selected_run = i + 1;
            follow_newest(ui);
        }
        KeyAction::Nothing
    } else if k.code == KeyCode::Enter {
        ui.view = TuiView::Logs;
        follow_newest(ui);
        KeyAction::Nothing
    } else if k.code == KeyCode::Char('x') && i < n {
        KeyAction::KillRun(ctx.run_ids[i].clone())
    } else if k.code == KeyCode::Char('r') && i < n {
        KeyAction::RerunRun(ctx.run_ids[i].clone())
    } else {
        KeyAction::Nothing
    }
}

/// Copies of the given log lines.
fn copy_lines(v: &Vec<DisplayLogLine>) -> (r: Vec<DisplayLogLine>)
    ensures
        r@ == v@,
{
    let mut out: Vec<DisplayLogLine> = Vec::new();
    let mut i: usize = 0;
    while i < v.len()
        invariant
            i <= v.len(),
            out@ == v@.take(i as int),
        decreases v.len() - i,
    {
        out.push(v[i].clone());
        i = i + 1;
        assert(out@ =~= v@.take(i as int));
    }
    assert(v@.take(v.len() as int) =~= v@);
    out
}

/// A key in the log view when it has the focus.
#[verifier::rlimit(50)]
fn log_view_key(ui: &mut UiState, sel: usize, ctx: &KeyContext, k: KeyPress)
    ensures
        final(ui)@ == log_view_step(old(ui)@, sel, *ctx, k),
{
    let c = k.code;
    if c == KeyCode::Char('s') {
        ui.logs.enter_search();
    } else if c == KeyCode::Char('f') {
        ui.logs.toggle_follow();
    } else if c == KeyCode::Up || c == KeyCode::Char('k') || c == KeyCode::PageUp {
        let n = if c == KeyCode::PageUp {
            LOG_PAGE
        } else {
            1
        };
        ui.logs.scroll_up(n);
    } else if c == KeyCode::Down || c == KeyCode::Char('j') || c == KeyCode::PageDown {
        let n = if c == KeyCode::PageDown {
            LOG_PAGE
        } else {
            1
        };
        ui.logs.scroll_down(n);
    } else if c == KeyCode::Home {
        ui.logs.scroll = sub_or_zero(ctx.service_lines.len(), LOG_PAGE);
        ui.logs.follow = false;
    } else if c == KeyCode::End || c == KeyCode::Char('g') || c == KeyCode::Char('G') {
        follow_newest(ui);
    } else if c == KeyCode::Char(' ') {
        if !ui.logs.paused && sel <= ctx.service_ids.len() {
            ui.logs.paused = true;
            ui.logs.frozen_logs = copy_lines(&ctx.service_lines);
        } else {
            ui.logs.paused = !ui.logs.paused;
        }
    } else if c == KeyCode::Char('e') {
        ui.logs.log_filter = LogFilterMode::ErrorOnly;
    } else if c == KeyCode::Char('w') {
        ui.logs.log_filter = LogFilterMode::WarnAndAbove;
    } else if c == KeyCode::Char('a') {
        ui.logs.log_filter = LogFilterMode::All;
    }
}

/// A key in the right pane when it has the focus.
fn right_pane_key(ui: &mut UiState, sel: usize, ctx: &KeyContext, k: KeyPress)
    ensures
        final(ui)@ == right_pane_step(old(ui)@, sel, *ctx, k),
{
    match ui.view {
        TuiView::Logs => log_view_key(ui, sel, ctx, k),
        TuiView::Metrics => {
            if k.code == KeyCode::Char('p') {
                ui.metrics_paused = !ui.metrics_paused;
            } else if k.code == KeyCode::Char('e') {
                ui.view = TuiView::Exec;
            }
        },
        _ => {
            if k.code == KeyCode::Char('e') {
                ui.view = TuiView::Exec;
            }
        },
    }
}

/// What a key press does, as `key_step` says; the UI state keeps its
/// invariant.
pub fn handle_key(ui: &mut UiState, selected: &mut usize, ctx: &KeyContext, key: KeyPress) -> (r: KeyAction)
    requires
        ui_wf(old(ui)@),
        ctx.service_ids.len() < usize::MAX,
    ensures
        (final(ui)@, *final(selected), r@) == key_step(old(ui)@, *old(selected), *ctx, key),
        ui_wf(final(ui)@),
{
    proof {
        law_key_keeps_invariant(ui@, *selected, *ctx, key);
    }
    if ui.help_open {
        help_key(ui, key);
        KeyAction::Nothing
    } else if ui.palette_open {
        palette_key(ui, ctx, key)
    } else if ui.logs.search.is_some() {
        search_key(ui, ctx, key);
        KeyAction::Nothing
    } else {
        match global_key(ui, key) {
            Some(a) => a,
            None => match ui.focus {
                Focus::Units => match ui.left_mode {
                    LeftMode::Services => services_key(ui, selected, ctx, key),
                    LeftMode::Commands => commands_key(ui, ctx, key),
                    LeftMode::Runs => runs_key(ui, ctx, key),
                },
                Focus::RightPane => {
                    right_pane_key(ui, *selected, ctx, key);
                    KeyAction::Nothing
                },
                _ => KeyAction::Nothing,
            },
        }
    }
}

/// The palette history stays bounded and free of repeats next to each
/// other when a command line is recorded.
pub proof fn law_record_keeps_history(h: Seq<Seq<char>>, label: Seq<char>)
    requires
        h.len() <= HISTORY_CAP,
        forall|j: int| 0 < j < h.len() ==> h[j - 1] != #[trigger] h[j],
    ensures
        recorded(h, label).len() <= HISTORY_CAP,
        forall|j: int| 0 < j < recorded(h, label).len() ==> recorded(h, label)[j - 1] != #[trigger] recorded(
            h,
            label,
        )[j],
        recorded(h, label).len() > 0 && recorded(h, label).last() == label,
{
    let r = recorded(h, label);
    if h.len() > 0 && h.last() == label {
    } else {
        let p = h.push(label);
        assert forall|j: int| 0 < j < p.len() implies p[j - 1] != #[trigger] p[j] by {
            if j < h.len() {
                assert(p[j - 1] == h[j - 1] && p[j] == h[j]);
            }
        }
        if h.len() + 1 > HISTORY_CAP {
            assert forall|j: int| 0 < j < r.len() implies r[j - 1] != #[trigger] r[j] by {
                assert(r[j - 1] == p[j] && r[j] == p[j + 1]);
            }
        }
    }
}

/// Every key press keeps the invariant of the UI state (`ui_wf`): the
/// palette history holds at most `HISTORY_CAP` entries with no entry
/// repeating the one before it, the history cursor stays within the
/// history and the current search match stays one of the matches.
pub proof fn law_key_keeps_invariant(m: UiModel, sel: usize, ctx: KeyContext, k: KeyPress)
    requires
        ui_wf(m),
    ensures
        ui_wf(key_step(m, sel, ctx, k).0),
{
    let l = m.logs;
    if l.matches.len() > 0 {
        let n = l.matches.len() as int;
        assert(0 <= (l.match_idx + 1) % n < n) by (nonlinear_arith)
            requires
                n > 0,
        ;
    }
    let texts = strings_view(ctx.log_texts@);
    if m.palette_open && !m.help_open && m.palette_pick < ctx.picker@.len() {
        law_record_keeps_history(m.history, ctx.picker@[m.palette_pick as int].label@);
    }
}

/// The selections brought back within what the UI shows before a frame is
/// drawn: the service line, the command or run of the list on the left, and
/// the palette item.
pub open spec fn frame_sync(m: UiModel, sel: usize, ctx: KeyContext) -> (UiModel, usize) {
    let n = ctx.service_ids@.len() + 1;
    let cc = ctx.command_count as int;
    let rc = ctx.run_ids@.len() as int;
    let pc = ctx.picker@.len() as int;
    (
        UiModel {
            selected_command: if m.left_mode == LeftMode::Commands && cc > 0 && m.selected_command >= cc {
                (cc - 1) as usize
            } else {
                m.selected_command
            },
            selected_run: if m.left_mode == LeftMode::Runs && rc > 0 && m.selected_run >= rc {
                (rc - 1) as usize
            } else {
                m.selected_run
            },
            palette_pick: if pc == 0 {
                0
            } else if m.palette_pick >= pc {
                (pc - 1) as usize
            } else {
                m.palette_pick
            },
            ..m
        },
        if sel >= n {
            (n - 1) as usize
        } else {
            sel
        },
    )
}

/// Brings the selections back within what the UI shows, as `frame_sync`
/// says; afterwards the selected service line exists and a non-empty palette
/// list has the selected item.
pub fn sync_selection(ui: &mut UiState, selected: &mut usize, ctx: &KeyContext)
    requires
        ctx.service_ids.len() < usize::MAX,
    ensures
        (final(ui)@, *final(selected)) == frame_sync(old(ui)@, *old(selected), *ctx),
        *final(selected) < ctx.service_ids.len() + 1,
        ctx.picker.len() > 0 ==> final(ui).palette_pick < ctx.picker.len(),
        ui_wf(old(ui)@) ==> ui_wf(final(ui)@),
{
    let n = ctx.service_ids.len() + 1;
    if *selected >= n {
        *selected = n - 1;
    }
    let cc = ctx.command_count;
    if ui.left_mode == LeftMode::Commands && cc > 0 && ui.selected_command >= cc {
        ui.selected_command = cc - 1;
    }
    let rc = ctx.run_ids.len();
    if ui.left_mode == LeftMode::Runs && rc > 0 && ui.selected_run >= rc {
        ui.selected_run = rc - 1;
    }
    let pc = ctx.picker.len();
    if pc == 0 {
        ui.palette_pick = 0;
    } else if ui.palette_pick >= pc {
        ui.palette_pick = pc - 1;
    }
}

/// The texts of a buffer of log lines.
pub open spec fn line_texts(q: Seq<LogLine>) -> Seq<Seq<char>> {
    q.map_values(|l: LogLine| l.text@)
}

/// The texts of the log lines the log view shows: the frozen lines while
/// paused; else those of the selected run in the run list; else the merged
/// lines when "all" is selected; else those of the selected service.
pub open spec fn shown_texts(
    logs: LogStore,
    runs: Seq<Seq<char>>,
    selected: Option<Seq<char>>,
    left_mode: LeftMode,
    selected_run: usize,
    paused: bool,
    frozen: Seq<DisplayLogLine>,
) -> Seq<Seq<char>> {
    if paused {
        frozen.map_values(|l: DisplayLogLine| l.text@)
    } else if left_mode == LeftMode::Runs {
        if selected_run < runs.len() {
            line_texts(buffer_at(logs.per_run@, runs[selected_run as int]))
        } else {
            seq![]
        }
    } else if selected == Some(all_id()) {
        line_texts(logs.merged@)
    } else {
        match selected {
            Some(id) => line_texts(buffer_at(logs.per_service@, id)),
            None => seq![],
        }
    }
}

fn texts_of(q: &VecDeque<LogLine>) -> (r: Vec<String>)
    ensures
        strings_view(r@) == line_texts(q@),
{
    let mut out: Vec<String> = Vec::new();
    let mut i: usize = 0;
    while i < q.len()
        invariant
            i <= q@.len(),
            strings_view(out@) == line_texts(q@.take(i as int)),
        decreases q@.len() - i,
    {
        let t = q[i].text.clone();
        let ghost before = out@;
        out.push(t);
        proof {
            assert(strings_view(out@) =~= strings_view(before).push(t@));
            assert(line_texts(q@.take(i + 1)) =~= line_texts(q@.take(i as int)).push(q@[i as int].text@));
        }
        i = i + 1;
    }
    assert(q@.take(q@.len() as int) =~= q@);
    out
}

fn buffer_texts(m: &StrMap<VecDeque<LogLine>>, key: &str) -> (r: Vec<String>)
    ensures
        strings_view(r@) == line_texts(buffer_at(m@, key@)),
{
    match m.get(key) {
        Some(q) => texts_of(q),
        None => {
            let v: Vec<String> = Vec::new();
            assert(strings_view(v@) =~= seq![]);
            v
        },
    }
}

/// The texts the log view shows, as `shown_texts` says.
pub fn shown_log_texts(
    logs: &LogStore,
    run_ids: &Vec<String>,
    selected: Option<&str>,
    left_mode: LeftMode,
    selected_run: usize,
    paused: bool,
    frozen: &Vec<DisplayLogLine>,
) -> (r: Vec<String>)
    ensures
        strings_view(r@) == shown_texts(
            *logs,
            strings_view(run_ids@),
            match selected {
                Some(s) => Some(s@),
                None => None,
            },
            left_mode,
            selected_run,
            paused,
            frozen@,
        ),
{
    if paused {
        let mut out: Vec<String> = Vec::new();
        let mut i: usize = 0;
        while i < frozen.len()
            invariant
                i <= frozen.len(),
                strings_view(out@) == frozen@.take(i as int).map_values(|l: DisplayLogLine| l.text@),
            decreases frozen.len() - i,
        {
            let t = frozen[i].text.clone();
            let ghost before = out@;
            out.push(t);
            proof {
                assert(strings_view(out@) =~= strings_view(before).push(t@));
                assert(frozen@.take(i + 1).map_values(|l: DisplayLogLine| l.text@) =~= frozen@.take(i as int).map_values(
                    |l: DisplayLogLine| l.text@,
                ).push(frozen@[i as int].text@));
            }
            i = i + 1;
        }
        assert(frozen@.take(frozen.len() as int) =~= frozen@);
        return out;
    }
    if left_mode == LeftMode::Runs {
        if selected_run < run_ids.len() {
            return buffer_texts(&logs.per_run, run_ids[selected_run].as_str());
        }
        let v: Vec<String> = Vec::new();
        assert(strings_view(v@) =~= seq![]);
        return v;
    }
    match selected {
        Some(id) => {
            if crate::command::str_eq(id, "all") {
                texts_of(&logs.merged)
            } else {
                buffer_texts(&logs.per_service, id)
            }
        },
        None => {
            let v: Vec<String> = Vec::new();
            assert(strings_view(v@) =~= seq![]);
            v
        },
    }
}

/// While the help overlay is open, a key changes nothing but whether the
/// overlay stays open, and asks for nothing.
pub proof fn law_help_takes_every_key(m: UiModel, sel: usize, ctx: KeyContext, k: KeyPress)
    requires
        m.help_open,
    ensures
        key_step(m, sel, ctx, k).0 == (UiModel { help_open: key_step(m, sel, ctx, k).0.help_open, ..m }),
        key_step(m, sel, ctx, k).1 == sel,
        key_step(m, sel, ctx, k).2 == KeyActionView::Nothing,
{
}

/// Esc in the palette closes it, empties its input and gives the focus
/// back to the unit list.
pub proof fn law_palette_escape_closes(m: UiModel, sel: usize, ctx: KeyContext)
    requires
        !m.help_open,
        m.palette_open,
    ensures
        ({
            let r = key_step(m, sel, ctx, KeyPress { code: KeyCode::Esc, ctrl: false }).0;
            !r.palette_open && r.palette_input.len() == 0 && r.focus == Focus::Units && r.history_cursor is None
        }),
{
}

/// Esc outside the help, the palette and a search goes back to following
/// the newest log lines, with no search.
pub proof fn law_escape_follows(m: UiModel, sel: usize, ctx: KeyContext)
    requires
        !m.help_open,
        !m.palette_open,
        m.logs.search is None,
    ensures
        ({
            let r = key_step(m, sel, ctx, KeyPress { code: KeyCode::Esc, ctrl: false }).0;
            r.logs.follow && r.logs.scroll == 0 && r.logs.search is None && r.logs.matches.len() == 0
        }),
{
}

/// Outside the inspect view, Tab moves the focus from the unit list to the
/// right pane and a second Tab brings it back.
pub proof fn law_tab_twice_returns(m: UiModel, sel: usize, ctx: KeyContext, ctrl: bool)
    requires
        !m.help_open,
        !m.palette_open,
        m.logs.search is None,
        m.focus == Focus::Units,
        m.view != TuiView::Inspect,
    ensures
        ({
            let tab = KeyPress { code: KeyCode::Tab, ctrl };
            let once = key_step(m, sel, ctx, tab).0;
            &&& once.focus == Focus::RightPane
            &&& key_step(once, sel, ctx, tab).0.focus == Focus::Units
        }),
{
}

/// The selected line of the service list stays within the list: a key
/// never moves it past "all" and the services.
pub proof fn law_selection_in_list(m: UiModel, sel: usize, ctx: KeyContext, k: KeyPress)
    requires
        sel < ctx.service_ids@.len() + 1,
    ensures
        key_step(m, sel, ctx, k).1 < ctx.service_ids@.len() + 1,
{
}

/// A search finds exactly the lines that contain the query in any case, in
/// order of position.
pub proof fn law_search_hits_match(texts: Seq<Seq<char>>, q: Seq<char>, i: int)
    requires
        q.len() > 0,
        0 <= i < texts.len(),
        texts.len() <= usize::MAX,
    ensures
        match_lines(texts, q).contains(i as usize) <==> line_matches(texts[i], q),
    decreases texts.len(),
{
    let prev = texts.drop_last();
    if i < texts.len() - 1 {
        law_search_hits_match(prev, q, i);
        lemma_match_lines_below(prev, q);
        assert(prev[i] == texts[i]);
        if line_matches(texts.last(), q) {
            let r = match_lines(prev, q).push((texts.len() - 1) as usize);
            if match_lines(prev, q).contains(i as usize) {
                let w = choose|w: int| 0 <= w < match_lines(prev, q).len() && match_lines(prev, q)[w] == i as usize;
                assert(r[w] == i as usize);
            }
            if r.contains(i as usize) {
                let w = choose|w: int| 0 <= w < r.len() && r[w] == i as usize;
                if w < match_lines(prev, q).len() {
                    assert(match_lines(prev, q)[w] == i as usize);
                } else {
                    assert(r[w] == (texts.len() - 1) as usize);
                }
            }
        }
    } else {
        lemma_match_lines_below(prev, q);
        if line_matches(texts.last(), q) {
            let r = match_lines(prev, q).push((texts.len() - 1) as usize);
            assert(r[r.len() - 1] == i as usize);
        } else {
            if match_lines(prev, q).contains(i as usize) {
                let w = choose|w: int| 0 <= w < match_lines(prev, q).len() && match_lines(prev, q)[w] == i as usize;
                assert(match_lines(prev, q)[w] < prev.len());
            }
        }
    }
}

/// Every hit of `match_lines` is a position of `texts`.
pub proof fn lemma_match_lines_below(texts: Seq<Seq<char>>, q: Seq<char>)
    requires
        texts.len() <= usize::MAX,
    ensures
        forall|w: int| 0 <= w < match_lines(texts, q).len() ==> (#[trigger] match_lines(texts, q)[w]) < texts.len(),
    decreases texts.len(),
{
    if texts.len() > 0 {
        let prev = texts.drop_last();
        lemma_match_lines_below(prev, q);
        let r = match_lines(texts, q);
        assert forall|w: int| 0 <= w < r.len() implies (#[trigger] r[w]) < texts.len() by {
            if w < match_lines(prev, q).len() {
                assert(r[w] == match_lines(prev, q)[w]);
            }
        }
    }
}

} // verus!
