//! Navigation and log-view state of the terminal UI.
use vstd::prelude::*;

use std::time::SystemTime;

use crate::log_filter::{opt_view, LogFilterMode};

verus! {

/// The views of the right pane.
#[derive(Clone, Copy, Debug, PartialEq, Eq, Structural, Hash)]
pub enum TuiView {
    Logs,
    Inspect,
    Exec,
    Deps,
    Metrics,
}

impl Default for TuiView {
    fn default() -> (r: Self)
        ensures
            r == TuiView::Logs,
    {
        TuiView::Logs
    }
}

pub open spec fn view_key(v: TuiView) -> char {
    match v {
        TuiView::Logs => 'l',
        TuiView::Inspect => 'i',
        TuiView::Exec => 'e',
        TuiView::Deps => 'd',
        TuiView::Metrics => 'm',
    }
}

impl TuiView {
    pub fn label(&self) -> (r: &'static str)
        ensures
            r@ == match self {
                TuiView::Logs => "Logs"@,
                TuiView::Inspect => "Inspect"@,
                TuiView::Exec => "Exec"@,
                TuiView::Deps => "Deps"@,
                TuiView::Metrics => "Metrics"@,
            },
    {
        match self {
            TuiView::Logs => "Logs",
            TuiView::Inspect => "Inspect",
            TuiView::Exec => "Exec",
            TuiView::Deps => "Deps",
            TuiView::Metrics => "Metrics",
        }
    }

    /// The key that switches to the view.
    pub fn key(&self) -> (r: char)
        ensures
            r == view_key(*self),
    {
        match self {
            TuiView::Logs => 'l',
            TuiView::Inspect => 'i',
            TuiView::Exec => 'e',
            TuiView::Deps => 'd',
            TuiView::Metrics => 'm',
        }
    }
}

#[derive(Clone, Copy, Debug, PartialEq, Eq, Structural)]
pub enum InspectSection {
    Summary,
    Metrics,
    Health,
}

impl Default for InspectSection {
    fn default() -> (r: Self)
        ensures
            r == InspectSection::Summary,
    {
        InspectSection::Summary
    }
}

pub open spec fn section_next(s: InspectSection) -> InspectSection {
    match s {
        InspectSection::Summary => InspectSection::Metrics,
        InspectSection::Metrics => InspectSection::Health,
        InspectSection::Health => InspectSection::Summary,
    }
}

pub open spec fn section_prev(s: InspectSection) -> InspectSection {
    match s {
        InspectSection::Summary => InspectSection::Health,
        InspectSection::Metrics => InspectSection::Summary,
        InspectSection::Health => InspectSection::Metrics,
    }
}

impl InspectSection {
    pub fn next(&self) -> (r: Self)
        ensures
            r == section_next(*self),
    {
        match self {
            InspectSection::Summary => InspectSection::Metrics,
            InspectSection::Metrics => InspectSection::Health,
            InspectSection::Health => InspectSection::Summary,
        }
    }

    pub fn prev(&self) -> (r: Self)
        ensures
            r == section_prev(*self),
    {
        match self {
            InspectSection::Summary => InspectSection::Health,
            InspectSection::Metrics => InspectSection::Summary,
            InspectSection::Health => InspectSection::Metrics,
        }
    }
}

/// Moving to the previous section undoes moving to the next one, and the
/// other way round; three steps in one direction come back to the start.
pub proof fn law_section_cycle(s: InspectSection)
    ensures
        section_prev(section_next(s)) == s,
        section_next(section_prev(s)) == s,
        section_next(section_next(section_next(s))) == s,
{
}

#[derive(Clone, Copy, Debug, PartialEq, Eq, Structural)]
pub enum Focus {
    Units,
    RightPane,
    InspectPanel(InspectSection),
    Palette,
}

impl Default for Focus {
    fn default() -> (r: Self)
        ensures
            r == Focus::Units,
    {
        Focus::Units
    }
}

pub open spec fn focus_toggle(f: Focus) -> Focus {
    match f {
        Focus::Units => Focus::RightPane,
        Focus::RightPane => Focus::Units,
        Focus::InspectPanel(_) => Focus::Units,
        Focus::Palette => Focus::Palette,
    }
}

impl Focus {
    /// Switches between the unit list and the right pane; the inspect panel
    /// goes back to the unit list and the palette keeps the focus.
    pub fn toggle(&self) -> (r: Self)
        ensures
            r == focus_toggle(*self),
    {
        match self {
            Focus::Units => Focus::RightPane,
            Focus::RightPane => Focus::Units,
            Focus::InspectPanel(_) => Focus::Units,
            Focus::Palette => Focus::Palette,
        }
    }

    pub fn is_right(&self) -> (r: bool)
        ensures
            r == (*self is RightPane || *self is InspectPanel),
    {
        match self {
            Focus::RightPane | Focus::InspectPanel(_) => true,
            _ => false,
        }
    }
}

/// Toggling the focus twice returns to the unit list from the unit list,
/// the right pane or the inspect panel, and the palette keeps the focus.
pub proof fn law_focus_toggle(f: Focus)
    ensures
        f is Units || f is RightPane ==> focus_toggle(focus_toggle(f)) == f,
        f is InspectPanel ==> focus_toggle(f) == Focus::Units,
        f is Palette ==> focus_toggle(f) == f,
{
}

#[derive(Clone, Copy, Debug, PartialEq, Eq, Structural)]
pub enum LeftMode {
    Services,
    Commands,
    Runs,
}

impl Default for LeftMode {
    fn default() -> (r: Self)
        ensures
            r == LeftMode::Services,
    {
        LeftMode::Services
    }
}

impl LeftMode {
    pub fn label(&self) -> (r: &'static str)
        ensures
            r@ == match self {
                LeftMode::Services => "Units"@,
                LeftMode::Commands => "Commands"@,
                LeftMode::Runs => "Runs"@,
            },
    {
        match self {
            LeftMode::Services => "Units",
            LeftMode::Commands => "Commands",
            LeftMode::Runs => "Runs",
        }
    }

    pub fn key(&self) -> (r: char)
        ensures
            r == match self {
                LeftMode::Services => '1',
                LeftMode::Commands => '2',
                LeftMode::Runs => '3',
            },
    {
        match self {
            LeftMode::Services => '1',
            LeftMode::Commands => '2',
            LeftMode::Runs => '3',
        }
    }
}

/// A log line as the log view shows it.
#[derive(Debug)]
pub struct DisplayLogLine {
    pub timestamp: Option<SystemTime>,
    pub text: String,
}

impl Clone for DisplayLogLine {
    fn clone(&self) -> (r: Self)
        ensures
            r == *self,
    {
        let timestamp = match &self.timestamp {
            Some(t) => Some(t.clone()),
            None => None,
        };
        DisplayLogLine { timestamp, text: self.text.clone() }
    }
}

/// What the log view state holds, with texts as character sequences.
pub struct LogsModel {
    pub follow: bool,
    pub paused: bool,
    pub scroll: usize,
    pub search: Option<Seq<char>>,
    pub matches: Seq<usize>,
    pub match_idx: usize,
    pub frozen_logs: Seq<DisplayLogLine>,
    pub log_filter: LogFilterMode,
}

impl View for LogsUiState {
    type V = LogsModel;

    open spec fn view(&self) -> LogsModel {
        LogsModel {
            follow: self.follow,
            paused: self.paused,
            scroll: self.scroll,
            search: opt_view(self.search),
            matches: self.matches@,
            match_idx: self.match_idx,
            frozen_logs: self.frozen_logs@,
            log_filter: self.log_filter,
        }
    }
}

/// Scrolling, following and searching in the log view.  `scroll` counts
/// lines up from the newest one; `matches` are the lines that match the
/// search and `match_idx` the current one among them.
#[derive(Clone, Debug)]
pub struct LogsUiState {
    pub follow: bool,
    pub paused: bool,
    pub scroll: usize,
    pub search: Option<String>,
    pub matches: Vec<usize>,
    pub match_idx: usize,
    pub frozen_logs: Vec<DisplayLogLine>,
    pub log_filter: LogFilterMode,
}

impl Default for LogsUiState {
    fn default() -> (r: Self)
        ensures
            !r.follow,
            !r.paused,
            r.scroll == 0,
            r.search.is_none(),
            r.matches@.len() == 0,
            r.match_idx == 0,
            r.frozen_logs@.len() == 0,
            r.log_filter == LogFilterMode::All,
    {
        LogsUiState {
            follow: false,
            paused: false,
            scroll: 0,
            search: None,
            matches: Vec::new(),
            match_idx: 0,
            frozen_logs: Vec::new(),
            log_filter: LogFilterMode::All,
        }
    }
}

impl LogsUiState {
    /// The initial state: following the newest lines.
    pub fn new() -> (r: Self)
        ensures
            r.follow,
            !r.paused,
            r.scroll == 0,
            r.search.is_none(),
            r.matches@.len() == 0,
            r.match_idx == 0,
            r.frozen_logs@.len() == 0,
            r.log_filter == LogFilterMode::All,
    {
        LogsUiState {
            follow: true,
            paused: false,
            scroll: 0,
            search: None,
            matches: Vec::new(),
            match_idx: 0,
            frozen_logs: Vec::new(),
            log_filter: LogFilterMode::All,
        }
    }

    pub fn is_searching(&self) -> (r: bool)
        ensures
            r == self.search.is_some(),
    {
        self.search.is_some()
    }

    /// Starts a search with an empty query.
    pub fn enter_search(&mut self)
        ensures
            final(self)@ == (LogsModel { search: Some(seq![]), matches: seq![], match_idx: 0, ..old(self)@ }),
    {
        self.search = Some(String::new());
        self.matches.clear();
        self.match_idx = 0;
    }

    pub fn exit_search(&mut self)
        ensures
            final(self)@ == (LogsModel { search: None, matches: seq![], match_idx: 0, ..old(self)@ }),
    {
        self.search = None;
        self.matches.clear();
        self.match_idx = 0;
    }

    /// Turns following on or off; turning it on jumps to the newest line.
    pub fn toggle_follow(&mut self)
        ensures
            final(self)@ == (LogsModel {
                follow: !old(self).follow,
                scroll: if !old(self).follow {
                    0
                } else {
                    old(self).scroll
                },
                ..old(self)@
            }),
    {
        self.follow = !self.follow;
        if self.follow {
            self.scroll = 0;
        }
    }

    /// Scrolls towards older lines, which stops following.
    pub fn scroll_up(&mut self, lines: usize)
        ensures
            final(self)@ == (LogsModel {
                follow: false,
                scroll: (if old(self).scroll + lines > usize::MAX {
                    usize::MAX as int
                } else {
                    old(self).scroll + lines
                }) as usize,
                ..old(self)@
            }),
    {
        self.follow = false;
        self.scroll = self.scroll.saturating_add(lines);
    }

    /// Scrolls towards newer lines; reaching the newest resumes following.
    pub fn scroll_down(&mut self, lines: usize)
        ensures
            final(self).scroll == (if old(self).scroll >= lines {
                old(self).scroll - lines
            } else {
                0
            }),
            final(self)@ == (LogsModel {
                scroll: final(self).scroll,
                follow: final(self).scroll == 0 || old(self).follow,
                ..old(self)@
            }),
    {
        self.scroll = self.scroll.saturating_sub(lines);
        if self.scroll == 0 {
            self.follow = true;
        }
    }

    /// The next match, wrapping around to the first.
    pub fn next_match(&mut self)
        requires
            old(self).matches@.len() > 0 ==> old(self).match_idx < usize::MAX,
        ensures
            old(self).matches@.len() == 0 ==> final(self).match_idx == old(self).match_idx,
            old(self).matches@.len() > 0 ==> final(self).match_idx == (old(self).match_idx + 1)
                % (old(self).matches@.len() as int),
            final(self)@ == (LogsModel { match_idx: final(self).match_idx, ..old(self)@ }),
    {
        if self.matches.len() > 0 {
            self.match_idx = (self.match_idx + 1) % self.matches.len();
        }
    }

    /// The previous match, wrapping around to the last.
    pub fn prev_match(&mut self)
        ensures
            old(self).matches@.len() == 0 ==> final(self).match_idx == old(self).match_idx,
            old(self).matches@.len() > 0 ==> final(self).match_idx == (if old(self).match_idx
                == 0 {
                old(self).matches@.len() - 1
            } else {
                old(self).match_idx - 1
            }),
            final(self)@ == (LogsModel { match_idx: final(self).match_idx, ..old(self)@ }),
    {
        if self.matches.len() > 0 {
            self.match_idx = if self.match_idx == 0 {
                self.matches.len() - 1
            } else {
                self.match_idx - 1
            };
        }
    }
}

/// Stepping to the previous match undoes stepping to the next one whenever
/// the current match is a valid position.
pub proof fn law_match_steps_undo(idx: int, n: int)
    requires
        0 <= idx < n,
    ensures
        ({
            let next = (idx + 1) % n;
            (if next == 0 {
                n - 1
            } else {
                next - 1
            }) == idx
        }),
{
    if idx + 1 < n {
        assert((idx + 1) % n == idx + 1) by (nonlinear_arith)
            requires
                0 <= idx + 1 < n,
        ;
    } else {
        assert((idx + 1) % n == 0) by (nonlinear_arith)
            requires
                idx + 1 == n,
                n > 0,
        ;
    }
}

/// Everything the terminal UI keeps between frames.
#[derive(Clone, Debug)]
pub struct UiState {
    pub focus: Focus,
    pub view: TuiView,
    pub left_mode: LeftMode,
    pub selected_command: usize,
    pub selected_run: usize,
    pub logs: LogsUiState,
    pub inspect_scroll: usize,
    pub deps_scroll: usize,
    pub palette_open: bool,
    pub palette_input: String,
    pub palette_error: Option<String>,
    pub palette_pick: usize,
    pub palette_scroll: usize,
    pub palette_sugg_offset: usize,
    pub help_open: bool,
    pub metrics_paused: bool,
    pub history: Vec<String>,
    pub history_cursor: Option<usize>,
}

/// What the terminal UI state holds, with texts as character sequences.
pub struct UiModel {
    pub focus: Focus,
    pub view: TuiView,
    pub left_mode: LeftMode,
    pub selected_command: usize,
    pub selected_run: usize,
    pub logs: LogsModel,
    pub inspect_scroll: usize,
    pub deps_scroll: usize,
    pub palette_open: bool,
    pub palette_input: Seq<char>,
    pub palette_error: Option<Seq<char>>,
    pub palette_pick: usize,
    pub palette_scroll: usize,
    pub palette_sugg_offset: usize,
    pub help_open: bool,
    pub metrics_paused: bool,
    pub history: Seq<Seq<char>>,
    pub history_cursor: Option<usize>,
}

impl View for UiState {
    type V = UiModel;

    open spec fn view(&self) -> UiModel {
        UiModel {
            focus: self.focus,
            view: self.view,
            left_mode: self.left_mode,
            selected_command: self.selected_command,
            selected_run: self.selected_run,
            logs: self.logs@,
            inspect_scroll: self.inspect_scroll,
            deps_scroll: self.deps_scroll,
            palette_open: self.palette_open,
            palette_input: self.palette_input@,
            palette_error: opt_view(self.palette_error),
            palette_pick: self.palette_pick,
            palette_scroll: self.palette_scroll,
            palette_sugg_offset: self.palette_sugg_offset,
            help_open: self.help_open,
            metrics_paused: self.metrics_paused,
            history: self.history@.map_values(|h: String| h@),
            history_cursor: self.history_cursor,
        }
    }
}

impl Default for UiState {
    fn default() -> (r: Self)
        ensures
            r.focus == Focus::Units,
            r.view == TuiView::Logs,
            r.left_mode == LeftMode::Services,
            r.selected_command == 0,
            r.selected_run == 0,
            r.logs.follow,
            r.logs.scroll == 0,
            r.logs.search.is_none(),
            r.inspect_scroll == 0,
            r.deps_scroll == 0,
            !r.palette_open,
            r.palette_input@.len() == 0,
            r.palette_error.is_none(),
            r.palette_pick == 0,
            r.palette_scroll == 0,
            r.palette_sugg_offset == 0,
            !r.help_open,
            !r.metrics_paused,
            r.history@.len() == 0,
            r.history_cursor.is_none(),
    {
        UiState {
            focus: Focus::Units,
            view: TuiView::Logs,
            left_mode: LeftMode::Services,
            selected_command: 0,
            selected_run: 0,
            logs: LogsUiState::new(),
            inspect_scroll: 0,
            deps_scroll: 0,
            palette_open: false,
            palette_input: String::new(),
            palette_error: None,
            palette_pick: 0,
            palette_scroll: 0,
            palette_sugg_offset: 0,
            help_open: false,
            metrics_paused: false,
            history: Vec::new(),
            history_cursor: None,
        }
    }
}

impl UiState {
    pub fn scroll_offset(&self) -> (r: usize)
        ensures
            r == self.logs.scroll,
    {
        self.logs.scroll
    }

    pub fn is_following(&self) -> (r: bool)
        ensures
            r == self.logs.follow,
    {
        self.logs.follow
    }

    /// Follows the newest lines again.
    pub fn enter_follow(&mut self)
        ensures
            final(self)@ == (UiModel { logs: LogsModel { follow: true, scroll: 0, ..old(self)@.logs }, ..old(self)@ }),
    {
        self.logs.follow = true;
        self.logs.scroll = 0;
    }

    pub fn search_query(&self) -> (r: Option<&str>)
        ensures
            match self.logs.search {
                Some(q) => r is Some && r->0@ == q@,
                None => r is None,
            },
    {
        match &self.logs.search {
            Some(q) => Some(q.as_str()),
            None => None,
        }
    }
}

} // verus!
