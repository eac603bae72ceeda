//! What the terminal UI's panels show, as plain values: the footer's key
//! hints, the help screen, the search bar's title, the status bar's counts
//! and uptime, and the placement of the help and palette boxes.
use vstd::prelude::*;
use vstd::utf8::encode_utf8;

use crate::log_filter::{mode_label, LogFilterMode};
use crate::model::{edge_view, EdgeSet, EdgeView, ServiceNode, ServiceStatus};
use crate::palette::{PickerCategory, PickerItem};
use crate::strmap::StrMap;
use crate::text::{chars_of, concat3, decimal, owned, string_of, string_views, push_str, u64_to_string, zero_pad};
use crate::ui_state::{Focus, InspectSection, TuiView, UiState};

verus! {

/// How a piece of panel text is drawn.
#[derive(Clone, Copy, Debug, PartialEq, Eq, Structural)]
pub enum Tone {
    KeyHint,
    Text,
    TextDim,
    TextMuted,
    Accent,
    Warn,
    SectionHeader,
}

/// A piece of text with its tone.
#[derive(Debug)]
pub struct Hint {
    pub text: String,
    pub tone: Tone,
}

/// The texts and tones of a list of hints.
pub open spec fn hint_seq(v: Seq<Hint>) -> Seq<(Seq<char>, Tone)> {
    v.map_values(|h: Hint| (h.text@, h.tone))
}

fn push_hint(v: &mut Vec<Hint>, text: String, tone: Tone)
    ensures
        hint_seq(final(v)@) == hint_seq(old(v)@).push((text@, tone)),
{
    let ghost before = v@;
    v.push(Hint { text, tone });
    proof {
        assert(hint_seq(v@) =~= hint_seq(before).push((text@, tone)));
    }
}

fn push_lit(v: &mut Vec<Hint>, text: &str, tone: Tone)
    ensures
        hint_seq(final(v)@) == hint_seq(old(v)@).push((text@, tone)),
{
    push_hint(v, owned(text), tone);
}

/// Accent for the active tab, dim text for the others.
pub open spec fn tab_tone(on: bool) -> Tone {
    if on {
        Tone::Accent
    } else {
        Tone::TextDim
    }
}

/// The footer's view tabs, the active one highlighted, and a separator.
pub open spec fn view_tab_list(active: TuiView) -> Seq<(Seq<char>, Tone)> {
    seq![
        ("l"@, Tone::KeyHint),
        (" Logs  "@, tab_tone(active == TuiView::Logs)),
        ("i"@, Tone::KeyHint),
        (" Inspect  "@, tab_tone(active == TuiView::Inspect)),
        ("d"@, Tone::KeyHint),
        (" Deps  "@, tab_tone(active == TuiView::Deps)),
        ("m"@, Tone::KeyHint),
        (" Metrics"@, tab_tone(active == TuiView::Metrics)),
        ("  |  "@, Tone::TextMuted),
    ]
}

pub fn view_tab_hints(active: TuiView) -> (r: Vec<Hint>)
    ensures
        hint_seq(r@) == view_tab_list(active),
{
    let mut v: Vec<Hint> = Vec::new();
    push_lit(&mut v, "l", Tone::KeyHint);
    push_lit(&mut v, " Logs  ", if active == TuiView::Logs { Tone::Accent } else { Tone::TextDim });
    push_lit(&mut v, "i", Tone::KeyHint);
    push_lit(&mut v, " Inspect  ", if active == TuiView::Inspect { Tone::Accent } else { Tone::TextDim });
    push_lit(&mut v, "d", Tone::KeyHint);
    push_lit(&mut v, " Deps  ", if active == TuiView::Deps { Tone::Accent } else { Tone::TextDim });
    push_lit(&mut v, "m", Tone::KeyHint);
    push_lit(&mut v, " Metrics", if active == TuiView::Metrics { Tone::Accent } else { Tone::TextDim });
    push_lit(&mut v, "  |  ", Tone::TextMuted);
    v
}

pub open spec fn section_title(s: InspectSection) -> Seq<char> {
    match s {
        InspectSection::Summary => "Summary"@,
        InspectSection::Metrics => "Metrics"@,
        InspectSection::Health => "Health"@,
    }
}

/// The hints for what the focused panel lets the user do.
pub open spec fn context_hint_list(
    focus: Focus,
    view: TuiView,
    searching: bool,
    paused: bool,
    filter: LogFilterMode,
    metrics_paused: bool,
) -> Seq<(Seq<char>, Tone)> {
    match focus {
        Focus::Palette => seq![
            ("↑↓"@, Tone::KeyHint),
            (" select  "@, Tone::TextDim),
            ("Enter"@, Tone::KeyHint),
            (" run  "@, Tone::TextDim),
            ("Esc"@, Tone::KeyHint),
            (" close"@, Tone::TextDim),
        ],
        Focus::Units => seq![
            ("↑↓"@, Tone::KeyHint),
            (" select  "@, Tone::TextDim),
            ("r"@, Tone::KeyHint),
            (" restart  "@, Tone::TextDim),
            ("s"@, Tone::KeyHint),
            (" stop  "@, Tone::TextDim),
            ("t"@, Tone::KeyHint),
            (" start"@, Tone::TextDim),
        ],
        Focus::InspectPanel(section) => seq![
            ("Tab"@, Tone::KeyHint),
            (" section  "@, Tone::TextDim),
            ("["@ + section_title(section) + "]"@, Tone::Accent),
        ],
        Focus::RightPane => if view == TuiView::Logs {
            if searching {
                seq![
                    ("n/N"@, Tone::KeyHint),
                    (" match  "@, Tone::TextDim),
                    ("Esc"@, Tone::KeyHint),
                    (" clear"@, Tone::TextDim),
                ]
            } else if paused {
                seq![
                    ("Space"@, Tone::KeyHint),
                    (" resume  "@, Tone::TextDim),
                    ("↑↓"@, Tone::KeyHint),
                    (" scroll"@, Tone::TextDim),
                ]
            } else {
                seq![
                    ("Space"@, Tone::KeyHint),
                    (" pause  "@, Tone::TextDim),
                    ("f"@, Tone::KeyHint),
                    (" follow  "@, Tone::TextDim),
                    ("s"@, Tone::KeyHint),
                    (" search  "@, Tone::TextDim),
                    ("e/w/a"@, Tone::KeyHint),
                    (" filter  "@, Tone::TextDim),
                    (
                        "["@ + mode_label(filter) + "]"@,
                        if filter == LogFilterMode::All { Tone::TextDim } else { Tone::Warn },
                    ),
                ]
            }
        } else if view == TuiView::Metrics {
            if metrics_paused {
                seq![("p"@, Tone::KeyHint), (" resume  "@, Tone::TextDim), ("[PAUSED]"@, Tone::Warn)]
            } else {
                seq![("p"@, Tone::KeyHint), (" pause"@, Tone::TextDim)]
            }
        } else {
            seq![("↑↓"@, Tone::KeyHint), (" scroll"@, Tone::TextDim)]
        },
    }
}

/// The hints of the focused panel.
pub fn context_hints(ui: &UiState) -> (r: Vec<Hint>)
    ensures
        hint_seq(r@) == context_hint_list(
            ui.focus,
            ui.view,
            ui.logs.search is Some,
            ui.logs.paused,
            ui.logs.log_filter,
            ui.metrics_paused,
        ),
{
    let mut v: Vec<Hint> = Vec::new();
    match ui.focus {
        Focus::Palette => {
            push_lit(&mut v, "↑↓", Tone::KeyHint);
            push_lit(&mut v, " select  ", Tone::TextDim);
            push_lit(&mut v, "Enter", Tone::KeyHint);
            push_lit(&mut v, " run  ", Tone::TextDim);
            push_lit(&mut v, "Esc", Tone::KeyHint);
            push_lit(&mut v, " close", Tone::TextDim);
        },
        Focus::Units => {
            push_lit(&mut v, "↑↓", Tone::KeyHint);
            push_lit(&mut v, " select  ", Tone::TextDim);
            push_lit(&mut v, "r", Tone::KeyHint);
            push_lit(&mut v, " restart  ", Tone::TextDim);
            push_lit(&mut v, "s", Tone::KeyHint);
            push_lit(&mut v, " stop  ", Tone::TextDim);
            push_lit(&mut v, "t", Tone::KeyHint);
            push_lit(&mut v, " start", Tone::TextDim);
        },
        Focus::InspectPanel(section) => {
            let name = match section {
                InspectSection::Summary => "Summary",
                InspectSection::Metrics => "Metrics",
                InspectSection::Health => "Health",
            };
            push_lit(&mut v, "Tab", Tone::KeyHint);
            push_lit(&mut v, " section  ", Tone::TextDim);
            push_hint(&mut v, concat3("[", name, "]"), Tone::Accent);
        },
        Focus::RightPane => {
            if ui.view == TuiView::Logs {
                if ui.logs.is_searching() {
                    push_lit(&mut v, "n/N", Tone::KeyHint);
                    push_lit(&mut v, " match  ", Tone::TextDim);
                    push_lit(&mut v, "Esc", Tone::KeyHint);
                    push_lit(&mut v, " clear", Tone::TextDim);
                } else if ui.logs.paused {
                    push_lit(&mut v, "Space", Tone::KeyHint);
                    push_lit(&mut v, " resume  ", Tone::TextDim);
                    push_lit(&mut v, "↑↓", Tone::KeyHint);
                    push_lit(&mut v, " scroll", Tone::TextDim);
                } else {
                    let label = ui.logs.log_filter.label();
                    let tone = if ui.logs.log_filter == LogFilterMode::All {
                        Tone::TextDim
                    } else {
                        Tone::Warn
                    };
                    push_lit(&mut v, "Space", Tone::KeyHint);
                    push_lit(&mut v, " pause  ", Tone::TextDim);
                    push_lit(&mut v, "f", Tone::KeyHint);
                    push_lit(&mut v, " follow  ", Tone::TextDim);
                    push_lit(&mut v, "s", Tone::KeyHint);
                    push_lit(&mut v, " search  ", Tone::TextDim);
                    push_lit(&mut v, "e/w/a", Tone::KeyHint);
                    push_lit(&mut v, " filter  ", Tone::TextDim);
                    push_hint(&mut v, concat3("[", label, "]"), tone);
                }
            } else if ui.view == TuiView::Metrics {
                if ui.metrics_paused {
                    push_lit(&mut v, "p", Tone::KeyHint);
                    push_lit(&mut v, " resume  ", Tone::TextDim);
                    push_lit(&mut v, "[PAUSED]", Tone::Warn);
                } else {
                    push_lit(&mut v, "p", Tone::KeyHint);
                    push_lit(&mut v, " pause", Tone::TextDim);
                }
            } else {
                push_lit(&mut v, "↑↓", Tone::KeyHint);
                push_lit(&mut v, " scroll", Tone::TextDim);
            }
        },
    }
    v
}

/// The hints that hold everywhere.
pub open spec fn global_hint_list() -> Seq<(Seq<char>, Tone)> {
    seq![
        ("  Tab"@, Tone::KeyHint),
        (" focus  "@, Tone::TextDim),
        ("/"@, Tone::KeyHint),
        (" cmd  "@, Tone::TextDim),
        ("?"@, Tone::KeyHint),
        (" help  "@, Tone::TextDim),
        ("q"@, Tone::KeyHint),
        (" quit"@, Tone::TextDim),
    ]
}

pub fn global_hints() -> (r: Vec<Hint>)
    ensures
        hint_seq(r@) == global_hint_list(),
{
    let mut v: Vec<Hint> = Vec::new();
    push_lit(&mut v, "  Tab", Tone::KeyHint);
    push_lit(&mut v, " focus  ", Tone::TextDim);
    push_lit(&mut v, "/", Tone::KeyHint);
    push_lit(&mut v, " cmd  ", Tone::TextDim);
    push_lit(&mut v, "?", Tone::KeyHint);
    push_lit(&mut v, " help  ", Tone::TextDim);
    push_lit(&mut v, "q", Tone::KeyHint);
    push_lit(&mut v, " quit", Tone::TextDim);
    v
}

/// The whole footer line: view tabs, then the focused panel's hints, then
/// the global ones.
pub fn footer_hints(ui: &UiState) -> (r: Vec<Hint>)
    ensures
        hint_seq(r@) == view_tab_list(ui.view) + context_hint_list(
            ui.focus,
            ui.view,
            ui.logs.search is Some,
            ui.logs.paused,
            ui.logs.log_filter,
            ui.metrics_paused,
        ) + global_hint_list(),
{
    let mut v = view_tab_hints(ui.view);
    let mut c = context_hints(ui);
    let mut g = global_hints();
    let ghost (a, b, d) = (v@, c@, g@);
    v.append(&mut c);
    v.append(&mut g);
    proof {
        assert(v@ == a + b + d);
        assert(hint_seq(a + b + d) =~= hint_seq(a) + hint_seq(b) + hint_seq(d));
    }
    v
}


/// The lines of a panel, each a list of hints.
pub open spec fn line_seq(v: Seq<Vec<Hint>>) -> Seq<Seq<(Seq<char>, Tone)>> {
    v.map_values(|l: Vec<Hint>| hint_seq(l@))
}

fn push_line(lines: &mut Vec<Vec<Hint>>, line: Vec<Hint>)
    ensures
        line_seq(final(lines)@) == line_seq(old(lines)@).push(hint_seq(line@)),
{
    let ghost before = lines@;
    let ghost l = line@;
    lines.push(line);
    proof {
        assert(line_seq(lines@) =~= line_seq(before).push(hint_seq(l)));
    }
}

fn header_line(lines: &mut Vec<Vec<Hint>>, title: &str)
    ensures
        line_seq(final(lines)@) == line_seq(old(lines)@).push(seq![(title@, Tone::SectionHeader)]),
{
    let mut l: Vec<Hint> = Vec::new();
    assert(hint_seq(l@) =~= Seq::<(Seq<char>, Tone)>::empty());
    push_lit(&mut l, title, Tone::SectionHeader);
    push_line(lines, l);
}

fn key_line(lines: &mut Vec<Vec<Hint>>, key: &str, desc: &str)
    ensures
        line_seq(final(lines)@) == line_seq(old(lines)@).push(seq![(key@, Tone::KeyHint), (desc@, Tone::Text)]),
{
    let mut l: Vec<Hint> = Vec::new();
    assert(hint_seq(l@) =~= Seq::<(Seq<char>, Tone)>::empty());
    push_lit(&mut l, key, Tone::KeyHint);
    push_lit(&mut l, desc, Tone::Text);
    assert(hint_seq(l@) =~= seq![(key@, Tone::KeyHint), (desc@, Tone::Text)]);
    push_line(lines, l);
}

fn blank_line(lines: &mut Vec<Vec<Hint>>)
    ensures
        line_seq(final(lines)@) == line_seq(old(lines)@).push(Seq::<(Seq<char>, Tone)>::empty()),
{
    let l: Vec<Hint> = Vec::new();
    proof {
        assert(hint_seq(l@) =~= Seq::<(Seq<char>, Tone)>::empty());
    }
    push_line(lines, l);
}

pub open spec fn header(t: Seq<char>) -> Seq<(Seq<char>, Tone)> {
    seq![(t, Tone::SectionHeader)]
}

pub open spec fn key_desc(k: Seq<char>, d: Seq<char>) -> Seq<(Seq<char>, Tone)> {
    seq![(k, Tone::KeyHint), (d, Tone::Text)]
}

/// The help screen: the keys of each group of actions.
pub open spec fn help_text() -> Seq<Seq<(Seq<char>, Tone)>> {
    seq![
        header("VIEWS"@),
        key_desc("  l "@, "Logs view"@),
        key_desc("  i "@, "Inspect view"@),
        key_desc("  e "@, "Exec (commands) view"@),
        key_desc("  d "@, "Dependencies view"@),
        key_desc("  m "@, "Metrics view"@),
        Seq::empty(),
        header("FOCUS & NAVIGATION"@),
        key_desc("  Tab "@, "Switch focus (Services ↔ Right)"@),
        key_desc("  j/k ↑↓ "@, "Move selection / scroll"@),
        Seq::empty(),
        header("SERVICE ACTIONS"@),
        key_desc("  Enter "@, "Toggle service (start/stop)"@),
        key_desc("  r     "@, "Restart service"@),
        key_desc("  s     "@, "Stop service"@),
        key_desc("  t     "@, "Start service"@),
        key_desc("  x     "@, "Kill service"@),
        key_desc("  c     "@, "Clear logs"@),
        Seq::empty(),
        header("COMMANDS & SEARCH"@),
        key_desc("  /     "@, "Open command picker"@),
        key_desc("  s     "@, "Search logs (in Logs view)"@),
        key_desc("  ?     "@, "Toggle this help"@),
        key_desc("  q     "@, "Quit Orkesy"@),
    ]
}

/// The lines of the help screen.
pub fn help_lines() -> (r: Vec<Vec<Hint>>)
    ensures
        line_seq(r@) == help_text(),
{
    let mut v: Vec<Vec<Hint>> = Vec::new();
    header_line(&mut v, "VIEWS");
    key_line(&mut v, "  l ", "Logs view");
    key_line(&mut v, "  i ", "Inspect view");
    key_line(&mut v, "  e ", "Exec (commands) view");
    key_line(&mut v, "  d ", "Dependencies view");
    key_line(&mut v, "  m ", "Metrics view");
    blank_line(&mut v);
    header_line(&mut v, "FOCUS & NAVIGATION");
    key_line(&mut v, "  Tab ", "Switch focus (Services ↔ Right)");
    key_line(&mut v, "  j/k ↑↓ ", "Move selection / scroll");
    blank_line(&mut v);
    header_line(&mut v, "SERVICE ACTIONS");
    key_line(&mut v, "  Enter ", "Toggle service (start/stop)");
    key_line(&mut v, "  r     ", "Restart service");
    key_line(&mut v, "  s     ", "Stop service");
    key_line(&mut v, "  t     ", "Start service");
    key_line(&mut v, "  x     ", "Kill service");
    key_line(&mut v, "  c     ", "Clear logs");
    blank_line(&mut v);
    header_line(&mut v, "COMMANDS & SEARCH");
    key_line(&mut v, "  /     ", "Open command picker");
    key_line(&mut v, "  s     ", "Search logs (in Logs view)");
    key_line(&mut v, "  ?     ", "Toggle this help");
    key_line(&mut v, "  q     ", "Quit Orkesy");
    v
}

/// A rectangle of terminal cells.
#[derive(Clone, Copy, Debug, PartialEq, Eq, Structural)]
pub struct Rect {
    pub x: u16,
    pub y: u16,
    pub width: u16,
    pub height: u16,
}

/// `a - b`, or 0 when `b` is larger.
pub open spec fn sat_sub(a: int, b: int) -> int {
    if a >= b {
        a - b
    } else {
        0
    }
}

pub open spec fn min_int(a: int, b: int) -> int {
    if a <= b {
        a
    } else {
        b
    }
}

pub open spec fn max_int(a: int, b: int) -> int {
    if a >= b {
        a
    } else {
        b
    }
}

/// The help box: at most 50 by 24 cells, four cells smaller than the area
/// when that is less, centred.
pub open spec fn help_box(area: Rect) -> Rect {
    let w = min_int(50, sat_sub(area.width as int, 4));
    let h = min_int(24, sat_sub(area.height as int, 4));
    Rect {
        x: (sat_sub(area.width as int, w) / 2) as u16,
        y: (sat_sub(area.height as int, h) / 2) as u16,
        width: w as u16,
        height: h as u16,
    }
}

pub fn help_rect(area: Rect) -> (r: Rect)
    ensures
        r == help_box(area),
{
    let w = if area.width.saturating_sub(4) < 50 { area.width.saturating_sub(4) } else { 50 };
    let h = if area.height.saturating_sub(4) < 24 { area.height.saturating_sub(4) } else { 24 };
    Rect { x: area.width.saturating_sub(w) / 2, y: area.height.saturating_sub(h) / 2, width: w, height: h }
}

/// The search bar's title: the match position, or a note that nothing
/// matched a non-empty query.
pub open spec fn search_title_text(query: Seq<char>, match_idx: nat, total: nat) -> Seq<char> {
    let info = if total == 0 {
        if query.len() == 0 {
            Seq::empty()
        } else {
            " (no matches)"@
        }
    } else {
        " ("@ + decimal(match_idx + 1) + "/"@ + decimal(total) + ")"@
    };
    " Search"@ + info + " "@
}

pub fn search_title(query: &str, match_idx: usize, total: usize) -> (r: String)
    requires
        match_idx < usize::MAX,
    ensures
        r@ == search_title_text(query@, match_idx as nat, total as nat),
{
    let mut s = owned(" Search");
    if total == 0 {
        if chars_of(query).len() != 0 {
            push_str(&mut s, " (no matches)");
        }
    } else {
        push_str(&mut s, " (");
        push_str(&mut s, u64_to_string((match_idx + 1) as u64).as_str());
        push_str(&mut s, "/");
        push_str(&mut s, u64_to_string(total as u64).as_str());
        push_str(&mut s, ")");
    }
    push_str(&mut s, " ");
    s
}

/// How long the UI has been up: hours, minutes and seconds, each at least
/// two digits.
pub open spec fn uptime_text(secs: nat) -> Seq<char> {
    zero_pad(secs / 3600, 2) + ":"@ + zero_pad((secs / 60) % 60, 2) + ":"@ + zero_pad(secs % 60, 2)
}

pub fn uptime(secs: u64) -> (r: String)
    ensures
        r@ == uptime_text(secs as nat),
{
    let mut s = crate::log_history::zero_padded(secs / 3600, 2);
    push_str(&mut s, ":");
    push_str(&mut s, crate::log_history::zero_padded((secs / 60) % 60, 2).as_str());
    push_str(&mut s, ":");
    push_str(&mut s, crate::log_history::zero_padded(secs % 60, 2).as_str());
    s
}

/// How many of the nodes are running.
pub open spec fn running_in(nodes: Seq<ServiceNode>) -> nat
    decreases nodes.len(),
{
    if nodes.len() == 0 {
        0
    } else {
        running_in(nodes.drop_last()) + if nodes.last().observed.status is Running { 1nat } else { 0nat }
    }
}

/// The status bar's count: `running/total running`.
pub open spec fn running_text(nodes: Seq<ServiceNode>) -> Seq<char> {
    decimal(running_in(nodes)) + "/"@ + decimal(nodes.len()) + " running"@
}

pub fn running_summary(nodes: &StrMap<ServiceNode>) -> (r: String)
    ensures
        r@ == running_text(nodes.vals()),
{
    let n = nodes.len();
    let mut count: usize = 0;
    let mut i: usize = 0;
    while i < n
        invariant
            n == nodes.vals().len(),
            i <= n,
            count == running_in(nodes.vals().take(i as int)),
            count <= i,
        decreases n - i,
    {
        proof {
            assert(nodes.vals().take(i + 1).drop_last() =~= nodes.vals().take(i as int));
        }
        match nodes.value_at(i).observed.status {
            ServiceStatus::Running => {
                count = count + 1;
            },
            _ => {},
        }
        i = i + 1;
    }
    proof {
        assert(nodes.vals().take(n as int) =~= nodes.vals());
    }
    let mut s = u64_to_string(count as u64);
    push_str(&mut s, "/");
    push_str(&mut s, u64_to_string(n as u64).as_str());
    push_str(&mut s, " running");
    s
}


pub open spec fn clamp_int(v: int, lo: int, hi: int) -> int {
    if v < lo {
        lo
    } else if v > hi {
        hi
    } else {
        v
    }
}

/// The palette box for `n` items: 60% of the area's width kept between 30
/// and 60 cells, as high as the items plus four but four cells lower than
/// the area and at least six, centred.
pub open spec fn modal_box(area: Rect, n: nat) -> Rect {
    let w = clamp_int(area.width * 60 / 100, 30, 60);
    let h = max_int(min_int((n as u16) as int + 4, sat_sub(area.height as int, 4)), 6);
    Rect {
        x: (sat_sub(area.width as int, w) / 2) as u16,
        y: (sat_sub(area.height as int, h) / 2) as u16,
        width: w as u16,
        height: h as u16,
    }
}

/// The cells inside a box's border.
pub open spec fn inner_box(r: Rect) -> Rect {
    Rect {
        x: (r.x + 1) as u16,
        y: (r.y + 1) as u16,
        width: sat_sub(r.width as int, 2) as u16,
        height: sat_sub(r.height as int, 2) as u16,
    }
}

/// The input line: the first row inside the box.
pub open spec fn input_box(inner: Rect) -> Rect {
    Rect { x: inner.x, y: inner.y, width: inner.width, height: 1 }
}

/// The list: the rows below the input line.
pub open spec fn list_box(inner: Rect) -> Rect {
    Rect { x: inner.x, y: (inner.y + 1) as u16, width: inner.width, height: (inner.height - 1) as u16 }
}

/// How many list rows the palette box for `n` items has.
pub open spec fn visible_rows(area: Rect, n: nat) -> int {
    list_box(inner_box(modal_box(area, n))).height as int
}

/// The typed text as shown: cut to `max` characters when it takes more than
/// `max` bytes.
pub open spec fn shown_input(input: Seq<char>, max: int) -> Seq<char> {
    if (encode_utf8(input).len() as usize) > max {
        input.take(min_int(max, input.len() as int))
    } else {
        input
    }
}

/// The first listed item after scrolling so that the picked one is visible.
pub open spec fn scrolled_offset(pick: int, offset: int, visible: int) -> int {
    if pick < offset {
        pick
    } else if visible > 0 && pick >= offset + visible {
        pick - (visible - 1)
    } else {
        offset
    }
}

/// Cells a row takes before an item's detail: marker, icon, label and gaps.
pub open spec fn row_lead(label: Seq<char>, selected: bool) -> int {
    (if selected { 4int } else { 2int }) + 3 + ((encode_utf8(label).len() as usize) as u16) as int + 6
}

/// The detail shown after an item: as many characters as there are cells
/// left in the box, when more than ten are.
pub open spec fn shown_detail(it: PickerItem, selected: bool, box_width: int) -> Option<Seq<char>> {
    match it.detail {
        None => None,
        Some(d) => {
            let room = sat_sub(box_width, row_lead(it.label@, selected));
            if room > 10 {
                Some(d@.take(min_int(room, d@.len() as int)))
            } else {
                None
            }
        },
    }
}

/// A row of the palette list.
#[derive(Debug)]
pub enum PaletteRow {
    /// An empty row between two categories.
    Gap,
    /// The item at `index`, whether it is picked, and the part of its detail
    /// that fits.
    Item { index: usize, selected: bool, detail: Option<String> },
    /// The note shown when no item is listed.
    NoMatch,
}

/// A palette row as plain values.
pub enum RowView {
    Gap,
    Item { index: int, selected: bool, detail: Option<Seq<char>> },
    NoMatch,
}

pub open spec fn row_view(r: PaletteRow) -> RowView {
    match r {
        PaletteRow::Gap => RowView::Gap,
        PaletteRow::Item { index, selected, detail } => RowView::Item {
            index: index as int,
            selected,
            detail: match detail {
                Some(d) => Some(d@),
                None => None,
            },
        },
        PaletteRow::NoMatch => RowView::NoMatch,
    }
}

pub open spec fn rows_view(v: Seq<PaletteRow>) -> Seq<RowView> {
    v.map_values(|r: PaletteRow| row_view(r))
}

/// The first `k` listed items as rows, with the category of the last one.
/// With no typed text, a gap separates categories while the list has room.
pub open spec fn list_rows(
    items: Seq<PickerItem>,
    grouped: bool,
    pick: int,
    offset: int,
    visible: int,
    box_width: int,
    k: nat,
) -> (Seq<RowView>, Option<PickerCategory>)
    decreases k,
{
    if k == 0 {
        (Seq::empty(), None)
    } else {
        let (rows, last) = list_rows(items, grouped, pick, offset, visible, box_width, (k - 1) as nat);
        let idx = offset + k - 1;
        let it = items[idx];
        let (rows2, last2) = if grouped && last != Some(it.category) {
            (if last is Some && rows.len() < visible { rows.push(RowView::Gap) } else { rows }, Some(it.category))
        } else {
            (rows, last)
        };
        (
            rows2.push(RowView::Item { index: idx, selected: idx == pick, detail: shown_detail(it, idx == pick, box_width) }),
            last2,
        )
    }
}

/// How many items the list shows from `offset` on.
pub open spec fn listed_count(n: int, offset: int, visible: int) -> int {
    if offset < n {
        min_int(visible, n - offset)
    } else {
        0
    }
}

/// The whole list: the listed rows, or the no-match note when there are none.
pub open spec fn palette_rows(
    items: Seq<PickerItem>,
    input: Seq<char>,
    pick: int,
    offset: int,
    visible: int,
    box_width: int,
) -> Seq<RowView> {
    let rows = list_rows(
        items,
        input.len() == 0,
        pick,
        offset,
        visible,
        box_width,
        listed_count(items.len() as int, offset, visible) as nat,
    ).0;
    if rows.len() == 0 {
        seq![RowView::NoMatch]
    } else {
        rows
    }
}

/// What the palette box shows and where.
#[derive(Debug)]
pub struct PaletteLayout {
    pub modal: Rect,
    pub input_area: Rect,
    pub items_area: Rect,
    /// The typed text as shown after the prompt.
    pub input_display: String,
    /// The first listed item, scrolled so that the picked one is visible.
    pub offset: usize,
    pub rows: Vec<PaletteRow>,
}

/// The sizes stay within 16 bits where the layout adds them up.
pub open spec fn layout_fits(area: Rect, pick: int, offset: int, items: Seq<PickerItem>) -> bool {
    let n = items.len();
    let visible = visible_rows(area, n);
    let off = scrolled_offset(pick, offset, visible);
    let w = modal_box(area, n).width as int;
    &&& area.width * 60 <= u16::MAX
    &&& (n as u16) as int + 4 <= u16::MAX
    &&& (pick < offset || visible == 0 || offset + visible <= usize::MAX)
    &&& forall|i: int|
        off <= i < off + listed_count(n as int, off, visible) && (#[trigger] items[i]).detail is Some
            ==> row_lead(items[i].label@, i == pick) <= u16::MAX
}

fn detail_for(it: &PickerItem, selected: bool, box_width: u16) -> (r: Option<String>)
    requires
        it.detail is Some ==> row_lead(it.label@, selected) <= u16::MAX,
    ensures
        match r {
            Some(d) => shown_detail(*it, selected, box_width as int) == Some(d@),
            None => shown_detail(*it, selected, box_width as int) is None,
        },
{
    match &it.detail {
        None => None,
        Some(d) => {
            let marker: u16 = if selected { 4 } else { 2 };
            let lb: usize = it.label.as_str().len();
            let lead: u16 = marker + 3 + (#[verifier::truncate] (lb as u16)) + 6;
            let room = box_width.saturating_sub(lead);
            if room > 10 {
                let cs = chars_of(d.as_str());
                let k: usize = if (room as usize) < cs.len() { room as usize } else { cs.len() };
                let t = string_of(&cs.as_slice()[0..k]);
                proof {
                    assert(cs@.subrange(0, k as int) =~= d@.take(k as int));
                }
                Some(t)
            } else {
                None
            }
        },
    }
}

/// The palette box, its input line and its list for `n` items.
fn palette_boxes(area: Rect, n: usize) -> (r: (Rect, Rect, Rect))
    requires
        area.width * 60 <= u16::MAX,
        (n as u16) as int + 4 <= u16::MAX,
    ensures
        r.0 == modal_box(area, n as nat),
        r.1 == input_box(inner_box(r.0)),
        r.2 == list_box(inner_box(r.0)),
{
    let w0: u16 = area.width * 60 / 100;
    let modal_width: u16 = if w0 < 30 { 30 } else if w0 > 60 { 60 } else { w0 };
    let want: u16 = (#[verifier::truncate] (n as u16)) + 4;
    let room: u16 = area.height.saturating_sub(4);
    let h0: u16 = if want < room { want } else { room };
    let modal_height: u16 = if h0 > 6 { h0 } else { 6 };
    let modal = Rect {
        x: area.width.saturating_sub(modal_width) / 2,
        y: area.height.saturating_sub(modal_height) / 2,
        width: modal_width,
        height: modal_height,
    };
    let inner = Rect {
        x: modal.x + 1,
        y: modal.y + 1,
        width: modal.width.saturating_sub(2),
        height: modal.height.saturating_sub(2),
    };
    let input_area = Rect { x: inner.x, y: inner.y, width: inner.width, height: 1 };
    let items_area = Rect { x: inner.x, y: inner.y + 1, width: inner.width, height: inner.height - 1 };
    (modal, input_area, items_area)
}

/// The typed text as `shown_input` says.
fn input_shown(input: &str, max: usize) -> (r: String)
    ensures
        r@ == shown_input(input@, max as int),
{
    if input.len() > max {
        let cs = chars_of(input);
        let k: usize = if max < cs.len() { max } else { cs.len() };
        let t = string_of(&cs.as_slice()[0..k]);
        proof {
            assert(cs@.subrange(0, k as int) =~= input@.take(k as int));
        }
        t
    } else {
        owned(input)
    }
}

/// The rows of the list, as `palette_rows` says.
fn list_rows_exec(
    items: &[PickerItem],
    grouped: bool,
    pick: usize,
    off: usize,
    visible: usize,
    box_width: u16,
) -> (r: Vec<PaletteRow>)
    requires
        forall|i: int|
            off <= i < off + listed_count(items@.len() as int, off as int, visible as int)
                && (#[trigger] items@[i]).detail is Some ==> row_lead(items@[i].label@, i == pick) <= u16::MAX,
    ensures
        rows_view(r@) == list_rows(
            items@,
            grouped,
            pick as int,
            off as int,
            visible as int,
            box_width as int,
            listed_count(items@.len() as int, off as int, visible as int) as nat,
        ).0,
{
    let n = items.len();
    let count: usize = if off < n {
        if visible < n - off { visible } else { n - off }
    } else {
        0
    };
    let mut rows: Vec<PaletteRow> = Vec::new();
    let mut last: Option<PickerCategory> = None;
    let mut i: usize = 0;
    while i < count
        invariant
            count == listed_count(n as int, off as int, visible as int),
            n == items@.len(),
            i <= count,
            count == 0 || off + count <= n,
            forall|j: int|
                off <= j < off + count && (#[trigger] items@[j]).detail is Some ==> row_lead(items@[j].label@, j == pick)
                    <= u16::MAX,
            (rows_view(rows@), last) == list_rows(
                items@,
                grouped,
                pick as int,
                off as int,
                visible as int,
                box_width as int,
                i as nat,
            ),
        decreases count - i,
    {
        let idx = off + i;
        let item = &items[idx];
        let ghost before = rows@;
        if grouped {
            let new_group = match last {
                Some(c) => c != item.category,
                None => true,
            };
            if new_group {
                if last.is_some() && rows.len() < visible {
                    rows.push(PaletteRow::Gap);
                    proof {
                        assert(rows_view(rows@) =~= rows_view(before).push(RowView::Gap));
                    }
                }
                last = Some(item.category);
            }
        }
        let ghost mid = rows@;
        let selected = idx == pick;
        let detail = detail_for(item, selected, box_width);
        rows.push(PaletteRow::Item { index: idx, selected, detail });
        proof {
            assert(rows_view(rows@) =~= rows_view(mid).push(row_view(rows@.last())));
        }
        i = i + 1;
    }
    rows
}

/// Lays out the command palette: the box, the shown input, the scroll
/// offset that keeps the picked item visible, and the list rows.
pub fn palette_layout(area: Rect, input: &str, pick: usize, offset: usize, items: &[PickerItem]) -> (r: PaletteLayout)
    requires
        layout_fits(area, pick as int, offset as int, items@),
    ensures
        r.modal == modal_box(area, items@.len()),
        r.input_area == input_box(inner_box(r.modal)),
        r.items_area == list_box(inner_box(r.modal)),
        r.input_display@ == shown_input(input@, sat_sub(r.input_area.width as int, 3)),
        r.offset == scrolled_offset(pick as int, offset as int, r.items_area.height as int),
        rows_view(r.rows@) == palette_rows(
            items@,
            input@,
            pick as int,
            r.offset as int,
            r.items_area.height as int,
            r.modal.width as int,
        ),
{
    let n = items.len();
    let (modal, input_area, items_area) = palette_boxes(area, n);
    let input_display = input_shown(input, input_area.width.saturating_sub(3) as usize);
    let visible: usize = items_area.height as usize;
    let off: usize = if pick < offset {
        pick
    } else if visible > 0 && pick >= offset + visible {
        pick - (visible - 1)
    } else {
        offset
    };
    let grouped = chars_of(input).len() == 0;
    let mut rows = list_rows_exec(items, grouped, pick, off, visible, modal.width);
    if rows.len() == 0 {
        rows.push(PaletteRow::NoMatch);
        proof {
            assert(rows_view(rows@) =~= seq![RowView::NoMatch]);
        }
    }
    PaletteLayout { modal, input_area, items_area, input_display, offset: off, rows }
}

/// After scrolling, the picked item lies within the rows the list shows.
pub proof fn law_picked_row_visible(pick: int, offset: int, visible: int)
    requires
        visible > 0,
    ensures
        scrolled_offset(pick, offset, visible) <= pick < scrolled_offset(pick, offset, visible) + visible,
{
}


/// How many of the nodes are stopped.
pub open spec fn stopped_in(nodes: Seq<ServiceNode>) -> nat
    decreases nodes.len(),
{
    if nodes.len() == 0 {
        0
    } else {
        stopped_in(nodes.drop_last()) + if nodes.last().observed.status is Stopped { 1nat } else { 0nat }
    }
}

/// How many of the nodes have errored.
pub open spec fn errored_in(nodes: Seq<ServiceNode>) -> nat
    decreases nodes.len(),
{
    if nodes.len() == 0 {
        0
    } else {
        errored_in(nodes.drop_last()) + if nodes.last().observed.status is Errored { 1nat } else { 0nat }
    }
}

/// The overview of all services: how many there are, run, are stopped and
/// have errored.
#[derive(Clone, Copy, Debug, PartialEq, Eq, Structural)]
pub struct StatusCounts {
    pub total: usize,
    pub running: usize,
    pub stopped: usize,
    pub errored: usize,
}

pub fn status_counts(nodes: &StrMap<ServiceNode>) -> (r: StatusCounts)
    ensures
        r.total == nodes.vals().len(),
        r.running == running_in(nodes.vals()),
        r.stopped == stopped_in(nodes.vals()),
        r.errored == errored_in(nodes.vals()),
{
    let n = nodes.len();
    let mut c = StatusCounts { total: n, running: 0, stopped: 0, errored: 0 };
    let mut i: usize = 0;
    while i < n
        invariant
            n == nodes.vals().len(),
            c.total == n,
            i <= n,
            c.running == running_in(nodes.vals().take(i as int)),
            c.stopped == stopped_in(nodes.vals().take(i as int)),
            c.errored == errored_in(nodes.vals().take(i as int)),
            c.running + c.stopped + c.errored <= i,
        decreases n - i,
    {
        proof {
            assert(nodes.vals().take(i + 1).drop_last() =~= nodes.vals().take(i as int));
        }
        match nodes.value_at(i).observed.status {
            ServiceStatus::Running => {
                c.running = c.running + 1;
            },
            ServiceStatus::Stopped => {
                c.stopped = c.stopped + 1;
            },
            ServiceStatus::Errored { .. } => {
                c.errored = c.errored + 1;
            },
            _ => {},
        }
        i = i + 1;
    }
    proof {
        assert(nodes.vals().take(n as int) =~= nodes.vals());
    }
    c
}

/// The targets of the edges leaving `id`, in edge order.
pub open spec fn upstream(es: Seq<EdgeView>, id: Seq<char>) -> Seq<Seq<char>>
    decreases es.len(),
{
    if es.len() == 0 {
        seq![]
    } else {
        let rest = upstream(es.drop_last(), id);
        if es.last().0 == id { rest.push(es.last().1) } else { rest }
    }
}

/// The sources of the edges entering `id`, in edge order.
pub open spec fn downstream(es: Seq<EdgeView>, id: Seq<char>) -> Seq<Seq<char>>
    decreases es.len(),
{
    if es.len() == 0 {
        seq![]
    } else {
        let rest = downstream(es.drop_last(), id);
        if es.last().1 == id { rest.push(es.last().0) } else { rest }
    }
}

/// What `id` depends on.
pub fn depends_on(edges: &EdgeSet, id: &str) -> (r: Vec<String>)
    ensures
        string_views(r@) == upstream(edges.seq(), id@),
{
    let n = edges.len();
    let mut out: Vec<String> = Vec::new();
    let mut i: usize = 0;
    while i < n
        invariant
            n == edges.seq().len(),
            i <= n,
            string_views(out@) == upstream(edges.seq().take(i as int), id@),
        decreases n - i,
    {
        let e = edges.get(i);
        proof {
            assert(edges.seq().take(i + 1).drop_last() =~= edges.seq().take(i as int));
        }
        if crate::command::str_eq(e.from.as_str(), id) {
            let ghost before = out@;
            let t = e.to.clone();
            out.push(t);
            proof {
                assert(string_views(out@) =~= string_views(before).push(e.to@));
            }
        }
        i = i + 1;
    }
    proof {
        assert(edges.seq().take(n as int) =~= edges.seq());
    }
    out
}

/// What depends on `id`.
pub fn used_by(edges: &EdgeSet, id: &str) -> (r: Vec<String>)
    ensures
        string_views(r@) == downstream(edges.seq(), id@),
{
    let n = edges.len();
    let mut out: Vec<String> = Vec::new();
    let mut i: usize = 0;
    while i < n
        invariant
            n == edges.seq().len(),
            i <= n,
            string_views(out@) == downstream(edges.seq().take(i as int), id@),
        decreases n - i,
    {
        let e = edges.get(i);
        proof {
            assert(edges.seq().take(i + 1).drop_last() =~= edges.seq().take(i as int));
        }
        if crate::command::str_eq(e.to.as_str(), id) {
            let ghost before = out@;
            let t = e.from.clone();
            out.push(t);
            proof {
                assert(string_views(out@) =~= string_views(before).push(e.from@));
            }
        }
        i = i + 1;
    }
    proof {
        assert(edges.seq().take(n as int) =~= edges.seq());
    }
    out
}

/// `x` is among what `id` depends on exactly when an edge leads from `id` to
/// `x`; and among what depends on `id` exactly when an edge leads from `x`
/// to `id`.
pub proof fn law_deps_are_edges(es: Seq<EdgeView>, id: Seq<char>, x: Seq<char>)
    ensures
        upstream(es, id).contains(x) <==> exists|i: int| 0 <= i < es.len() && es[i].0 == id && es[i].1 == x,
        downstream(es, id).contains(x) <==> exists|i: int| 0 <= i < es.len() && es[i].1 == id && es[i].0 == x,
    decreases es.len(),
{
    if es.len() > 0 {
        let init = es.drop_last();
        law_deps_are_edges(init, id, x);
        let up = upstream(init, id);
        let down = downstream(init, id);
        if upstream(es, id).contains(x) {
            if up.contains(x) {
                let i = choose|i: int| 0 <= i < init.len() && init[i].0 == id && init[i].1 == x;
                assert(es[i] == init[i]);
            } else {
                let k = choose|k: int| 0 <= k < upstream(es, id).len() && upstream(es, id)[k] == x;
                assert(k == up.len());
                assert(es[es.len() - 1] == es.last());
            }
        }
        if exists|i: int| 0 <= i < es.len() && es[i].0 == id && es[i].1 == x {
            let i = choose|i: int| 0 <= i < es.len() && es[i].0 == id && es[i].1 == x;
            if i < es.len() - 1 {
                assert(init[i] == es[i]);
                let k = choose|k: int| 0 <= k < up.len() && up[k] == x;
                assert(upstream(es, id)[k] == x);
            } else {
                assert(upstream(es, id) == up.push(x));
                assert(upstream(es, id)[up.len() as int] == x);
            }
        }
        if downstream(es, id).contains(x) {
            if down.contains(x) {
                let i = choose|i: int| 0 <= i < init.len() && init[i].1 == id && init[i].0 == x;
                assert(es[i] == init[i]);
            } else {
                let k = choose|k: int| 0 <= k < downstream(es, id).len() && downstream(es, id)[k] == x;
                assert(k == down.len());
                assert(es[es.len() - 1] == es.last());
            }
        }
        if exists|i: int| 0 <= i < es.len() && es[i].1 == id && es[i].0 == x {
            let i = choose|i: int| 0 <= i < es.len() && es[i].1 == id && es[i].0 == x;
            if i < es.len() - 1 {
                assert(init[i] == es[i]);
                let k = choose|k: int| 0 <= k < down.len() && down[k] == x;
                assert(downstream(es, id)[k] == x);
            } else {
                assert(downstream(es, id) == down.push(x));
                assert(downstream(es, id)[down.len() as int] == x);
            }
        }
    }
}

} // verus!
