//! Log level detection and the filters the log view applies to lines.
use vstd::prelude::*;

use crate::text::{chars_of, contains_seq, owned, push_str, seq_contains, seq_starts_with, starts_with_seq, str_contains, to_lower, unicode_lower};

verus! {

/// Severity of a log line, ordered from least to most severe.
#[derive(Clone, Copy, Debug, PartialEq, Eq, Structural, PartialOrd, Ord)]
pub enum LogLevel {
    Debug,
    Info,
    Warn,
    Error,
}

impl LogLevel {
    /// The upper-case name of the level, as the log view prints it.
    pub fn name(&self) -> (r: &'static str)
        ensures
            r@ == match self {
                LogLevel::Debug => "DEBUG"@,
                LogLevel::Info => "INFO"@,
                LogLevel::Warn => "WARN"@,
                LogLevel::Error => "ERROR"@,
            },
    {
        match self {
            LogLevel::Debug => "DEBUG",
            LogLevel::Info => "INFO",
            LogLevel::Warn => "WARN",
            LogLevel::Error => "ERROR",
        }
    }
}

/// Which levels the log view shows.
#[derive(Clone, Copy, Debug, PartialEq, Eq, Structural)]
pub enum LogFilterMode {
    All,
    WarnAndAbove,
    ErrorOnly,
}

impl Default for LogFilterMode {
    fn default() -> (r: Self)
        ensures
            r == LogFilterMode::All,
    {
        LogFilterMode::All
    }
}

pub open spec fn mode_cycle(m: LogFilterMode) -> LogFilterMode {
    match m {
        LogFilterMode::All => LogFilterMode::WarnAndAbove,
        LogFilterMode::WarnAndAbove => LogFilterMode::ErrorOnly,
        LogFilterMode::ErrorOnly => LogFilterMode::All,
    }
}

pub open spec fn mode_matches(m: LogFilterMode, level: LogLevel) -> bool {
    match m {
        LogFilterMode::All => true,
        LogFilterMode::WarnAndAbove => level == LogLevel::Warn || level == LogLevel::Error,
        LogFilterMode::ErrorOnly => level == LogLevel::Error,
    }
}

pub open spec fn mode_label(m: LogFilterMode) -> Seq<char> {
    match m {
        LogFilterMode::All => "ALL"@,
        LogFilterMode::WarnAndAbove => "WARN+"@,
        LogFilterMode::ErrorOnly => "ERROR"@,
    }
}

impl LogFilterMode {
    /// The next mode: all, then warnings and above, then errors only.
    pub fn cycle(self) -> (r: Self)
        ensures
            r == mode_cycle(self),
    {
        match self {
            LogFilterMode::All => LogFilterMode::WarnAndAbove,
            LogFilterMode::WarnAndAbove => LogFilterMode::ErrorOnly,
            LogFilterMode::ErrorOnly => LogFilterMode::All,
        }
    }

    pub fn matches(&self, level: LogLevel) -> (r: bool)
        ensures
            r == mode_matches(*self, level),
    {
        match self {
            LogFilterMode::All => true,
            LogFilterMode::WarnAndAbove => match level {
                LogLevel::Warn | LogLevel::Error => true,
                _ => false,
            },
            LogFilterMode::ErrorOnly => match level {
                LogLevel::Error => true,
                _ => false,
            },
        }
    }

    pub fn label(&self) -> (r: &'static str)
        ensures
            r@ == mode_label(*self),
    {
        match self {
            LogFilterMode::All => "ALL",
            LogFilterMode::WarnAndAbove => "WARN+",
            LogFilterMode::ErrorOnly => "ERROR",
        }
    }
}

/// The level a line is classified at, read off its lowercased text.
pub open spec fn level_of(text: Seq<char>) -> LogLevel {
    let l = unicode_lower(text);
    if seq_contains(l, "error"@) || seq_contains(l, "[err]"@) || seq_contains(l, "[error]"@)
        || seq_contains(l, "fatal"@) || seq_contains(l, "panic"@) || seq_contains(
        l,
        "exception"@,
    ) || seq_starts_with(l, "e "@) {
        LogLevel::Error
    } else if seq_contains(l, "warn"@) || seq_contains(l, "[wrn]"@) || seq_contains(
        l,
        "[warning]"@,
    ) || seq_contains(l, "deprecat"@) || seq_starts_with(l, "w "@) {
        LogLevel::Warn
    } else if seq_contains(l, "debug"@) || seq_contains(l, "[dbg]"@) || seq_contains(
        l,
        "[debug]"@,
    ) || seq_contains(l, "trace"@) || seq_starts_with(l, "d "@) {
        LogLevel::Debug
    } else {
        LogLevel::Info
    }
}

/// Classifies a log line by the markers in its lowercased text: error
/// markers first, then warning, then debug; anything else is info.
pub fn detect_level(text: &str) -> (r: LogLevel)
    ensures
        r == level_of(text@),
{
    let lower = to_lower(text);
    let l = chars_of(lower.as_str());
    let error_markers = contains_seq(l.as_slice(), chars_of("error").as_slice())
        || contains_seq(l.as_slice(), chars_of("[err]").as_slice()) || contains_seq(
        l.as_slice(),
        chars_of("[error]").as_slice(),
    ) || contains_seq(l.as_slice(), chars_of("fatal").as_slice()) || contains_seq(
        l.as_slice(),
        chars_of("panic").as_slice(),
    ) || contains_seq(l.as_slice(), chars_of("exception").as_slice()) || starts_with_seq(
        l.as_slice(),
        chars_of("e ").as_slice(),
    );
    if error_markers {
        return LogLevel::Error;
    }
    let warn_markers = contains_seq(l.as_slice(), chars_of("warn").as_slice()) || contains_seq(
        l.as_slice(),
        chars_of("[wrn]").as_slice(),
    ) || contains_seq(l.as_slice(), chars_of("[warning]").as_slice()) || contains_seq(
        l.as_slice(),
        chars_of("deprecat").as_slice(),
    ) || starts_with_seq(l.as_slice(), chars_of("w ").as_slice());
    if warn_markers {
        return LogLevel::Warn;
    }
    let debug_markers = contains_seq(l.as_slice(), chars_of("debug").as_slice()) || contains_seq(
        l.as_slice(),
        chars_of("[dbg]").as_slice(),
    ) || contains_seq(l.as_slice(), chars_of("[debug]").as_slice()) || contains_seq(
        l.as_slice(),
        chars_of("trace").as_slice(),
    ) || starts_with_seq(l.as_slice(), chars_of("d ").as_slice());
    if debug_markers {
        return LogLevel::Debug;
    }
    LogLevel::Info
}

/// A substring filter over log lines.
#[derive(Clone, Debug)]
pub struct GrepFilter {
    pub pattern: Option<String>,
    pub case_sensitive: bool,
}

/// Whether a grep filter lets a line through.
pub open spec fn grep_matches(pattern: Option<Seq<char>>, case_sensitive: bool, text: Seq<char>) -> bool {
    match pattern {
        None => true,
        Some(p) => if p.len() == 0 {
            true
        } else if case_sensitive {
            seq_contains(text, p)
        } else {
            seq_contains(unicode_lower(text), unicode_lower(p))
        },
    }
}

pub open spec fn opt_view(o: Option<String>) -> Option<Seq<char>> {
    match o {
        Some(s) => Some(s@),
        None => None,
    }
}

impl Default for GrepFilter {
    fn default() -> (r: Self)
        ensures
            r.pattern.is_none(),
            !r.case_sensitive,
    {
        GrepFilter { pattern: None, case_sensitive: false }
    }
}

impl GrepFilter {
    /// A filter that lets every line through.
    pub fn new() -> (r: Self)
        ensures
            r.pattern.is_none(),
            !r.case_sensitive,
    {
        GrepFilter { pattern: None, case_sensitive: false }
    }

    /// A case-insensitive filter on `pattern`.
    pub fn with_pattern(pattern: String) -> (r: Self)
        ensures
            r.pattern == Some(pattern),
            !r.case_sensitive,
    {
        GrepFilter { pattern: Some(pattern), case_sensitive: false }
    }

    pub fn with_case_sensitive(self, case_sensitive: bool) -> (r: Self)
        ensures
            r.pattern == self.pattern,
            r.case_sensitive == case_sensitive,
    {
        GrepFilter { pattern: self.pattern, case_sensitive }
    }

    /// Whether `text` contains the pattern (ignoring case unless the filter
    /// is case-sensitive); an absent or empty pattern matches everything.
    pub fn matches(&self, text: &str) -> (r: bool)
        ensures
            r == grep_matches(opt_view(self.pattern), self.case_sensitive, text@),
    {
        match &self.pattern {
            None => true,
            Some(p) => {
                let pc = chars_of(p.as_str());
                if pc.len() == 0 {
                    true
                } else if self.case_sensitive {
                    str_contains(text, p.as_str())
                } else {
                    let lt = to_lower(text);
                    let lp = to_lower(p.as_str());
                    str_contains(lt.as_str(), lp.as_str())
                }
            },
        }
    }

    pub fn clear(&mut self)
        ensures
            final(self).pattern.is_none(),
            final(self).case_sensitive == old(self).case_sensitive,
    {
        self.pattern = None;
    }

    /// Sets the pattern; an empty pattern clears it.
    pub fn set(&mut self, pattern: String)
        ensures
            final(self).pattern == (if pattern@.len() == 0 {
                None
            } else {
                Some(pattern)
            }),
            final(self).case_sensitive == old(self).case_sensitive,
    {
        let pc = chars_of(pattern.as_str());
        self.pattern = if pc.len() == 0 {
            None
        } else {
            Some(pattern)
        };
    }
}

/// The level filter and the grep filter the log view applies together.
#[derive(Clone, Debug)]
pub struct LogFilter {
    pub level_mode: LogFilterMode,
    pub grep: GrepFilter,
}

impl Default for LogFilter {
    fn default() -> (r: Self)
        ensures
            r.level_mode == LogFilterMode::All,
            r.grep.pattern.is_none(),
            !r.grep.case_sensitive,
    {
        LogFilter { level_mode: LogFilterMode::All, grep: GrepFilter::new() }
    }
}

impl LogFilter {
    pub fn new() -> (r: Self)
        ensures
            r.level_mode == LogFilterMode::All,
            r.grep.pattern.is_none(),
            !r.grep.case_sensitive,
    {
        LogFilter { level_mode: LogFilterMode::All, grep: GrepFilter::new() }
    }

    /// A line is shown when its level passes the mode and its text the grep
    /// filter.
    pub fn should_show(&self, text: &str) -> (r: bool)
        ensures
            r == (mode_matches(self.level_mode, level_of(text@)) && grep_matches(
                opt_view(self.grep.pattern),
                self.grep.case_sensitive,
                text@,
            )),
    {
        let level = detect_level(text);
        self.level_mode.matches(level) && self.grep.matches(text)
    }

    pub fn cycle_level(&mut self)
        ensures
            final(self).level_mode == mode_cycle(old(self).level_mode),
            final(self).grep == old(self).grep,
    {
        self.level_mode = self.level_mode.cycle();
    }

    /// The mode's label, followed by ` /pattern/` when a pattern is set.
    pub fn label(&self) -> (r: String)
        ensures
            r@ == match self.grep.pattern {
                Some(p) => if p@.len() > 0 {
                    mode_label(self.level_mode) + " /"@ + p@ + "/"@
                } else {
                    mode_label(self.level_mode)
                },
                None => mode_label(self.level_mode),
            },
    {
        let base = self.level_mode.label();
        match &self.grep.pattern {
            Some(p) => {
                let pc = chars_of(p.as_str());
                if pc.len() > 0 {
                    let mut s = owned(base);
                    push_str(&mut s, " /");
                    push_str(&mut s, p.as_str());
                    push_str(&mut s, "/");
                    s
                } else {
                    owned(base)
                }
            },
            None => owned(base),
        }
    }
}

/// How severe a level is: debug, info, warning, error in rising order.
pub open spec fn severity(l: LogLevel) -> nat {
    match l {
        LogLevel::Debug => 0,
        LogLevel::Info => 1,
        LogLevel::Warn => 2,
        LogLevel::Error => 3,
    }
}

/// A level mode is a severity threshold.  Whatever a mode shows, it shows
/// every more severe level too; `All` shows every line, `WARN+` shows
/// warnings and errors and hides info and debug lines, and `ERROR` shows
/// errors only.
pub proof fn law_level_modes_are_thresholds(m: LogFilterMode, l: LogLevel, h: LogLevel)
    ensures
        mode_matches(m, l) && severity(l) <= severity(h) ==> mode_matches(m, h),
        mode_matches(LogFilterMode::All, l),
        mode_matches(LogFilterMode::WarnAndAbove, l) <==> severity(l) >= 2,
        mode_matches(LogFilterMode::WarnAndAbove, LogLevel::Warn),
        !mode_matches(LogFilterMode::WarnAndAbove, LogLevel::Info),
        mode_matches(LogFilterMode::ErrorOnly, l) <==> l == LogLevel::Error,
        !mode_matches(LogFilterMode::ErrorOnly, LogLevel::Warn),
{
}

} // verus!
