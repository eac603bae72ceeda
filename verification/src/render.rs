//! Texts and colours the terminal UI shows for services: status labels,
//! icons and colours, clock times, titles fitted to a width.
use vstd::prelude::*;

use std::time::SystemTime;

use crate::clock::{duration_secs, since_epoch, since_epoch_of, whole_secs};
use crate::model::{HealthStatus, ServiceKind, ServiceStatus};
use crate::text::{chars_of, owned, push_char, push_str, zero_pad};
use crate::theme::{Color, Style};

verus! {

pub open spec fn status_label_text(s: ServiceStatus) -> Seq<char> {
    match s {
        ServiceStatus::Unknown => "unknown"@,
        ServiceStatus::Starting => "starting"@,
        ServiceStatus::Running => "running"@,
        ServiceStatus::Stopped => "stopped"@,
        ServiceStatus::Exited { .. } => "exited"@,
        ServiceStatus::Restarting => "restarting"@,
        ServiceStatus::Errored { .. } => "error"@,
    }
}

/// The word for a service status.
pub fn status_label(s: &ServiceStatus) -> (r: &'static str)
    ensures
        r@ == status_label_text(*s),
{
    match s {
        ServiceStatus::Unknown => "unknown",
        ServiceStatus::Starting => "starting",
        ServiceStatus::Running => "running",
        ServiceStatus::Stopped => "stopped",
        ServiceStatus::Exited { .. } => "exited",
        ServiceStatus::Restarting => "restarting",
        ServiceStatus::Errored { .. } => "error",
    }
}

pub open spec fn status_icon_text(s: ServiceStatus) -> Seq<char> {
    match s {
        ServiceStatus::Unknown => "?"@,
        ServiceStatus::Starting => "◐"@,
        ServiceStatus::Running => "●"@,
        ServiceStatus::Stopped => "○"@,
        ServiceStatus::Exited { code } => if code == Some(0i32) {
            "◌"@
        } else {
            "✗"@
        },
        ServiceStatus::Restarting => "↻"@,
        ServiceStatus::Errored { .. } => "✗"@,
    }
}

/// The icon for a service status; a clean exit differs from a failed one.
pub fn status_icon(s: &ServiceStatus) -> (r: &'static str)
    ensures
        r@ == status_icon_text(*s),
{
    match s {
        ServiceStatus::Unknown => "?",
        ServiceStatus::Starting => "◐",
        ServiceStatus::Running => "●",
        ServiceStatus::Stopped => "○",
        ServiceStatus::Exited { code: Some(0) } => "◌",
        ServiceStatus::Exited { .. } => "✗",
        ServiceStatus::Restarting => "↻",
        ServiceStatus::Errored { .. } => "✗",
    }
}

pub open spec fn health_icon_text(h: HealthStatus) -> Seq<char> {
    match h {
        HealthStatus::Unknown => " "@,
        HealthStatus::Healthy => "♥"@,
        HealthStatus::Degraded { .. } => "♡"@,
        HealthStatus::Unhealthy { .. } => "✗"@,
    }
}

/// The icon for a health status; unknown health shows as a blank.
pub fn health_icon(h: &HealthStatus) -> (r: &'static str)
    ensures
        r@ == health_icon_text(*h),
{
    match h {
        HealthStatus::Unknown => " ",
        HealthStatus::Healthy => "♥",
        HealthStatus::Degraded { .. } => "♡",
        HealthStatus::Unhealthy { .. } => "✗",
    }
}

pub open spec fn kind_icon_text(k: ServiceKind) -> Seq<char> {
    match k {
        ServiceKind::HttpApi => "⚡"@,
        ServiceKind::Worker => "⚙"@,
        ServiceKind::Database => "◆"@,
        ServiceKind::Cache => "⚡"@,
        ServiceKind::Queue => "≡"@,
        ServiceKind::Frontend => "◉"@,
        ServiceKind::Generic => "•"@,
    }
}

/// The icon for a kind of service.
pub fn kind_icon(k: &ServiceKind) -> (r: &'static str)
    ensures
        r@ == kind_icon_text(*k),
{
    match k {
        ServiceKind::HttpApi => "⚡",
        ServiceKind::Worker => "⚙",
        ServiceKind::Database => "◆",
        ServiceKind::Cache => "⚡",
        ServiceKind::Queue => "≡",
        ServiceKind::Frontend => "◉",
        ServiceKind::Generic => "•",
    }
}

/// The time of day, UTC, of an instant `secs` seconds after the epoch:
/// `HH:MM:SS`.
pub open spec fn clock_text(secs: nat) -> Seq<char> {
    zero_pad((secs / 3600) % 24, 2) + ":"@ + zero_pad((secs / 60) % 60, 2) + ":"@ + zero_pad(secs % 60, 2)
}

fn two_digits(n: u64) -> (r: String)
    ensures
        r@ == zero_pad(n as nat, 2),
{
    crate::log_history::zero_padded(n, 2)
}

/// Renders `secs` as `clock_text` says.
pub fn clock_time(secs: u64) -> (r: String)
    ensures
        r@ == clock_text(secs as nat),
{
    let mut s = two_digits((secs / 3600) % 24);
    push_str(&mut s, ":");
    push_str(&mut s, two_digits((secs / 60) % 60).as_str());
    push_str(&mut s, ":");
    push_str(&mut s, two_digits(secs % 60).as_str());
    s
}

/// The time of day of a log line's timestamp, or `??:??:??` for an instant
/// before the epoch.
pub fn format_timestamp(time: &SystemTime) -> (r: String)
    ensures
        r@ == match since_epoch_of(*time) {
            Some(d) => clock_text(whole_secs(d) as nat),
            None => "??:??:??"@,
        },
{
    match since_epoch(time) {
        Some(d) => {
            let secs = duration_secs(&d);
            let r = clock_time(secs);
            assert(r@ == clock_text(secs as nat));
            r
        },
        None => owned("??:??:??"),
    }
}

/// A title cut to fit a pane `width` columns wide with its borders: at
/// most `width - 4` characters, an ellipsis standing for what was cut.
pub open spec fn fitted_title(s: Seq<char>, width: nat) -> Seq<char> {
    let max: int = if width >= 4 {
        width - 4
    } else {
        0
    };
    if max == 0 {
        seq![]
    } else if s.len() <= max {
        s
    } else if max <= 1 {
        seq!['…']
    } else {
        s.take(max - 1).push('…')
    }
}

/// Fits a title to a pane, as `fitted_title` says.
pub fn fit_title(s: &str, width: u16) -> (r: String)
    ensures
        r@ == fitted_title(s@, width as nat),
{
    let max: usize = if width >= 4 {
        (width - 4) as usize
    } else {
        0
    };
    if max == 0 {
        return String::new();
    }
    let chars = chars_of(s);
    if chars.len() <= max {
        return owned(s);
    }
    if max <= 1 {
        let mut e = String::new();
        push_char(&mut e, '…');
        return e;
    }
    let mut out = String::new();
    let mut i: usize = 0;
    while i < max - 1
        invariant
            i <= max - 1,
            max - 1 < chars.len(),
            chars@ == s@,
            out@ == s@.take(i as int),
        decreases max - 1 - i,
    {
        push_char(&mut out, chars[i]);
        i = i + 1;
        assert(out@ =~= s@.take(i as int));
    }
    push_char(&mut out, '…');
    out
}


/// The plain colour of a service status.
pub open spec fn status_style_of(s: ServiceStatus) -> Style {
    let c = match s {
        ServiceStatus::Running => Color::Green,
        ServiceStatus::Starting | ServiceStatus::Restarting => Color::Yellow,
        ServiceStatus::Stopped => Color::DarkGray,
        ServiceStatus::Errored { .. } => Color::Red,
        ServiceStatus::Exited { code } => if code == Some(0i32) { Color::DarkGray } else { Color::Red },
        ServiceStatus::Unknown => Color::DarkGray,
    };
    Style { fg: Some(c), bg: None, bold: false }
}

pub fn status_style(s: &ServiceStatus) -> (r: Style)
    ensures
        r == status_style_of(*s),
{
    let c = match s {
        ServiceStatus::Running => Color::Green,
        ServiceStatus::Starting | ServiceStatus::Restarting => Color::Yellow,
        ServiceStatus::Stopped => Color::DarkGray,
        ServiceStatus::Errored { .. } => Color::Red,
        ServiceStatus::Exited { code } => {
            if *code == Some(0) {
                Color::DarkGray
            } else {
                Color::Red
            }
        },
        ServiceStatus::Unknown => Color::DarkGray,
    };
    Style { fg: Some(c), bg: None, bold: false }
}

/// The plain colour of a health status; unknown health keeps the default.
pub open spec fn health_style_of(h: HealthStatus) -> Style {
    let c = match h {
        HealthStatus::Healthy => Some(Color::Green),
        HealthStatus::Degraded { .. } => Some(Color::Yellow),
        HealthStatus::Unhealthy { .. } => Some(Color::Red),
        HealthStatus::Unknown => None,
    };
    Style { fg: c, bg: None, bold: false }
}

pub fn health_style(h: &HealthStatus) -> (r: Style)
    ensures
        r == health_style_of(*h),
{
    let c = match h {
        HealthStatus::Healthy => Some(Color::Green),
        HealthStatus::Degraded { .. } => Some(Color::Yellow),
        HealthStatus::Unhealthy { .. } => Some(Color::Red),
        HealthStatus::Unknown => None,
    };
    Style { fg: c, bg: None, bold: false }
}

} // verus!
