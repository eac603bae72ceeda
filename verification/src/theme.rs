//! The UI theme: its colour palettes, the styles it gives each kind of text,
//! and its icons; the free functions give the default theme's.
use vstd::prelude::*;

use crate::model::{HealthStatus, ServiceStatus};

verus! {

pub open spec fn theme_status_icon(s: ServiceStatus) -> Seq<char> {
    match s {
        ServiceStatus::Running => "●"@,
        ServiceStatus::Starting => "◐"@,
        ServiceStatus::Restarting => "⟲"@,
        ServiceStatus::Stopped => "○"@,
        ServiceStatus::Exited { code } => if code == Some(0i32) {
            "◌"@
        } else {
            "✗"@
        },
        ServiceStatus::Errored { .. } => "✗"@,
        ServiceStatus::Unknown => "?"@,
    }
}

/// The theme's icon for a service status.
pub fn status_icon(status: &ServiceStatus) -> (r: &'static str)
    ensures
        r@ == theme_status_icon(*status),
{
    match status {
        ServiceStatus::Running => "●",
        ServiceStatus::Starting => "◐",
        ServiceStatus::Restarting => "⟲",
        ServiceStatus::Stopped => "○",
        ServiceStatus::Exited { code } => {
            if *code == Some(0) {
                "◌"
            } else {
                "✗"
            }
        },
        ServiceStatus::Errored { .. } => "✗",
        ServiceStatus::Unknown => "?",
    }
}

pub open spec fn theme_health_icon(h: HealthStatus) -> Seq<char> {
    match h {
        HealthStatus::Healthy => "✓"@,
        HealthStatus::Degraded { .. } => "~"@,
        HealthStatus::Unhealthy { .. } => "!"@,
        HealthStatus::Unknown => "?"@,
    }
}

/// The theme's icon for a health status.
pub fn health_icon(health: &HealthStatus) -> (r: &'static str)
    ensures
        r@ == theme_health_icon(*health),
{
    match health {
        HealthStatus::Healthy => "✓",
        HealthStatus::Degraded { .. } => "~",
        HealthStatus::Unhealthy { .. } => "!",
        HealthStatus::Unknown => "?",
    }
}


/// A terminal colour.
#[derive(Clone, Copy, Debug, PartialEq, Eq, Structural)]
pub enum Color {
    Reset,
    Black,
    White,
    Red,
    Green,
    Yellow,
    Blue,
    Cyan,
    DarkGray,
    Rgb(u8, u8, u8),
}

/// How a piece of text is drawn: foreground, background, bold.
#[derive(Clone, Copy, Debug, PartialEq, Eq, Structural)]
pub struct Style {
    pub fg: Option<Color>,
    pub bg: Option<Color>,
    pub bold: bool,
}

/// A style with only a foreground colour.
pub open spec fn fg_style(c: Color) -> Style {
    Style { fg: Some(c), bg: None, bold: false }
}

/// A bold style with only a foreground colour.
pub open spec fn bold_style(c: Color) -> Style {
    Style { fg: Some(c), bg: None, bold: true }
}

fn fg(c: Color) -> (r: Style)
    ensures
        r == fg_style(c),
{
    Style { fg: Some(c), bg: None, bold: false }
}

fn bold(c: Color) -> (r: Style)
    ensures
        r == bold_style(c),
{
    Style { fg: Some(c), bg: None, bold: true }
}

/// The colours a theme draws with.
#[derive(Clone, Copy, Debug, PartialEq, Eq, Structural)]
pub struct Palette {
    pub bg: Color,
    pub panel_bg: Color,
    pub panel_border: Color,
    pub text: Color,
    pub text_dim: Color,
    pub text_muted: Color,
    pub accent: Color,
    pub accent_dim: Color,
    pub success: Color,
    pub warn: Color,
    pub error: Color,
    pub info: Color,
    pub selection_bg: Color,
    pub selection_fg: Color,
    pub key_hint: Color,
    pub key_hint_dim: Color,
}

/// The dark palette.
pub open spec fn dark_palette() -> Palette {
    Palette {
        bg: Color::Reset,
        panel_bg: Color::Rgb(30, 30, 30),
        panel_border: Color::Rgb(60, 60, 60),
        text: Color::Rgb(212, 212, 212),
        text_dim: Color::Rgb(150, 150, 150),
        text_muted: Color::Rgb(100, 100, 100),
        accent: Color::Rgb(79, 193, 255),
        accent_dim: Color::Rgb(50, 120, 160),
        success: Color::Rgb(78, 201, 176),
        warn: Color::Rgb(220, 180, 100),
        error: Color::Rgb(244, 135, 113),
        info: Color::Rgb(156, 220, 254),
        selection_bg: Color::Rgb(38, 79, 120),
        selection_fg: Color::White,
        key_hint: Color::Rgb(206, 145, 120),
        key_hint_dim: Color::Rgb(140, 100, 80),
    }
}

/// The high-contrast palette.
pub open spec fn high_contrast_palette() -> Palette {
    Palette {
        bg: Color::Black,
        panel_bg: Color::Black,
        panel_border: Color::White,
        text: Color::White,
        text_dim: Color::Rgb(200, 200, 200),
        text_muted: Color::Rgb(150, 150, 150),
        accent: Color::Cyan,
        accent_dim: Color::DarkGray,
        success: Color::Green,
        warn: Color::Yellow,
        error: Color::Red,
        info: Color::Cyan,
        selection_bg: Color::Blue,
        selection_fg: Color::White,
        key_hint: Color::Yellow,
        key_hint_dim: Color::DarkGray,
    }
}

impl Palette {
    pub fn dark() -> (r: Self)
        ensures
            r == dark_palette(),
    {
        Palette {
            bg: Color::Reset,
            panel_bg: Color::Rgb(30, 30, 30),
            panel_border: Color::Rgb(60, 60, 60),
            text: Color::Rgb(212, 212, 212),
            text_dim: Color::Rgb(150, 150, 150),
            text_muted: Color::Rgb(100, 100, 100),
            accent: Color::Rgb(79, 193, 255),
            accent_dim: Color::Rgb(50, 120, 160),
            success: Color::Rgb(78, 201, 176),
            warn: Color::Rgb(220, 180, 100),
            error: Color::Rgb(244, 135, 113),
            info: Color::Rgb(156, 220, 254),
            selection_bg: Color::Rgb(38, 79, 120),
            selection_fg: Color::White,
            key_hint: Color::Rgb(206, 145, 120),
            key_hint_dim: Color::Rgb(140, 100, 80),
        }
    }

    pub fn high_contrast() -> (r: Self)
        ensures
            r == high_contrast_palette(),
    {
        Palette {
            bg: Color::Black,
            panel_bg: Color::Black,
            panel_border: Color::White,
            text: Color::White,
            text_dim: Color::Rgb(200, 200, 200),
            text_muted: Color::Rgb(150, 150, 150),
            accent: Color::Cyan,
            accent_dim: Color::DarkGray,
            success: Color::Green,
            warn: Color::Yellow,
            error: Color::Red,
            info: Color::Cyan,
            selection_bg: Color::Blue,
            selection_fg: Color::White,
            key_hint: Color::Yellow,
            key_hint_dim: Color::DarkGray,
        }
    }
}

impl Default for Palette {
    fn default() -> (r: Self)
        ensures
            r == dark_palette(),
    {
        Palette::dark()
    }
}

/// The colour a palette gives a service status.
pub open spec fn status_color(p: Palette, s: ServiceStatus) -> Color {
    match s {
        ServiceStatus::Running => p.success,
        ServiceStatus::Starting | ServiceStatus::Restarting => p.warn,
        ServiceStatus::Stopped => p.text_muted,
        ServiceStatus::Exited { code } => if code == Some(0i32) { p.text_dim } else { p.error },
        ServiceStatus::Errored { .. } => p.error,
        ServiceStatus::Unknown => p.text_muted,
    }
}

/// The colour a palette gives a health status.
pub open spec fn health_color(p: Palette, h: HealthStatus) -> Color {
    match h {
        HealthStatus::Healthy => p.success,
        HealthStatus::Degraded { .. } => p.warn,
        HealthStatus::Unhealthy { .. } => p.error,
        HealthStatus::Unknown => p.text_muted,
    }
}

/// A palette with the styles and icons drawn from it.
#[derive(Clone, Copy, Debug, PartialEq, Eq, Structural)]
pub struct Theme {
    pub palette: Palette,
}

impl Default for Theme {
    fn default() -> (r: Self)
        ensures
            r.palette == dark_palette(),
    {
        Theme { palette: Palette::dark() }
    }
}

impl Theme {
    pub fn new(palette: Palette) -> (r: Self)
        ensures
            r.palette == palette,
    {
        Theme { palette }
    }

    pub fn status_style(&self, status: &ServiceStatus) -> (r: Style)
        ensures
            r == fg_style(status_color(self.palette, *status)),
    {
        let color = match status {
            ServiceStatus::Running => self.palette.success,
            ServiceStatus::Starting | ServiceStatus::Restarting => self.palette.warn,
            ServiceStatus::Stopped => self.palette.text_muted,
            ServiceStatus::Exited { code } => {
                if *code == Some(0) {
                    self.palette.text_dim
                } else {
                    self.palette.error
                }
            },
            ServiceStatus::Errored { .. } => self.palette.error,
            ServiceStatus::Unknown => self.palette.text_muted,
        };
        fg(color)
    }

    pub fn status_icon(&self, status: &ServiceStatus) -> (r: &'static str)
        ensures
            r@ == theme_status_icon(*status),
    {
        status_icon(status)
    }

    pub fn health_style(&self, health: &HealthStatus) -> (r: Style)
        ensures
            r == fg_style(health_color(self.palette, *health)),
    {
        let color = match health {
            HealthStatus::Healthy => self.palette.success,
            HealthStatus::Degraded { .. } => self.palette.warn,
            HealthStatus::Unhealthy { .. } => self.palette.error,
            HealthStatus::Unknown => self.palette.text_muted,
        };
        fg(color)
    }

    pub fn health_icon(&self, health: &HealthStatus) -> (r: &'static str)
        ensures
            r@ == theme_health_icon(*health),
    {
        health_icon(health)
    }

    /// Bold accent for the active tab, dim text for the others.
    pub fn tab_style(&self, active: bool) -> (r: Style)
        ensures
            r == (if active { bold_style(self.palette.accent) } else { fg_style(self.palette.text_dim) }),
    {
        if active {
            bold(self.palette.accent)
        } else {
            fg(self.palette.text_dim)
        }
    }

    pub fn key_hint_style(&self) -> (r: Style)
        ensures
            r == fg_style(self.palette.key_hint),
    {
        fg(self.palette.key_hint)
    }

    pub fn key_hint_dim_style(&self) -> (r: Style)
        ensures
            r == fg_style(self.palette.key_hint_dim),
    {
        fg(self.palette.key_hint_dim)
    }

    pub fn subtle_border_style(&self) -> (r: Style)
        ensures
            r == fg_style(self.palette.panel_border),
    {
        fg(self.palette.panel_border)
    }

    pub fn focused_border_style(&self) -> (r: Style)
        ensures
            r == fg_style(self.palette.accent),
    {
        fg(self.palette.accent)
    }

    /// Bold selection foreground on the selection background.
    pub fn selection_style(&self) -> (r: Style)
        ensures
            r == (Style { fg: Some(self.palette.selection_fg), bg: Some(self.palette.selection_bg), bold: true }),
    {
        Style { fg: Some(self.palette.selection_fg), bg: Some(self.palette.selection_bg), bold: true }
    }

    pub fn text_style(&self) -> (r: Style)
        ensures
            r == fg_style(self.palette.text),
    {
        fg(self.palette.text)
    }

    pub fn text_dim_style(&self) -> (r: Style)
        ensures
            r == fg_style(self.palette.text_dim),
    {
        fg(self.palette.text_dim)
    }

    pub fn text_muted_style(&self) -> (r: Style)
        ensures
            r == fg_style(self.palette.text_muted),
    {
        fg(self.palette.text_muted)
    }

    pub fn accent_style(&self) -> (r: Style)
        ensures
            r == fg_style(self.palette.accent),
    {
        fg(self.palette.accent)
    }

    pub fn accent_bold_style(&self) -> (r: Style)
        ensures
            r == bold_style(self.palette.accent),
    {
        bold(self.palette.accent)
    }

    pub fn success_style(&self) -> (r: Style)
        ensures
            r == fg_style(self.palette.success),
    {
        fg(self.palette.success)
    }

    pub fn warn_style(&self) -> (r: Style)
        ensures
            r == fg_style(self.palette.warn),
    {
        fg(self.palette.warn)
    }

    pub fn error_style(&self) -> (r: Style)
        ensures
            r == fg_style(self.palette.error),
    {
        fg(self.palette.error)
    }

    pub fn info_style(&self) -> (r: Style)
        ensures
            r == fg_style(self.palette.info),
    {
        fg(self.palette.info)
    }

    pub fn title_style(&self) -> (r: Style)
        ensures
            r == bold_style(self.palette.text),
    {
        bold(self.palette.text)
    }

    pub fn section_header_style(&self) -> (r: Style)
        ensures
            r == bold_style(self.palette.accent),
    {
        bold(self.palette.accent)
    }
}


/// The default theme, whose styles the functions below give.
pub fn theme() -> (r: Theme)
    ensures
        r.palette == dark_palette(),
{
    Theme::default()
}

pub fn status(s: &ServiceStatus) -> (r: Style)
    ensures
        r == fg_style(status_color(dark_palette(), *s)),
{
    theme().status_style(s)
}

pub fn health(h: &HealthStatus) -> (r: Style)
    ensures
        r == fg_style(health_color(dark_palette(), *h)),
{
    theme().health_style(h)
}

pub fn tab(active: bool) -> (r: Style)
    ensures
        r == (if active { bold_style(dark_palette().accent) } else { fg_style(dark_palette().text_dim) }),
{
    theme().tab_style(active)
}

pub fn key_hint() -> (r: Style)
    ensures
        r == fg_style(dark_palette().key_hint),
{
    theme().key_hint_style()
}

pub fn key_hint_dim() -> (r: Style)
    ensures
        r == fg_style(dark_palette().key_hint_dim),
{
    theme().key_hint_dim_style()
}

pub fn border_subtle() -> (r: Style)
    ensures
        r == fg_style(dark_palette().panel_border),
{
    theme().subtle_border_style()
}

pub fn border_focused() -> (r: Style)
    ensures
        r == fg_style(dark_palette().accent),
{
    theme().focused_border_style()
}

pub fn selection() -> (r: Style)
    ensures
        r == (Style { fg: Some(dark_palette().selection_fg), bg: Some(dark_palette().selection_bg), bold: true }),
{
    theme().selection_style()
}

pub fn text() -> (r: Style)
    ensures
        r == fg_style(dark_palette().text),
{
    theme().text_style()
}

pub fn text_dim() -> (r: Style)
    ensures
        r == fg_style(dark_palette().text_dim),
{
    theme().text_dim_style()
}

pub fn text_muted() -> (r: Style)
    ensures
        r == fg_style(dark_palette().text_muted),
{
    theme().text_muted_style()
}

pub fn accent() -> (r: Style)
    ensures
        r == fg_style(dark_palette().accent),
{
    theme().accent_style()
}

pub fn accent_bold() -> (r: Style)
    ensures
        r == bold_style(dark_palette().accent),
{
    theme().accent_bold_style()
}

pub fn success() -> (r: Style)
    ensures
        r == fg_style(dark_palette().success),
{
    theme().success_style()
}

pub fn warn() -> (r: Style)
    ensures
        r == fg_style(dark_palette().warn),
{
    theme().warn_style()
}

pub fn error() -> (r: Style)
    ensures
        r == fg_style(dark_palette().error),
{
    theme().error_style()
}

pub fn info() -> (r: Style)
    ensures
        r == fg_style(dark_palette().info),
{
    theme().info_style()
}

pub fn title() -> (r: Style)
    ensures
        r == bold_style(dark_palette().text),
{
    theme().title_style()
}

pub fn section_header() -> (r: Style)
    ensures
        r == bold_style(dark_palette().accent),
{
    theme().section_header_style()
}

} // verus!
