//! Persistent log history: where a project's history lives, how hourly
//! files are named, what a record holds and when files are switched and
//! flushed, how lines are rendered back, and the query options.
use vstd::prelude::*;

use vstd::string::StringSliceAdditionalSpecFns;

use crate::command::str_eq;
use crate::log_filter::{detect_level, level_of, LogLevel};
use crate::reducer::{EventEnvelope, RuntimeEvent};
use crate::state::LogStream;
use crate::text::{
    join_path, path_join, chars_of, owned, parses_u64, push_str, string_of, trim,
    u64_to_string, u64_value, unicode_lower, zero_pad,
};

verus! {

/// FNV-1a offset basis and prime (64-bit).
pub const FNV_OFFSET: u64 = 0xcbf2_9ce4_8422_2325;

pub const FNV_PRIME: u64 = 0x100_0000_01b3;

/// One FNV-1a step: xor in the byte, then multiply, wrapping.
pub open spec fn fnv_step(h: u64, b: u8) -> u64 {
    (((h ^ (b as u64)) as int * FNV_PRIME as int) % 0x1_0000_0000_0000_0000) as u64
}

/// FNV-1a (64-bit) of a byte string.
pub open spec fn fnv1a(bytes: Seq<u8>) -> u64
    decreases bytes.len(),
{
    if bytes.len() == 0 {
        FNV_OFFSET
    } else {
        fnv_step(fnv1a(bytes.drop_last()), bytes.last())
    }
}

/// Lowercase hexadecimal digit of a value below 16.
pub open spec fn hex_digit(d: nat) -> char {
    if d < 10 {
        ((d + 48) as u32) as char
    } else {
        ((d + 87) as u32) as char
    }
}

/// The last `width` hexadecimal digits of `v`, zero-padded.
pub open spec fn hex_fixed(v: nat, width: nat) -> Seq<char>
    decreases width,
{
    if width == 0 {
        Seq::empty()
    } else {
        hex_fixed(v / 16, (width - 1) as nat).push(hex_digit(v % 16))
    }
}

fn hex_digit_exec(d: u64) -> (c: char)
    requires
        d < 16,
    ensures
        c == hex_digit(d as nat),
{
    if d < 10 {
        let c = ((d + 48) as u8) as char;
        assert(c == hex_digit(d as nat)) by {
            assert((d + 48) as u8 as char == ((d + 48) as u32) as char);
        }
        c
    } else {
        let c = ((d + 87) as u8) as char;
        assert(c == hex_digit(d as nat)) by {
            assert((d + 87) as u8 as char == ((d + 87) as u32) as char);
        }
        c
    }
}

/// The directory name of a project's history: the first 12 of the 16
/// lowercase hexadecimal digits of the FNV-1a hash of its path's bytes.
pub fn project_hash(project_root: &str) -> (r: String)
    ensures
        r@ == hex_fixed(fnv1a(project_root.spec_bytes()) as nat, 16).take(12),
{
    let bytes = project_root.as_bytes();
    let mut h: u64 = FNV_OFFSET;
    let mut i: usize = 0;
    while i < bytes.len()
        invariant
            i <= bytes.len(),
            bytes@ == project_root.spec_bytes(),
            h == fnv1a(bytes@.take(i as int)),
        decreases bytes.len() - i,
    {
        proof {
            assert(bytes@.take(i + 1).drop_last() =~= bytes@.take(i as int));
            assert(bytes@.take(i + 1).last() == bytes@[i as int]);
        }
        h = (h ^ (bytes[i] as u64)).wrapping_mul(FNV_PRIME);
        i = i + 1;
    }
    proof {
        assert(bytes@.take(bytes.len() as int) =~= bytes@);
    }
    // The sixteen digits, most significant first.
    let mut digits: Vec<char> = Vec::new();
    let mut k: usize = 0;
    let mut v: u64 = h;
    let ghost full = h as nat;
    while k < 16
        invariant
            k <= 16,
            digits@.len() == k,
            v as nat == full / pow16(k as nat),
            hex_fixed(full, 16) == hex_fixed(v as nat, (16 - k) as nat) + digits@.reverse(),
        decreases 16 - k,
    {
        let d = v % 16;
        let c = hex_digit_exec(d);
        proof {
            lemma_pow16_step(full, k as nat);
            assert(hex_fixed(v as nat, (16 - k) as nat) == hex_fixed(v as nat / 16, (15 - k) as nat).push(
                hex_digit(v as nat % 16),
            ));
            assert(digits@.push(c).reverse() =~= seq![c] + digits@.reverse());
        }
        digits.push(c);
        v = v / 16;
        k = k + 1;
    }
    proof {
        assert(hex_fixed(v as nat, 0) =~= Seq::<char>::empty());
    }
    let mut out: Vec<char> = Vec::new();
    let mut j: usize = 0;
    while j < 12
        invariant
            j <= 12,
            digits@.len() == 16,
            out@ == digits@.reverse().take(j as int),
        decreases 12 - j,
    {
        out.push(digits[15 - j]);
        proof {
            assert(out@ =~= digits@.reverse().take(j + 1));
        }
        j = j + 1;
    }
    string_of(out.as_slice())
}

pub open spec fn pow16(k: nat) -> nat
    decreases k,
{
    if k == 0 {
        1
    } else {
        16 * pow16((k - 1) as nat)
    }
}

proof fn lemma_pow16_step(v: nat, k: nat)
    ensures
        pow16(k) > 0,
        v / pow16(k + 1) == (v / pow16(k)) / 16,
    decreases k,
{
    if k > 0 {
        lemma_pow16_step(v, (k - 1) as nat);
    }
    let p = pow16(k);
    assert(pow16(k + 1) == 16 * p);
    assert(v / (16 * p) == (v / p) / 16) by (nonlinear_arith)
        requires
            p > 0,
    ;
}

/// Hinnant's days-to-civil conversion (proleptic Gregorian, UTC): the
/// year, month and day of a count of days since 1970-01-01 (non-negative).
pub open spec fn civil_from_days(days: nat) -> (int, nat, nat) {
    let z = days + 719_468;
    let era = z / 146_097;
    let doe = z % 146_097;
    let yoe = (doe - doe / 1460 + doe / 36_524 - doe / 146_096) / 365;
    let y = yoe + era * 400;
    let doy = doe - (365 * yoe + yoe / 4 - yoe / 100);
    let mp = (5 * doy + 2) / 153;
    let d = doy - (153 * mp + 2) / 5 + 1;
    let m = if mp < 10 {
        mp + 3
    } else {
        mp - 9
    };
    let yy = if m <= 2 {
        y + 1
    } else {
        y
    };
    (yy, m as nat, d as nat)
}

/// Year, month, day and hour (UTC) of a count of seconds since the epoch.
pub fn utc_ymdh(secs: u64) -> (r: (i32, u32, u32, u32))
    requires
        secs <= i64::MAX,
    ensures
        ({
            let (y, m, d) = civil_from_days(secs as nat / 86_400);
            &&& r.0 == y as i32
            &&& r.1 as nat == m
            &&& r.2 as nat == d
            &&& r.3 as nat == (secs as nat % 86_400) / 3600
            &&& 1 <= m <= 12
            &&& 1 <= d <= 31
        }),
{
    let days: u64 = secs / 86_400;
    let sod: u64 = secs % 86_400;
    let hour = (sod / 3600) as u32;
    let z: u64 = days + 719_468;
    let era: u64 = z / 146_097;
    let doe: u64 = z % 146_097;
    let yoe: u64 = (doe - doe / 1460 + doe / 36_524 - doe / 146_096) / 365;
    let y: u64 = yoe + era * 400;
    assert(yoe <= 399) by (nonlinear_arith)
        requires
            doe < 146_097,
            yoe == (doe - doe / 1460 + doe / 36_524 - doe / 146_096) / 365,
    ;
    assert(365 * yoe + yoe / 4 - yoe / 100 <= doe) by (nonlinear_arith)
        requires
            doe < 146_097,
            yoe == (doe - doe / 1460 + doe / 36_524 - doe / 146_096) / 365,
    ;
    let doy: u64 = doe - (365 * yoe + yoe / 4 - yoe / 100);
    assert(doy <= 365) by (nonlinear_arith)
        requires
            doe < 146_097,
            yoe == (doe - doe / 1460 + doe / 36_524 - doe / 146_096) / 365,
            doy == doe - (365 * yoe + yoe / 4 - yoe / 100),
    ;
    let mp: u64 = (5 * doy + 2) / 153;
    assert(mp <= 11);
    assert((153 * mp + 2) / 5 <= doy) by (nonlinear_arith)
        requires
            mp == (5 * doy + 2) / 153,
    ;
    let d: u64 = doy - (153 * mp + 2) / 5 + 1;
    assert(d <= 31) by (nonlinear_arith)
        requires
            mp == (5 * doy + 2) / 153,
            d == doy - (153 * mp + 2) / 5 + 1,
            doy <= 365,
    ;
    let m: u64 = if mp < 10 {
        mp + 3
    } else {
        mp - 9
    };
    let yy: u64 = if m <= 2 {
        y + 1
    } else {
        y
    };
    (yy as i32, m as u32, d as u32, hour)
}

/// `n` zero-padded to `width` digits.
pub fn zero_padded(n: u64, width: usize) -> (r: String)
    ensures
        r@ == zero_pad(n as nat, width as nat),
{
    let d = u64_to_string(n);
    let len = chars_of(d.as_str()).len();
    if len >= width {
        return d;
    }
    let mut s = String::new();
    let mut i: usize = 0;
    while i < width - len
        invariant
            i <= width - len,
            s@ == Seq::new(i as nat, |_j: int| '0'),
        decreases width - len - i,
    {
        crate::text::push_char(&mut s, '0');
        proof {
            assert(s@ =~= Seq::new((i + 1) as nat, |_j: int| '0'));
        }
        i = i + 1;
    }
    push_str(&mut s, d.as_str());
    s
}

/// A year as `{:04}` renders it: a sign for negative years counts toward
/// the four places.
pub open spec fn year_text(y: i32) -> Seq<char> {
    if y < 0 {
        "-"@ + zero_pad((-(y as int)) as nat, 3)
    } else {
        zero_pad(y as nat, 4)
    }
}

fn year_exec(y: i32) -> (r: String)
    ensures
        r@ == year_text(y),
{
    if y < 0 {
        let a: u64 = (-(y as i64)) as u64;
        let p = zero_padded(a, 3);
        crate::text::concat2("-", p.as_str())
    } else {
        zero_padded(y as u64, 4)
    }
}

/// The file an hour of history goes to: `YYYY-MM-DDTHH.jsonl` (UTC).
pub open spec fn hour_file_text(secs: nat) -> Seq<char> {
    let (y, m, d) = civil_from_days(secs / 86_400);
    year_text(y as i32) + "-"@ + zero_pad(m, 2) + "-"@ + zero_pad(d, 2) + "T"@ + zero_pad(
        (secs % 86_400) / 3600,
        2,
    ) + ".jsonl"@
}

/// The history file for the hour holding `secs` seconds since the epoch.
pub fn hour_filename(secs: u64) -> (r: String)
    requires
        secs <= i64::MAX,
    ensures
        r@ == hour_file_text(secs as nat),
{
    let (y, mo, d, h) = utc_ymdh(secs);
    let mut s = year_exec(y);
    push_str(&mut s, "-");
    push_str(&mut s, zero_padded(mo as u64, 2).as_str());
    push_str(&mut s, "-");
    push_str(&mut s, zero_padded(d as u64, 2).as_str());
    push_str(&mut s, "T");
    push_str(&mut s, zero_padded(h as u64, 2).as_str());
    push_str(&mut s, ".jsonl");
    s
}

/// Which levels a history query keeps.
#[derive(Clone, Copy, Debug, PartialEq, Eq, Structural)]
pub enum LevelFilter {
    All,
    WarnAndAbove,
    ErrorOnly,
}

impl Default for LevelFilter {
    fn default() -> (r: Self)
        ensures
            r == LevelFilter::All,
    {
        LevelFilter::All
    }
}

/// The filter a (lowercased) name selects.
pub open spec fn level_filter_named(t: Seq<char>) -> Option<LevelFilter> {
    if t == "all"@ || t == ""@ {
        Some(LevelFilter::All)
    } else if t == "warn"@ || t == "warning"@ {
        Some(LevelFilter::WarnAndAbove)
    } else if t == "error"@ || t == "err"@ {
        Some(LevelFilter::ErrorOnly)
    } else {
        None
    }
}

impl LevelFilter {
    /// Reads a filter name, in any case: `all` (or nothing), `warn` or
    /// `warning`, `error` or `err`.
    pub fn parse(s: &str) -> (r: Result<Self, String>)
        ensures
            match r {
                Ok(f) => level_filter_named(unicode_lower(s@)) == Some(f),
                Err(msg) => level_filter_named(unicode_lower(s@)) is None && msg@ == "unknown level filter '"@
                    + unicode_lower(s@) + "' (expected: all, warn, error)"@,
            },
    {
        let t = crate::text::to_lower(s);
        let ts = t.as_str();
        if str_eq(ts, "all") || str_eq(ts, "") {
            Ok(LevelFilter::All)
        } else if str_eq(ts, "warn") || str_eq(ts, "warning") {
            Ok(LevelFilter::WarnAndAbove)
        } else if str_eq(ts, "error") || str_eq(ts, "err") {
            Ok(LevelFilter::ErrorOnly)
        } else {
            Err(crate::text::concat3("unknown level filter '", ts, "' (expected: all, warn, error)"))
        }
    }

    /// Whether a record's level passes: warnings and errors, errors only, or
    /// everything.
    pub fn matches(&self, level: &str) -> (r: bool)
        ensures
            r == match self {
                LevelFilter::All => true,
                LevelFilter::WarnAndAbove => level@ == "warn"@ || level@ == "error"@,
                LevelFilter::ErrorOnly => level@ == "error"@,
            },
    {
        match self {
            LevelFilter::All => true,
            LevelFilter::WarnAndAbove => str_eq(level, "warn") || str_eq(level, "error"),
            LevelFilter::ErrorOnly => str_eq(level, "error"),
        }
    }
}

/// Seconds per unit of a duration suffix.
pub open spec fn suffix_seconds(c: char) -> Option<nat> {
    if c == 's' {
        Some(1)
    } else if c == 'm' {
        Some(60)
    } else if c == 'h' {
        Some(3600)
    } else if c == 'd' {
        Some(86_400)
    } else {
        None
    }
}

/// A duration `NN` followed by one of `s`, `m`, `h`, `d`, after trimming,
/// as seconds; `None` for what is refused.
pub open spec fn duration_value(s: Seq<char>) -> Option<nat> {
    let t = trim(s);
    if t.len() == 0 {
        None
    } else {
        let num = t.drop_last();
        if !parses_u64(num) {
            None
        } else {
            match suffix_seconds(t.last()) {
                Some(f) => Some(u64_value(num) * f),
                None => None,
            }
        }
    }
}

/// Whether `parse_duration` can read `s` without failing midway: the
/// trimmed text is empty or ends in a one-byte character, and the number
/// of seconds fits in 64 bits.
pub open spec fn duration_in_range(s: Seq<char>) -> bool {
    let t = trim(s);
    &&& (t.len() == 0 || (t.last() as u32) < 0x80)
    &&& match duration_value(s) {
        Some(v) => v <= u64::MAX,
        None => true,
    }
}

/// Reads a duration such as `30s`, `15m`, `1h` or `7d` as seconds.
pub fn parse_duration(s: &str) -> (r: Result<u64, String>)
    requires
        duration_in_range(s@),
    ensures
        match r {
            Ok(v) => duration_value(s@) == Some(v as nat),
            Err(msg) => duration_value(s@) is None && (if trim(s@).len() == 0 {
                msg@ == "empty duration"@
            } else if !parses_u64(trim(s@).drop_last()) {
                msg@ == "invalid duration '"@ + trim(s@) + "' (expected NNs/m/h/d)"@
            } else {
                msg@ == "invalid duration suffix '"@ + seq![trim(s@).last()]
                    + "' (use s/m/h/d)"@
            }),
        },
{
    let t = crate::text::str_trim(s);
    let cs = chars_of(t.as_str());
    if cs.len() == 0 {
        return Err(owned("empty duration"));
    }
    let last = cs[cs.len() - 1];
    let num = string_of(&cs.as_slice()[0..cs.len() - 1]);
    proof {
        assert(num@ =~= t@.drop_last());
        assert(last == trim(s@).last());
    }
    let n = match crate::text::parse_u64(num.as_str()) {
        Some(n) => n,
        None => {
            return Err(crate::text::concat3("invalid duration '", t.as_str(), "' (expected NNs/m/h/d)"));
        },
    };
    proof {
        assert(n as nat == u64_value(trim(s@).drop_last()));
        assert(parses_u64(trim(s@).drop_last()));
    }
    proof {
        assert(trim(s@).len() > 0);
    }
    if last == 's' {
        assert(suffix_seconds(last) == Some(1nat));
        assert(duration_value(s@) == Some(u64_value(trim(s@).drop_last()) * 1nat));
        Ok(n)
    } else if last == 'm' {
        assert(suffix_seconds(last) == Some(60nat));
        assert(duration_value(s@) == Some(u64_value(trim(s@).drop_last()) * 60nat));
        Ok(n * 60)
    } else if last == 'h' {
        assert(suffix_seconds(last) == Some(3600nat));
        assert(duration_value(s@) == Some(u64_value(trim(s@).drop_last()) * 3600nat));
        Ok(n * 3600)
    } else if last == 'd' {
        assert(suffix_seconds(last) == Some(86_400nat));
        assert(duration_value(s@) == Some(u64_value(trim(s@).drop_last()) * 86_400nat));
        Ok(n * 86_400)
    } else {
        let mut suffix = String::new();
        crate::text::push_char(&mut suffix, last);
        assert(suffix@ =~= seq![last]);
        Err(crate::text::concat3("invalid duration suffix '", suffix.as_str(), "' (use s/m/h/d)"))
    }
}

/// The tag a history line's level is shown with.
pub open spec fn level_tag(level: Seq<char>) -> Seq<char> {
    if level == "error"@ {
        "[ERR ]"@
    } else if level == "warn"@ {
        "[WARN]"@
    } else if level == "info"@ {
        "[INFO]"@
    } else if level == "debug"@ {
        "[DBG ]"@
    } else {
        "[----]"@
    }
}

/// A history record as text: `YYYY-MM-DDTHH:MM:SS [TAG] unit | message`.
pub open spec fn record_text(secs: nat, unit: Seq<char>, level: Seq<char>, message: Seq<char>) -> Seq<char> {
    let (y, mo, d) = civil_from_days(secs / 86_400);
    year_text(y as i32) + "-"@ + zero_pad(mo, 2) + "-"@ + zero_pad(d, 2) + "T"@ + zero_pad(
        (secs % 86_400) / 3600,
        2,
    ) + ":"@ + zero_pad((secs / 60) % 60, 2) + ":"@ + zero_pad(secs % 60, 2) + " "@ + level_tag(level)
        + " "@ + unit + " | "@ + message
}

/// Renders a history record whose time is `secs` whole seconds since the
/// epoch.
pub fn format_record(secs: u64, unit: &str, level: &str, message: &str) -> (r: String)
    requires
        secs <= i64::MAX,
    ensures
        r@ == record_text(secs as nat, unit@, level@, message@),
{
    let (y, mo, d, h) = utc_ymdh(secs);
    let m = (secs / 60) % 60;
    let sec = secs % 60;
    let tag = if str_eq(level, "error") {
        "[ERR ]"
    } else if str_eq(level, "warn") {
        "[WARN]"
    } else if str_eq(level, "info") {
        "[INFO]"
    } else if str_eq(level, "debug") {
        "[DBG ]"
    } else {
        "[----]"
    };
    let mut s = year_exec(y);
    push_str(&mut s, "-");
    push_str(&mut s, zero_padded(mo as u64, 2).as_str());
    push_str(&mut s, "-");
    push_str(&mut s, zero_padded(d as u64, 2).as_str());
    push_str(&mut s, "T");
    push_str(&mut s, zero_padded(h as u64, 2).as_str());
    push_str(&mut s, ":");
    push_str(&mut s, zero_padded(m, 2).as_str());
    push_str(&mut s, ":");
    push_str(&mut s, zero_padded(sec, 2).as_str());
    push_str(&mut s, " ");
    push_str(&mut s, tag);
    push_str(&mut s, " ");
    push_str(&mut s, unit);
    push_str(&mut s, " | ");
    push_str(&mut s, message);
    s
}

/// Where history is kept: `$ORKESY_STATE_DIR`, else `$XDG_STATE_HOME/orkesy`,
/// else `$HOME/.local/state/orkesy` when `$HOME/.local/state` exists or
/// `$HOME/.orkesy` when not, else `.orkesy`.
pub open spec fn state_root_text(
    state_dir: Option<Seq<char>>,
    xdg_state_home: Option<Seq<char>>,
    home: Option<Seq<char>>,
    local_state_exists: bool,
) -> Seq<char> {
    match state_dir {
        Some(p) => p,
        None => match xdg_state_home {
            Some(p) => path_join(p, "orkesy"@),
            None => match home {
                Some(h) => if local_state_exists {
                    path_join(h, ".local/state/orkesy"@)
                } else {
                    path_join(h, ".orkesy"@)
                },
                None => ".orkesy"@,
            },
        },
    }
}

pub open spec fn opt_str(o: Option<&str>) -> Option<Seq<char>> {
    match o {
        Some(s) => Some(s@),
        None => None,
    }
}

/// Picks the history root from the environment, as `state_root_text`
/// says; `local_state_exists` says whether `$HOME/.local/state` exists.
pub fn state_root(
    state_dir: Option<&str>,
    xdg_state_home: Option<&str>,
    home: Option<&str>,
    local_state_exists: bool,
) -> (r: String)
    ensures
        r@ == state_root_text(opt_str(state_dir), opt_str(xdg_state_home), opt_str(home), local_state_exists),
{
    match state_dir {
        Some(p) => owned(p),
        None => match xdg_state_home {
            Some(p) => join_path(p, "orkesy"),
            None => match home {
                Some(h) => {
                    if local_state_exists {
                        join_path(h, ".local/state/orkesy")
                    } else {
                        join_path(h, ".orkesy")
                    }
                },
                None => owned(".orkesy"),
            },
        },
    }
}

/// The directory of a project's history under the history root.
pub fn project_dir(state_root: &str, project_root: &str) -> (r: String)
    ensures
        r@ == path_join(
            path_join(state_root@, "projects"@),
            hex_fixed(fnv1a(project_root.spec_bytes()) as nat, 16).take(12),
        ),
{
    let projects = join_path(state_root, "projects");
    join_path(projects.as_str(), project_hash(project_root).as_str())
}


/// Lines written to a history file between flushes.
pub const FLUSH_EVERY_LINES: usize = 1000;

/// Seconds between flushes of a history file.
pub const FLUSH_EVERY_SECS: u64 = 5;

pub open spec fn stream_label(s: LogStream) -> Seq<char> {
    match s {
        LogStream::Stdout => "stdout"@,
        LogStream::Stderr => "stderr"@,
        LogStream::System => "system"@,
    }
}

pub open spec fn level_label(l: LogLevel) -> Seq<char> {
    match l {
        LogLevel::Debug => "debug"@,
        LogLevel::Info => "info"@,
        LogLevel::Warn => "warn"@,
        LogLevel::Error => "error"@,
    }
}

/// What a history record holds besides its time: the unit, the stream, the
/// detected level and the text.
#[derive(Debug)]
pub struct HistoryEntry {
    pub unit: String,
    pub stream: &'static str,
    pub level: &'static str,
    pub message: String,
}

/// The record of an event for the history: log lines only.
pub fn history_entry(env: &EventEnvelope) -> (r: Option<HistoryEntry>)
    ensures
        match env.event {
            RuntimeEvent::LogLine { id, stream, text } => r matches Some(e) && e.unit@ == id@
                && e.stream@ == stream_label(stream) && e.level@ == level_label(level_of(text@))
                && e.message@ == text@,
            _ => r is None,
        },
{
    match &env.event {
        RuntimeEvent::LogLine { id, stream, text } => {
            let s = match stream {
                LogStream::Stdout => "stdout",
                LogStream::Stderr => "stderr",
                LogStream::System => "system",
            };
            let l = match detect_level(text.as_str()) {
                LogLevel::Debug => "debug",
                LogLevel::Info => "info",
                LogLevel::Warn => "warn",
                LogLevel::Error => "error",
            };
            Some(HistoryEntry { unit: id.clone(), stream: s, level: l, message: text.clone() })
        },
        _ => None,
    }
}

/// A record for the hour file `bucket` needs a new file unless that file is
/// the one open.
pub fn needs_new_file(current: &Option<String>, bucket: &str) -> (r: bool)
    ensures
        r == !(current matches Some(c) && c@ == bucket@),
{
    match current {
        Some(c) => !str_eq(c.as_str(), bucket),
        None => true,
    }
}

/// The history file is flushed after `FLUSH_EVERY_LINES` lines or
/// `FLUSH_EVERY_SECS` seconds, whichever comes first.
pub fn should_flush(lines_since_flush: usize, secs_since_flush: u64) -> (r: bool)
    ensures
        r == (lines_since_flush >= FLUSH_EVERY_LINES || secs_since_flush >= FLUSH_EVERY_SECS),
{
    lines_since_flush >= FLUSH_EVERY_LINES || secs_since_flush >= FLUSH_EVERY_SECS
}

} // verus!
