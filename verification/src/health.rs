//! Health probes of units: how often they run, what they connect to and
//! what their outcome means.
use vstd::prelude::*;

use crate::doctor::before_sep;
use crate::lifecycle::{code_text, code_to_string};
use crate::model::HealthStatus;
use crate::text::{chars_of, occurs_at, owned, push_str, string_of};
use crate::unit::{HealthCheck, Unit};

verus! {

/// A periodic health probe of one service.
#[derive(Debug)]
pub struct HealthChecker {
    pub service_id: String,
    pub check: HealthCheck,
    pub port: Option<u16>,
}

pub open spec fn check_interval(c: HealthCheck) -> u64 {
    match c {
        HealthCheck::Http { interval_ms, .. } => interval_ms,
        HealthCheck::Tcp { interval_ms, .. } => interval_ms,
        HealthCheck::Exec { interval_ms, .. } => interval_ms,
    }
}

/// `s` with every leading copy of `p` taken off.
pub open spec fn strip_prefixes(s: Seq<char>, p: Seq<char>) -> Seq<char>
    decreases s.len(),
{
    if p.len() > 0 && occurs_at(s, p, 0) {
        strip_prefixes(s.skip(p.len() as int), p)
    } else {
        s
    }
}

/// The `host:port` an HTTP probe connects to when it only opens a TCP
/// connection: the URL without its scheme, up to the first `/`.
pub open spec fn http_target_text(url: Seq<char>) -> Seq<char> {
    before_sep(strip_prefixes(strip_prefixes(url, "http://"@), "https://"@), '/')
}

fn strip_prefixes_exec(s: &Vec<char>, p: &Vec<char>) -> (r: Vec<char>)
    ensures
        r@ == strip_prefixes(s@, p@),
{
    if p.len() == 0 {
        return s.clone();
    }
    let mut i: usize = 0;
    assert(s@.skip(0) =~= s@);
    while p.len() <= s.len() - i && crate::text::occurs_at_exec(s.as_slice(), p.as_slice(), i)
        invariant
            i <= s.len(),
            p@.len() > 0,
            strip_prefixes(s@.skip(i as int), p@) == strip_prefixes(s@, p@),
        decreases s.len() - i,
    {
        let ghost rest = s@.skip(i as int);
        proof {
            assert(rest.subrange(0, p@.len() as int) =~= s@.subrange(i as int, i + p@.len()));
            assert(occurs_at(rest, p@, 0));
            assert(rest.skip(p@.len() as int) =~= s@.skip(i + p@.len()));
        }
        i = i + p.len();
    }
    let ghost rest = s@.skip(i as int);
    proof {
        if occurs_at(rest, p@, 0) {
            assert(rest.subrange(0, p@.len() as int) =~= s@.subrange(i as int, i + p@.len()));
        }
    }
    let mut out: Vec<char> = Vec::new();
    let mut j: usize = i;
    while j < s.len()
        invariant
            i <= j <= s.len(),
            out@ == s@.subrange(i as int, j as int),
        decreases s.len() - j,
    {
        out.push(s[j]);
        j = j + 1;
        assert(out@ =~= s@.subrange(i as int, j as int));
    }
    assert(out@ =~= rest);
    out
}

fn before_slash(s: &Vec<char>) -> (r: Vec<char>)
    ensures
        r@ == before_sep(s@, '/'),
{
    let mut out: Vec<char> = Vec::new();
    let mut i: usize = 0;
    assert(s@.skip(0) =~= s@);
    assert(out@ + before_sep(s@, '/') =~= before_sep(s@, '/'));
    while i < s.len() && s[i] != '/'
        invariant
            i <= s.len(),
            out@ + before_sep(s@.skip(i as int), '/') == before_sep(s@, '/'),
        decreases s.len() - i,
    {
        let ghost o = out@;
        assert(s@.skip(i as int).drop_first() =~= s@.skip(i + 1));
        out.push(s[i]);
        assert(out@ + before_sep(s@.skip(i + 1), '/') =~= o + (seq![s@[i as int]] + before_sep(s@.skip(i + 1), '/')));
        i = i + 1;
    }
    assert(before_sep(s@.skip(i as int), '/') =~= Seq::<char>::empty());
    assert(out@ + Seq::<char>::empty() =~= out@);
    out
}

/// The health of a probe whose command exited with `code`.
pub open spec fn exec_health(success: bool, code: Option<i32>) -> (bool, Seq<char>) {
    if success {
        (true, seq![])
    } else {
        (false, "exit code: "@ + code_text(code))
    }
}

impl HealthChecker {
    pub fn new(service_id: String, check: HealthCheck, port: Option<u16>) -> (r: Self)
        ensures
            r.service_id == service_id,
            r.check == check,
            r.port == port,
    {
        HealthChecker { service_id, check, port }
    }

    /// How often the probe runs, in milliseconds.
    pub fn interval_ms(&self) -> (r: u64)
        ensures
            r == check_interval(self.check),
    {
        match &self.check {
            HealthCheck::Http { interval_ms, .. } => *interval_ms,
            HealthCheck::Tcp { interval_ms, .. } => *interval_ms,
            HealthCheck::Exec { interval_ms, .. } => *interval_ms,
        }
    }

    /// Where an HTTP probe connects when it only opens a connection.
    pub fn http_target(url: &str) -> (r: String)
        ensures
            r@ == http_target_text(url@),
    {
        let u = chars_of(url);
        let a = strip_prefixes_exec(&u, &chars_of("http://"));
        let b = strip_prefixes_exec(&a, &chars_of("https://"));
        string_of(before_slash(&b).as_slice())
    }

    /// The health a command probe reports: an empty command says nothing;
    /// otherwise healthy when the command succeeded, unhealthy with its
    /// exit code when not, or with the reason it could not run.
    pub fn exec_result(command: &str, outcome: Result<(bool, Option<i32>), String>) -> (r: HealthStatus)
        ensures
            command@.len() == 0 ==> r is Unknown,
            command@.len() > 0 ==> match outcome {
                Ok((success, code)) => if success {
                    r is Healthy
                } else {
                    r matches HealthStatus::Unhealthy { reason } && reason@ == "exit code: "@ + code_text(code)
                },
                Err(e) => r matches HealthStatus::Unhealthy { reason } && reason@ == e@,
            },
    {
        if chars_of(command).len() == 0 {
            return HealthStatus::Unknown;
        }
        match outcome {
            Ok((success, code)) => {
                if success {
                    HealthStatus::Healthy
                } else {
                    let mut reason = owned("exit code: ");
                    push_str(&mut reason, code_to_string(code).as_str());
                    HealthStatus::Unhealthy { reason }
                }
            },
            Err(e) => HealthStatus::Unhealthy { reason: e },
        }
    }

    /// The health a connection probe reports: healthy when it connected,
    /// unhealthy with the error, or after a timeout (`None`).
    pub fn connect_result(outcome: Option<Result<(), String>>) -> (r: HealthStatus)
        ensures
            match outcome {
                Some(Ok(())) => r is Healthy,
                Some(Err(e)) => r matches HealthStatus::Unhealthy { reason } && reason@ == e@,
                None => r matches HealthStatus::Unhealthy { reason } && reason@ == "connection timeout"@,
            },
    {
        match outcome {
            Some(Ok(())) => HealthStatus::Healthy,
            Some(Err(e)) => HealthStatus::Unhealthy { reason: e },
            None => HealthStatus::Unhealthy { reason: owned("connection timeout") },
        }
    }
}

/// The units that have a health check, in order.
pub open spec fn probed(us: Seq<Unit>) -> Seq<Unit> {
    us.filter(|u: Unit| u.health is Some)
}

/// The probes to start: one per unit with a health check, in order.
pub fn health_checkers(units: &[Unit]) -> (r: Vec<HealthChecker>)
    ensures
        r@.len() == probed(units@).len(),
        forall|i: int| 0 <= i < r@.len() ==> {
            let u = #[trigger] probed(units@)[i];
            &&& r@[i].service_id@ == u.id@
            &&& Some(r@[i].check) == u.health
            &&& r@[i].port == u.port
        },
{
    let ghost p = |u: Unit| u.health is Some;
    let mut out: Vec<HealthChecker> = Vec::new();
    let mut i: usize = 0;
    while i < units.len()
        invariant
            i <= units.len(),
            p == (|u: Unit| u.health is Some),
            out@.len() == probed(units@.take(i as int)).len(),
            forall|k: int| 0 <= k < out@.len() ==> {
                let u = #[trigger] probed(units@.take(i as int))[k];
                &&& out@[k].service_id@ == u.id@
                &&& Some(out@[k].check) == u.health
                &&& out@[k].port == u.port
            },
        decreases units.len() - i,
    {
        proof {
            crate::command::lemma_filter_step(units@, p, i as int);
        }
        let u = &units[i];
        match &u.health {
            Some(check) => {
                let c = check.clone();
                assert(c == *check);
                out.push(HealthChecker::new(u.id.clone(), c, u.port));
            },
            None => {},
        }
        i = i + 1;
    }
    assert(units@.take(units.len() as int) =~= units@);
    out
}

} // verus!
