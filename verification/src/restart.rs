//! When a local process that exited is started again.
//!
//! A service is restarted according to its restart policy, at most
//! `MAX_RESTARTS` times in a window of `RESTART_WINDOW_SECS` seconds, with a
//! delay that doubles from one restart of the window to the next
//! (exponential backoff).  Time is given in milliseconds of a monotonic
//! clock.
use vstd::prelude::*;

use crate::config::RestartPolicy;

verus! {

/// Restarts allowed in one window.
pub const MAX_RESTARTS: u32 = 3;

/// Length of the restart window, in seconds.
pub const RESTART_WINDOW_SECS: u64 = 60;

/// Restarts of one service in the current window.
#[derive(Clone, Copy, Debug)]
pub struct RestartTracker {
    pub count: u32,
    pub window_start_ms: u64,
}

/// Whether a window that began at `start` has run out at `now` (whole
/// seconds elapsed, counting a clock that went back as no time).
pub open spec fn window_over(start: u64, now: u64, window_secs: u64) -> bool {
    now >= start && (now - start) / 1000 >= window_secs
}

/// One restart request at `now`: the count starts over once the window has
/// run out, and a restart is allowed (and counted) while fewer than
/// `max_restarts` were made in the window.
pub open spec fn restart_step(t: RestartTracker, max_restarts: u32, window_secs: u64, now: u64) -> (RestartTracker, bool) {
    let over = window_over(t.window_start_ms, now, window_secs);
    let base = if over {
        0u32
    } else {
        t.count
    };
    let start = if over {
        now
    } else {
        t.window_start_ms
    };
    if base < max_restarts {
        (RestartTracker { count: (base + 1) as u32, window_start_ms: start }, true)
    } else {
        (RestartTracker { count: base, window_start_ms: start }, false)
    }
}

impl RestartTracker {
    /// No restarts yet; the window begins now.
    pub fn new(now_ms: u64) -> (r: Self)
        ensures
            r.count == 0,
            r.window_start_ms == now_ms,
    {
        RestartTracker { count: 0, window_start_ms: now_ms }
    }

    /// Whether one more restart is allowed at `now_ms`, counting it when it
    /// is (`restart_step`).
    pub fn can_restart(&mut self, max_restarts: u32, window_secs: u64, now_ms: u64) -> (r: bool)
        ensures
            (*final(self), r) == restart_step(*old(self), max_restarts, window_secs, now_ms),
    {
        if now_ms >= self.window_start_ms && (now_ms - self.window_start_ms) / 1000 >= window_secs {
            self.count = 0;
            self.window_start_ms = now_ms;
        }
        if self.count < max_restarts {
            self.count = self.count + 1;
            true
        } else {
            false
        }
    }
}

/// How many of a series of restart requests are allowed.
pub open spec fn allowed_count(t: RestartTracker, max_restarts: u32, window_secs: u64, nows: Seq<u64>) -> nat
    decreases nows.len(),
{
    if nows.len() == 0 {
        0
    } else {
        let (t2, ok) = restart_step(t, max_restarts, window_secs, nows[0]);
        (if ok {
            1nat
        } else {
            0nat
        }) + allowed_count(t2, max_restarts, window_secs, nows.drop_first())
    }
}

/// Within one window no more than `max_restarts` restarts are allowed: of
/// any series of requests made before the window runs out, at most as many
/// as are left are allowed.
pub proof fn law_restarts_bounded_in_window(t: RestartTracker, max_restarts: u32, window_secs: u64, nows: Seq<u64>)
    requires
        t.count <= max_restarts,
        forall|i: int| 0 <= i < nows.len() ==> !window_over(t.window_start_ms, #[trigger] nows[i], window_secs),
    ensures
        allowed_count(t, max_restarts, window_secs, nows) <= max_restarts - t.count,
    decreases nows.len(),
{
    if nows.len() > 0 {
        let (t2, ok) = restart_step(t, max_restarts, window_secs, nows[0]);
        assert(!window_over(t.window_start_ms, nows[0], window_secs));
        assert forall|i: int| 0 <= i < nows.drop_first().len() implies !window_over(
            t2.window_start_ms,
            #[trigger] nows.drop_first()[i],
            window_secs,
        ) by {
            assert(nows.drop_first()[i] == nows[i + 1]);
        }
        law_restarts_bounded_in_window(t2, max_restarts, window_secs, nows.drop_first());
    }
}

/// Whether a policy restarts a process that exited with `code`: always,
/// on any exit but a clean one, or never.
pub open spec fn policy_restarts(policy: RestartPolicy, code: Option<i32>) -> bool {
    match policy {
        RestartPolicy::Always => true,
        RestartPolicy::OnFailure => code != Some(0i32),
        RestartPolicy::Never => false,
    }
}

pub fn should_restart(policy: RestartPolicy, code: Option<i32>) -> (r: bool)
    ensures
        r == policy_restarts(policy, code),
{
    match policy {
        RestartPolicy::Always => true,
        RestartPolicy::OnFailure => match code {
            Some(0) => false,
            _ => true,
        },
        RestartPolicy::Never => false,
    }
}

/// What to do about a process that exited.
#[derive(Clone, Copy, Debug, PartialEq, Eq, Structural)]
pub enum ExitDecision {
    /// Start it again after `delay_ms`; this is restart `attempt` of the
    /// window.
    Restart { delay_ms: u64, attempt: u32 },
    /// The policy asks for a restart but the window's restarts are used up.
    LimitReached,
    /// The policy does not restart it.
    Stay,
}

/// The delay of the first restart of a window when none is configured.
pub const DEFAULT_RESTART_DELAY_MS: u64 = 1000;

/// `2^(attempt - 1)`: how many times the base delay restart `attempt` of a
/// window waits.
pub open spec fn backoff_factor(attempt: nat) -> nat
    decreases attempt,
{
    if attempt <= 1 {
        1
    } else {
        2 * backoff_factor((attempt - 1) as nat)
    }
}

/// The delay before restart `attempt` of a window: the base delay times
/// `2^(attempt - 1)`, held at `u64::MAX` when that is larger.
pub open spec fn backoff_delay(base: u64, attempt: nat) -> u64 {
    if base * backoff_factor(attempt) <= u64::MAX {
        (base * backoff_factor(attempt)) as u64
    } else {
        u64::MAX
    }
}

/// The configured delay, or the default one.
pub open spec fn base_delay(restart_delay_ms: Option<u64>) -> u64 {
    match restart_delay_ms {
        Some(d) => d,
        None => DEFAULT_RESTART_DELAY_MS,
    }
}

/// Each restart of a window waits twice as long as the one before it,
/// until the delay reaches `u64::MAX`.
pub proof fn law_backoff_doubles(base: u64, attempt: nat)
    requires
        attempt >= 1,
    ensures
        backoff_delay(base, attempt + 1) >= backoff_delay(base, attempt),
        2 * backoff_delay(base, attempt) <= u64::MAX ==> backoff_delay(base, attempt + 1) == 2
            * backoff_delay(base, attempt),
        backoff_delay(base, 1) == base,
{
    let f = backoff_factor(attempt);
    assert(backoff_factor(attempt + 1) == 2 * f);
    assert(base * (2 * f) == 2 * (base * f)) by (nonlinear_arith);
    assert(backoff_factor(1) == 1);
    assert(base * 1 == base);
}

/// Decides about a process that exited with `code`, counting the restart
/// in `tracker` when one is made.  Restart `k` of the window waits the base
/// delay (the configured one, one second by default) times `2^(k - 1)`.
pub fn decide_exit(
    policy: RestartPolicy,
    restart_delay_ms: Option<u64>,
    code: Option<i32>,
    tracker: &mut RestartTracker,
    now_ms: u64,
) -> (r: ExitDecision)
    ensures
        !policy_restarts(policy, code) ==> r == ExitDecision::Stay && *final(tracker) == *old(tracker),
        policy_restarts(policy, code) ==> {
            let (t2, ok) = restart_step(*old(tracker), MAX_RESTARTS, RESTART_WINDOW_SECS, now_ms);
            &&& *final(tracker) == t2
            &&& r == (if ok {
                ExitDecision::Restart {
                    delay_ms: backoff_delay(base_delay(restart_delay_ms), t2.count as nat),
                    attempt: t2.count,
                }
            } else {
                ExitDecision::LimitReached
            })
        },
{
    if !should_restart(policy, code) {
        return ExitDecision::Stay;
    }
    let allowed = tracker.can_restart(MAX_RESTARTS, RESTART_WINDOW_SECS, now_ms);
    if allowed {
        let base = match restart_delay_ms {
            Some(d) => d,
            None => DEFAULT_RESTART_DELAY_MS,
        };
        let attempt = tracker.count;
        assert(1 <= attempt <= MAX_RESTARTS);
        let factor: u64 = if attempt <= 1 {
            1
        } else if attempt == 2 {
            2
        } else {
            4
        };
        proof {
            reveal_with_fuel(backoff_factor, 3);
            assert(factor == backoff_factor(attempt as nat));
        }
        let delay_ms = match base.checked_mul(factor) {
            Some(d) => d,
            None => u64::MAX,
        };
        ExitDecision::Restart { delay_ms, attempt }
    } else {
        ExitDecision::LimitReached
    }
}

/// A service whose policy is `never` is never restarted, whatever its exit
/// code; `always` restarts on every exit; `on-failure` leaves a clean exit
/// (code 0) alone and restarts on any other exit, a kill by a signal (no
/// code) included.  The policies are ordered: whatever `never` restarts
/// `on-failure` restarts, and whatever `on-failure` restarts `always`
/// restarts.
pub proof fn law_restart_policies(code: Option<i32>, c: i32)
    ensures
        !policy_restarts(RestartPolicy::Never, code),
        policy_restarts(RestartPolicy::Always, code),
        !policy_restarts(RestartPolicy::OnFailure, Some(0i32)),
        c != 0 ==> policy_restarts(RestartPolicy::OnFailure, Some(c)),
        policy_restarts(RestartPolicy::OnFailure, None),
        policy_restarts(RestartPolicy::Never, code) ==> policy_restarts(RestartPolicy::OnFailure, code),
        policy_restarts(RestartPolicy::OnFailure, code) ==> policy_restarts(RestartPolicy::Always, code),
{
}

} // verus!
