//! Wall-clock time.
//!
//! `SystemTime` values are carried through the library as they are; nothing
//! in the library's logic depends on their contents except through the whole
//! seconds these functions read off them.
use vstd::prelude::*;

use std::time::SystemTime;

verus! {

#[verifier::external_type_specification]
#[verifier::external_body]
pub struct ExSystemTime(std::time::SystemTime);

/// `SystemTime`'s `clone`: `SystemTime` is `Copy`, so the clone is the same
/// value.
pub assume_specification[ <std::time::SystemTime as std::clone::Clone>::clone ](
    t: &std::time::SystemTime,
) -> (r: std::time::SystemTime)
    ensures
        r == *t,
;

/// `SystemTime::now()`.  The time depends on the machine's clock, so nothing
/// is claimed about it.
#[verifier::external_body]
pub(crate) fn now() -> SystemTime {
    SystemTime::now()
}

/// `SystemTime::UNIX_EPOCH`.
#[verifier::external_body]
pub(crate) fn unix_epoch() -> SystemTime {
    SystemTime::UNIX_EPOCH
}

/// The time from `start` to `end` that `end.duration_since(start)` gives, a
/// zero duration when `end` is earlier.  It depends on the two instants
/// alone; what it is for given instants is not modelled.
pub uninterp spec fn elapsed(start: SystemTime, end: SystemTime) -> std::time::Duration;

/// `end.duration_since(*start)`, with an instant before `start` counted as a
/// zero duration (`unwrap_or_default`): the result is `elapsed` of the two
/// instants.  Nothing more is claimed: `SystemTime` carries no model here.
#[verifier::external_body]
pub(crate) fn elapsed_between(start: &SystemTime, end: &SystemTime) -> (r: std::time::Duration)
    ensures
        r == elapsed(*start, *end),
{
    end.duration_since(*start).unwrap_or_default()
}

/// The whole seconds of a duration, as `Duration::as_secs` gives them.
pub uninterp spec fn whole_secs(d: std::time::Duration) -> u64;

/// `Duration::as_secs`: the whole seconds of a duration, `whole_secs` of
/// it.  `Duration` carries no model here, so nothing more is claimed.
#[verifier::external_body]
pub(crate) fn duration_secs(d: &std::time::Duration) -> (r: u64)
    ensures
        r == whole_secs(*d),
{
    d.as_secs()
}

/// The time since the epoch that `t.duration_since(UNIX_EPOCH).ok()` gives:
/// `None` for an instant before the epoch.  It depends on the instant alone.
pub uninterp spec fn since_epoch_of(t: SystemTime) -> Option<std::time::Duration>;

/// `t.duration_since(UNIX_EPOCH)`, `None` for an instant before the epoch:
/// `since_epoch_of` the instant.  `SystemTime` carries no model here, so
/// nothing more is claimed.
#[verifier::external_body]
pub(crate) fn since_epoch(t: &SystemTime) -> (r: Option<std::time::Duration>)
    ensures
        r == since_epoch_of(*t),
{
    t.duration_since(SystemTime::UNIX_EPOCH).ok()
}

} // verus!
