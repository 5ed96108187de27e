//! When to probe, and how long to wait until the next time.

use crate::account::cookie_lock::RoutingCookie;
use crate::account::turn_state::{TurnStateBucket, TurnStateConfig};
use crate::probe::plan::ProbeOutcome;
use vstd::prelude::*;

verus! {

/// What a cycle does with a bucket first.
#[derive(Debug, Clone, Copy, PartialEq, Eq, Structural)]
pub enum FirstStep {
    /// Nothing: it has a ticket that is young enough.
    Done,
    /// Claim the probe that was asked for by hand, and make it if it was claimed.
    ClaimManual,
    /// Put the candidate to use, if there is one; that ends the hunt.
    TryInstall,
    /// See whether a probe is due.
    ConsiderProbe,
}

/// A cycle looks at a bucket when tickets or cookies are kept for it, or a probe
/// was asked for by hand.
pub open spec fn is_attended(bucket: TurnStateBucket) -> bool {
    bucket.config.enabled || bucket.config.cookie_lock_enabled
        || bucket.manual_probe_requested_at is Some
}

pub fn wants_attention(bucket: &TurnStateBucket) -> (r: bool)
    ensures
        r == is_attended(*bucket),
{
    bucket.config.enabled || bucket.config.cookie_lock_enabled
        || bucket.manual_probe_requested_at.is_some()
}

pub open spec fn first_step_of(bucket: TurnStateBucket, now: int) -> FirstStep {
    if bucket.manual_probe_requested_at is Some {
        FirstStep::ClaimManual
    } else if bucket.config.cookie_lock_enabled {
        FirstStep::ConsiderProbe
    } else if bucket.has_installed_token(now) && bucket.current->0.fresh(
        now,
        bucket.config.refresh_after_seconds as int,
    ) {
        FirstStep::Done
    } else {
        FirstStep::TryInstall
    }
}

pub fn first_step(bucket: &TurnStateBucket, now: i64) -> (r: FirstStep)
    ensures
        r == first_step_of(*bucket, now as int),
{
    if bucket.manual_probe_requested_at.is_some() {
        return FirstStep::ClaimManual;
    }
    if bucket.config.cookie_lock_enabled {
        return FirstStep::ConsiderProbe;
    }
    match bucket.installed_token(now) {
        Some(token) => if token.is_fresh(now, bucket.config.refresh_after_seconds) {
            FirstStep::Done
        } else {
            FirstStep::TryInstall
        },
        None => FirstStep::TryInstall,
    }
}

/// How many of the first cookies the upstream would serve this model under.
pub open spec fn usable_cookies(cookies: Seq<RoutingCookie>, model: Seq<char>, now: int) -> nat
    decreases cookies.len(),
{
    if cookies.len() == 0 {
        0
    } else {
        usable_cookies(cookies.drop_last(), model, now) + if cookies.last().usable(model, now) {
            1nat
        } else {
            0nat
        }
    }
}

/// So many cookies are enough.
pub const ENOUGH_COOKIES: usize = 3;

/// A probe is due: there are too few cookies or one of them is about to expire,
/// where cookies are kept, and the time that was set has come.
pub open spec fn probe_is_due(bucket: TurnStateBucket, now: int) -> bool {
    let enough = bucket.config.cookie_lock_enabled && bucket.cookie_to_renew(
        bucket.routing_cookies@.len() as int,
        now,
    ) is None && usable_cookies(bucket.routing_cookies@, bucket.model@, now) >= ENOUGH_COOKIES;
    !enough && (bucket.next_probe_at is None || bucket.next_probe_at->0 <= now)
}

fn count_usable(bucket: &TurnStateBucket, now: i64) -> (r: usize)
    ensures
        r == usable_cookies(bucket.routing_cookies@, bucket.model@, now as int),
{
    let ghost all = bucket.routing_cookies@;
    let mut count: usize = 0;
    let mut i: usize = 0;
    proof {
        assert(all.take(0) =~= Seq::empty());
    }
    while i < bucket.routing_cookies.len()
        invariant
            i <= bucket.routing_cookies@.len(),
            all == bucket.routing_cookies@,
            count <= i,
            count == usable_cookies(all.take(i as int), bucket.model@, now as int),
        decreases bucket.routing_cookies@.len() - i,
    {
        proof {
            assert(all.take(i + 1).drop_last() =~= all.take(i as int));
            assert(all.take(i + 1).last() == all[i as int]);
        }
        if bucket.routing_cookies[i].is_usable(bucket.model.as_str(), now) {
            count += 1;
        }
        i += 1;
    }
    proof {
        assert(all.take(all.len() as int) =~= all);
    }
    count
}

pub fn probes_now(bucket: &TurnStateBucket, now: i64) -> (r: bool)
    requires
        bucket.config.cookie_lock_enabled ==> bucket.renewal_is_in_range(now as int),
    ensures
        r == probe_is_due(*bucket, now as int),
{
    if bucket.config.cookie_lock_enabled && !bucket.cookie_renewal_due(now) && count_usable(
        bucket,
        now,
    ) >= ENOUGH_COOKIES {
        return false;
    }
    match bucket.next_probe_at {
        Some(next) => next <= now,
        None => true,
    }
}

/// The hunt is over: a ticket is in use. Cookies are gathered on.
pub open spec fn is_over(config: TurnStateConfig, outcome: ProbeOutcome) -> bool {
    !config.cookie_lock_enabled && outcome == ProbeOutcome::Installed
}

pub fn ends_hunt(config: &TurnStateConfig, outcome: ProbeOutcome) -> (r: bool)
    ensures
        r == is_over(*config, outcome),
{
    !config.cookie_lock_enabled && outcome == ProbeOutcome::Installed
}

/// What came of a step of a cycle.
#[derive(Debug, Clone, Copy, PartialEq, Eq, Structural)]
pub enum StepResult {
    /// The probe that was asked for by hand was claimed, or someone else has it.
    Claimed(bool),
    /// The candidate was put to use, or there was none.
    Installed(bool),
    /// There was nothing to do before a probe.
    Considered,
    /// A probe came to its end.
    Probed { manual: bool, outcome: ProbeOutcome },
}

/// What a cycle does with a bucket next.
#[derive(Debug, Clone, Copy, PartialEq, Eq, Structural)]
pub enum NextStep {
    Done,
    Probe { manual: bool },
    /// Set the time of the next probe.
    Schedule,
}

pub open spec fn next_step_of(bucket: TurnStateBucket, result: StepResult, now: int) -> NextStep {
    match result {
        StepResult::Claimed(true) => NextStep::Probe { manual: true },
        StepResult::Claimed(false) | StepResult::Installed(true) => NextStep::Done,
        StepResult::Installed(false) | StepResult::Considered => if probe_is_due(bucket, now) {
            NextStep::Probe { manual: false }
        } else {
            NextStep::Done
        },
        StepResult::Probed { manual, outcome } => if manual || is_over(bucket.config, outcome) {
            NextStep::Done
        } else {
            NextStep::Schedule
        },
    }
}

/// The step that follows. A probe made by hand is neither repeated nor followed
/// by another.
pub fn next_step(bucket: &TurnStateBucket, result: StepResult, now: i64) -> (r: NextStep)
    requires
        bucket.config.cookie_lock_enabled ==> bucket.renewal_is_in_range(now as int),
    ensures
        r == next_step_of(*bucket, result, now as int),
{
    match result {
        StepResult::Claimed(claimed) => if claimed {
            NextStep::Probe { manual: true }
        } else {
            NextStep::Done
        },
        StepResult::Installed(true) => NextStep::Done,
        StepResult::Installed(false) | StepResult::Considered => if probes_now(bucket, now) {
            NextStep::Probe { manual: false }
        } else {
            NextStep::Done
        },
        StepResult::Probed { manual, outcome } => if manual || ends_hunt(&bucket.config, outcome) {
            NextStep::Done
        } else {
            NextStep::Schedule
        },
    }
}

/// How many probes a cycle makes of a bucket. `claimed` and `installed` say what
/// came of the first step where it is one of these.
pub open spec fn probes_made(
    bucket: TurnStateBucket,
    claimed: bool,
    installed: bool,
    now: int,
) -> nat {
    if !is_attended(bucket) {
        0
    } else {
        let result = match first_step_of(bucket, now) {
            FirstStep::Done => None,
            FirstStep::ClaimManual => Some(StepResult::Claimed(claimed)),
            FirstStep::TryInstall => Some(StepResult::Installed(installed)),
            FirstStep::ConsiderProbe => Some(StepResult::Considered),
        };
        if result is Some && next_step_of(bucket, result->0, now) is Probe {
            1
        } else {
            0
        }
    }
}

/// After a probe that was not made, or with which a round of probes is used up,
/// there is a long break.
pub open spec fn takes_break(bucket: TurnStateBucket, outcome: ProbeOutcome) -> bool {
    outcome == ProbeOutcome::Skipped || (bucket.config.budget > 0 && (bucket.hunt_attempts + 1) % (
    bucket.config.budget as int) == 0)
}

pub open spec fn wait_after(bucket: TurnStateBucket, outcome: ProbeOutcome, jitter: int) -> int {
    if takes_break(bucket, outcome) {
        bucket.config.idle_seconds as int
    } else {
        bucket.config.retry_seconds + jitter
    }
}

/// How many numbers the jitter is drawn from.
pub fn jitter_range(config: &TurnStateConfig) -> (r: usize)
    requires
        config.jitter_seconds < usize::MAX,
    ensures
        r == config.jitter_seconds + 1,
{
    config.jitter_seconds as usize + 1
}

fn is_break(bucket: &TurnStateBucket, outcome: ProbeOutcome) -> (r: bool)
    requires
        outcome != ProbeOutcome::Skipped ==> bucket.hunt_attempts < u64::MAX,
    ensures
        r == takes_break(*bucket, outcome),
{
    if outcome == ProbeOutcome::Skipped {
        return true;
    }
    if bucket.config.budget == 0 {
        return false;
    }
    let next: u64 = bucket.hunt_attempts + 1;
    next % bucket.config.budget as u64 == 0
}

/// How long to wait after a probe, in seconds. `jitter` is a draw below the range
/// of the jitter.
pub fn delay_after(bucket: &TurnStateBucket, outcome: ProbeOutcome, jitter: usize) -> (r: u64)
    requires
        outcome != ProbeOutcome::Skipped ==> bucket.hunt_attempts < u64::MAX,
        !takes_break(*bucket, outcome) ==> bucket.config.retry_seconds + jitter <= u64::MAX,
    ensures
        r == wait_after(*bucket, outcome, jitter as int),
{
    if is_break(bucket, outcome) {
        bucket.config.idle_seconds
    } else {
        bucket.config.retry_seconds + jitter as u64
    }
}

/// When the first of the usable cookies expires.
pub open spec fn first_expiry(cookies: Seq<RoutingCookie>, model: Seq<char>, now: int) -> Option<
    int,
>
    decreases cookies.len(),
{
    if cookies.len() == 0 {
        None
    } else {
        let before = first_expiry(cookies.drop_last(), model, now);
        let last = cookies.last();
        if last.usable(model, now) && (before is None || last.expires_at < before->0) {
            Some(last.expires_at as int)
        } else {
            before
        }
    }
}

/// How long a wait may be without missing the time to renew a cookie: until that
/// time, or half of what is left of the cookie's life.
pub open spec fn longest_wait(remaining: int, refresh_before: int) -> int {
    let before_refresh = remaining - refresh_before;
    let cap = if before_refresh > 0 {
        before_refresh
    } else if remaining < 2 {
        1
    } else {
        remaining / 2
    };
    if cap < 1 {
        1
    } else {
        cap
    }
}

pub fn expiry_of_first(cookies: &Vec<RoutingCookie>, model: &str, now: i64) -> (r: Option<i64>)
    ensures
        match r {
            Some(time) => first_expiry(cookies@, model@, now as int) == Some(time as int) && now
                < time,
            None => first_expiry(cookies@, model@, now as int) is None,
        },
{
    let ghost all = cookies@;
    let mut found: Option<i64> = None;
    let mut i: usize = 0;
    proof {
        assert(all.take(0) =~= Seq::empty());
    }
    while i < cookies.len()
        invariant
            i <= cookies@.len(),
            all == cookies@,
            match found {
                Some(time) => first_expiry(all.take(i as int), model@, now as int) == Some(
                    time as int,
                ) && now < time,
                None => first_expiry(all.take(i as int), model@, now as int) is None,
            },
        decreases cookies@.len() - i,
    {
        proof {
            assert(all.take(i + 1).drop_last() =~= all.take(i as int));
            assert(all.take(i + 1).last() == all[i as int]);
        }
        if cookies[i].is_usable(model, now) {
            match found {
                Some(time) => {
                    if cookies[i].expires_at < time {
                        found = Some(cookies[i].expires_at);
                    }
                },
                None => {
                    found = Some(cookies[i].expires_at);
                },
            }
        }
        i += 1;
    }
    proof {
        assert(all.take(all.len() as int) =~= all);
    }
    found
}

/// The wait, cut so that the cookie that expires first is renewed in time.
pub fn cap_delay(
    delay: u64,
    cookies: &Vec<RoutingCookie>,
    model: &str,
    config: &TurnStateConfig,
    now: i64,
) -> (r: u64)
    requires
        first_expiry(cookies@, model@, now as int) is Some ==> {
            let remaining = first_expiry(cookies@, model@, now as int)->0 - now;
            remaining <= i64::MAX && i64::MIN <= remaining - (
            config.cookie_refresh_before_seconds as i64) <= i64::MAX
        },
    ensures
        r == (match first_expiry(cookies@, model@, now as int) {
            Some(time) => {
                let longest = longest_wait(
                    time - now,
                    (config.cookie_refresh_before_seconds as i64) as int,
                );
                if longest < delay {
                    longest
                } else {
                    delay as int
                }
            },
            None => delay as int,
        }),
{
    let expiry: i64 = match expiry_of_first(cookies, model, now) {
        Some(time) => time,
        None => {
            return delay;
        },
    };
    let remaining: i64 = expiry - now;
    let before_refresh: i64 = remaining - config.cookie_refresh_before_seconds as i64;
    let cap: i64 = if before_refresh > 0 {
        before_refresh
    } else if remaining < 2 {
        1
    } else {
        remaining / 2
    };
    let cap: u64 = if cap < 1 {
        1
    } else {
        cap as u64
    };
    if cap < delay {
        cap
    } else {
        delay
    }
}

/// The time of the next probe.
pub fn next_probe_time(now: i64, delay: u64) -> (r: i64)
    requires
        delay <= i64::MAX,
        now + delay <= i64::MAX,
    ensures
        r == now + delay,
{
    now + delay as i64
}

/// A wait that was cut ends before the cookie that it was cut for expires, unless
/// the cookie has no more than a second to live.
pub proof fn a_cut_wait_ends_before_the_cookie_expires(remaining: int, refresh_before: int)
    requires
        remaining > 1,
        refresh_before >= 0,
    ensures
        1 <= longest_wait(remaining, refresh_before) <= remaining,
        refresh_before > 0 ==> longest_wait(remaining, refresh_before) < remaining,
{
}

/// A valid configuration never makes the wait longer than a day.
pub proof fn waits_are_bounded(bucket: TurnStateBucket, outcome: ProbeOutcome, jitter: int)
    requires
        bucket.config.valid(),
        0 <= jitter <= bucket.config.jitter_seconds,
    ensures
        1 <= wait_after(bucket, outcome, jitter) <= 86400,
{
}

} // verus!
