//! What schedulers and administrators see of a stored ticket.

use crate::account::cookie_lock::{gateway_or_empty, RoutingCookie, RoutingCookieStatus};
use crate::account::provider::ProviderAccount;
use crate::account::turn_state::{
    MissingTurnStatePolicy, TurnStateBucket, TurnStateBusinessStatus,
    TurnStateInstallation, TurnStateObservation, TurnStateStatus, TurnStateToken,
};
use crate::store::ticket::{HistoryEntry, TicketRow};
use crate::text::{
    byte_len, byte_length, clone_optional, optional_text, same_optional_text, same_text,
};
use vstd::prelude::*;

verus! {

/// A ticket out of the row, as long as it is fresh.
pub open spec fn is_shown_ticket(
    shown: Option<TurnStateToken>,
    value: Option<String>,
    issued_at: Option<i64>,
    ttl_seconds: int,
    now: int,
) -> bool {
    if value is Some && issued_at is Some && 0 < issued_at->0 <= now && now - issued_at->0
        < ttl_seconds {
        shown == Some(TurnStateToken { value: value->0, issued_at: issued_at->0 })
    } else {
        shown is None
    }
}

fn fresh_ticket(value: &Option<String>, issued_at: Option<i64>, ttl_seconds: u64, now: i64) -> (r:
    Option<TurnStateToken>)
    ensures
        is_shown_ticket(r, *value, issued_at, ttl_seconds as int, now as int),
{
    if let (Some(value), Some(issued_at)) = (value, issued_at) {
        let token = TurnStateToken { value: value.clone(), issued_at };
        if token.is_fresh(now, ttl_seconds) {
            return Some(token);
        }
    }
    None
}

impl TicketRow {
    /// The bucket is the row as schedulers use it, with the cookies that can be sent.
    pub open spec fn is_shown_as(
        self,
        r: TurnStateBucket,
        routing_cookies: Vec<RoutingCookie>,
        now: int,
    ) -> bool {
        &&& r.account_id@ == self.account_id@
        &&& optional_text(r.upstream_account_id) == optional_text(self.upstream_account_id)
        &&& optional_text(r.upstream_user_id) == optional_text(self.upstream_user_id)
        &&& r.model@ == self.model@
        &&& r.config.same_as(self.config)
        &&& r.routing_cookies == routing_cookies
        &&& match self.cookie_override {
            Some(fixed) => optional_text(r.cookie_override_pod) == Some(fixed.pod@)
                && r.cookie_override_issued_at == fixed.issued_at,
            None => r.cookie_override_pod is None && r.cookie_override_issued_at is None,
        }
        &&& is_shown_ticket(
            r.current,
            self.current,
            self.current_issued_at,
            self.config.ttl_seconds as int,
            now,
        )
        &&& r.current_issued_at == self.current_issued_at
        &&& r.current_length == self.current_length
        &&& match self.candidate {
            Some(held) => is_shown_ticket(
                r.candidate,
                Some(held.value),
                Some(held.issued_at),
                self.config.ttl_seconds as int,
                now,
            ),
            None => r.candidate is None,
        }
        &&& r.hunt_attempts == self.hunt_attempts
        &&& r.next_probe_at == self.next_probe_at
        &&& r.manual_probe_requested_at == self.manual_probe_requested_at
        &&& r.manual_override == self.manual_override
        &&& optional_text(r.attached_model) == optional_text(self.attached_model)
    }

    /// The row as schedulers use it, with the cookies that can be sent.
    pub fn bucket(&self, routing_cookies: Vec<RoutingCookie>, now: i64) -> (r: TurnStateBucket)
        ensures
            self.is_shown_as(r, routing_cookies, now as int),
    {
        let (pod, pinned_at) = match &self.cookie_override {
            Some(fixed) => (Some(fixed.pod.clone()), fixed.issued_at),
            None => (None, None),
        };
        let candidate = match &self.candidate {
            Some(held) => {
                let value = Some(held.value.clone());
                fresh_ticket(&value, Some(held.issued_at), self.config.ttl_seconds, now)
            },
            None => None,
        };
        TurnStateBucket {
            account_id: self.account_id.clone(),
            upstream_account_id: clone_optional(&self.upstream_account_id),
            upstream_user_id: clone_optional(&self.upstream_user_id),
            model: self.model.clone(),
            config: self.config.clone(),
            routing_cookies,
            cookie_override_pod: pod,
            cookie_override_issued_at: pinned_at,
            current: fresh_ticket(
                &self.current,
                self.current_issued_at,
                self.config.ttl_seconds,
                now,
            ),
            current_issued_at: self.current_issued_at,
            current_length: self.current_length,
            candidate,
            hunt_attempts: self.hunt_attempts,
            next_probe_at: self.next_probe_at,
            manual_probe_requested_at: self.manual_probe_requested_at,
            manual_override: self.manual_override,
            attached_model: clone_optional(&self.attached_model),
        }
    }
}

/// Whether an account takes business for a model, as far as its ticket decides.
pub open spec fn business_of(
    enabled: bool,
    policy: MissingTurnStatePolicy,
    active: bool,
) -> TurnStateBusinessStatus {
    if !enabled {
        TurnStateBusinessStatus::ManualDisabled
    } else if policy == MissingTurnStatePolicy::Pause && !active {
        TurnStateBusinessStatus::WaitingForState
    } else {
        TurnStateBusinessStatus::Ready
    }
}

/// The account is the one that the bucket was made for.
pub open spec fn is_owner(bucket: TurnStateBucket, account: ProviderAccount) -> bool {
    &&& account.authentication_kind@ == "oauth"@
    &&& optional_text(bucket.upstream_account_id) == optional_text(account.upstream_account_id)
    &&& optional_text(bucket.upstream_user_id) == optional_text(account.upstream_user_id)
}

/// When the next probe is to be made, if the hunt is on: when the ticket in use is
/// to be renewed, or else when the hunt goes on.
pub open spec fn next_probe(
    bucket: TurnStateBucket,
    account: ProviderAccount,
    now: i64,
) -> Option<i64> {
    if !account.enabled || !bucket.config.enabled {
        None
    } else if is_owner(bucket, account) && bucket.has_installed_token(now as int)
        && bucket.current->0.fresh(now as int, bucket.config.refresh_after_seconds as int) {
        Some((bucket.current->0.issued_at + bucket.config.refresh_after_seconds) as i64)
    } else {
        Some(
            match bucket.next_probe_at {
                Some(time) => time,
                None => now,
            },
        )
    }
}

pub open spec fn age_at(issued_at: i64, now: i64) -> i64 {
    if now - issued_at > i64::MAX {
        i64::MAX
    } else if now - issued_at < i64::MIN {
        i64::MIN
    } else {
        (now - issued_at) as i64
    }
}

fn age(issued_at: i64, now: i64) -> (r: i64)
    ensures
        r == age_at(issued_at, now),
{
    let difference: i128 = now as i128 - issued_at as i128;
    if difference > i64::MAX as i128 {
        i64::MAX
    } else if difference < i64::MIN as i128 {
        i64::MIN
    } else {
        difference as i64
    }
}

/// The bucket holds a ticket that its account may use.
pub open spec fn is_installed_for(
    bucket: TurnStateBucket,
    account: ProviderAccount,
    now: int,
) -> bool {
    is_owner(bucket, account) && bucket.has_installed_token(now)
}

/// What an administrator sees of a bucket: of its tickets when they were issued,
/// how long they are and whether they can be used.
pub open spec fn status_of(
    bucket: TurnStateBucket,
    account: ProviderAccount,
    account_name: String,
    account_email: Option<String>,
    routing_cookie: Option<RoutingCookieStatus>,
    cookie_pool: Vec<RoutingCookieStatus>,
    observations: Vec<TurnStateObservation>,
    installations: Vec<TurnStateInstallation>,
    now: i64,
) -> TurnStateStatus {
    let installed = is_installed_for(bucket, account, now as int);
    TurnStateStatus {
        account_id: bucket.account_id,
        account_name,
        account_email,
        model: bucket.model,
        config: bucket.config,
        token_length: bucket.current_length,
        issued_at: bucket.current_issued_at,
        age_seconds: match bucket.current_issued_at {
            Some(time) => Some(age_at(time, now)),
            None => None,
        },
        active: account.enabled && installed,
        has_installed_state: installed,
        routing_cookie,
        cookie_pool,
        cookie_override_pod: bucket.cookie_override_pod,
        cookie_override_issued_at: bucket.cookie_override_issued_at,
        business_status: business_of(
            account.enabled,
            bucket.config.missing_state_policy,
            account.enabled && installed,
        ),
        account_enabled: account.enabled,
        hunt_attempts: bucket.hunt_attempts,
        next_probe_at: next_probe(bucket, account, now),
        manual_probe_requested_at: bucket.manual_probe_requested_at,
        manual_override: bucket.manual_override,
        candidate_issued_at: match bucket.candidate {
            Some(token) => Some(token.issued_at),
            None => None,
        },
        candidate_length: match bucket.candidate {
            Some(token) => Some(byte_len(token.value@) as usize),
            None => None,
        },
        observations,
        installations,
    }
}

pub fn turn_state_status(
    bucket: TurnStateBucket,
    account: &ProviderAccount,
    account_email: Option<String>,
    routing_cookie: Option<RoutingCookieStatus>,
    cookie_pool: Vec<RoutingCookieStatus>,
    observations: Vec<TurnStateObservation>,
    installations: Vec<TurnStateInstallation>,
    now: i64,
) -> (r: TurnStateStatus)
    requires
        bucket.current is Some ==> bucket.current->0.issued_at
            + bucket.config.refresh_after_seconds <= i64::MAX,
    ensures
        r == status_of(
            bucket,
            *account,
            r.account_name,
            account_email,
            routing_cookie,
            cookie_pool,
            observations,
            installations,
            now,
        ),
        r.account_name@ == account.name@,
{
    let owner = same_text(account.authentication_kind.as_str(), "oauth")
        && same_optional_text(
        &bucket.upstream_account_id,
        &account.upstream_account_id,
    ) && same_optional_text(&bucket.upstream_user_id, &account.upstream_user_id);
    let mut installed = false;
    let mut renewal: Option<i64> = None;
    if owner {
        if let Some(token) = bucket.installed_token(now) {
            installed = true;
            if token.is_fresh(now, bucket.config.refresh_after_seconds) {
                renewal = Some(
                    (token.issued_at as i128
                        + bucket.config.refresh_after_seconds as i128) as i64,
                );
            }
        }
    }
    let active = account.enabled && installed;
    let business_status = if !account.enabled {
        TurnStateBusinessStatus::ManualDisabled
    } else if bucket.config.missing_state_policy == MissingTurnStatePolicy::Pause && !active {
        TurnStateBusinessStatus::WaitingForState
    } else {
        TurnStateBusinessStatus::Ready
    };
    let next_probe_at = if !account.enabled || !bucket.config.enabled {
        None
    } else if renewal.is_some() {
        renewal
    } else {
        Some(
            match bucket.next_probe_at {
                Some(time) => time,
                None => now,
            },
        )
    };
    let (candidate_issued_at, candidate_length) = match &bucket.candidate {
        Some(token) => (Some(token.issued_at), Some(byte_length(token.value.as_str()))),
        None => (None, None),
    };
    let age_seconds = match bucket.current_issued_at {
        Some(time) => Some(age(time, now)),
        None => None,
    };
    TurnStateStatus {
        account_id: bucket.account_id,
        account_name: account.name.clone(),
        account_email,
        model: bucket.model,
        config: bucket.config,
        token_length: bucket.current_length,
        issued_at: bucket.current_issued_at,
        age_seconds,
        active,
        has_installed_state: installed,
        routing_cookie,
        cookie_pool,
        cookie_override_pod: bucket.cookie_override_pod,
        cookie_override_issued_at: bucket.cookie_override_issued_at,
        business_status,
        account_enabled: account.enabled,
        hunt_attempts: bucket.hunt_attempts,
        next_probe_at,
        manual_probe_requested_at: bucket.manual_probe_requested_at,
        manual_override: bucket.manual_override,
        candidate_issued_at,
        candidate_length,
        observations,
        installations,
    }
}

/// What is shown of a cookie.
pub open spec fn is_status_of(status: RoutingCookieStatus, cookie: RoutingCookie) -> bool {
    &&& status.gateway_id@ == gateway_or_empty(cookie.pod@)
    &&& status.pod@ == cookie.pod@
    &&& status.issued_at == cookie.issued_at
    &&& status.expires_at == cookie.expires_at
    &&& status.observed_at == cookie.observed_at
    &&& status.reported_model@ == cookie.reported_model@
    &&& !status.allowed
}

fn cookie_statuses(cookies: &Vec<RoutingCookie>) -> (r: Vec<RoutingCookieStatus>)
    ensures
        r@.len() == cookies@.len(),
        forall|i: int| 0 <= i < r@.len() ==> is_status_of(#[trigger] r@[i], cookies@[i]),
{
    let mut r: Vec<RoutingCookieStatus> = Vec::new();
    let mut i: usize = 0;
    while i < cookies.len()
        invariant
            i <= cookies@.len(),
            r@.len() == i,
            forall|j: int| 0 <= j < i ==> is_status_of(#[trigger] r@[j], cookies@[j]),
        decreases cookies@.len() - i,
    {
        r.push(cookies[i].status());
        i += 1;
    }
    r
}

/// The status is that of the bucket, with the cookies that it shows: the one that
/// requests carry, and all of the pool.
pub open spec fn is_status_of_bucket(
    r: TurnStateStatus,
    bucket: TurnStateBucket,
    account: ProviderAccount,
    account_email: Option<String>,
    installations: Vec<TurnStateInstallation>,
    now: i64,
) -> bool {
    &&& r == status_of(
        bucket,
        account,
        r.account_name,
        account_email,
        r.routing_cookie,
        r.cookie_pool,
        r.observations,
        installations,
        now,
    )
    &&& r.account_name@ == account.name@
    &&& match bucket.chosen_cookie(bucket.routing_cookies@.len() as int, now as int) {
        Some(at) => r.routing_cookie is Some && is_status_of(
            r.routing_cookie->0,
            bucket.routing_cookies@[at],
        ),
        None => r.routing_cookie is None,
    }
    &&& r.cookie_pool@.len() == bucket.routing_cookies@.len()
    &&& forall|i: int|
        0 <= i < r.cookie_pool@.len() ==> is_status_of(
            #[trigger] r.cookie_pool@[i],
            bucket.routing_cookies@[i],
        )
}

impl TicketRow {
    /// The time at which the ticket in use is to be renewed can be told.
    pub open spec fn renewal_fits(self, now: int) -> bool {
        self.current is Some && self.current_issued_at is Some && 0 < self.current_issued_at->0
            <= now && now - self.current_issued_at->0 < self.config.ttl_seconds
            ==> self.current_issued_at->0 + self.config.refresh_after_seconds <= i64::MAX
    }

    pub fn renewal_can_be_told(&self, now: i64) -> (r: bool)
        ensures
            r == self.renewal_fits(now as int),
    {
        match (&self.current, self.current_issued_at) {
            (Some(_), Some(issued_at)) => {
                let age: i128 = now as i128 - issued_at as i128;
                let next: i128 = issued_at as i128 + self.config.refresh_after_seconds as i128;
                issued_at <= 0 || age < 0 || age >= self.config.ttl_seconds as i128 || next
                    <= i64::MAX as i128
            },
            _ => true,
        }
    }

    /// All that an administrator sees of a row: its bucket, its cookies, its history
    /// with the newest entry first, and its installations. No ticket is among it.
    pub fn shown_status(
        &self,
        account: &ProviderAccount,
        account_email: Option<String>,
        routing_cookies: Vec<RoutingCookie>,
        history: &Vec<HistoryEntry>,
        installations: Vec<TurnStateInstallation>,
        now: i64,
    ) -> (r: TurnStateStatus)
        requires
            self.renewal_fits(now as int),
        ensures
            exists|bucket: TurnStateBucket| #[trigger]
                self.is_shown_as(bucket, routing_cookies, now as int) && is_status_of_bucket(
                    r,
                    bucket,
                    *account,
                    account_email,
                    installations,
                    now,
                ),
            r.observations@.len() == history@.len(),
            forall|i: int|
                0 <= i < r.observations@.len() ==> (#[trigger] r.observations@[i])@ == self.shown(
                    history@[history@.len() - 1 - i],
                ),
            forall|i: int|
                0 <= i < r.observations@.len() ==> (#[trigger] r.observations@[i])@.token is None,
    {
        let bucket = self.bucket(routing_cookies, now);
        let routing_cookie = match bucket.routing_cookie(now) {
            Some(cookie) => Some(cookie.status()),
            None => None,
        };
        let pool = cookie_statuses(&bucket.routing_cookies);
        let ghost shown = bucket;
        let r = turn_state_status(
            bucket,
            account,
            account_email,
            routing_cookie,
            pool,
            self.shown_observations(history),
            installations,
            now,
        );
        proof {
            assert(self.is_shown_as(shown, routing_cookies, now as int));
            assert(is_status_of_bucket(r, shown, *account, account_email, installations, now));
        }
        r
    }
}

/// Two tickets that look alike from outside: issued at the same time and equally
/// long.
pub open spec fn look_alike(a: Option<TurnStateToken>, b: Option<TurnStateToken>) -> bool {
    match (a, b) {
        (Some(a), Some(b)) => a.issued_at == b.issued_at && byte_len(a.value@) == byte_len(b.value@),
        (None, None) => true,
        _ => false,
    }
}

/// A status does not tell the text of a ticket: whatever other texts stood in the
/// place of the one in use and of the candidate, as long as they look alike and are
/// as good, the same would be shown.
pub proof fn a_status_does_not_tell_a_ticket(
    bucket: TurnStateBucket,
    current: Option<TurnStateToken>,
    candidate: Option<TurnStateToken>,
    account: ProviderAccount,
    account_name: String,
    account_email: Option<String>,
    routing_cookie: Option<RoutingCookieStatus>,
    cookie_pool: Vec<RoutingCookieStatus>,
    observations: Vec<TurnStateObservation>,
    installations: Vec<TurnStateInstallation>,
    now: i64,
)
    requires
        look_alike(bucket.current, current),
        look_alike(bucket.candidate, candidate),
        bucket.has_installed_token(now as int) == (TurnStateBucket {
            current,
            ..bucket
        }).has_installed_token(now as int),
    ensures
        status_of(
            bucket,
            account,
            account_name,
            account_email,
            routing_cookie,
            cookie_pool,
            observations,
            installations,
            now,
        ) == status_of(
            (TurnStateBucket { current, candidate, ..bucket }),
            account,
            account_name,
            account_email,
            routing_cookie,
            cookie_pool,
            observations,
            installations,
            now,
        ),
{
    let other = TurnStateBucket { current, candidate, ..bucket };
    let swapped = TurnStateBucket { current, ..bucket };
    assert(other.has_installed_token(now as int) == swapped.has_installed_token(now as int));
}

/// An observation that is shown carries no ticket and does not tell it: whatever
/// other text stood in its place, the same would be shown, as long as both or
/// neither are the ticket in use.
pub proof fn a_shown_observation_does_not_tell_its_ticket(
    row: TicketRow,
    entry: HistoryEntry,
    text: String,
)
    requires
        entry.observation.token is Some,
        row.current is Some ==> (row.current->0@ == entry.observation.token->0@) == (
        row.current->0@ == text@),
    ensures
        row.shown(entry).token is None,
        row.shown(entry) == row.shown(
            (HistoryEntry {
                observation: TurnStateObservation { token: Some(text), ..entry.observation },
                ..entry
            }),
        ),
{
}

} // verus!
