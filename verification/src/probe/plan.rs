//! The course of a probe: whether there is one, which way it goes, and what comes
//! of it.

use crate::account::cookie_lock::RoutingCookie;
use crate::account::turn_state::{
    ObservationView, TurnStateBucket, TurnStateConfig, TurnStateObservation,
    TurnStateStopStrategy,
};
use crate::probe::observe::{blank_observation, new_observation, TurnStateResponse};
use crate::text::{
    clone_optional, optional_text, same_ignoring_case, same_text,
    same_text_ignoring_case,
};
use vstd::prelude::*;

verus! {

/// What a probe came to.
#[derive(Debug, Clone, Copy, PartialEq, Eq, Structural)]
pub enum ProbeOutcome {
    Installed,
    Miss,
    Skipped,
}

/// The observation of a probe, before anything is done.
pub open spec fn begun_probe(bucket: TurnStateBucket, manual: bool, now: i64) -> ObservationView {
    ObservationView {
        request_state_source: Some("none"@),
        probe_trigger: Some(
            if manual {
                "manual"@
            } else {
                "scheduled"@
            },
        ),
        ..blank_observation(
            bucket.account_id@,
            optional_text(bucket.upstream_account_id),
            optional_text(bucket.upstream_user_id),
            bucket.model@,
            "probe"@,
            "none"@,
            now,
        )
    }
}

pub fn begin_probe(bucket: &TurnStateBucket, manual: bool, now: i64) -> (r: TurnStateObservation)
    ensures
        r@ == begun_probe(*bucket, manual, now),
{
    let mut r = new_observation(
        bucket.account_id.as_str(),
        &bucket.upstream_account_id,
        &bucket.upstream_user_id,
        bucket.model.as_str(),
        "probe",
        "none",
        now,
    );
    r.request_state_source = Some("none".to_owned());
    let trigger = if manual {
        "manual"
    } else {
        "scheduled"
    };
    r.probe_trigger = Some(trigger.to_owned());
    r
}

/// A probe that is not made leaves an observation with the reason.
pub fn skip(observation: TurnStateObservation, reason: &str) -> (r: TurnStateObservation)
    ensures
        r@ == (ObservationView { outcome: reason@, ..observation@ }),
{
    let mut observation = observation;
    observation.outcome = reason.to_owned();
    observation
}

/// What is known of an account and its credential. Times are in milliseconds
/// since 1970.
pub struct CredentialFacts {
    pub enabled: bool,
    pub model_allowed: bool,
    pub upstream_account_id: Option<String>,
    pub upstream_user_id: Option<String>,
    /// The credential could be read.
    pub decoded: bool,
    /// It is one of OAuth.
    pub is_oauth: bool,
    /// When its access token says that it expires.
    pub token_expires_ms: Option<i64>,
    /// When the account's record says that it expires.
    pub account_expires_ms: Option<i64>,
}

/// Whether a probe goes on.
pub enum CredentialCheck {
    /// It does not, and the observation tells why.
    Skip(&'static str),
    /// It does not, and nothing is noted.
    Silent,
    /// It goes on under this upstream account.
    Ready(String),
}

pub enum CheckView {
    Skip(Seq<char>),
    Silent,
    Ready(Seq<char>),
}

impl View for CredentialCheck {
    type V = CheckView;

    open spec fn view(&self) -> CheckView {
        match self {
            CredentialCheck::Skip(reason) => CheckView::Skip(reason@),
            CredentialCheck::Silent => CheckView::Silent,
            CredentialCheck::Ready(id) => CheckView::Ready(id@),
        }
    }
}

/// The access token is good for half a minute and more.
pub open spec fn is_lasting(facts: CredentialFacts, now_ms: int) -> bool {
    let expires = if facts.token_expires_ms is Some {
        facts.token_expires_ms
    } else {
        facts.account_expires_ms
    };
    expires is Some && expires->0 > now_ms + 30_000
}

pub open spec fn credential_verdict(facts: Option<CredentialFacts>, now_ms: int) -> CheckView {
    match facts {
        None => CheckView::Skip("credential_unavailable"@),
        Some(facts) => if !facts.enabled || !facts.model_allowed {
            CheckView::Silent
        } else if !facts.decoded {
            CheckView::Skip("credential_invalid"@)
        } else if !facts.is_oauth {
            CheckView::Skip("oauth_required"@)
        } else if !is_lasting(facts, now_ms) {
            CheckView::Skip("access_token_expired_or_unknown"@)
        } else {
            match facts.upstream_account_id {
                Some(id) => CheckView::Ready(id@),
                None => CheckView::Skip("missing_account_identity"@),
            }
        },
    }
}

pub open spec fn facts_of(facts: Option<&CredentialFacts>) -> Option<CredentialFacts> {
    match facts {
        Some(facts) => Some(*facts),
        None => None,
    }
}

/// No credential is refreshed for a probe: what is there must do.
pub fn check_credential(facts: Option<&CredentialFacts>, now_ms: i64) -> (r: CredentialCheck)
    ensures
        r@ == credential_verdict(facts_of(facts), now_ms as int),
{
    let facts = match facts {
        Some(facts) => facts,
        None => {
            return CredentialCheck::Skip("credential_unavailable");
        },
    };
    if !facts.enabled || !facts.model_allowed {
        return CredentialCheck::Silent;
    }
    if !facts.decoded {
        return CredentialCheck::Skip("credential_invalid");
    }
    if !facts.is_oauth {
        return CredentialCheck::Skip("oauth_required");
    }
    let expires: Option<i64> = match facts.token_expires_ms {
        Some(time) => Some(time),
        None => facts.account_expires_ms,
    };
    let lasting = match expires {
        Some(time) => (time as i128) > now_ms as i128 + 30_000,
        None => false,
    };
    if !lasting {
        return CredentialCheck::Skip("access_token_expired_or_unknown");
    }
    match &facts.upstream_account_id {
        Some(id) => CredentialCheck::Ready(id.clone()),
        None => CredentialCheck::Skip("missing_account_identity"),
    }
}

/// The observation under the identity that the account has now.
pub fn identify(observation: TurnStateObservation, facts: &CredentialFacts) -> (r:
    TurnStateObservation)
    ensures
        r@ == (ObservationView {
            upstream_account_id: optional_text(facts.upstream_account_id),
            upstream_user_id: optional_text(facts.upstream_user_id),
            ..observation@
        }),
{
    let mut observation = observation;
    observation.upstream_account_id = clone_optional(&facts.upstream_account_id);
    observation.upstream_user_id = clone_optional(&facts.upstream_user_id);
    observation
}

/// A proxy: its address with what it takes to use it, and the part that may be
/// shown.
pub struct OutboundProxy {
    pub url: String,
    pub endpoint: String,
}

/// A way out: through a proxy, or direct.
pub type Exit = Option<(Seq<char>, Seq<char>)>;

pub open spec fn exit_of(exit: Option<OutboundProxy>) -> Exit {
    match exit {
        Some(proxy) => Some((proxy.url@, proxy.endpoint@)),
        None => None,
    }
}

pub open spec fn exits_of(exits: Seq<Option<OutboundProxy>>) -> Seq<Exit> {
    exits.map_values(|exit: Option<OutboundProxy>| exit_of(exit))
}

/// A list with one more way out, if it is not in it.
pub open spec fn with_exit(exits: Seq<Exit>, exit: Exit) -> Seq<Exit> {
    if exits.contains(exit) {
        exits
    } else {
        exits.push(exit)
    }
}

pub open spec fn with_exits(exits: Seq<Exit>, more: Seq<Exit>) -> Seq<Exit>
    decreases more.len(),
{
    if more.len() == 0 {
        exits
    } else {
        with_exit(with_exits(exits, more.drop_last()), more.last())
    }
}

/// The ways out that a probe chooses from: the account's own, the direct one, and
/// the proxies of the pool, as far as the configuration asks for them; each once.
pub open spec fn probe_exits(config: TurnStateConfig, own: Exit, pool: Seq<Exit>) -> Seq<Exit> {
    let first = if config.include_account_proxy {
        seq![own]
    } else {
        Seq::empty()
    };
    let second = if config.include_direct {
        with_exit(first, None)
    } else {
        first
    };
    with_exits(second, pool)
}

fn copy_exit(exit: &Option<OutboundProxy>) -> (r: Option<OutboundProxy>)
    ensures
        exit_of(r) == exit_of(*exit),
{
    match exit {
        Some(proxy) => Some(
            OutboundProxy { url: proxy.url.clone(), endpoint: proxy.endpoint.clone() },
        ),
        None => None,
    }
}

fn same_exit(a: &Option<OutboundProxy>, b: &Option<OutboundProxy>) -> (r: bool)
    ensures
        r == (exit_of(*a) == exit_of(*b)),
{
    match (a, b) {
        (Some(a), Some(b)) => same_text(a.url.as_str(), b.url.as_str()) && same_text(
            a.endpoint.as_str(),
            b.endpoint.as_str(),
        ),
        (None, None) => true,
        _ => false,
    }
}

fn add_exit(exits: Vec<Option<OutboundProxy>>, exit: &Option<OutboundProxy>) -> (r: Vec<
    Option<OutboundProxy>,
>)
    ensures
        exits_of(r@) == with_exit(exits_of(exits@), exit_of(*exit)),
{
    let ghost all = exits_of(exits@);
    let mut i: usize = 0;
    while i < exits.len()
        invariant
            i <= exits@.len(),
            all == exits_of(exits@),
            forall|j: int| 0 <= j < i ==> #[trigger] all[j] != exit_of(*exit),
        decreases exits@.len() - i,
    {
        assert(all[i as int] == exit_of(exits@[i as int]));
        if same_exit(&exits[i], exit) {
            assert(all.contains(exit_of(*exit)));
            return exits;
        }
        i += 1;
    }
    let mut r = exits;
    r.push(copy_exit(exit));
    assert(exits_of(r@) =~= all.push(exit_of(*exit)));
    r
}

pub fn list_exits(
    config: &TurnStateConfig,
    own: &Option<OutboundProxy>,
    pool: &Vec<OutboundProxy>,
) -> (r: Vec<Option<OutboundProxy>>)
    ensures
        exits_of(r@) == probe_exits(
            *config,
            exit_of(*own),
            pool@.map_values(|proxy: OutboundProxy| Some((proxy.url@, proxy.endpoint@))),
        ),
{
    let ghost more: Seq<Exit> = pool@.map_values(
        |proxy: OutboundProxy| Some((proxy.url@, proxy.endpoint@)),
    );
    let mut exits: Vec<Option<OutboundProxy>> = Vec::new();
    if config.include_account_proxy {
        exits.push(copy_exit(own));
        assert(exits_of(exits@) =~= seq![exit_of(*own)]);
    } else {
        assert(exits_of(exits@) =~= Seq::empty());
    }
    if config.include_direct {
        exits = add_exit(exits, &None);
    }
    let ghost start = exits_of(exits@);
    let mut i: usize = 0;
    proof {
        assert(more.take(0) =~= Seq::empty());
    }
    while i < pool.len()
        invariant
            i <= pool@.len(),
            more == pool@.map_values(|proxy: OutboundProxy| Some((proxy.url@, proxy.endpoint@))),
            exits_of(exits@) == with_exits(start, more.take(i as int)),
        decreases pool@.len() - i,
    {
        proof {
            assert(more.take(i + 1).drop_last() =~= more.take(i as int));
            assert(more.take(i + 1).last() == more[i as int]);
        }
        let exit = Some(
            OutboundProxy { url: pool[i].url.clone(), endpoint: pool[i].endpoint.clone() },
        );
        exits = add_exit(exits, &exit);
        i += 1;
    }
    proof {
        assert(more.take(pool@.len() as int) =~= more);
    }
    exits
}

/// The ways out to choose from, or why there is no probe: the pool could not be
/// read, or there is no way out. `exits` are those listed where it could.
pub fn exits_or_skip(exits: Option<Vec<Option<OutboundProxy>>>) -> (r: Result<
    Vec<Option<OutboundProxy>>,
    &'static str,
>)
    ensures
        match r {
            Ok(listed) => exits == Some(listed) && listed@.len() > 0,
            Err(reason) => if exits is None {
                reason@ == "proxy_pool_unavailable"@
            } else {
                exits->0@.len() == 0 && reason@ == "proxy_pool_empty"@
            },
        },
{
    match exits {
        Some(listed) => if listed.len() > 0 {
            Ok(listed)
        } else {
            Err("proxy_pool_empty")
        },
        None => Err("proxy_pool_unavailable"),
    }
}

/// A part of the request of a probe, or why there is no probe: it could not be
/// made.
pub fn made_or_skip<T>(part: Option<T>) -> (r: Result<T, &'static str>)
    ensures
        match r {
            Ok(made) => part == Some(made),
            Err(reason) => part is None && reason@ == "template_error"@,
        },
{
    match part {
        Some(made) => Ok(made),
        None => Err("template_error"),
    }
}

/// A way out, as observations name it.
pub fn exit_name(exit: &Option<OutboundProxy>) -> (r: String)
    ensures
        r@ == (match exit_of(*exit) {
            Some(proxy) => proxy.1,
            None => "direct"@,
        }),
{
    match exit {
        Some(proxy) => proxy.endpoint.clone(),
        None => "direct".to_owned(),
    }
}

/// The probe reads output, and not just the headers. `coin` is a draw of zero or
/// one, for the strategy that leaves it to chance.
pub open spec fn reads(config: TurnStateConfig, coin: int) -> bool {
    config.cookie_lock_enabled || match config.stop_strategy {
        TurnStateStopStrategy::Headers => false,
        TurnStateStopStrategy::FirstOutput => true,
        TurnStateStopStrategy::Mixed => coin == 1,
    }
}

pub fn reads_output(config: &TurnStateConfig, coin: usize) -> (r: bool)
    ensures
        r == reads(*config, coin as int),
{
    config.cookie_lock_enabled || match config.stop_strategy {
        TurnStateStopStrategy::Headers => false,
        TurnStateStopStrategy::FirstOutput => true,
        TurnStateStopStrategy::Mixed => coin == 1,
    }
}

pub fn stop_mode(read_output: bool) -> (r: &'static str)
    ensures
        r@ == (if read_output {
            "first_output"@
        } else {
            "headers"@
        }),
{
    if read_output {
        "first_output"
    } else {
        "headers"
    }
}

/// The cookie that a probe carries: the one to be renewed, if it is of this
/// endpoint. A probe for tickets carries none.
pub fn probe_cookie<'a>(bucket: &'a TurnStateBucket, endpoint: &str, now: i64) -> (r: Option<
    &'a RoutingCookie,
>)
    requires
        bucket.config.cookie_lock_enabled ==> bucket.renewal_is_in_range(now as int),
    ensures
        match r {
            Some(cookie) => bucket.config.cookie_lock_enabled && cookie.origin@ == endpoint@ && (
            exists|i: int|
                bucket.cookie_to_renew(bucket.routing_cookies@.len() as int, now as int) == Some(i)
                    && 0 <= i < bucket.routing_cookies@.len() && *cookie
                    == #[trigger] bucket.routing_cookies@[i]),
            None => !bucket.config.cookie_lock_enabled || match bucket.cookie_to_renew(
                bucket.routing_cookies@.len() as int,
                now as int,
            ) {
                Some(i) => bucket.routing_cookies@[i].origin@ != endpoint@,
                None => true,
            },
        },
{
    if !bucket.config.cookie_lock_enabled {
        return None;
    }
    match bucket.renewal_cookie(now) {
        Some(cookie) => if same_text(cookie.origin.as_str(), endpoint) {
            Some(cookie)
        } else {
            None
        },
        None => None,
    }
}

/// How the exchange went: not at all, or with an answer of this status.
pub enum Sent {
    Failed,
    Answered(u16),
}

pub open spec fn is_success(status: u16) -> bool {
    200 <= status < 300
}

/// The body of the answer is read.
pub fn reads_body(sent: &Sent, read_output: bool) -> (r: bool)
    ensures
        r == (match sent {
            Sent::Answered(status) => read_output && is_success(*status),
            Sent::Failed => false,
        }),
{
    match sent {
        Sent::Answered(status) => read_output && 200 <= *status && *status < 300,
        Sent::Failed => false,
    }
}

/// The cookies of the answer are looked at.
pub fn reads_cookies(sent: &Sent) -> (r: bool)
    ensures
        r == (match sent {
            Sent::Answered(status) => is_success(*status),
            Sent::Failed => false,
        }),
{
    match sent {
        Sent::Answered(status) => 200 <= *status && *status < 300,
        Sent::Failed => false,
    }
}

/// Why the probe stopped. `reading` is the reason of a reading that came to an
/// end in time.
pub fn stop_reason(sent: &Sent, read_output: bool, reading: Option<&str>) -> (r: String)
    ensures
        r@ == (match sent {
            Sent::Failed => "transport_error"@,
            Sent::Answered(status) => if read_output && is_success(*status) {
                match reading {
                    Some(reason) => reason@,
                    None => "body_timeout"@,
                }
            } else {
                "headers"@
            },
        }),
{
    if reads_body(sent, read_output) {
        return match reading {
            Some(reason) => reason.to_owned(),
            None => "body_timeout".to_owned(),
        };
    }
    match sent {
        Sent::Failed => "transport_error".to_owned(),
        Sent::Answered(_) => "headers".to_owned(),
    }
}

/// The model that an answer names: in its headers, or else in its events.
pub fn reported_model(in_headers: Option<String>, in_events: Option<String>) -> (r: Option<String>)
    ensures
        r == (if in_headers is Some {
            in_headers
        } else {
            in_events
        }),
{
    match in_headers {
        Some(model) => Some(model),
        None => in_events,
    }
}

/// The answer succeeded.
pub open spec fn answered_well(status: Option<u16>) -> bool {
    status is Some && is_success(status->0)
}

pub open spec fn cookie_is_good(
    bucket: TurnStateBucket,
    cookie: Option<RoutingCookie>,
    deleted: bool,
    created_model: Option<Seq<char>>,
    now: int,
) -> bool {
    &&& !deleted
    &&& cookie is Some
    &&& cookie->0.usable(bucket.model@, now)
    &&& bucket.selectable(cookie->0)
    &&& created_model is Some && same_ignoring_case(created_model->0, bucket.model@)
}

/// The name of what a probe for cookies came to.
pub open spec fn cookie_outcome(
    bucket: TurnStateBucket,
    response: TurnStateResponse,
    cookie: Option<RoutingCookie>,
    deleted: bool,
    created_model: Option<Seq<char>>,
    now: int,
) -> Seq<char> {
    if response.transport_error {
        "transport_error"@
    } else if !answered_well(response.status) {
        "http_error"@
    } else if deleted {
        "cookie_deleted"@
    } else if created_model is None {
        "missing_model"@
    } else if cookie is None {
        "missing_cookie"@
    } else if !bucket.selectable(cookie->0) {
        "cookie_gateway_filtered"@
    } else if cookie_is_good(bucket, cookie, deleted, created_model, now) {
        "cookie_ready"@
    } else {
        "cookie_model_mismatch"@
    }
}

/// The end of a probe for cookies: the observation to keep, and whether there is
/// a cookie now.
pub fn conclude_cookie_probe(
    bucket: &TurnStateBucket,
    observation: TurnStateObservation,
    response: &TurnStateResponse,
    cookie: &Option<RoutingCookie>,
    deleted: bool,
    created_model: Option<String>,
    now: i64,
) -> (r: (TurnStateObservation, ProbeOutcome))
    ensures
        r.0@ == (ObservationView {
            http_status: response.status,
            elapsed_ms: response.elapsed_ms,
            response_source: Some("response_created"@),
            oailb_host: match cookie {
                Some(cookie) => Some(cookie.pod@),
                None => None,
            },
            cookie_issued_at: match cookie {
                Some(cookie) => Some(cookie.issued_at),
                None => None,
            },
            cookie_expires_at: match cookie {
                Some(cookie) => Some(cookie.expires_at),
                None => None,
            },
            outcome: cookie_outcome(
                *bucket,
                *response,
                *cookie,
                deleted,
                optional_text(created_model),
                now as int,
            ),
            reported_model: optional_text(created_model),
            ..observation@
        }),
        r.1 == (if cookie_is_good(
            *bucket,
            *cookie,
            deleted,
            optional_text(created_model),
            now as int,
        ) {
            ProbeOutcome::Installed
        } else {
            ProbeOutcome::Miss
        }),
{
    let well = match response.status {
        Some(status) => 200 <= status && status < 300,
        None => false,
    };
    let selectable = match cookie {
        Some(cookie) => bucket.cookie_is_selectable(cookie),
        None => false,
    };
    let alive = match cookie {
        Some(cookie) => cookie.is_usable(bucket.model.as_str(), now),
        None => false,
    };
    let right_model = match &created_model {
        Some(model) => same_text_ignoring_case(model.as_str(), bucket.model.as_str()),
        None => false,
    };
    let good = !deleted && alive && selectable && right_model;
    let outcome = if response.transport_error {
        "transport_error"
    } else if !well {
        "http_error"
    } else if deleted {
        "cookie_deleted"
    } else if created_model.is_none() {
        "missing_model"
    } else if cookie.is_none() {
        "missing_cookie"
    } else if !selectable {
        "cookie_gateway_filtered"
    } else if good {
        "cookie_ready"
    } else {
        "cookie_model_mismatch"
    };
    let mut observation = observation;
    observation.http_status = response.status;
    observation.elapsed_ms = response.elapsed_ms;
    observation.response_source = Some("response_created".to_owned());
    match cookie {
        Some(cookie) => {
            observation.oailb_host = Some(cookie.pod.clone());
            observation.cookie_issued_at = Some(cookie.issued_at);
            observation.cookie_expires_at = Some(cookie.expires_at);
        },
        None => {
            observation.oailb_host = None;
            observation.cookie_issued_at = None;
            observation.cookie_expires_at = None;
        },
    }
    observation.outcome = outcome.to_owned();
    observation.reported_model = created_model;
    let end = if good {
        ProbeOutcome::Installed
    } else {
        ProbeOutcome::Miss
    };
    (observation, end)
}

/// The end of a probe for tickets.
pub fn conclude_probe(installed: bool) -> (r: ProbeOutcome)
    ensures
        r == (if installed {
            ProbeOutcome::Installed
        } else {
            ProbeOutcome::Miss
        }),
{
    if installed {
        ProbeOutcome::Installed
    } else {
        ProbeOutcome::Miss
    }
}

/// The ways out of a probe are all different, but for the account's own one.
pub proof fn exits_do_not_repeat(exits: Seq<Exit>, more: Seq<Exit>)
    requires
        exits.no_duplicates(),
    ensures
        with_exits(exits, more).no_duplicates(),
        forall|exit: Exit|
            exits.contains(exit) || more.contains(exit) ==> #[trigger] with_exits(
                exits,
                more,
            ).contains(exit),
    decreases more.len(),
{
    if more.len() > 0 {
        let fewer = more.drop_last();
        exits_do_not_repeat(exits, fewer);
        let before = with_exits(exits, fewer);
        let after = with_exits(exits, more);
        assert forall|exit: Exit|
            exits.contains(exit) || more.contains(exit) implies #[trigger] after.contains(exit) by {
            if exit == more.last() {
                if !before.contains(exit) {
                    assert(after[before.len() as int] == exit);
                }
            } else {
                if more.contains(exit) {
                    let k = choose|k: int| 0 <= k < more.len() && more[k] == exit;
                    assert(fewer[k] == exit);
                    assert(fewer.contains(exit));
                }
                assert(before.contains(exit));
                let k = choose|k: int| 0 <= k < before.len() && before[k] == exit;
                assert(after[k] == exit);
            }
        }
    }
}

/// A probe for cookies ends with a cookie exactly when its observation says that
/// one is ready, as far as the exchange itself went well.
pub proof fn a_ready_cookie_is_good(
    bucket: TurnStateBucket,
    response: TurnStateResponse,
    cookie: Option<RoutingCookie>,
    deleted: bool,
    created_model: Option<Seq<char>>,
    now: int,
)
    requires
        !response.transport_error,
        answered_well(response.status),
    ensures
        cookie_outcome(bucket, response, cookie, deleted, created_model, now) == "cookie_ready"@
            <==> cookie_is_good(bucket, cookie, deleted, created_model, now),
{
    reveal_strlit("cookie_ready");
    reveal_strlit("cookie_deleted");
    reveal_strlit("missing_model");
    reveal_strlit("missing_cookie");
    reveal_strlit("cookie_gateway_filtered");
    reveal_strlit("cookie_model_mismatch");
    assert("cookie_ready"@.len() == 12);
}

} // verus!
