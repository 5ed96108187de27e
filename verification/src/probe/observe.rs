//! What an answer of the upstream means for the hunt.

use crate::account::turn_state::{
    issue_time, ObservationView, TurnStateBucket, TurnStateConfig, TurnStateObservation,
    TurnStateToken,
};
use crate::account::provider::ProviderAccount;
use crate::text::{
    clone_optional, optional_str, optional_text, same_text, utf8_text,
};
use vstd::prelude::*;
use vstd::utf8::*;

verus! {

/// What an answer showed: its status, the ticket in it, and the model it names.
pub struct TurnStateResponse {
    pub status: Option<u16>,
    pub value: Option<Vec<u8>>,
    pub reported_model: Option<String>,
    pub elapsed_ms: u64,
    pub transport_error: bool,
    pub source: String,
}

/// A ticket, by its issue time and its text.
pub struct TicketView {
    pub issued_at: int,
    pub text: Seq<char>,
}

/// The ticket that an answer brought.
pub open spec fn brought_ticket(value: Option<Vec<u8>>) -> Option<TicketView> {
    match value {
        Some(bytes) => if valid_utf8(bytes@) {
            let text = decode_utf8(bytes@);
            match issue_time(text) {
                Some(time) => Some(TicketView { issued_at: time as int, text }),
                None => None,
            }
        } else {
            None
        },
        None => None,
    }
}

pub open spec fn ticket_view(token: TurnStateToken) -> TicketView {
    TicketView { issued_at: token.issued_at as int, text: token.value@ }
}

/// The status of an answer that went wrong.
pub open spec fn is_failure_status(status: Option<u16>) -> bool {
    status is Some && !(200 <= status->0 < 300) && status->0 != 101
}

pub open spec fn is_fresh_ticket(issued_at: int, now: int, ttl_seconds: int) -> bool {
    issued_at > 0 && 0 <= now - issued_at < ttl_seconds
}

/// The name of what an answer means. `sent` is the ticket that the request
/// carried, `latest` the issue time of the newest ticket so far.
pub open spec fn outcome_of(
    response: TurnStateResponse,
    now: int,
    config: TurnStateConfig,
    sent: Option<Seq<char>>,
    latest: Option<i64>,
) -> Seq<char> {
    let ticket = brought_ticket(response.value);
    if response.transport_error {
        "transport_error"@
    } else if response.value is None {
        "missing_header"@
    } else if ticket is None {
        "invalid_token"@
    } else if is_failure_status(response.status) {
        "http_error"@
    } else if !is_fresh_ticket(ticket->0.issued_at, now, config.ttl_seconds as int) {
        "expired_or_future"@
    } else if response.value->0@.len() != config.target_length {
        "length_miss"@
    } else if sent == Some(ticket->0.text) {
        "reused_state"@
    } else if latest is Some && ticket->0.issued_at <= latest->0 {
        "not_newer"@
    } else {
        "candidate"@
    }
}

/// The observation, filled in from the answer. A ticket that is out of date
/// leaves its length and its issue time, but not its text.
pub open spec fn observed(
    observation: ObservationView,
    response: TurnStateResponse,
    config: TurnStateConfig,
    sent: Option<Seq<char>>,
    latest: Option<i64>,
) -> ObservationView {
    let ticket = brought_ticket(response.value);
    let now = observation.observed_at as int;
    ObservationView {
        response_source: Some(response.source@),
        http_status: response.status,
        elapsed_ms: response.elapsed_ms,
        token_length: match response.value {
            Some(bytes) => Some(bytes@.len() as usize),
            None => None,
        },
        reported_model: optional_text(response.reported_model),
        issued_at: match ticket {
            Some(found) => Some(found.issued_at as i64),
            None => None,
        },
        outcome: outcome_of(response, now, config, sent, latest),
        token: match ticket {
            Some(found) if is_fresh_ticket(
                found.issued_at,
                now,
                config.ttl_seconds as int,
            ) => Some(found.text),
            _ => None,
        },
        ..observation
    }
}

/// A question to the store: is the installed ticket still attached to the model
/// that it was attached to?
pub struct ModelCheck {
    pub sent: String,
    pub reported: String,
    /// A detached ticket is made void.
    pub revoke: bool,
}

/// What is to be kept of an answer, and what is to be asked before.
pub struct Observed {
    pub observation: TurnStateObservation,
    pub candidate: Option<TurnStateToken>,
    pub model_check: Option<ModelCheck>,
}

pub open spec fn checks_model(
    response: TurnStateResponse,
    config: TurnStateConfig,
    sent: Option<Seq<char>>,
) -> bool {
    config.detect_actual_model && response.reported_model is Some && sent is Some && sent->0.len()
        > 0
}

fn ticket_of(value: &Option<Vec<u8>>) -> (r: Option<TurnStateToken>)
    ensures
        match r {
            Some(token) => brought_ticket(*value) == Some(ticket_view(token)),
            None => brought_ticket(*value) is None,
        },
{
    match value {
        Some(bytes) => match utf8_text(bytes) {
            Some(text) => TurnStateToken::parse(text.as_str()),
            None => None,
        },
        None => None,
    }
}

fn outcome_name(
    response: &TurnStateResponse,
    token: &Option<TurnStateToken>,
    now: i64,
    config: &TurnStateConfig,
    sent: Option<&str>,
    latest: Option<i64>,
) -> (r: &'static str)
    requires
        match token {
            Some(token) => brought_ticket(response.value) == Some(ticket_view(*token)),
            None => brought_ticket(response.value) is None,
        },
    ensures
        r@ == outcome_of(*response, now as int, *config, optional_str(sent), latest),
{
    if response.transport_error {
        return "transport_error";
    }
    let length: usize = match &response.value {
        Some(bytes) => bytes.len(),
        None => {
            return "missing_header";
        },
    };
    let token = match token {
        Some(token) => token,
        None => {
            return "invalid_token";
        },
    };
    if let Some(status) = response.status {
        if !(200 <= status && status < 300) && status != 101 {
            return "http_error";
        }
    }
    if !token.is_fresh(now, config.ttl_seconds) {
        return "expired_or_future";
    }
    if length != config.target_length {
        return "length_miss";
    }
    if let Some(text) = sent {
        if same_text(text, token.value.as_str()) {
            return "reused_state";
        }
    }
    if !token.is_newer_than(latest) {
        return "not_newer";
    }
    "candidate"
}

/// Reads an answer: fills in the observation, keeps the ticket where it is a
/// candidate, and says whether the model is to be checked.
pub fn observe(
    observation: TurnStateObservation,
    response: &TurnStateResponse,
    config: &TurnStateConfig,
    request_state: Option<&str>,
    latest_issued_at: Option<i64>,
) -> (r: Observed)
    ensures
        r.observation@ == observed(
            observation@,
            *response,
            *config,
            optional_str(request_state),
            latest_issued_at,
        ),
        match r.candidate {
            Some(token) => r.observation@.outcome == "candidate"@ && brought_ticket(response.value)
                == Some(ticket_view(token)),
            None => r.observation@.outcome != "candidate"@,
        },
        match r.model_check {
            Some(check) => checks_model(*response, *config, optional_str(request_state))
                && check.sent@ == request_state->0@ && Some(check.reported@) == optional_text(
                response.reported_model,
            ) && check.revoke == (config.detect_actual_model && config.missing_state_policy
                == crate::account::turn_state::MissingTurnStatePolicy::Pause),
            None => !checks_model(*response, *config, optional_str(request_state)),
        },
{
    let token = ticket_of(&response.value);
    let now: i64 = observation.observed_at;
    let outcome = outcome_name(response, &token, now, config, request_state, latest_issued_at);
    let kept = match &token {
        Some(token) => if token.is_fresh(now, config.ttl_seconds) {
            Some(token.value.clone())
        } else {
            None
        },
        None => None,
    };
    let length: Option<usize> = match &response.value {
        Some(bytes) => Some(bytes.len()),
        None => None,
    };
    let issued_at: Option<i64> = match &token {
        Some(token) => Some(token.issued_at),
        None => None,
    };
    let mut observation = observation;
    observation.response_source = Some(response.source.clone());
    observation.http_status = response.status;
    observation.elapsed_ms = response.elapsed_ms;
    observation.token_length = length;
    observation.reported_model = clone_optional(&response.reported_model);
    observation.issued_at = issued_at;
    observation.outcome = outcome.to_owned();
    observation.token = kept;
    let candidate = if same_text(outcome, "candidate") {
        proof {
            a_candidate_is_fit_for_use(
                *response,
                now as int,
                *config,
                optional_str(request_state),
                latest_issued_at,
            );
        }
        token
    } else {
        None
    };
    let model_check = match (&response.reported_model, request_state) {
        (Some(reported), Some(sent)) => if config.detect_actual_model && !sent.is_empty() {
            Some(
                ModelCheck {
                    sent: sent.to_owned(),
                    reported: reported.clone(),
                    revoke: config.revokes_ticket_when_model_detaches(),
                },
            )
        } else {
            None
        },
        _ => None,
    };
    Observed { observation, candidate, model_check }
}

/// After the check of the model: an observation of a ticket that was made void
/// says so. The flag tells that the account's open connections, which still carry
/// the void ticket, are to be closed.
pub fn after_model_check(observation: TurnStateObservation, revoked: bool) -> (r: (
    TurnStateObservation,
    bool,
))
    ensures
        r.1 == revoked,
        r.0@ == (if revoked {
            ObservationView { outcome: "model_detached"@, ..observation@ }
        } else {
            observation@
        }),
{
    let mut observation = observation;
    if revoked {
        observation.outcome = "model_detached".to_owned();
    }
    (observation, revoked)
}

/// The newest issue time that a bucket knows: of the installed ticket or of the
/// candidate.
pub open spec fn latest_of(bucket: TurnStateBucket) -> Option<i64> {
    match (bucket.current_issued_at, bucket.candidate) {
        (Some(current), Some(token)) => if token.issued_at > current {
            Some(token.issued_at)
        } else {
            Some(current)
        },
        (Some(current), None) => Some(current),
        (None, Some(token)) => Some(token.issued_at),
        (None, None) => None,
    }
}

pub fn latest_issued_at(bucket: &TurnStateBucket) -> (r: Option<i64>)
    ensures
        r == latest_of(*bucket),
{
    match (bucket.current_issued_at, &bucket.candidate) {
        (Some(current), Some(token)) => if token.issued_at > current {
            Some(token.issued_at)
        } else {
            Some(current)
        },
        (Some(current), None) => Some(current),
        (None, Some(token)) => Some(token.issued_at),
        (None, None) => None,
    }
}

/// An answer to a business request is looked at, unless cookies alone route the
/// requests of its account and model.
pub fn observes_business(config: &TurnStateConfig) -> (r: bool)
    ensures
        r == (!config.cookie_lock_enabled || config.enabled),
{
    !(config.cookie_lock_enabled && !config.enabled)
}

/// An observation about which nothing is known yet.
pub open spec fn blank_observation(
    account_id: Seq<char>,
    upstream_account_id: Option<Seq<char>>,
    upstream_user_id: Option<Seq<char>>,
    model: Seq<char>,
    source: Seq<char>,
    egress: Seq<char>,
    now: i64,
) -> ObservationView {
    ObservationView {
        observation_id: None,
        account_id,
        upstream_account_id,
        upstream_user_id,
        model,
        observed_at: now,
        started_at: None,
        source,
        request_state_source: None,
        response_source: None,
        probe_trigger: None,
        outcome: Seq::empty(),
        http_status: None,
        token_length: None,
        issued_at: None,
        reported_model: None,
        oailb_host: None,
        cookie_issued_at: None,
        cookie_expires_at: None,
        token: None,
        has_token: false,
        is_installed: false,
        hunt_attempts: None,
        hunt_seconds: None,
        egress,
        shape: None,
        effort: None,
        elapsed_ms: 0,
        probe_id: None,
        stop_mode: None,
        stop_reason: None,
        answer: None,
        answer_match: None,
    }
}

pub fn new_observation(
    account_id: &str,
    upstream_account_id: &Option<String>,
    upstream_user_id: &Option<String>,
    model: &str,
    source: &str,
    egress: &str,
    now: i64,
) -> (r: TurnStateObservation)
    ensures
        r@ == blank_observation(
            account_id@,
            optional_text(*upstream_account_id),
            optional_text(*upstream_user_id),
            model@,
            source@,
            egress@,
            now,
        ),
{
    TurnStateObservation {
        observation_id: None,
        account_id: account_id.to_owned(),
        upstream_account_id: clone_optional(upstream_account_id),
        upstream_user_id: clone_optional(upstream_user_id),
        model: model.to_owned(),
        observed_at: now,
        started_at: None,
        source: source.to_owned(),
        request_state_source: None,
        response_source: None,
        probe_trigger: None,
        outcome: String::new(),
        http_status: None,
        token_length: None,
        issued_at: None,
        reported_model: None,
        oailb_host: None,
        cookie_issued_at: None,
        cookie_expires_at: None,
        token: None,
        has_token: false,
        is_installed: false,
        hunt_attempts: None,
        hunt_seconds: None,
        egress: egress.to_owned(),
        shape: None,
        effort: None,
        elapsed_ms: 0,
        probe_id: None,
        stop_mode: None,
        stop_reason: None,
        answer: None,
        answer_match: None,
    }
}

/// The observation of an answer to a business request, before the answer is read.
pub fn passive_observation(
    account: &ProviderAccount,
    model: &str,
    effort: &Option<String>,
    request_state_source: &str,
    egress: &str,
    now: i64,
) -> (r: TurnStateObservation)
    ensures
        r@ == (ObservationView {
            request_state_source: Some(request_state_source@),
            effort: optional_text(*effort),
            ..blank_observation(
                account.id@,
                optional_text(account.upstream_account_id),
                optional_text(account.upstream_user_id),
                model@,
                "passive"@,
                egress@,
                now,
            )
        }),
{
    let mut r = new_observation(
        account.id().as_str(),
        &account.upstream_account_id,
        &account.upstream_user_id,
        model,
        "passive",
        egress,
        now,
    );
    r.request_state_source = Some(request_state_source.to_owned());
    r.effort = clone_optional(effort);
    r
}

/// Why a connection over a web socket came to nothing.
pub enum WebSocketFailure {
    /// What was seen of a connection, with what went wrong behind it.
    ConnectionObserved(Box<WebSocketFailure>),
    PostSendAmbiguous(Option<Box<WebSocketFailure>>),
    ReusedConnectionDiedBeforeFirstEvent(Option<Box<WebSocketFailure>>),
    /// The upstream answered the handshake with this status.
    Rejected { status: u16, value: Option<Vec<u8>>, reported_model: Option<String> },
    /// The handshake or the connection failed otherwise.
    Transport,
    ConnectTimeout,
    SendTimeout,
    /// The request was held back here and never sent.
    Local,
}

/// The failure behind the others; none where it was never sent, or is not known.
pub open spec fn root_failure(failure: WebSocketFailure) -> Option<WebSocketFailure>
    decreases failure,
{
    match failure {
        WebSocketFailure::ConnectionObserved(source) => root_failure(*source),
        WebSocketFailure::PostSendAmbiguous(Some(source)) => root_failure(*source),
        WebSocketFailure::ReusedConnectionDiedBeforeFirstEvent(Some(source)) => root_failure(
            *source,
        ),
        WebSocketFailure::PostSendAmbiguous(None) => None,
        WebSocketFailure::ReusedConnectionDiedBeforeFirstEvent(None) => None,
        WebSocketFailure::Local => None,
        _ => Some(failure),
    }
}

pub open spec fn optional_bytes(bytes: Option<Vec<u8>>) -> Option<Seq<u8>> {
    match bytes {
        Some(bytes) => Some(bytes@),
        None => None,
    }
}

fn copy_bytes(bytes: &Option<Vec<u8>>) -> (r: Option<Vec<u8>>)
    ensures
        optional_bytes(r) == optional_bytes(*bytes),
{
    match bytes {
        Some(bytes) => Some(vstd::slice::slice_to_vec(bytes.as_slice())),
        None => None,
    }
}

impl TurnStateResponse {
    /// What a failed connection showed of the upstream: an answer to the
    /// handshake, a transport error, or nothing where nothing was sent.
    pub fn websocket_failure(failure: &WebSocketFailure, elapsed_ms: u64) -> (r: Option<
        TurnStateResponse,
    >)
        ensures
            match root_failure(*failure) {
                Some(WebSocketFailure::Rejected { status, value, reported_model }) => {
                    &&& r is Some
                    &&& r->0.status == Some(status)
                    &&& optional_bytes(r->0.value) == optional_bytes(value)
                    &&& optional_text(r->0.reported_model) == optional_text(reported_model)
                    &&& !r->0.transport_error
                },
                Some(_) => {
                    &&& r is Some
                    &&& r->0.status is None
                    &&& r->0.value is None
                    &&& r->0.reported_model is None
                    &&& r->0.transport_error
                },
                None => r is None,
            },
            r is Some ==> r->0.elapsed_ms == elapsed_ms && r->0.source@ == "websocket_start"@,
        decreases failure,
    {
        match failure {
            WebSocketFailure::ConnectionObserved(source) => TurnStateResponse::websocket_failure(
                source,
                elapsed_ms,
            ),
            WebSocketFailure::PostSendAmbiguous(Some(source)) =>
                TurnStateResponse::websocket_failure(source, elapsed_ms),
            WebSocketFailure::ReusedConnectionDiedBeforeFirstEvent(Some(source)) =>
                TurnStateResponse::websocket_failure(source, elapsed_ms),
            WebSocketFailure::Rejected { status, value, reported_model } => Some(
                TurnStateResponse {
                    status: Some(*status),
                    value: copy_bytes(value),
                    reported_model: clone_optional(reported_model),
                    elapsed_ms,
                    transport_error: false,
                    source: "websocket_start".to_owned(),
                },
            ),
            WebSocketFailure::Transport | WebSocketFailure::ConnectTimeout
            | WebSocketFailure::SendTimeout => Some(
                TurnStateResponse {
                    status: None,
                    value: None,
                    reported_model: None,
                    elapsed_ms,
                    transport_error: true,
                    source: "websocket_start".to_owned(),
                },
            ),
            WebSocketFailure::PostSendAmbiguous(None)
            | WebSocketFailure::ReusedConnectionDiedBeforeFirstEvent(None)
            | WebSocketFailure::Local => None,
        }
    }
}

/// A candidate is a ticket of the target's length, fresh by its own issue time,
/// newer than any before, and not the one that was sent.
pub proof fn a_candidate_is_fit_for_use(
    response: TurnStateResponse,
    now: int,
    config: TurnStateConfig,
    sent: Option<Seq<char>>,
    latest: Option<i64>,
)
    requires
        outcome_of(response, now, config, sent, latest) == "candidate"@,
    ensures
        !response.transport_error,
        brought_ticket(response.value) is Some,
        response.value->0@.len() == config.target_length,
        is_fresh_ticket(brought_ticket(response.value)->0.issued_at, now, config.ttl_seconds as int),
        latest is Some ==> brought_ticket(response.value)->0.issued_at > latest->0,
        sent != Some(brought_ticket(response.value)->0.text),
{
    reveal_strlit("candidate");
    reveal_strlit("transport_error");
    reveal_strlit("missing_header");
    reveal_strlit("invalid_token");
    reveal_strlit("http_error");
    reveal_strlit("expired_or_future");
    reveal_strlit("length_miss");
    reveal_strlit("reused_state");
    reveal_strlit("not_newer");
    assert("candidate"@.len() == 9 && "not_newer"@.len() == 9);
    assert("candidate"@[0] == 'c' && "not_newer"@[0] == 'n');
}

} // verus!
