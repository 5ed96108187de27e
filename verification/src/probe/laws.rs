//! What holds of the hunt: what an answer is worth, when a probe is made and how
//! long the next one waits.

use crate::account::cookie_lock::{routing_claims, RoutingCookie};
use crate::account::turn_state::{issue_time, ObservationView, TurnStateBucket, TurnStateConfig};
use crate::probe::cookie::{
    business_outcome, of_origin, receive_all, whole_seconds, CookieInput, Received,
};
use crate::probe::observe::{
    blank_observation, checks_model, latest_of, observed, root_failure, TurnStateResponse,
    WebSocketFailure,
};
use crate::probe::plan::{
    answered_well, begun_probe, cookie_is_good, cookie_outcome, credential_verdict,
    exits_do_not_repeat, is_success, probe_exits, reads, with_exits, CheckView, CredentialFacts,
    Exit, ProbeOutcome,
};
use crate::probe::worker::{
    first_expiry, first_step_of, is_attended, is_over, longest_wait, next_step_of, probe_is_due,
    usable_cookies, wait_after, FirstStep, NextStep, StepResult,
};
use crate::text::{optional_text, same_ignoring_case};
use vstd::prelude::*;
use vstd::utf8::*;

verus! {

/// An answer went well as far as its status goes: it has none, it is a success, or
/// it switches protocols.
pub open spec fn went_well(status: Option<u16>) -> bool {
    match status {
        None => true,
        Some(code) => 200 <= code <= 299 || code == 101,
    }
}

/// A new ticket of the right length that is young enough is a candidate, and the
/// observation has its text, its length and its time.
pub proof fn a_new_ticket_is_a_candidate(
    before: ObservationView,
    response: TurnStateResponse,
    config: TurnStateConfig,
    sent: Option<Seq<char>>,
    latest: Option<i64>,
    text: Seq<char>,
    time: nat,
)
    requires
        !response.transport_error,
        went_well(response.status),
        response.value is Some,
        valid_utf8(response.value->0@),
        text == decode_utf8(response.value->0@),
        issue_time(text) == Some(time),
        0 < time <= before.observed_at,
        before.observed_at - time < config.ttl_seconds,
        response.value->0@.len() == config.target_length,
        sent != Some(text),
        latest is Some ==> time > latest->0,
    ensures
        ({
            let after = observed(before, response, config, sent, latest);
            &&& after.outcome == "candidate"@
            &&& after.token == Some(text)
            &&& after.issued_at == Some(time as i64)
            &&& after.token_length == Some(config.target_length)
        }),
{
}

/// An answer without a ticket says why there is none.
pub proof fn an_answer_without_a_ticket_says_so(
    before: ObservationView,
    response: TurnStateResponse,
    config: TurnStateConfig,
    sent: Option<Seq<char>>,
    latest: Option<i64>,
)
    ensures
        ({
            let after = observed(before, response, config, sent, latest);
            &&& response.transport_error ==> after.outcome == "transport_error"@
            &&& !response.transport_error && response.value is None ==> after.outcome
                == "missing_header"@
            &&& !response.transport_error && response.value is Some && (!valid_utf8(
                response.value->0@,
            ) || issue_time(decode_utf8(response.value->0@)) is None) ==> after.outcome
                == "invalid_token"@
            &&& response.value is None ==> after.token is None && after.issued_at is None
                && after.token_length is None
        }),
{
}

/// A ticket that is no candidate says why: the answer failed, the ticket is out of
/// date, has the wrong length, is the one that was sent, or is no newer than the
/// newest. The first of these that holds is told.
pub proof fn a_ticket_that_is_no_candidate_says_why(
    before: ObservationView,
    response: TurnStateResponse,
    config: TurnStateConfig,
    sent: Option<Seq<char>>,
    latest: Option<i64>,
    text: Seq<char>,
    time: nat,
)
    requires
        !response.transport_error,
        response.value is Some,
        valid_utf8(response.value->0@),
        text == decode_utf8(response.value->0@),
        issue_time(text) == Some(time),
        time <= i64::MAX,
    ensures
        ({
            let after = observed(before, response, config, sent, latest);
            let age = before.observed_at - time;
            let in_date = time > 0 && 0 <= age < config.ttl_seconds;
            let fits = response.value->0@.len() == config.target_length;
            &&& !went_well(response.status) ==> after.outcome == "http_error"@
            &&& went_well(response.status) && !in_date ==> after.outcome == "expired_or_future"@
            &&& went_well(response.status) && in_date && !fits ==> after.outcome
                == "length_miss"@
            &&& went_well(response.status) && in_date && fits && sent == Some(text)
                ==> after.outcome == "reused_state"@
            &&& went_well(response.status) && in_date && fits && sent != Some(text) && latest
                is Some && time <= latest->0 ==> after.outcome == "not_newer"@
            &&& after.token == (if in_date {
                Some(text)
            } else {
                None
            })
            &&& after.issued_at == Some(time as i64)
        }),
{
}

/// An observation tells the answer's status, its time, its source and its model, and
/// keeps what was known before.
pub proof fn an_observation_tells_of_the_answer(
    before: ObservationView,
    response: TurnStateResponse,
    config: TurnStateConfig,
    sent: Option<Seq<char>>,
    latest: Option<i64>,
)
    ensures
        ({
            let after = observed(before, response, config, sent, latest);
            &&& after.http_status == response.status
            &&& after.elapsed_ms == response.elapsed_ms
            &&& after.response_source == Some(response.source@)
            &&& match response.reported_model {
                Some(model) => after.reported_model == Some(model@),
                None => after.reported_model is None,
            }
            &&& after.account_id == before.account_id
            &&& after.upstream_account_id == before.upstream_account_id
            &&& after.upstream_user_id == before.upstream_user_id
            &&& after.model == before.model
            &&& after.observed_at == before.observed_at
            &&& after.source == before.source
            &&& after.egress == before.egress
        }),
{
}

/// The model is checked where that is switched on, the answer names a model and the
/// request carried a ticket.
pub proof fn when_the_model_is_checked(
    response: TurnStateResponse,
    config: TurnStateConfig,
    sent: Seq<char>,
)
    ensures
        !checks_model(response, config, None),
        !config.detect_actual_model ==> !checks_model(response, config, Some(sent)),
        response.reported_model is None ==> !checks_model(response, config, Some(sent)),
        sent.len() == 0 ==> !checks_model(response, config, Some(sent)),
        config.detect_actual_model && response.reported_model is Some && sent.len() > 0
            ==> checks_model(response, config, Some(sent)),
{
}

/// The newest time of a bucket is that of its ticket or of its candidate, and
/// neither is newer.
pub proof fn the_newest_time_of_a_bucket(bucket: TurnStateBucket)
    ensures
        match latest_of(bucket) {
            Some(latest) => {
                &&& bucket.current_issued_at is Some ==> bucket.current_issued_at->0 <= latest
                &&& bucket.candidate is Some ==> bucket.candidate->0.issued_at <= latest
                &&& (bucket.current_issued_at == Some(latest) || (bucket.candidate is Some
                    && bucket.candidate->0.issued_at == latest))
            },
            None => bucket.current_issued_at is None && bucket.candidate is None,
        },
{
}

/// A failure that wraps another is judged by the one inside; a request that was
/// never sent is no failure of the upstream.
pub proof fn a_failure_is_judged_by_its_cause(inner: Box<WebSocketFailure>)
    ensures
        root_failure(WebSocketFailure::ConnectionObserved(inner)) == root_failure(*inner),
        root_failure(WebSocketFailure::PostSendAmbiguous(Some(inner))) == root_failure(*inner),
        root_failure(WebSocketFailure::ReusedConnectionDiedBeforeFirstEvent(Some(inner)))
            == root_failure(*inner),
        root_failure(WebSocketFailure::PostSendAmbiguous(None)) is None,
        root_failure(WebSocketFailure::ReusedConnectionDiedBeforeFirstEvent(None)) is None,
        root_failure(WebSocketFailure::Local) is None,
        *inner is Rejected || *inner is Transport || *inner is ConnectTimeout || *inner
            is SendTimeout ==> root_failure(*inner) == Some(*inner),
{
    reveal_with_fuel(root_failure, 2);
}

/// An observation begins with whose it is, which model, where from, which way and
/// when, and nothing else.
pub proof fn an_observation_begins_blank(
    account_id: Seq<char>,
    upstream_account_id: Option<Seq<char>>,
    upstream_user_id: Option<Seq<char>>,
    model: Seq<char>,
    source: Seq<char>,
    egress: Seq<char>,
    now: i64,
)
    ensures
        ({
            let blank = blank_observation(
                account_id,
                upstream_account_id,
                upstream_user_id,
                model,
                source,
                egress,
                now,
            );
            &&& blank.account_id == account_id
            &&& blank.upstream_account_id == upstream_account_id
            &&& blank.upstream_user_id == upstream_user_id
            &&& blank.model == model
            &&& blank.source == source
            &&& blank.egress == egress
            &&& blank.observed_at == now
            &&& blank.outcome.len() == 0
            &&& blank.token is None && !blank.has_token && !blank.is_installed
            &&& blank.http_status is None && blank.token_length is None && blank.issued_at is None
            &&& blank.reported_model is None && blank.probe_id is None && blank.answer is None
            &&& blank.oailb_host is None && blank.cookie_issued_at is None
            &&& blank.cookie_expires_at is None
        }),
{
}

/// A probe is noted under its bucket's account and model, with what started it.
pub proof fn a_probe_is_noted_for_its_bucket(bucket: TurnStateBucket, manual: bool, now: i64)
    ensures
        ({
            let begun = begun_probe(bucket, manual, now);
            &&& begun.account_id == bucket.account_id@
            &&& begun.model == bucket.model@
            &&& begun.observed_at == now
            &&& begun.source == "probe"@
            &&& begun.request_state_source == Some("none"@)
            &&& manual ==> begun.probe_trigger == Some("manual"@)
            &&& !manual ==> begun.probe_trigger == Some("scheduled"@)
            &&& begun.upstream_account_id == optional_text(bucket.upstream_account_id)
            &&& begun.upstream_user_id == optional_text(bucket.upstream_user_id)
            &&& begun.egress == "none"@
        }),
{
}

/// A probe goes on under an OAuth credential that can be read, is good for more
/// than half a minute, and names its account. The access token's own expiry counts
/// before that of the account.
pub proof fn a_sound_credential_is_enough(facts: CredentialFacts, expiry: i64, now_ms: int)
    requires
        facts.enabled && facts.model_allowed,
        facts.decoded && facts.is_oauth,
        facts.token_expires_ms == Some(expiry) || (facts.token_expires_ms is None
            && facts.account_expires_ms == Some(expiry)),
    ensures
        expiry - now_ms > 30_000 && facts.upstream_account_id is Some ==> credential_verdict(
            Some(facts),
            now_ms,
        ) == CheckView::Ready(facts.upstream_account_id->0@),
        expiry - now_ms > 30_000 && facts.upstream_account_id is None ==> credential_verdict(
            Some(facts),
            now_ms,
        ) == CheckView::Skip("missing_account_identity"@),
        expiry - now_ms <= 30_000 ==> credential_verdict(Some(facts), now_ms) == CheckView::Skip(
            "access_token_expired_or_unknown"@,
        ),
{
}

/// A probe that lacks something says what; one that is not wanted says nothing.
pub proof fn a_poor_credential_is_told(facts: CredentialFacts, now_ms: int)
    ensures
        credential_verdict(None, now_ms) == CheckView::Skip("credential_unavailable"@),
        !facts.enabled ==> credential_verdict(Some(facts), now_ms) == CheckView::Silent,
        !facts.model_allowed ==> credential_verdict(Some(facts), now_ms) == CheckView::Silent,
        facts.enabled && facts.model_allowed && !facts.decoded ==> credential_verdict(
            Some(facts),
            now_ms,
        ) == CheckView::Skip("credential_invalid"@),
        facts.enabled && facts.model_allowed && facts.decoded && !facts.is_oauth
            ==> credential_verdict(Some(facts), now_ms) == CheckView::Skip("oauth_required"@),
        facts.enabled && facts.model_allowed && facts.decoded && facts.is_oauth
            && facts.token_expires_ms is None && facts.account_expires_ms is None
            ==> credential_verdict(Some(facts), now_ms) == CheckView::Skip(
            "access_token_expired_or_unknown"@,
        ),
{
}

proof fn added_exits_come_from_somewhere(exits: Seq<Exit>, more: Seq<Exit>, exit: Exit)
    requires
        with_exits(exits, more).contains(exit),
    ensures
        exits.contains(exit) || more.contains(exit),
    decreases more.len(),
{
    if more.len() > 0 {
        let before = with_exits(exits, more.drop_last());
        if before.contains(exit) {
            added_exits_come_from_somewhere(exits, more.drop_last(), exit);
            if more.drop_last().contains(exit) {
                let k = more.drop_last().index_of(exit);
                assert(more[k] == exit);
            }
        } else {
            let after = with_exits(exits, more);
            let k = after.index_of(exit);
            assert(after[k] == exit);
            assert(after == before.push(more.last()));
            assert(k == before.len());
            assert(more[more.len() - 1] == exit);
        }
    }
}

proof fn the_first_exits_stay(exits: Seq<Exit>, more: Seq<Exit>, i: int)
    requires
        0 <= i < exits.len(),
    ensures
        i < with_exits(exits, more).len(),
        with_exits(exits, more)[i] == exits[i],
    decreases more.len(),
{
    if more.len() > 0 {
        the_first_exits_stay(exits, more.drop_last(), i);
    }
}

/// A probe chooses among the account's own way out and the direct one, where these
/// are switched on, and the proxies of the pool; among each of them once, and among
/// no others. The account's own comes first.
pub proof fn which_ways_out_there_are(
    config: TurnStateConfig,
    own: Exit,
    pool: Seq<Exit>,
    exit: Exit,
)
    ensures
        probe_exits(config, own, pool).contains(exit) <==> ((config.include_account_proxy && exit
            == own) || (config.include_direct && exit is None) || pool.contains(exit)),
        probe_exits(config, own, pool).no_duplicates(),
        config.include_account_proxy ==> probe_exits(config, own, pool).len() > 0 && probe_exits(
            config,
            own,
            pool,
        )[0] == own,
{
    let first: Seq<Exit> = if config.include_account_proxy {
        seq![own]
    } else {
        Seq::empty()
    };
    let second: Seq<Exit> = if config.include_direct && !first.contains(None) {
        first.push(None)
    } else {
        first
    };
    if config.include_account_proxy {
        assert(first[0] == own);
        assert(second[0] == own);
        the_first_exits_stay(second, pool, 0);
    }
    if config.include_direct {
        if first.contains(None) {
            assert(second == first);
        } else {
            assert(second[second.len() - 1] == None::<(Seq<char>, Seq<char>)>);
        }
        assert(second.contains(None));
    }
    assert(second.no_duplicates());
    assert(probe_exits(config, own, pool) == with_exits(second, pool));
    exits_do_not_repeat(second, pool);
    if probe_exits(config, own, pool).contains(exit) {
        added_exits_come_from_somewhere(second, pool, exit);
    } else {
        assert(!second.contains(exit) && !pool.contains(exit));
    }
}

/// A status is a success from 200 to 299.
pub proof fn which_statuses_are_a_success(status: u16)
    ensures
        200 <= status <= 299 ==> is_success(status) && answered_well(Some(status)),
        status < 200 || status > 299 ==> !is_success(status) && !answered_well(Some(status)),
        !answered_well(None),
{
}

/// Output is read where cookies are hunted, where the strategy says so, and by lot
/// where it is mixed.
pub proof fn when_output_is_read(config: TurnStateConfig, coin: int)
    ensures
        config.cookie_lock_enabled ==> reads(config, coin),
        !config.cookie_lock_enabled && config.stop_strategy is Headers ==> !reads(config, coin),
        !config.cookie_lock_enabled && config.stop_strategy is FirstOutput ==> reads(config, coin),
        !config.cookie_lock_enabled && config.stop_strategy is Mixed ==> reads(config, 1)
            && !reads(config, 0),
{
}

/// A probe for cookies succeeds when the answer brought a cookie that was not taken
/// away, is in date and for the bucket's model, may be selected, and came with the
/// bucket's model; the outcome says so.
pub proof fn when_a_cookie_is_ready(
    bucket: TurnStateBucket,
    response: TurnStateResponse,
    cookie: RoutingCookie,
    created: Seq<char>,
    now: int,
)
    ensures
        cookie_is_good(bucket, Some(cookie), false, Some(created), now) <==> (cookie.issued_at
            <= now && now < cookie.expires_at && same_ignoring_case(
            cookie.reported_model@,
            bucket.model@,
        ) && bucket.selectable(cookie) && same_ignoring_case(created, bucket.model@)),
        !cookie_is_good(bucket, Some(cookie), true, Some(created), now),
        !cookie_is_good(bucket, Some(cookie), false, None, now),
        !cookie_is_good(bucket, None, false, Some(created), now),
        !response.transport_error && response.status is Some && 200 <= response.status->0 <= 299
            && cookie.issued_at <= now && now < cookie.expires_at && same_ignoring_case(
            cookie.reported_model@,
            bucket.model@,
        ) && bucket.selectable(cookie) && same_ignoring_case(created, bucket.model@)
            ==> cookie_outcome(bucket, response, Some(cookie), false, Some(created), now)
            == "cookie_ready"@,
{
}

/// A probe for cookies that came to nothing says why.
pub proof fn why_a_cookie_is_not_ready(
    bucket: TurnStateBucket,
    response: TurnStateResponse,
    cookie: Option<RoutingCookie>,
    deleted: bool,
    created: Option<Seq<char>>,
    now: int,
)
    ensures
        ({
            let outcome = cookie_outcome(bucket, response, cookie, deleted, created, now);
            let well = !response.transport_error && response.status is Some && 200
                <= response.status->0 <= 299;
            &&& response.transport_error ==> outcome == "transport_error"@
            &&& !response.transport_error && !well ==> outcome == "http_error"@
            &&& well && deleted ==> outcome == "cookie_deleted"@
            &&& well && !deleted && created is None ==> outcome == "missing_model"@
            &&& well && !deleted && created is Some && cookie is None ==> outcome
                == "missing_cookie"@
            &&& well && !deleted && created is Some && cookie is Some && !bucket.selectable(
                cookie->0,
            ) ==> outcome == "cookie_gateway_filtered"@
            &&& well && !deleted && created is Some && cookie is Some && bucket.selectable(
                cookie->0,
            ) && !same_ignoring_case(created->0, bucket.model@) ==> outcome
                == "cookie_model_mismatch"@
        }),
{
}

/// The cookies of a business answer are judged by the model that the answer names.
pub proof fn what_a_business_answer_comes_to(
    bucket: TurnStateBucket,
    cookie: RoutingCookie,
    requested: Seq<char>,
    model: Seq<char>,
)
    ensures
        business_outcome(bucket, Some(cookie), true, requested, model) == "cookie_deleted"@,
        business_outcome(bucket, None, true, requested, model) == "cookie_deleted"@,
        business_outcome(bucket, None, false, requested, model) == "missing_cookie"@,
        !bucket.selectable(cookie) ==> business_outcome(
            bucket,
            Some(cookie),
            false,
            requested,
            model,
        ) == "cookie_gateway_filtered"@,
        bucket.selectable(cookie) && same_ignoring_case(model, requested) ==> business_outcome(
            bucket,
            Some(cookie),
            false,
            requested,
            model,
        ) == "cookie_ready"@,
        bucket.selectable(cookie) && !same_ignoring_case(model, requested) ==> business_outcome(
            bucket,
            Some(cookie),
            false,
            requested,
            model,
        ) == "cookie_model_mismatch"@,
{
}

/// The last field that the endpoint may send back decides: one with a routing token
/// brings a cookie of this endpoint, of the named model and of the time when the
/// request began; it expires with its token or with its field, whichever is first.
pub proof fn the_last_field_brings_the_cookie(
    endpoint: Seq<char>,
    inputs: Seq<CookieInput>,
    input: CookieInput,
    model: Seq<char>,
    started_at: int,
    now: int,
)
    requires
        input.may_replay,
        !input.delete,
        routing_claims(input.name@, input.value@, now) is Some,
    ensures
        ({
            let claims = routing_claims(input.name@, input.value@, now)->0;
            let after = receive_all(endpoint, inputs.push(input), model, started_at, now);
            let cookie = after.cookie->0;
            &&& !after.deleted
            &&& after.cookie is Some
            &&& cookie.origin == endpoint
            &&& cookie.name == input.name@
            &&& cookie.value == input.value@
            &&& cookie.pod == claims.pod
            &&& cookie.issued_at == claims.issued_at
            &&& cookie.reported_model == model
            &&& cookie.observed_at == started_at
            &&& cookie.expires_at <= claims.expires_at
            &&& input.expires_at is Some ==> cookie.expires_at <= input.expires_at->0
            &&& cookie.expires_at == claims.expires_at || (input.expires_at is Some
                && cookie.expires_at == input.expires_at->0)
        }),
{
    assert(inputs.push(input).drop_last() =~= inputs);
}

/// A field that deletes the cookie, or that brings no routing token, takes it away;
/// one that the endpoint may not send back changes nothing.
pub proof fn other_fields_take_the_cookie_away(
    endpoint: Seq<char>,
    inputs: Seq<CookieInput>,
    input: CookieInput,
    model: Seq<char>,
    started_at: int,
    now: int,
)
    ensures
        ({
            let before = receive_all(endpoint, inputs, model, started_at, now);
            let after = receive_all(endpoint, inputs.push(input), model, started_at, now);
            &&& !input.may_replay ==> after == before
            &&& input.may_replay && (input.delete || routing_claims(
                input.name@,
                input.value@,
                now,
            ) is None) ==> after.deleted && after.cookie == before.cookie
            &&& receive_all(endpoint, Seq::empty(), model, started_at, now) == (Received {
                cookie: None,
                deleted: false,
            })
        }),
{
    assert(inputs.push(input).drop_last() =~= inputs);
}

/// An endpoint sees its own cookies, all of them and in order.
pub proof fn an_endpoint_sees_its_own_cookies(cookies: Seq<RoutingCookie>, origin: Seq<char>)
    ensures
        of_origin(cookies, origin) == cookies.filter(
            |cookie: RoutingCookie| cookie.origin@ == origin,
        ),
    decreases cookies.len(),
{
    reveal(Seq::filter);
    if cookies.len() > 0 {
        an_endpoint_sees_its_own_cookies(cookies.drop_last(), origin);
    }
}

/// Milliseconds lose less than a second, towards zero.
pub proof fn seconds_are_whole(millis: int)
    ensures
        millis >= 0 ==> 1000 * whole_seconds(millis) <= millis < 1000 * whole_seconds(millis)
            + 1000,
        millis <= 0 ==> 1000 * whole_seconds(millis) - 1000 < millis <= 1000 * whole_seconds(
            millis,
        ),
{
}

/// A bucket is looked at when tickets or cookies are kept for it or a probe was
/// asked for by hand, and a probe asked for by hand comes first.
pub proof fn what_a_cycle_does_first(bucket: TurnStateBucket, now: int)
    ensures
        is_attended(bucket) <==> (bucket.config.enabled || bucket.config.cookie_lock_enabled
            || bucket.manual_probe_requested_at is Some),
        bucket.manual_probe_requested_at is Some ==> first_step_of(bucket, now)
            == FirstStep::ClaimManual,
        bucket.manual_probe_requested_at is None && bucket.config.cookie_lock_enabled
            ==> first_step_of(bucket, now) == FirstStep::ConsiderProbe,
        bucket.manual_probe_requested_at is None && !bucket.config.cookie_lock_enabled
            && !bucket.has_installed_token(now) ==> first_step_of(bucket, now)
            == FirstStep::TryInstall,
        bucket.manual_probe_requested_at is None && !bucket.config.cookie_lock_enabled
            && bucket.has_installed_token(now) ==> (first_step_of(bucket, now) == FirstStep::Done
            <==> now - bucket.current->0.issued_at < bucket.config.refresh_after_seconds),
        bucket.manual_probe_requested_at is None && !bucket.config.cookie_lock_enabled
            && bucket.has_installed_token(now) && now - bucket.current->0.issued_at
            >= bucket.config.refresh_after_seconds ==> first_step_of(bucket, now)
            == FirstStep::TryInstall,
{
}

/// The cookies that can be used are counted one by one.
pub proof fn usable_cookies_are_counted(cookies: Seq<RoutingCookie>, model: Seq<char>, now: int)
    ensures
        usable_cookies(cookies, model, now) == cookies.filter(
            |cookie: RoutingCookie| cookie.usable(model, now),
        ).len(),
    decreases cookies.len(),
{
    reveal(Seq::filter);
    if cookies.len() > 0 {
        usable_cookies_are_counted(cookies.drop_last(), model, now);
    }
}

/// A probe waits for its time. Where three cookies can be used and none is about to
/// expire there is none; otherwise there is one as soon as its time has come.
pub proof fn when_a_probe_is_due(bucket: TurnStateBucket, now: int)
    ensures
        bucket.next_probe_at is Some && now < bucket.next_probe_at->0 ==> !probe_is_due(
            bucket,
            now,
        ),
        !bucket.config.cookie_lock_enabled && (bucket.next_probe_at is None
            || bucket.next_probe_at->0 <= now) ==> probe_is_due(bucket, now),
        ({
            let usable = bucket.routing_cookies@.filter(
                |cookie: RoutingCookie| cookie.usable(bucket.model@, now),
            ).len();
            let renews = bucket.cookie_to_renew(bucket.routing_cookies@.len() as int, now) is Some;
            bucket.config.cookie_lock_enabled && (bucket.next_probe_at is None
                || bucket.next_probe_at->0 <= now) ==> (probe_is_due(bucket, now) <==> (renews
                || usable < 3))
        }),
{
    usable_cookies_are_counted(bucket.routing_cookies@, bucket.model@, now);
}

/// A probe made by hand is made once, and only by the one who claimed it; a
/// scheduled one is followed by the time of the next, unless the hunt is over. The
/// hunt is over when a ticket is in use; cookies are gathered on.
pub proof fn what_a_cycle_does_next(bucket: TurnStateBucket, outcome: ProbeOutcome, now: int)
    ensures
        next_step_of(bucket, StepResult::Claimed(true), now) == (NextStep::Probe { manual: true }),
        next_step_of(bucket, StepResult::Claimed(false), now) == NextStep::Done,
        next_step_of(bucket, StepResult::Installed(true), now) == NextStep::Done,
        probe_is_due(bucket, now) ==> next_step_of(bucket, StepResult::Installed(false), now) == (
        NextStep::Probe { manual: false }) && next_step_of(bucket, StepResult::Considered, now) == (
        NextStep::Probe { manual: false }),
        !probe_is_due(bucket, now) ==> next_step_of(bucket, StepResult::Installed(false), now)
            == NextStep::Done && next_step_of(bucket, StepResult::Considered, now)
            == NextStep::Done,
        next_step_of(bucket, StepResult::Probed { manual: true, outcome }, now) == NextStep::Done,
        outcome is Installed && !bucket.config.cookie_lock_enabled ==> next_step_of(
            bucket,
            StepResult::Probed { manual: false, outcome },
            now,
        ) == NextStep::Done && is_over(bucket.config, outcome),
        !(outcome is Installed) || bucket.config.cookie_lock_enabled ==> next_step_of(
            bucket,
            StepResult::Probed { manual: false, outcome },
            now,
        ) == NextStep::Schedule && !is_over(bucket.config, outcome),
{
}

/// After a probe that was skipped, and after each round of probes, the wait is the
/// idle one; after any other it is the usual one with the jitter. Without a budget
/// there are no rounds.
pub proof fn how_long_the_next_probe_waits(
    bucket: TurnStateBucket,
    outcome: ProbeOutcome,
    jitter: int,
    rounds: int,
)
    ensures
        outcome is Skipped ==> wait_after(bucket, outcome, jitter) == bucket.config.idle_seconds,
        !(outcome is Skipped) && bucket.config.budget == 0 ==> wait_after(bucket, outcome, jitter)
            == bucket.config.retry_seconds + jitter,
        !(outcome is Skipped) && bucket.config.budget > 0 && bucket.hunt_attempts + 1 == rounds
            * bucket.config.budget ==> wait_after(bucket, outcome, jitter)
            == bucket.config.idle_seconds,
        !(outcome is Skipped) && bucket.config.budget > 0 && bucket.hunt_attempts + 1
            < bucket.config.budget ==> wait_after(bucket, outcome, jitter)
            == bucket.config.retry_seconds + jitter,
{
    let budget = bucket.config.budget as int;
    let made = bucket.hunt_attempts + 1;
    if budget > 0 {
        if made == rounds * budget {
            vstd::arithmetic::div_mod::lemma_mod_multiples_basic(rounds, budget);
        }
        if made < budget {
            vstd::arithmetic::div_mod::lemma_small_mod(made as nat, budget as nat);
        }
    }
}

/// The first expiry is that of a cookie that can be used, and no such cookie expires
/// before it.
pub proof fn the_first_cookie_to_expire(
    cookies: Seq<RoutingCookie>,
    model: Seq<char>,
    now: int,
    i: int,
)
    requires
        0 <= i < cookies.len(),
        cookies[i].usable(model, now),
    ensures
        first_expiry(cookies, model, now) is Some,
        first_expiry(cookies, model, now)->0 <= cookies[i].expires_at,
        exists|k: int|
            0 <= k < cookies.len() && (#[trigger] cookies[k]).usable(model, now) && first_expiry(
                cookies,
                model,
                now,
            ) == Some(cookies[k].expires_at as int),
    decreases cookies.len(),
{
    let last = cookies.len() - 1;
    let before = cookies.drop_last();
    if i < last {
        the_first_cookie_to_expire(before, model, now, i);
        let k = choose|k: int|
            0 <= k < before.len() && (#[trigger] before[k]).usable(model, now) && first_expiry(
                before,
                model,
                now,
            ) == Some(before[k].expires_at as int);
        assert(cookies[k].usable(model, now));
        assert(cookies[last] == cookies.last());
    } else {
        if first_expiry(before, model, now) is Some {
            let j = a_usable_cookie_exists(before, model, now);
            the_first_cookie_to_expire(before, model, now, j);
            let k = choose|k: int|
                0 <= k < before.len() && (#[trigger] before[k]).usable(model, now) && first_expiry(
                    before,
                    model,
                    now,
                ) == Some(before[k].expires_at as int);
            assert(cookies[k].usable(model, now));
        }
        assert(cookies[last].usable(model, now));
    }
}

/// Where there is a first expiry, there is a cookie that can be used.
pub proof fn a_usable_cookie_exists(
    cookies: Seq<RoutingCookie>,
    model: Seq<char>,
    now: int,
) -> (i: int)
    requires
        first_expiry(cookies, model, now) is Some,
    ensures
        0 <= i < cookies.len(),
        cookies[i].usable(model, now),
    decreases cookies.len(),
{
    let last = cookies.len() - 1;
    if cookies.last().usable(model, now) {
        last
    } else {
        a_usable_cookie_exists(cookies.drop_last(), model, now)
    }
}

/// A wait goes up to the time to renew the cookie, and once that has come, through
/// half of what is left of its life; it is never less than a second.
pub proof fn how_far_a_wait_may_go(remaining: int, refresh_before: int)
    ensures
        remaining > refresh_before ==> longest_wait(remaining, refresh_before) == remaining
            - refresh_before,
        remaining <= refresh_before && remaining >= 2 ==> 2 * longest_wait(
            remaining,
            refresh_before,
        ) <= remaining < 2 * longest_wait(remaining, refresh_before) + 2,
        remaining <= refresh_before && remaining < 2 ==> longest_wait(remaining, refresh_before)
            == 1,
{
}

} // verus!
