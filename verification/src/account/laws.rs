//! What holds of tickets, routing cookies and the choice of accounts.

use crate::account::cookie_lock::{
    claims_in, gateway_of, is_token_part, part_object, routing_claims, CookieClaims, RoutingCookie,
};
use crate::account::provider::ProviderAccount;
use crate::account::selection::{
    a_turn_goes_to_an_open_account, has_preferred, is_open, is_preferred, line_up, placed, serving,
    total_in_flight, total_limit, turn_of, AccountCandidate, AccountSchedulingBlocker,
    RotationStrategy, SchedulingSignals, SelectionContext,
};
use crate::account::turn_state::{
    debug_optional_number, debug_optional_text, is_gateway_list, is_hook_char, is_hook_path,
    is_hook_url, is_line, is_proxy_id, is_release, issue_time, names_gateway, outlasts, stamp,
    version_tags, MissingTurnStatePolicy, TurnStateAvailability, TurnStateBucket, TurnStateConfig,
    TurnStateStopStrategy, TurnStateToken, UrlView,
};
use crate::base64_text::{url_safe_bytes, url_safe_no_pad_bytes};
use crate::json::{value_in_bytes, Members, NumberView, Tree};
use crate::text::{
    all_digits, byte_len, debug_quoted, is_control, optional_text, same_ignoring_case,
    signed_decimal, split, text_le, text_le_is_total, text_le_is_transitive, trim,
};
use crate::text_laws::pieces_of_a_text;
use vstd::prelude::*;

verus! {

/// A host names a gateway if it is made of the usual words around a number of up to
/// ten digits; that number is the gateway.
pub proof fn a_host_names_its_gateway(pod: Seq<char>, number: Seq<char>)
    ensures
        0 < number.len() <= 10 && (forall|i: int|
            0 <= i < number.len() ==> '0' <= #[trigger] number[i] <= '9') ==> gateway_of(
            "chat.gateway.unified-"@ + number + ".api.openai.com"@,
        ) == Some(number),
        gateway_of(pod) == Some(number) ==> pod == "chat.gateway.unified-"@ + number
            + ".api.openai.com"@ && 0 < number.len() <= 10 && all_digits(number),
{
    let prefix = "chat.gateway.unified-"@;
    let suffix = ".api.openai.com"@;
    let whole = prefix + number + suffix;
    assert(whole.take(prefix.len() as int) =~= prefix);
    let rest = whole.skip(prefix.len() as int);
    assert(rest =~= number + suffix);
    assert(rest.skip(rest.len() - suffix.len()) =~= suffix);
    assert(rest.take(rest.len() - suffix.len()) =~= number);
    if gateway_of(pod) == Some(number) {
        let rest = pod.skip(prefix.len() as int);
        assert(pod =~= prefix + rest);
        assert(rest =~= number + suffix);
        assert(pod =~= prefix + number + suffix);
    }
}

/// A token's part holds an object by its bytes.
pub open spec fn part_reads(part: Seq<char>, object: Members) -> bool {
    &&& part.len() > 0
    &&& forall|i: int|
        0 <= i < part.len() ==> ('0' <= #[trigger] part[i] <= '9' || 'a' <= part[i] <= 'z' || 'A'
            <= part[i] <= 'Z' || part[i] == '-' || part[i] == '_')
    &&& url_safe_no_pad_bytes(part) is Some
    &&& value_in_bytes(url_safe_no_pad_bytes(part)->0) == Some(Tree::Object(object))
}

proof fn three_parts(first: Seq<char>, second: Seq<char>, third: Seq<char>)
    requires
        forall|i: int| 0 <= i < first.len() ==> #[trigger] first[i] != '.',
        forall|i: int| 0 <= i < second.len() ==> #[trigger] second[i] != '.',
        forall|i: int| 0 <= i < third.len() ==> #[trigger] third[i] != '.',
    ensures
        split(first + seq!['.'] + second + seq!['.'] + third, '.') == seq![first, second, third],
{
    pieces_of_a_text(Seq::empty(), first, '.');
    pieces_of_a_text(first, second, '.');
    pieces_of_a_text(first + seq!['.'] + second, third, '.');
    assert(split(first + seq!['.'] + second + seq!['.'] + third, '.') =~= seq![
        first,
        second,
        third,
    ]);
}

/// A routing cookie is read by what its token says: of three parts, signed in the usual
/// way, for a host that names a gateway, issued and not yet expired, and under one of
/// the two names. What the token says is what comes out.
pub proof fn a_cookie_is_read_by_its_token(
    name: Seq<char>,
    first: Seq<char>,
    second: Seq<char>,
    third: Seq<char>,
    header: Members,
    claims: Members,
    number: Seq<char>,
    issued: nat,
    expires: nat,
    now: int,
)
    requires
        part_reads(first, header),
        part_reads(second, claims),
        third.len() > 0,
        forall|i: int|
            0 <= i < third.len() ==> ('0' <= #[trigger] third[i] <= '9' || 'a' <= third[i] <= 'z'
                || 'A' <= third[i] <= 'Z' || third[i] == '-' || third[i] == '_'),
        byte_len(first + seq!['.'] + second + seq!['.'] + third) <= 4096,
        header.dom().contains("alg"@),
        claims.dom().contains("host"@) && claims["host"@] == Tree::Text(
            "chat.gateway.unified-"@ + number + ".api.openai.com"@,
        ),
        0 < number.len() <= 10 && (forall|i: int|
            0 <= i < number.len() ==> '0' <= #[trigger] number[i] <= '9'),
        claims.dom().contains("iat"@) && claims["iat"@] == Tree::Number(
            NumberView::Unsigned(issued),
        ),
        claims.dom().contains("exp"@) && claims["exp"@] == Tree::Number(
            NumberView::Unsigned(expires),
        ),
        issued <= i64::MAX && expires <= i64::MAX,
    ensures
        ({
            let value = first + seq!['.'] + second + seq!['.'] + third;
            let good = header["alg"@] == Tree::Text("ES256"@) && (name == "__oailb"@ || name
                == "__oai_lb"@) && 0 < issued <= now < expires;
            &&& good ==> routing_claims(name, value, now) == Some(
                CookieClaims {
                    pod: "chat.gateway.unified-"@ + number + ".api.openai.com"@,
                    issued_at: issued as int,
                    expires_at: expires as int,
                },
            )
            &&& !good ==> routing_claims(name, value, now) is None
        }),
{
    three_parts(first, second, third);
    let value = first + seq!['.'] + second + seq!['.'] + third;
    let parts = split(value, '.');
    assert(parts[0] == first && parts[1] == second && parts[2] == third);
    a_host_names_its_gateway(Seq::empty(), number);
    assert(is_token_part(first) && is_token_part(second) && is_token_part(third));
    assert(part_object(first) == Some(header));
    assert(part_object(second) == Some(claims));
}

/// A token without one of its claims, or of another number of parts, is none.
pub proof fn an_incomplete_token_is_refused(name: Seq<char>, claims: Members, now: int)
    requires
        !claims.dom().contains("host"@) || !claims.dom().contains("iat"@) || !claims.dom().contains(
            "exp"@,
        ) || !(claims["host"@] is Text),
    ensures
        claims_in(claims) is None,
{
}

/// A cookie can be used from when it was issued until it expires, for the model that was
/// served under it.
pub proof fn when_a_cookie_can_be_used(cookie: RoutingCookie, model: Seq<char>, now: int)
    ensures
        cookie.usable(model, now) == (cookie.issued_at <= now && now < cookie.expires_at
            && same_ignoring_case(cookie.reported_model@, model)),
{
}

/// The number that bytes make, the most significant first.
pub open spec fn big_endian(bytes: Seq<u8>) -> nat
    decreases bytes.len(),
{
    if bytes.len() == 0 {
        0
    } else {
        big_endian(bytes.drop_last()) * 256 + bytes.last() as nat
    }
}

/// The issue time of a ticket is the number of eight bytes behind the first byte, the
/// most significant first.
pub proof fn the_issue_time_is_a_number_of_eight_bytes(bytes: Seq<u8>)
    requires
        bytes.len() >= 9,
    ensures
        stamp(bytes) == big_endian(bytes.subrange(1, 9)),
{
    reveal_with_fuel(big_endian, 9);
    let s = bytes.subrange(1, 9);
    assert(s.drop_last() =~= bytes.subrange(1, 8));
    assert(bytes.subrange(1, 8).drop_last() =~= bytes.subrange(1, 7));
    assert(bytes.subrange(1, 7).drop_last() =~= bytes.subrange(1, 6));
    assert(bytes.subrange(1, 6).drop_last() =~= bytes.subrange(1, 5));
    assert(bytes.subrange(1, 5).drop_last() =~= bytes.subrange(1, 4));
    assert(bytes.subrange(1, 4).drop_last() =~= bytes.subrange(1, 3));
    assert(bytes.subrange(1, 3).drop_last() =~= bytes.subrange(1, 2));
    assert(bytes.subrange(1, 2).drop_last() =~= Seq::empty());
}

/// A text is a ticket if it has the usual length, decodes to enough bytes, and begins
/// with the mark of a version; with or without padding.
pub proof fn what_a_ticket_looks_like(value: Seq<char>, bytes: Seq<u8>)
    requires
        url_safe_bytes(value) == Some(bytes) || (url_safe_bytes(value) is None
            && url_safe_no_pad_bytes(value) == Some(bytes)),
    ensures
        76 <= byte_len(value) <= 4096 && bytes.len() >= 57 && bytes[0] == 128 && stamp(bytes)
            <= i64::MAX ==> issue_time(value) == Some(stamp(bytes)),
        byte_len(value) < 76 || byte_len(value) > 4096 || bytes.len() < 57 || bytes[0] != 128
            || stamp(bytes) > i64::MAX ==> issue_time(value) is None,
{
}

/// What cannot be decoded is no ticket.
pub proof fn what_cannot_be_decoded_is_no_ticket(value: Seq<char>)
    requires
        url_safe_bytes(value) is None,
        url_safe_no_pad_bytes(value) is None,
    ensures
        issue_time(value) is None,
{
}

/// A ticket is fresh from its issue time on, for as long as it may live.
pub proof fn how_long_a_ticket_is_fresh(token: TurnStateToken, now: int, ttl_seconds: int)
    ensures
        token.fresh(now, ttl_seconds) == (token.issued_at > 0 && token.issued_at <= now && now
            < token.issued_at + ttl_seconds),
{
}

/// A ticket in use counts if it is the one on record, has the length that is hunted
/// for, is fresh, and says itself when it was issued.
pub proof fn when_a_ticket_is_installed(bucket: TurnStateBucket, token: TurnStateToken, now: int)
    requires
        bucket.current == Some(token),
    ensures
        bucket.has_installed_token(now) == (bucket.current_issued_at == Some(token.issued_at)
            && byte_len(token.value@) == bucket.config.target_length && 0 < token.issued_at <= now
            && now < token.issued_at + bucket.config.ttl_seconds && issue_time(token.value@) == Some(
            token.issued_at as nat,
        )),
{
}

/// Without a ticket in use none is installed, whatever candidate there is.
pub proof fn a_candidate_is_no_ticket(bucket: TurnStateBucket, now: int)
    requires
        bucket.current is None,
    ensures
        !bucket.has_installed_token(now),
{
}

/// A bucket is that of an account and model if all that identifies them agrees, and the
/// account signs in the usual way.
pub proof fn whose_bucket_it_is(
    bucket: TurnStateBucket,
    account: ProviderAccount,
    model: Seq<char>,
)
    ensures
        bucket.is_of_account(account, model) == (bucket.account_id@ == account.id@ && bucket.model@
            == model && optional_text(bucket.upstream_account_id) == optional_text(
            account.upstream_account_id,
        ) && optional_text(bucket.upstream_user_id) == optional_text(account.upstream_user_id)
            && account.authentication_kind@ == "oauth"@),
{
}

/// The list of gateways names a host's gateway if one of the numbers between its bars is
/// that gateway; an empty list names none.
pub proof fn a_list_names_gateways(ids: Seq<char>, number: Seq<char>, others: Seq<char>)
    requires
        0 < number.len() <= 10 && (forall|i: int|
            0 <= i < number.len() ==> '0' <= #[trigger] number[i] <= '9'),
        others.len() > 0,
    ensures
        ({
            let pod = "chat.gateway.unified-"@ + number + ".api.openai.com"@;
            &&& names_gateway(number, pod)
            &&& names_gateway(others + seq!['|'] + number, pod)
            &&& !names_gateway(Seq::empty(), pod)
            &&& names_gateway(ids, pod) ==> split(ids, '|').contains(number)
        }),
{
    a_host_names_its_gateway(Seq::empty(), number);
    pieces_of_a_text(others, number, '|');
    assert(split(number, '|')[0] == number);
    let list = split(others + seq!['|'] + number, '|');
    assert(list[list.len() - 1] == number);
}

/// A cookie is pinned by its host and issue time together.
pub proof fn what_a_pin_names(bucket: TurnStateBucket, cookie: RoutingCookie)
    ensures
        bucket.is_pinned(cookie) == (bucket.cookie_override_pod is Some
            && bucket.cookie_override_pod->0@ == cookie.pod@ && bucket.cookie_override_issued_at
            == Some(cookie.issued_at)),
{
}

/// Requests may carry a cookie that can be used and whose gateway is listed or that is
/// pinned; where there is a pin, the pinned one only.
pub proof fn which_cookies_requests_may_carry(
    bucket: TurnStateBucket,
    cookie: RoutingCookie,
    now: int,
)
    ensures
        bucket.cookie_override_pod is None ==> bucket.eligible(cookie, now) == (cookie.issued_at
            <= now && now < cookie.expires_at && same_ignoring_case(
            cookie.reported_model@,
            bucket.model@,
        ) && names_gateway(bucket.config.cookie_gateway_ids@, cookie.pod@)),
        bucket.cookie_override_pod is Some ==> bucket.eligible(cookie, now) == (cookie.issued_at
            <= now && now < cookie.expires_at && same_ignoring_case(
            cookie.reported_model@,
            bucket.model@,
        ) && bucket.cookie_override_pod->0@ == cookie.pod@ && bucket.cookie_override_issued_at
            == Some(cookie.issued_at)),
{
}

/// Of two cookies the one that expires later goes first, and of two that expire together
/// the one that was seen later.
pub proof fn which_cookie_goes_first(a: RoutingCookie, b: RoutingCookie)
    ensures
        a.expires_at > b.expires_at ==> outlasts(a, b) && !outlasts(b, a),
        a.expires_at == b.expires_at && a.observed_at > b.observed_at ==> outlasts(a, b)
            && !outlasts(b, a),
{
}

/// A cookie is about to expire when no more than the configured time is left.
pub proof fn when_a_cookie_is_about_to_expire(
    bucket: TurnStateBucket,
    cookie: RoutingCookie,
    now: int,
)
    requires
        bucket.config.cookie_refresh_before_seconds <= i64::MAX,
    ensures
        bucket.expires_soon(cookie, now) == (cookie.expires_at - now
            <= bucket.config.cookie_refresh_before_seconds),
{
}

/// An account may be scheduled under its ticket until the ticket ends, under the cookie
/// lock until the cookie that requests carry ends, and otherwise not.
pub proof fn until_when_an_account_is_scheduled(
    bucket: TurnStateBucket,
    account: ProviderAccount,
    now: int,
)
    requires
        bucket.is_of_account(account, bucket.model@),
        now >= 0,
    ensures
        ({
            let until = bucket.scheduled_until(account, bucket.model@, now);
            let chosen = bucket.chosen_cookie(bucket.routing_cookies@.len() as int, now);
            &&& !bucket.config.cookie_lock_enabled && !bucket.has_installed_token(now)
                ==> until is None
            &&& !bucket.config.cookie_lock_enabled && bucket.has_installed_token(now)
                && bucket.current->0.issued_at + bucket.config.ttl_seconds <= i64::MAX ==> until
                == Some(bucket.current->0.issued_at + bucket.config.ttl_seconds)
            &&& bucket.config.cookie_lock_enabled && chosen is None ==> until is None
            &&& bucket.config.cookie_lock_enabled && chosen is Some
                && bucket.routing_cookies@[chosen->0].expires_at >= 0 ==> until == Some(
                bucket.routing_cookies@[chosen->0].expires_at as int,
            )
        }),
{
}

/// What is required lets an account be scheduled until it ends; what is optional always.
pub proof fn what_availability_allows(until: i64, now: int)
    ensures
        TurnStateAvailability::Optional.allowed(now),
        (TurnStateAvailability::Required { expires_at: Some(until) }).allowed(now) == (now
            < until),
        !(TurnStateAvailability::Required { expires_at: None }).allowed(now),
{
}

/// A configuration that is valid keeps its numbers within bounds, has a way out, and
/// names itself in a line that can be sent.
pub proof fn the_bounds_of_a_configuration(config: TurnStateConfig)
    ensures
        config.valid() ==> {
            &&& 30 <= config.cookie_refresh_before_seconds <= 1800
            &&& 76 <= config.target_length <= 4096
            &&& 60 <= config.ttl_seconds <= 3600
            &&& 30 <= config.refresh_after_seconds && config.refresh_after_seconds
                < config.ttl_seconds
            &&& 1 <= config.retry_seconds <= 3600 && config.jitter_seconds <= 3600
            &&& 1 <= config.budget <= 100 && 10 <= config.idle_seconds <= 86400
            &&& config.include_account_proxy || config.include_direct || config.proxy_ids@.len()
                > 0
            &&& config.proxy_ids@.len() <= 32
            &&& trim(config.originator@).len() > 0 && byte_len(config.originator@)
                <= 128 && byte_len(config.user_agent@) <= 1024 && byte_len(config.client_version@)
                <= 64
        },
{
}

/// A change of the numbers of a valid configuration within their bounds leaves it valid.
pub proof fn numbers_within_bounds_are_valid(
    config: TurnStateConfig,
    cookie_refresh_before_seconds: u64,
    target_length: usize,
    ttl_seconds: u64,
    refresh_after_seconds: u64,
    retry_seconds: u64,
    jitter_seconds: u64,
    budget: u32,
    idle_seconds: u64,
)
    requires
        config.valid(),
        30 <= cookie_refresh_before_seconds <= 1800,
        76 <= target_length <= 4096,
        60 <= ttl_seconds <= 3600,
        30 <= refresh_after_seconds < ttl_seconds,
        1 <= retry_seconds <= 3600,
        jitter_seconds <= 3600,
        1 <= budget <= 100,
        10 <= idle_seconds <= 86400,
    ensures
        (TurnStateConfig {
            cookie_refresh_before_seconds,
            target_length,
            ttl_seconds,
            refresh_after_seconds,
            retry_seconds,
            jitter_seconds,
            budget,
            idle_seconds,
            ..config
        }).valid(),
{
}

/// The id of a proxy begins with the usual word, is short, and has no control character.
pub proof fn what_a_proxy_id_looks_like(rest: Seq<char>, id: Seq<char>)
    ensures
        (forall|i: int| 0 <= i < rest.len() ==> ' ' <= #[trigger] rest[i] <= '~') && byte_len(
            "proxy_"@ + rest,
        ) <= 128 ==> is_proxy_id("proxy_"@ + rest),
        is_proxy_id(id) ==> id.len() >= 6 && id.take(6) == "proxy_"@ && byte_len(id) <= 128,
{
    reveal_strlit("proxy_");
    let made = "proxy_"@ + rest;
    assert(made.take(6) =~= "proxy_"@);
    if forall|i: int| 0 <= i < rest.len() ==> ' ' <= #[trigger] rest[i] <= '~' {
        assert forall|i: int| 0 <= i < made.len() implies !is_control(
            #[trigger] made[i],
        ) by {
            if i >= 6 {
                assert(made[i] == rest[i - 6]);
            }
        }
    }
}

/// The address of a bot is an encrypted one of the messenger's two hosts, at the usual
/// port, with an id of letters, digits and dashes, and nothing else in it.
pub proof fn what_a_bot_address_looks_like(parts: UrlView, id: Seq<char>)
    requires
        parts.path == "/open-apis/bot/v2/hook/"@ + id,
    ensures
        is_hook_url(parts) == (parts.scheme == "https"@ && (parts.host == Some("open.feishu.cn"@)
            || parts.host == Some("open.larksuite.com"@)) && parts.port == Some(443u16)
            && parts.username.len() == 0 && !parts.has_password && !parts.has_query
            && !parts.has_fragment && id.len() > 0 && (forall|i: int|
            0 <= i < id.len() ==> ('0' <= #[trigger] id[i] <= '9' || 'a' <= id[i] <= 'z' || 'A'
                <= id[i] <= 'Z' || id[i] == '-'))),
{
    let prefix = "/open-apis/bot/v2/hook/"@;
    assert(parts.path.take(prefix.len() as int) =~= prefix);
    assert(parts.path.skip(prefix.len() as int) =~= id);
    if forall|i: int|
        0 <= i < id.len() ==> ('0' <= #[trigger] id[i] <= '9' || 'a' <= id[i] <= 'z' || 'A'
            <= id[i] <= 'Z' || id[i] == '-') {
        assert forall|i: int| 0 <= i < id.len() implies is_hook_char(
            #[trigger] id[i],
        ) by {}
    }
    if is_hook_path(parts.path) {
        assert forall|i: int| 0 <= i < id.len() implies ('0' <= #[trigger] id[i] <= '9' || 'a'
            <= id[i] <= 'z' || 'A' <= id[i] <= 'Z' || id[i] == '-') by {
            assert(is_hook_char(
                parts.path.skip(prefix.len() as int)[i],
            ));
        }
    }
}

/// The score of an account: the quota that is left, half of it where it is not known,
/// less its load, its failures and a quarter of its latency, each within the same
/// bounds.
pub proof fn what_makes_the_score(signals: SchedulingSignals)
    requires
        signals.concurrency_limit > 0,
        signals.in_flight <= signals.concurrency_limit,
        signals.quota_remaining_rank is Some ==> signals.quota_remaining_rank->0 <= 10000,
        signals.failure_rate_basis_points is Some ==> signals.failure_rate_basis_points->0 <= 10000,
        signals.first_output_latency_ms is Some ==> signals.first_output_latency_ms->0 <= 40000,
    ensures
        signals.score() == (if signals.quota_remaining_rank is Some {
            signals.quota_remaining_rank->0 as int
        } else {
            5000
        }) + 10000 - signals.in_flight * 10000 / (signals.concurrency_limit as int) - (
        if signals.failure_rate_basis_points is Some {
            signals.failure_rate_basis_points->0 as int
        } else {
            0
        }) - (if signals.first_output_latency_ms is Some {
            signals.first_output_latency_ms->0 as int / 4
        } else {
            0
        }),
{
    assert(signals.in_flight * 10000 / (signals.concurrency_limit as int) <= 10000)
        by (nonlinear_arith)
        requires
            signals.concurrency_limit > 0,
            signals.in_flight <= signals.concurrency_limit,
    ;
}

/// Why an account cannot serve: it is switched off, it lacks the ticket or cookie that
/// it needs, or it has no room, in this order.
pub proof fn why_an_account_cannot_serve(candidate: AccountCandidate, now: int)
    ensures
        !candidate.account.enabled ==> candidate.blocker_at(now) == Some(
            AccountSchedulingBlocker::Disabled,
        ),
        candidate.account.enabled && !candidate.signals.turn_state.allowed(now)
            ==> candidate.blocker_at(now) == Some(AccountSchedulingBlocker::MissingTurnState),
        candidate.account.enabled && candidate.signals.turn_state.allowed(now)
            && candidate.signals.in_flight >= candidate.signals.concurrency_limit
            ==> candidate.blocker_at(now) == Some(AccountSchedulingBlocker::AtCapacity),
        candidate.account.enabled && candidate.signals.turn_state.allowed(now)
            && candidate.signals.in_flight < candidate.signals.concurrency_limit
            ==> candidate.blocker_at(now) is None,
{
}

/// Accounts take turns in the order of their names, each in its turn; the strategy by
/// quota takes the account whose quota is renewed first.
pub proof fn whose_turn_it_is(
    candidates: Seq<AccountCandidate>,
    strategy: RotationStrategy,
    now: int,
    cursor: nat,
    other: int,
)
    requires
        turn_of(candidates, strategy, now, cursor) is Some,
    ensures
        ({
            let i = turn_of(candidates, strategy, now, cursor)->0;
            &&& 0 <= i < candidates.len() && candidates[i].blocker_at(now) is None
            &&& strategy == RotationStrategy::QuotaResetPriority && 0 <= other < candidates.len()
                && candidates[other].blocker_at(now) is None
                && candidates[other].signals.quota_resets_at is Some
                ==> candidates[i].signals.quota_resets_at is Some
                && candidates[i].signals.quota_resets_at->0
                <= candidates[other].signals.quota_resets_at->0
            &&& (strategy == RotationStrategy::Smart || strategy == RotationStrategy::Sticky) && 0
                <= other < candidates.len() && candidates[other].blocker_at(now) is None
                ==> candidates[other].signals.score() <= candidates[i].signals.score() + 500
        }),
{
    a_turn_goes_to_an_open_account(candidates, strategy, now, cursor);
    let i = turn_of(candidates, strategy, now, cursor)->0;
    if 0 <= other < candidates.len() && candidates[other].blocker_at(now) is None {
        assert(is_open(candidates, now, other));
    }
}

proof fn placing_keeps_the_order(candidates: Seq<AccountCandidate>, line: Seq<int>, i: int)
    requires
        forall|a: int, b: int|
            0 <= a < b < line.len() ==> text_le(
                candidates[#[trigger] line[a]].account.id@,
                candidates[#[trigger] line[b]].account.id@,
            ),
    ensures
        ({
            let all = placed(candidates, line, i);
            &&& all.len() == line.len() + 1
            &&& forall|a: int, b: int|
                0 <= a < b < all.len() ==> text_le(
                    candidates[#[trigger] all[a]].account.id@,
                    candidates[#[trigger] all[b]].account.id@,
                )
            &&& forall|k: int| 0 <= k < all.len() ==> #[trigger] all[k] == i || line.contains(
                all[k],
            )
        }),
    decreases line.len(),
{
    let all = placed(candidates, line, i);
    let id = candidates[i].account.id@;
    if line.len() == 0 {
    } else if !text_le(candidates[line[0]].account.id@, id) {
        text_le_is_total(candidates[line[0]].account.id@, id);
        assert forall|a: int, b: int| 0 <= a < b < all.len() implies text_le(
            candidates[#[trigger] all[a]].account.id@,
            candidates[#[trigger] all[b]].account.id@,
        ) by {
            assert(all[b] == line[b - 1]);
            if a == 0 {
                if b > 1 {
                    assert(text_le(
                        candidates[line[0]].account.id@,
                        candidates[line[b - 1]].account.id@,
                    ));
                    text_le_is_transitive(
                        id,
                        candidates[line[0]].account.id@,
                        candidates[line[b - 1]].account.id@,
                    );
                }
            } else {
                assert(all[a] == line[a - 1]);
            }
        }
        assert forall|k: int| 0 <= k < all.len() implies #[trigger] all[k] == i || line.contains(
            all[k],
        ) by {
            if k > 0 {
                assert(all[k] == line[k - 1]);
            }
        }
    } else {
        let rest = line.drop_first();
        assert forall|a: int, b: int| 0 <= a < b < rest.len() implies text_le(
            candidates[#[trigger] rest[a]].account.id@,
            candidates[#[trigger] rest[b]].account.id@,
        ) by {
            assert(rest[a] == line[a + 1] && rest[b] == line[b + 1]);
        }
        placing_keeps_the_order(candidates, rest, i);
        let inner = placed(candidates, rest, i);
        assert forall|k: int| 0 <= k < inner.len() implies #[trigger] inner[k] == i
            || line.contains(inner[k]) by {
            if inner[k] != i {
                let m = choose|m: int| 0 <= m < rest.len() && rest[m] == inner[k];
                assert(line[m + 1] == inner[k]);
            }
        }
        assert forall|a: int, b: int| 0 <= a < b < all.len() implies text_le(
            candidates[#[trigger] all[a]].account.id@,
            candidates[#[trigger] all[b]].account.id@,
        ) by {
            assert(all[b] == inner[b - 1]);
            if a == 0 {
                if inner[b - 1] != i {
                    let m = choose|m: int| 0 <= m < rest.len() && rest[m] == inner[b - 1];
                    assert(line[m + 1] == inner[b - 1]);
                    assert(text_le(
                        candidates[line[0]].account.id@,
                        candidates[line[m + 1]].account.id@,
                    ));
                }
            } else {
                assert(all[a] == inner[a - 1]);
            }
        }
        assert forall|k: int| 0 <= k < all.len() implies #[trigger] all[k] == i || line.contains(
            all[k],
        ) by {
            if k == 0 {
                assert(line[0] == all[0]);
            } else {
                assert(all[k] == inner[k - 1]);
            }
        }
    }
}

proof fn the_line_is_in_order(
    candidates: Seq<AccountCandidate>,
    strategy: RotationStrategy,
    now: int,
    count: nat,
)
    ensures
        ({
            let line = line_up(candidates, strategy, now, count);
            forall|a: int, b: int|
                0 <= a < b < line.len() ==> text_le(
                    candidates[#[trigger] line[a]].account.id@,
                    candidates[#[trigger] line[b]].account.id@,
                )
        }),
    decreases count,
{
    if count > 0 {
        the_line_is_in_order(candidates, strategy, now, (count - 1) as nat);
        placing_keeps_the_order(
            candidates,
            line_up(candidates, strategy, now, (count - 1) as nat),
            count - 1,
        );
    }
}

/// In turn means in the order of names: with every step of the cursor the next of the
/// accounts that can serve, and after the last the first again.
pub proof fn turns_go_round(candidates: Seq<AccountCandidate>, now: int, cursor: nat)
    requires
        turn_of(candidates, RotationStrategy::RoundRobin, now, cursor) is Some,
    ensures
        ({
            let line = line_up(candidates, RotationStrategy::RoundRobin, now, candidates.len());
            &&& line.len() > 0
            &&& turn_of(candidates, RotationStrategy::RoundRobin, now, cursor) == turn_of(
                candidates,
                RotationStrategy::RoundRobin,
                now,
                cursor + line.len(),
            )
            &&& forall|k: int|
                0 <= k < line.len() ==> turn_of(
                    candidates,
                    RotationStrategy::RoundRobin,
                    now,
                    k as nat,
                ) == Some(#[trigger] line[k])
            &&& forall|a: int, b: int|
                0 <= a < b < line.len() ==> text_le(
                    candidates[#[trigger] line[a]].account.id@,
                    candidates[#[trigger] line[b]].account.id@,
                )
        }),
{
    let line = line_up(candidates, RotationStrategy::RoundRobin, now, candidates.len());
    the_line_is_in_order(candidates, RotationStrategy::RoundRobin, now, candidates.len());
    assert((cursor + line.len()) % line.len() == cursor % line.len()) by {
        vstd::arithmetic::div_mod::lemma_mod_add_multiples_vanish(cursor as int, line.len() as int);
    }
    assert forall|k: int| 0 <= k < line.len() implies turn_of(
        candidates,
        RotationStrategy::RoundRobin,
        now,
        k as nat,
    ) == Some(#[trigger] line[k]) by {
        vstd::arithmetic::div_mod::lemma_small_mod(k as nat, line.len());
    }
}

/// The capacity is that of the accounts that may serve, one after the other.
pub proof fn capacities_add_up(
    candidates: Seq<AccountCandidate>,
    candidate: AccountCandidate,
    now: int,
)
    ensures
        ({
            let more = candidates.push(candidate);
            let counts = candidate.account.enabled && candidate.signals.turn_state.allowed(now);
            &&& counts ==> serving(more, now) == serving(candidates, now) + 1 && total_in_flight(
                more,
                now,
            ) == total_in_flight(candidates, now) + candidate.signals.in_flight && total_limit(
                more,
                now,
            ) == total_limit(candidates, now) + candidate.signals.concurrency_limit
            &&& !counts ==> serving(more, now) == serving(candidates, now) && total_in_flight(
                more,
                now,
            ) == total_in_flight(candidates, now) && total_limit(more, now) == total_limit(
                candidates,
                now,
            )
            &&& serving(Seq::empty(), now) == 0 && total_in_flight(Seq::empty(), now) == 0
                && total_limit(Seq::empty(), now) == 0
        }),
{
    assert(candidates.push(candidate).drop_last() =~= candidates);
}

/// Policies and strategies go by the names that stored configurations use.
pub proof fn names_in_stored_configurations(policy: MissingTurnStatePolicy)
    ensures
        MissingTurnStatePolicy::Allow.wire() == "allow"@,
        MissingTurnStatePolicy::Pause.wire() == "pause"@,
        TurnStateStopStrategy::Headers.wire() == "headers"@,
        TurnStateStopStrategy::FirstOutput.wire() == "first_output"@,
        TurnStateStopStrategy::Mixed.wire() == "mixed"@,
        policy.wire() == "allow"@ ==> policy is Allow,
        policy.wire() == "pause"@ ==> policy is Pause,
{
    reveal_strlit("allow");
    reveal_strlit("pause");
    assert("allow"@[0] == 'a' && "pause"@[0] == 'p');
}

/// A list of gateways is made of up to 32 numbers of up to ten digits, with bars
/// between them; an empty list is one too.
pub proof fn what_a_list_of_gateways_looks_like(ids: Seq<char>, i: int)
    ensures
        is_gateway_list(Seq::empty()),
        byte_len(ids) > 256 ==> !is_gateway_list(ids),
        ids.len() > 0 && split(ids, '|').len() > 32 ==> !is_gateway_list(ids),
        ids.len() > 0 && 0 <= i < split(ids, '|').len() && (split(ids, '|')[i].len() == 0 || split(
            ids,
            '|',
        )[i].len() > 10) ==> !is_gateway_list(ids),
        ids.len() > 0 && byte_len(ids) <= 256 && split(ids, '|').len() <= 32 && (forall|k: int|
            0 <= k < split(ids, '|').len() ==> 0 < (#[trigger] split(ids, '|')[k]).len() <= 10
                && all_digits(split(ids, '|')[k])) ==> is_gateway_list(ids),
{
    reveal_with_fuel(vstd::utf8::encode_utf8, 1);
}

/// A line can stand in a header: it is not too long and all of it can be printed.
pub proof fn what_can_stand_in_a_line(text: Seq<char>, most: nat, i: int)
    ensures
        byte_len(text) > most ==> !is_line(text, most),
        0 <= i < text.len() && (text[i] < ' ' || text[i] > '~') ==> !is_line(text, most),
        byte_len(text) <= most && (forall|k: int|
            0 <= k < text.len() ==> ' ' <= #[trigger] text[k] <= '~') ==> is_line(text, most),
{
}

/// A version is a release when nothing stands behind its numbers.
pub proof fn what_a_release_is(version: Seq<char>)
    ensures
        is_release(version) <==> (version_tags(version) is Some && version_tags(
            version,
        )->0.pre.len() == 0 && version_tags(version)->0.build.len() == 0),
{
    if version_tags(version) is Some {
        let tags = version_tags(version)->0;
        if tags.pre.len() == 0 && tags.build.len() == 0 {
            assert(tags.pre =~= Seq::empty());
            assert(tags.build =~= Seq::empty());
        }
    }
}

/// The account that a request would rather have is the one with its id; a request
/// without such a wish has none.
pub proof fn which_account_is_preferred(
    candidates: Seq<AccountCandidate>,
    context: SelectionContext,
    i: int,
)
    ensures
        context.preferred_account is None ==> !is_preferred(candidates, context, i)
            && !has_preferred(candidates, context),
        is_preferred(candidates, context, i) ==> 0 <= i < candidates.len()
            && candidates[i].account.id@ == context.preferred_account->0@,
        context.preferred_account is Some && 0 <= i < candidates.len()
            && candidates[i].account.id@ == context.preferred_account->0@ ==> has_preferred(
            candidates,
            context,
        ),
        context.preferred_account is Some && 0 <= i < candidates.len()
            && candidates[i].account.id@ == context.preferred_account->0@ && (forall|j: int|
            0 <= j < i ==> (#[trigger] candidates[j]).account.id@
                != context.preferred_account->0@) ==> is_preferred(candidates, context, i),
{
    if context.preferred_account is Some && 0 <= i < candidates.len()
        && candidates[i].account.id@ == context.preferred_account->0@ {
        let first = the_first_of_that_id(candidates, context.preferred_account->0@, i);
        assert(is_preferred(candidates, context, first));
    }
}

proof fn the_first_of_that_id(
    candidates: Seq<AccountCandidate>,
    id: Seq<char>,
    i: int,
) -> (first: int)
    requires
        0 <= i < candidates.len(),
        candidates[i].account.id@ == id,
    ensures
        0 <= first <= i,
        candidates[first].account.id@ == id,
        forall|j: int| 0 <= j < first ==> (#[trigger] candidates[j]).account.id@ != id,
    decreases i,
{
    if exists|j: int| 0 <= j < i && (#[trigger] candidates[j]).account.id@ == id {
        let j = choose|j: int| 0 <= j < i && (#[trigger] candidates[j]).account.id@ == id;
        the_first_of_that_id(candidates, id, j)
    } else {
        i
    }
}

/// An account in full use, or one without room at all, has the full load; numbers
/// beyond the scale count as its end.
pub proof fn the_scale_of_the_score(signals: SchedulingSignals)
    ensures
        signals.concurrency_limit == 0 ==> signals.load() == 10000,
        signals.concurrency_limit > 0 && signals.in_flight == 0 ==> signals.load() == 0,
        signals.concurrency_limit > 0 && signals.in_flight >= signals.concurrency_limit
            ==> signals.load() == 10000,
        0 <= signals.load() <= 10000,
        signals.quota_remaining_rank is Some && signals.quota_remaining_rank->0 > 10000
            ==> signals.score() == (SchedulingSignals {
            quota_remaining_rank: Some(10000),
            ..signals
        }).score(),
{
    if signals.concurrency_limit > 0 {
        let used = signals.in_flight as int;
        let limit = signals.concurrency_limit as int;
        assert(used >= limit ==> used * 10000 / limit >= 10000) by (nonlinear_arith)
            requires
                limit > 0,
                used >= 0,
        ;
        assert(0 <= used * 10000 / limit) by (nonlinear_arith)
            requires
                limit > 0,
                used >= 0,
        ;
        if used == 0 {
            vstd::arithmetic::div_mod::lemma_div_basics(limit);
        }
    }
}

/// What is there is shown with a word around it; what is not is shown as such.
pub proof fn how_optional_parts_are_shown(text: Seq<char>, number: int)
    ensures
        debug_optional_text(None) == "None"@,
        debug_optional_number(None) == "None"@,
        debug_optional_text(Some(text)) == "Some("@ + debug_quoted(text) + ")"@,
        debug_optional_number(Some(number)) == "Some("@ + signed_decimal(number) + ")"@,
{
}

} // verus!
