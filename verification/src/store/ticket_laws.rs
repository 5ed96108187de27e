//! What holds of a stored ticket: how one comes into use and goes, what a history
//! keeps, and what is shown of them.

use crate::account::cookie_lock::{gateway_or_empty, RoutingCookie, RoutingCookieStatus};
use crate::account::provider::ProviderAccount;
use crate::account::turn_state::{
    issue_time, MissingTurnStatePolicy, TurnStateBucket, TurnStateBusinessStatus, TurnStateConfig,
    TurnStateInstallation, TurnStateObservation, TurnStateStatus, TurnStateToken,
};
use crate::store::ticket::{
    is_attempt, is_fresh_envelope, is_later, is_spent, one_more, seconds_between, HistoryEntry,
    TicketRow,
};
use crate::store::ticket_admin::distinct;
use crate::store::ticket_history::{newest_of, HISTORY_LIMIT};
use crate::store::ticket_status::{
    age_at, business_of, is_installed_for, is_owner, is_shown_ticket, is_status_of,
    is_status_of_bucket, next_probe,
};
use crate::text::{byte_len, optional_text, same_ignoring_case, signed_decimal};
use vstd::prelude::*;

verus! {

/// A time is later than no time, and than one that lies before it; what was issued
/// is spent once its time to live has passed; a count stops at its limit.
pub proof fn times_and_counts(time: i64, mark: i64, ttl_seconds: int, now: int, n: u64)
    ensures
        is_later(time, None),
        is_later(time, Some(mark)) <==> mark < time,
        is_spent(time as int, ttl_seconds, now) <==> now - time >= ttl_seconds,
        n < u64::MAX ==> one_more(n) == n + 1,
        one_more(u64::MAX) == u64::MAX,
        mark <= time && time - mark <= i64::MAX ==> seconds_between(mark, time) == time - mark,
        time <= mark ==> seconds_between(mark, time) == 0,
{
}

/// A text is a fresh ticket when the time it was issued at is past, and less than
/// its time to live has gone by.
pub proof fn which_texts_are_fresh_tickets(value: Seq<char>, ttl_seconds: int, now: int)
    ensures
        issue_time(value) is None ==> !is_fresh_envelope(value, ttl_seconds, now),
        issue_time(value) is Some ==> (is_fresh_envelope(value, ttl_seconds, now) <==> (0
            < issue_time(value)->0 && issue_time(value)->0 <= now && now - issue_time(value)->0
            < ttl_seconds)),
{
}

/// A row is of an upstream identity when both ids are the same, and serves an
/// account that is its own, enabled, of OpenAI, and authorized by OAuth.
pub proof fn whose_row_it_is(row: TicketRow, account: ProviderAccount, provider_kind: Seq<char>)
    ensures
        row.is_of(account.upstream_account_id, account.upstream_user_id) <==> (optional_text(
            row.upstream_account_id,
        ) == optional_text(account.upstream_account_id) && optional_text(row.upstream_user_id)
            == optional_text(account.upstream_user_id)),
        row.serves(account, provider_kind) <==> (account.id@ == row.account_id@ && account.enabled
            && provider_kind == "openai"@ && account.authentication_kind@ == "oauth"@
            && optional_text(row.upstream_account_id) == optional_text(
            account.upstream_account_id,
        ) && optional_text(row.upstream_user_id) == optional_text(account.upstream_user_id)),
{
}

/// A probe that was sent counts as an attempt. It begins the hunt where none is on;
/// other observations do not count.
pub proof fn an_attempt_is_counted(row: TicketRow, observation: TurnStateObservation, now: int)
    ensures
        ({
            let after = row.after_observation(observation, None, now);
            let sent = observation.source@ == "probe"@ && observation.probe_id is Some;
            &&& sent && row.hunt_attempts < u64::MAX ==> after.hunt_attempts == row.hunt_attempts
                + 1
            &&& sent && row.hunt_started_at is Some ==> after.hunt_started_at
                == row.hunt_started_at
            &&& sent && row.hunt_started_at is None && observation.started_at is Some
                ==> after.hunt_started_at == observation.started_at
            &&& sent && row.hunt_started_at is None && observation.started_at is None
                ==> after.hunt_started_at == Some(observation.observed_at)
            &&& !sent ==> after == row
            &&& after.candidate == row.candidate
            &&& is_attempt(observation) <==> sent
        }),
{
}

/// A fresh ticket of the target length, newer than the one in use and than a
/// candidate that is still fresh, becomes the candidate, with where and when it was
/// seen.
pub proof fn a_newer_ticket_becomes_the_candidate(
    row: TicketRow,
    observation: TurnStateObservation,
    token: TurnStateToken,
    now: int,
)
    requires
        byte_len(token.value@) == row.config.target_length,
        0 < token.issued_at <= now,
        now - token.issued_at < row.config.ttl_seconds,
        issue_time(token.value@) == Some(token.issued_at as nat),
        row.current_issued_at is Some ==> row.current_issued_at->0 < token.issued_at,
        row.candidate is Some ==> row.candidate->0.issued_at < token.issued_at || now
            - row.candidate->0.issued_at >= row.config.ttl_seconds,
    ensures
        ({
            let after = row.after_observation(observation, Some(token), now);
            let held = after.candidate->0;
            &&& after.candidate is Some
            &&& held.value == token.value
            &&& held.issued_at == token.issued_at
            &&& held.source == observation.source
            &&& held.observed_at == observation.observed_at
            &&& held.reported_model == observation.reported_model
            &&& observation.source@ != "probe"@ ==> held.attempts == 0 && held.hunt_started_at
                == observation.observed_at
            &&& observation.source@ == "probe"@ ==> held.attempts == after.hunt_attempts
            &&& observation.source@ == "probe"@ && row.hunt_started_at is Some
                ==> held.hunt_started_at == row.hunt_started_at->0
        }),
{
}

/// Nothing else becomes the candidate.
pub proof fn no_other_ticket_becomes_the_candidate(
    row: TicketRow,
    observation: TurnStateObservation,
    token: TurnStateToken,
    now: int,
)
    requires
        byte_len(token.value@) != row.config.target_length || token.issued_at <= 0
            || token.issued_at > now || now - token.issued_at >= row.config.ttl_seconds
            || issue_time(token.value@) != Some(token.issued_at as nat) || (row.current_issued_at
            is Some && token.issued_at <= row.current_issued_at->0) || (row.candidate is Some
            && token.issued_at <= row.candidate->0.issued_at && 0 < row.candidate->0.issued_at
            <= now && now - row.candidate->0.issued_at < row.config.ttl_seconds),
    ensures
        row.after_observation(observation, Some(token), now).candidate == row.candidate,
{
}

/// An observation is kept as it is, but for three things: a candidate that came too
/// late is told as such, a text that is no fresh ticket is dropped, and an attempt
/// says how far the hunt had come.
pub proof fn what_is_kept_of_an_observation(
    row: TicketRow,
    observation: TurnStateObservation,
    token: TurnStateToken,
    now: int,
)
    ensures
        ({
            let kept = row.kept(observation, Some(token), now);
            let late = (row.current_issued_at is Some && token.issued_at
                <= row.current_issued_at->0) || (row.candidate is Some && token.issued_at
                <= row.candidate->0.issued_at && 0 < row.candidate->0.issued_at <= now && now
                - row.candidate->0.issued_at < row.config.ttl_seconds);
            &&& observation.outcome@ == "candidate"@ && late ==> kept.outcome == "not_newer"@
            &&& observation.outcome@ == "candidate"@ && !late ==> kept.outcome == "candidate"@
            &&& observation.outcome@ != "candidate"@ ==> kept.outcome == observation.outcome@
            &&& row.kept(observation, None, now).outcome == observation.outcome@
            &&& observation.token is None ==> kept.token is None
            &&& observation.token is Some && issue_time(observation.token->0@) is None
                ==> kept.token is None
            &&& observation.token is Some && issue_time(observation.token->0@) is Some && 0
                < issue_time(observation.token->0@)->0 && issue_time(observation.token->0@)->0
                <= now && now - issue_time(observation.token->0@)->0 < row.config.ttl_seconds
                ==> kept.token == Some(observation.token->0@)
            &&& kept.account_id == observation@.account_id
            &&& kept.model == observation@.model
            &&& kept.observed_at == observation@.observed_at
            &&& kept.source == observation@.source
            &&& kept.http_status == observation@.http_status
            &&& kept.reported_model == observation@.reported_model
            &&& kept.issued_at == observation@.issued_at
            &&& observation.source@ == "probe"@ && observation.probe_id is Some
                && row.hunt_attempts < u64::MAX ==> kept.hunt_attempts == Some(
                (row.hunt_attempts + 1) as u64,
            )
            &&& observation.source@ == "probe"@ && observation.probe_id is Some
                && row.hunt_started_at is Some && row.hunt_started_at->0
                <= observation.observed_at && observation.observed_at - row.hunt_started_at->0
                <= i64::MAX ==> kept.hunt_seconds == Some(
                (observation.observed_at - row.hunt_started_at->0) as u64,
            )
            &&& observation.source@ != "probe"@ ==> kept.hunt_attempts
                == observation.hunt_attempts && kept.hunt_seconds == observation.hunt_seconds
        }),
{
    reveal_strlit("candidate");
    reveal_strlit("not_newer");
}

/// The history gets the observations of an enabled account while tickets or cookies
/// are kept for it, and those of a probe made by hand.
pub proof fn what_the_history_gets(row: TicketRow, observation: TurnStateObservation)
    ensures
        !row.logs(observation, false),
        row.config.enabled || row.config.cookie_lock_enabled ==> row.logs(observation, true),
        observation.probe_trigger is Some && observation.probe_trigger->0@ == "manual"@
            ==> row.logs(observation, true),
        !row.config.enabled && !row.config.cookie_lock_enabled && (observation.probe_trigger is None
            || observation.probe_trigger->0@ != "manual"@) ==> !row.logs(observation, true),
{
}

/// What has outlived its time goes, and only that; the time of the ticket stays.
pub proof fn what_has_outlived_its_time_goes(row: TicketRow, now: int)
    ensures
        ({
            let after = row.cleaned(now);
            &&& row.current_issued_at is Some && now - row.current_issued_at->0
                >= row.config.ttl_seconds ==> after.current is None
            &&& row.current_issued_at is None || now - row.current_issued_at->0
                < row.config.ttl_seconds ==> after.current == row.current
            &&& row.candidate is Some && now - row.candidate->0.issued_at
                >= row.config.ttl_seconds ==> after.candidate is None
            &&& row.candidate is Some && now - row.candidate->0.issued_at < row.config.ttl_seconds
                ==> after.candidate == row.candidate
            &&& row.candidate is None ==> after.candidate is None
            &&& after.current_issued_at == row.current_issued_at
            &&& after.config == row.config
            &&& after.hunt_attempts == row.hunt_attempts
            &&& after.manual_override == row.manual_override
            &&& after.cookie_override == row.cookie_override
        }),
{
}

/// A candidate comes into use when an administrator names it by its time or rotation
/// is on, it has the target length, is in date and newer than the last ticket, and
/// the row serves the account.
pub proof fn when_a_candidate_comes_into_use(
    row: TicketRow,
    account: ProviderAccount,
    provider_kind: Seq<char>,
    expected: Option<i64>,
    now: int,
)
    ensures
        row.candidate is None ==> !row.installs(account, provider_kind, expected, now),
        row.candidate is Some ==> (row.installs(account, provider_kind, expected, now) <==> ((
        expected == Some(row.candidate->0.issued_at) || (expected is None && row.config.enabled))
            && row.candidate->0.value@.len() == row.config.target_length
            && row.candidate->0.issued_at <= now && now - row.candidate->0.issued_at
            < row.config.ttl_seconds && (row.current_issued_at is None
            || row.current_issued_at->0 < row.candidate->0.issued_at) && account.id@
            == row.account_id@ && account.enabled && provider_kind == "openai"@
            && account.authentication_kind@ == "oauth"@ && optional_text(row.upstream_account_id)
            == optional_text(account.upstream_account_id) && optional_text(row.upstream_user_id)
            == optional_text(account.upstream_user_id))),
{
}

/// A ticket in use has its text, its time, its length and its model; the hunt begins
/// anew, and the next probe is set for when the ticket is to be renewed.
pub proof fn what_a_ticket_in_use_leaves(
    row: TicketRow,
    value: String,
    issued_at: i64,
    model: Option<String>,
    manual: bool,
)
    requires
        issued_at + row.config.refresh_after_seconds <= i64::MAX,
    ensures
        ({
            let after = row.with_ticket(value, issued_at, model, manual);
            &&& after.current == Some(value)
            &&& after.current_issued_at == Some(issued_at)
            &&& after.current_length == Some(value@.len() as usize)
            &&& after.attached_model == model
            &&& after.manual_override == manual
            &&& after.candidate is None
            &&& after.hunt_attempts == 0
            &&& after.hunt_started_at is None
            &&& after.next_probe_at is Some && after.next_probe_at->0 == issued_at
                + row.config.refresh_after_seconds
            &&& after.account_id == row.account_id && after.model == row.model
            &&& after.config == row.config
            &&& after.manual_probe_requested_at == row.manual_probe_requested_at
            &&& after.cookie_override == row.cookie_override
        }),
{
}

/// A new configuration lets the ticket and the candidate stay that have its length
/// and are in date by it, and sets no time for the next probe.
pub proof fn what_a_new_configuration_leaves(row: TicketRow, config: TurnStateConfig, now: int)
    ensures
        ({
            let after = row.configured(config, now);
            let in_date = row.current_issued_at is None || now - row.current_issued_at->0
                < config.ttl_seconds;
            &&& after.config == config
            &&& after.next_probe_at is None
            &&& row.current is Some && row.current->0@.len() == config.target_length && in_date
                ==> after.current == row.current
            &&& row.current is Some && row.current->0@.len() != config.target_length
                ==> after.current is None && !after.manual_override
            &&& !in_date ==> after.current is None && !after.manual_override
            &&& row.current is Some && row.current->0@.len() == config.target_length && in_date
                && row.current_issued_at is Some ==> after.manual_override == row.manual_override
            &&& row.candidate is Some && row.candidate->0.value@.len() == config.target_length
                && now - row.candidate->0.issued_at < config.ttl_seconds ==> after.candidate
                == row.candidate
            &&& row.candidate is Some && (row.candidate->0.value@.len() != config.target_length
                || now - row.candidate->0.issued_at >= config.ttl_seconds) ==> after.candidate
                is None
            &&& after.current_issued_at == row.current_issued_at
            &&& after.hunt_attempts == row.hunt_attempts
            &&& after.cookie_override == row.cookie_override
        }),
{
}

/// A ticket that is taken out leaves its time and the candidate behind.
pub proof fn what_a_removed_ticket_leaves(row: TicketRow)
    ensures
        ({
            let after = row.without_ticket();
            &&& after.current is None
            &&& after.attached_model is None
            &&& !after.manual_override
            &&& after.next_probe_at is None
            &&& after.current_issued_at == row.current_issued_at
            &&& after.candidate == row.candidate
            &&& after.config == row.config
            &&& after.hunt_attempts == row.hunt_attempts
        }),
{
}

/// A request carried the ticket in use when it carried its text; the ticket is
/// detached when another model answers, whatever the case of its letters.
pub proof fn when_a_ticket_is_detached(row: TicketRow, sent: Seq<char>, reported: Seq<char>)
    ensures
        row.current is None ==> !row.carries(sent),
        row.current is Some ==> (row.carries(sent) <==> row.current->0@ == sent),
        row.attached_model is None ==> !row.is_detached(reported),
        row.attached_model is Some ==> (row.is_detached(reported) <==> !same_ignoring_case(
            row.attached_model->0@,
            reported,
        )),
{
}

/// A text that is not in a list yet makes one more different text; one that is in it
/// does not.
pub proof fn different_texts_are_counted(list: Seq<String>, text: String)
    ensures
        distinct(Seq::empty()) == 0,
        (exists|i: int| 0 <= i < list.len() && (#[trigger] list[i])@ == text@) ==> distinct(
            list.push(text),
        ) == distinct(list),
        (forall|i: int| 0 <= i < list.len() ==> (#[trigger] list[i])@ != text@) ==> distinct(
            list.push(text),
        ) == distinct(list) + 1,
{
    let view = |s: String| s@;
    let before = list.map_values(view);
    let after = list.push(text).map_values(view);
    assert(Seq::<String>::empty().map_values(view).to_set() =~= Set::empty());
    assert(after =~= before.push(text@));
    before.lemma_cardinality_of_set();
    assert(after.to_set() =~= before.to_set().insert(text@)) by {
        assert forall|s: Seq<char>| #[trigger] after.to_set().contains(s) == before.to_set().insert(
            text@,
        ).contains(s) by {
            if before.contains(s) {
                let k = before.index_of(s);
                assert(after[k] == s);
            }
            assert(after[list.len() as int] == text@);
            if after.contains(s) && s != text@ {
                let k = after.index_of(s);
                assert(before[k] == s);
            }
        }
    }
    assert(before.to_set().finite());
    if exists|i: int| 0 <= i < list.len() && (#[trigger] list[i])@ == text@ {
        let i = choose|i: int| 0 <= i < list.len() && (#[trigger] list[i])@ == text@;
        assert(before[i] == text@);
        assert(before.to_set().contains(text@));
        assert(before.to_set().insert(text@) =~= before.to_set());
    } else if before.to_set().contains(text@) {
        let k = before.index_of(text@);
        assert(list[k]@ == text@);
    }
}

/// The entries of a history that come from one source.
pub open spec fn from_source(history: Seq<HistoryEntry>, source: Seq<char>) -> Seq<HistoryEntry> {
    history.filter(|entry: HistoryEntry| entry.observation.source@ == source)
}

/// The entries of a history that come from elsewhere.
pub open spec fn from_elsewhere(
    history: Seq<HistoryEntry>,
    source: Seq<char>,
) -> Seq<HistoryEntry> {
    history.filter(|entry: HistoryEntry| entry.observation.source@ != source)
}

/// Where a history is cut, the newest entries of the source stay, in their order, and
/// all of those from elsewhere. A history that does not have more of them than may
/// stay is not cut at all.
pub proof fn the_newest_entries_stay(history: Seq<HistoryEntry>, source: Seq<char>, keep: nat)
    ensures
        from_elsewhere(newest_of(history, source, keep), source) == from_elsewhere(history, source),
        from_source(history, source).len() <= keep ==> newest_of(history, source, keep) == history,
        from_source(history, source).len() > keep ==> from_source(
            newest_of(history, source, keep),
            source,
        ) == from_source(history, source).skip(from_source(history, source).len() - keep),
    decreases history.len(),
{
    reveal(Seq::filter);
    if history.len() > 0 {
        let last = history.last();
        let rest = history.drop_last();
        assert(rest.push(last) =~= history);
        if last.observation.source@ != source {
            the_newest_entries_stay(rest, source, keep);
            let cut = newest_of(rest, source, keep);
            assert(cut.push(last).drop_last() =~= cut);
        } else if keep > 0 {
            the_newest_entries_stay(rest, source, (keep - 1) as nat);
            let cut = newest_of(rest, source, (keep - 1) as nat);
            assert(cut.push(last).drop_last() =~= cut);
            let of_rest = from_source(rest, source);
            assert(from_source(history, source) == of_rest.push(last));
            if of_rest.len() + 1 > keep {
                assert(of_rest.push(last).skip(of_rest.len() + 1 - keep) =~= of_rest.skip(
                    of_rest.len() - (keep - 1),
                ).push(last));
            }
        } else {
            the_newest_entries_stay(rest, source, 0);
            let of_rest = from_source(rest, source);
            assert(from_source(history, source) == of_rest.push(last));
            let cut = newest_of(rest, source, 0);
            assert(of_rest.push(last).skip((of_rest.len() + 1) as int) =~= Seq::empty());
            if of_rest.len() == 0 {
                assert(cut == rest);
            } else {
                assert(of_rest.skip(of_rest.len() as int) =~= Seq::empty());
            }
        }
    }
}

/// An entry offers a ticket when it is of the row's account, model and identity, and
/// holds a ticket that was issued then and is in date.
pub proof fn which_entries_offer_a_ticket(
    row: TicketRow,
    entry: HistoryEntry,
    issued_at: i64,
    now: int,
)
    ensures
        row.offers(entry, issued_at, now) <==> (entry.observation.account_id@ == row.account_id@
            && entry.observation.model@ == row.model@ && optional_text(row.upstream_account_id)
            == optional_text(entry.observation.upstream_account_id) && optional_text(
            row.upstream_user_id,
        ) == optional_text(entry.observation.upstream_user_id) && entry.observation.token is Some
            && issue_time(entry.observation.token->0@) is Some && issue_time(
            entry.observation.token->0@,
        )->0 == issued_at && 0 < issued_at <= now && now - issued_at < row.config.ttl_seconds),
{
}

/// An entry that is named by its number is meant when it offers the ticket and no
/// earlier one of that number does.
pub proof fn a_named_entry_is_meant(
    row: TicketRow,
    history: Seq<HistoryEntry>,
    issued_at: i64,
    now: int,
    at: int,
)
    requires
        0 <= at < history.len(),
        row.offers(history[at], issued_at, now),
        forall|j: int| 0 <= j < at ==> (#[trigger] history[j]).id != history[at].id,
    ensures
        row.is_meant(history, issued_at, Some(history[at].id), now, at),
        row.means_one(history, issued_at, Some(history[at].id), now),
{
    assert(row.is_meant(history, issued_at, Some(history[at].id), now, at));
}

/// Without a number an entry is meant where all that offer a ticket of that time
/// offer the same; where two offer different ones, none is meant.
pub proof fn a_ticket_without_a_number_must_be_the_only_one(
    row: TicketRow,
    history: Seq<HistoryEntry>,
    issued_at: i64,
    now: int,
    i: int,
    j: int,
)
    requires
        0 <= i < history.len(),
        0 <= j < history.len(),
        row.offers(history[i], issued_at, now),
        row.offers(history[j], issued_at, now),
    ensures
        history[i].observation.token->0@ != history[j].observation.token->0@ ==> !row.means_one(
            history,
            issued_at,
            None,
            now,
        ),
        (forall|k: int|
            0 <= k < history.len() && row.offers(#[trigger] history[k], issued_at, now)
                ==> history[k].observation.token->0@ == history[i].observation.token->0@)
            ==> row.means_one(history, issued_at, None, now),
{
    if history[i].observation.token->0@ != history[j].observation.token->0@ {
        assert(row.is_ambiguous(history, issued_at, now));
    }
    if forall|k: int|
        0 <= k < history.len() && row.offers(#[trigger] history[k], issued_at, now)
            ==> history[k].observation.token->0@ == history[i].observation.token->0@ {
        let at = the_first_offer(row, history, issued_at, now, i);
        assert(!row.is_ambiguous(history, issued_at, now));
        assert(row.is_meant(history, issued_at, None, now, at));
    }
}

proof fn the_first_offer(
    row: TicketRow,
    history: Seq<HistoryEntry>,
    issued_at: i64,
    now: int,
    i: int,
) -> (at: int)
    requires
        0 <= i < history.len(),
        row.offers(history[i], issued_at, now),
    ensures
        0 <= at <= i,
        row.offers(history[at], issued_at, now),
        forall|j: int| 0 <= j < at ==> !row.offers(#[trigger] history[j], issued_at, now),
    decreases i,
{
    if exists|j: int| 0 <= j < i && row.offers(#[trigger] history[j], issued_at, now) {
        let j = choose|j: int| 0 <= j < i && row.offers(#[trigger] history[j], issued_at, now);
        the_first_offer(row, history, issued_at, now, j)
    } else {
        i
    }
}

/// The ticket in use, or the candidate, is the one asked for when it was issued then
/// and is in date.
pub proof fn which_ticket_is_asked_for(row: TicketRow, issued_at: i64, now: int)
    ensures
        row.current_is(issued_at, now) <==> (row.current is Some && row.current_issued_at == Some(
            issued_at,
        ) && 0 < issued_at <= now && now - issued_at < row.config.ttl_seconds),
        row.candidate_is(issued_at, now) <==> (row.candidate is Some
            && row.candidate->0.issued_at == issued_at && 0 < issued_at <= now && now - issued_at
            < row.config.ttl_seconds),
{
}

/// A ticket of the history comes into use when it has the target length, is newer
/// than the last one, and the row serves the account; what is told of it comes from
/// its entry.
pub proof fn when_a_ticket_of_the_history_comes_into_use(
    row: TicketRow,
    account: ProviderAccount,
    provider_kind: Seq<char>,
    entry: HistoryEntry,
    issued_at: i64,
    installation: TurnStateInstallation,
    now: i64,
)
    ensures
        row.installs_observed(account, provider_kind, entry, issued_at) <==> (
        entry.observation.token->0@.len() == row.config.target_length && (row.current_issued_at
            is None || row.current_issued_at->0 < issued_at) && row.serves(account, provider_kind)),
        row.is_installation_of(installation, entry, issued_at, now) ==> {
            &&& installation.installed_at == now
            &&& installation.issued_at == issued_at
            &&& installation.source == entry.observation.source
            &&& installation.acquired_at == entry.observation.observed_at
            &&& installation.token_length == entry.observation.token->0@.len() as usize
            &&& entry.observation.hunt_attempts is Some ==> installation.attempts
                == entry.observation.hunt_attempts->0
            &&& entry.observation.hunt_attempts is None ==> installation.attempts == 0
            &&& entry.observation.hunt_seconds is Some ==> installation.hunt_seconds
                == entry.observation.hunt_seconds->0
            &&& entry.observation.hunt_seconds is None ==> installation.hunt_seconds == 0
        },
{
}

/// Cleaning a history takes from an entry a text that is no fresh ticket, and nothing
/// else.
pub proof fn what_cleaning_takes_from_a_history(row: TicketRow, entry: HistoryEntry, now: int)
    ensures
        ({
            let after = row.cleaned_entry(entry, now);
            let text = entry.observation.token->0@;
            &&& after.id == entry.id
            &&& after.observation == (TurnStateObservation {
                token: after.observation.token,
                ..entry.observation
            })
            &&& entry.observation.token is None ==> after.observation.token is None
            &&& entry.observation.token is Some && issue_time(text) is None
                ==> after.observation.token is None
            &&& entry.observation.token is Some && issue_time(text) is Some && (issue_time(text)->0
                == 0 || issue_time(text)->0 > now || now - issue_time(text)->0
                >= row.config.ttl_seconds) ==> after.observation.token is None
            &&& entry.observation.token is Some && issue_time(text) is Some && 0 < issue_time(
                text,
            )->0 && issue_time(text)->0 <= now && now - issue_time(text)->0
                < row.config.ttl_seconds ==> after.observation.token == entry.observation.token
        }),
{
}

/// An entry is shown under its number, with whether it holds a ticket and whether
/// that is the one in use.
pub proof fn what_is_shown_of_an_entry(row: TicketRow, entry: HistoryEntry)
    ensures
        ({
            let shown = row.shown(entry);
            &&& shown.observation_id == Some(signed_decimal(entry.id as int))
            &&& shown.has_token <==> entry.observation.token is Some
            &&& shown.is_installed <==> (entry.observation.token is Some && row.current is Some
                && entry.observation.token->0@ == row.current->0@)
            &&& shown.token is None
            &&& shown.outcome == entry.observation@.outcome
            &&& shown.model == entry.observation@.model
            &&& shown.account_id == entry.observation@.account_id
            &&& shown.observed_at == entry.observation@.observed_at
            &&& shown.source == entry.observation@.source
            &&& shown.issued_at == entry.observation@.issued_at
            &&& shown.token_length == entry.observation@.token_length
            &&& shown.reported_model == entry.observation@.reported_model
            &&& shown.http_status == entry.observation@.http_status
        }),
{
}

/// A ticket shows in a bucket while it is fresh.
pub proof fn a_ticket_shows_while_it_is_fresh(
    shown: Option<TurnStateToken>,
    value: String,
    issued_at: i64,
    ttl_seconds: int,
    now: int,
)
    requires
        is_shown_ticket(shown, Some(value), Some(issued_at), ttl_seconds, now),
    ensures
        0 < issued_at <= now && now - issued_at < ttl_seconds ==> shown is Some && shown->0.value
            == value && shown->0.issued_at == issued_at,
        issued_at <= 0 || issued_at > now || now - issued_at >= ttl_seconds ==> shown is None,
{
}

/// A bucket is the row's own: its account, its model, its identity, its times and its
/// counts, with the cookies that it was given and the pin that was set.
pub proof fn a_bucket_is_its_row(
    row: TicketRow,
    bucket: TurnStateBucket,
    cookies: Vec<RoutingCookie>,
    now: int,
)
    requires
        row.is_shown_as(bucket, cookies, now),
    ensures
        bucket.account_id@ == row.account_id@,
        bucket.model@ == row.model@,
        optional_text(bucket.upstream_account_id) == optional_text(row.upstream_account_id),
        optional_text(bucket.upstream_user_id) == optional_text(row.upstream_user_id),
        bucket.routing_cookies == cookies,
        bucket.current_issued_at == row.current_issued_at,
        bucket.current_length == row.current_length,
        bucket.hunt_attempts == row.hunt_attempts,
        bucket.next_probe_at == row.next_probe_at,
        bucket.manual_probe_requested_at == row.manual_probe_requested_at,
        bucket.manual_override == row.manual_override,
        optional_text(bucket.attached_model) == optional_text(row.attached_model),
        row.cookie_override is Some ==> bucket.cookie_override_pod is Some
            && bucket.cookie_override_pod->0@ == row.cookie_override->0.pod@
            && bucket.cookie_override_issued_at == row.cookie_override->0.issued_at,
        row.cookie_override is None ==> bucket.cookie_override_pod is None,
        row.current is Some && row.current_issued_at is Some && 0 < row.current_issued_at->0
            <= now && now - row.current_issued_at->0 < row.config.ttl_seconds ==> bucket.current
            is Some && bucket.current->0.value == row.current->0,
        row.candidate is Some && 0 < row.candidate->0.issued_at <= now && now
            - row.candidate->0.issued_at < row.config.ttl_seconds ==> bucket.candidate is Some
            && bucket.candidate->0.value == row.candidate->0.value,
        row.current is None ==> bucket.current is None,
        row.candidate is None ==> bucket.candidate is None,
{
}

/// An account takes business unless it is switched off, or waits for a ticket that
/// it is not to do without.
pub proof fn which_business_an_account_takes(policy: MissingTurnStatePolicy, active: bool)
    ensures
        business_of(false, policy, active) == TurnStateBusinessStatus::ManualDisabled,
        business_of(true, policy, true) == TurnStateBusinessStatus::Ready,
        policy is Pause ==> business_of(true, policy, false)
            == TurnStateBusinessStatus::WaitingForState,
        !(policy is Pause) ==> business_of(true, policy, false) == TurnStateBusinessStatus::Ready,
{
}

/// The next probe is due when the ticket in use is to be renewed; without a ticket
/// that is young enough, when the hunt goes on; and never while the hunt is off.
pub proof fn when_the_next_probe_is_shown(
    bucket: TurnStateBucket,
    account: ProviderAccount,
    now: i64,
)
    requires
        bucket.current is Some ==> bucket.current->0.issued_at
            + bucket.config.refresh_after_seconds <= i64::MAX,
    ensures
        is_owner(bucket, account) <==> (account.authentication_kind@ == "oauth"@ && optional_text(
            bucket.upstream_account_id,
        ) == optional_text(account.upstream_account_id) && optional_text(bucket.upstream_user_id)
            == optional_text(account.upstream_user_id)),
        is_installed_for(bucket, account, now as int) <==> (is_owner(bucket, account)
            && bucket.has_installed_token(now as int)),
        !account.enabled || !bucket.config.enabled ==> next_probe(bucket, account, now) is None,
        account.enabled && bucket.config.enabled && is_owner(bucket, account)
            && bucket.has_installed_token(now as int) && now - bucket.current->0.issued_at
            < bucket.config.refresh_after_seconds ==> next_probe(bucket, account, now) is Some
            && next_probe(bucket, account, now)->0 == bucket.current->0.issued_at
            + bucket.config.refresh_after_seconds,
        account.enabled && bucket.config.enabled && !(is_owner(bucket, account)
            && bucket.has_installed_token(now as int)) && bucket.next_probe_at is Some
            ==> next_probe(bucket, account, now) == bucket.next_probe_at,
        account.enabled && bucket.config.enabled && !(is_owner(bucket, account)
            && bucket.has_installed_token(now as int)) && bucket.next_probe_at is None
            ==> next_probe(bucket, account, now) == Some(now),
        account.enabled && bucket.config.enabled && is_owner(bucket, account)
            && bucket.has_installed_token(now as int) && now - bucket.current->0.issued_at
            >= bucket.config.refresh_after_seconds && bucket.next_probe_at is Some ==> next_probe(
            bucket,
            account,
            now,
        ) == bucket.next_probe_at,
{
}

/// A status tells of a bucket whose it is, its ticket's time, length and age, whether
/// it can be used, and the same of the candidate.
pub proof fn what_a_status_tells(
    status: TurnStateStatus,
    bucket: TurnStateBucket,
    account: ProviderAccount,
    account_email: Option<String>,
    installations: Vec<TurnStateInstallation>,
    now: i64,
)
    requires
        is_status_of_bucket(status, bucket, account, account_email, installations, now),
    ensures
        status.account_id == bucket.account_id,
        status.account_name@ == account.name@,
        status.account_email == account_email,
        status.model == bucket.model,
        status.config == bucket.config,
        status.token_length == bucket.current_length,
        status.issued_at == bucket.current_issued_at,
        bucket.current_issued_at is None ==> status.age_seconds is None,
        bucket.current_issued_at is Some && i64::MIN <= now - bucket.current_issued_at->0
            <= i64::MAX ==> status.age_seconds is Some && status.age_seconds->0 == now
            - bucket.current_issued_at->0,
        status.has_installed_state <==> (account.authentication_kind@ == "oauth"@ && optional_text(
            bucket.upstream_account_id,
        ) == optional_text(account.upstream_account_id) && optional_text(bucket.upstream_user_id)
            == optional_text(account.upstream_user_id) && bucket.has_installed_token(now as int)),
        status.active <==> (account.enabled && status.has_installed_state),
        status.account_enabled == account.enabled,
        !account.enabled ==> status.business_status == TurnStateBusinessStatus::ManualDisabled,
        account.enabled && status.active ==> status.business_status
            == TurnStateBusinessStatus::Ready,
        account.enabled && !status.active && bucket.config.missing_state_policy is Pause
            ==> status.business_status == TurnStateBusinessStatus::WaitingForState,
        status.hunt_attempts == bucket.hunt_attempts,
        status.manual_probe_requested_at == bucket.manual_probe_requested_at,
        status.manual_override == bucket.manual_override,
        status.cookie_override_pod == bucket.cookie_override_pod,
        status.cookie_override_issued_at == bucket.cookie_override_issued_at,
        bucket.candidate is Some ==> status.candidate_issued_at == Some(
            bucket.candidate->0.issued_at,
        ) && status.candidate_length == Some(byte_len(bucket.candidate->0.value@) as usize),
        bucket.candidate is None ==> status.candidate_issued_at is None && status.candidate_length
            is None,
        status.installations == installations,
        status.cookie_pool@.len() == bucket.routing_cookies@.len(),
        forall|i: int|
            0 <= i < status.cookie_pool@.len() ==> (#[trigger] status.cookie_pool@[i]).pod@
                == bucket.routing_cookies@[i].pod@ && status.cookie_pool@[i].expires_at
                == bucket.routing_cookies@[i].expires_at,
{
    assert(bucket.current_issued_at is Some ==> status.age_seconds == Some(
        age_at(bucket.current_issued_at->0, now),
    ));
}

/// Of a cookie its gateway, its host, its times and its model are shown.
pub proof fn what_is_shown_of_a_cookie(status: RoutingCookieStatus, cookie: RoutingCookie)
    requires
        is_status_of(status, cookie),
    ensures
        status.gateway_id@ == gateway_or_empty(cookie.pod@),
        status.pod@ == cookie.pod@,
        status.issued_at == cookie.issued_at,
        status.expires_at == cookie.expires_at,
        status.observed_at == cookie.observed_at,
        status.reported_model@ == cookie.reported_model@,
        !status.allowed,
{
}

/// The time of renewal cannot be told only of a ticket that is fresh and would be
/// renewed after the end of time.
pub proof fn when_the_time_of_renewal_can_be_told(row: TicketRow, now: int)
    ensures
        row.current is None ==> row.renewal_fits(now),
        row.current_issued_at is Some && row.current_issued_at->0
            + row.config.refresh_after_seconds <= i64::MAX ==> row.renewal_fits(now),
        row.current is Some && row.current_issued_at is Some && 0 < row.current_issued_at->0
            <= now && now - row.current_issued_at->0 < row.config.ttl_seconds
            && row.current_issued_at->0 + row.config.refresh_after_seconds > i64::MAX
            ==> !row.renewal_fits(now),
{
}

/// A new row is of its account and its model, and has nothing yet.
pub proof fn a_new_row_has_nothing(row: TicketRow, account: ProviderAccount, model: Seq<char>)
    requires
        row.is_blank_for(account, model),
    ensures
        row.account_id@ == account.id@,
        row.model@ == model,
        optional_text(row.upstream_account_id) == optional_text(account.upstream_account_id),
        optional_text(row.upstream_user_id) == optional_text(account.upstream_user_id),
        row.current is None && row.current_issued_at is None && row.current_length is None,
        row.attached_model is None && row.candidate is None && row.cookie_override is None,
        row.hunt_attempts == 0 && row.hunt_started_at is None && row.next_probe_at is None,
        row.manual_probe_requested_at is None && !row.manual_override,
{
}

/// A ticket that comes into use out of the history is one that an entry holds, of that
/// time and of the target length, and newer than the last one; it was put to use by
/// hand.
pub proof fn a_ticket_out_of_the_history_is_in_use(
    row: TicketRow,
    after: TicketRow,
    installation: TurnStateInstallation,
    account: ProviderAccount,
    provider_kind: Seq<char>,
    history: Seq<HistoryEntry>,
    issued_at: i64,
    id: Option<i64>,
    now: i64,
) -> (at: int)
    requires
        row.installed_from_history(
            after,
            installation,
            account,
            provider_kind,
            history,
            issued_at,
            id,
            now,
        ),
    ensures
        0 <= at < history.len(),
        id is Some ==> history[at].id == id->0,
        history[at].observation.account_id@ == row.account_id@,
        history[at].observation.model@ == row.model@,
        history[at].observation.token is Some,
        after.current == history[at].observation.token,
        after.current_issued_at == Some(issued_at),
        after.attached_model == history[at].observation.reported_model,
        after.manual_override,
        after.candidate is None,
        issue_time(after.current->0@) == Some(issued_at as nat),
        after.current->0@.len() == row.config.target_length,
        row.current_issued_at is Some ==> row.current_issued_at->0 < issued_at,
        account.enabled && account.id@ == row.account_id@,
        installation.issued_at == issued_at && installation.installed_at == now,
        installation.source == history[at].observation.source,
{
    choose|at: int| #[trigger]
        row.finds_installable(
            account,
            provider_kind,
            history,
            issued_at,
            id,
            now as int,
            at,
        ) && after == row.with_ticket(
            history[at].observation.token->0,
            issued_at,
            history[at].observation.reported_model,
            true,
        ) && row.is_installation_of(installation, history[at], issued_at, now)
}

/// An observation is added at the end of a history. Of its source no more than the
/// newest hundred stay; a history with fewer keeps all.
pub proof fn a_history_keeps_the_newest_hundred(history: Seq<HistoryEntry>, entry: HistoryEntry)
    ensures
        ({
            let source = entry.observation.source@;
            let after = newest_of(history.push(entry), source, HISTORY_LIMIT as nat);
            &&& from_source(history, source).len() < 100 ==> after == history.push(entry)
            &&& from_source(history, source).len() >= 100 ==> from_source(after, source).len()
                == 100
            &&& after.len() > 0 && after.last() == entry
            &&& from_elsewhere(after, source) == from_elsewhere(history, source)
        }),
{
    reveal(Seq::filter);
    let source = entry.observation.source@;
    let all = history.push(entry);
    assert(all.drop_last() =~= history);
    assert(from_source(all, source) == from_source(history, source).push(entry));
    the_newest_entries_stay(all, source, HISTORY_LIMIT as nat);
}

} // verus!
