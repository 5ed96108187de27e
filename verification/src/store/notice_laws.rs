//! What holds of the notices of tickets, of the cookies that go along with a probe,
//! and of what commands are said to have changed.

use crate::account::turn_state::{issue_time, TurnStateInstallation};
use crate::store::commands::{kind_is, named, rows_of_account, GroupRow};
use crate::store::notifications::{
    due_times, earliest, is_schedule, notice_of, Delivery, PendingNotice, CLAIM_LIMIT,
};
use crate::store::replay::{
    expiry_of, is_filled, is_past, is_replayable, replayed, rfc3339_seconds, text_or_empty,
    CookieView,
};
use crate::text::{byte_len, optional_text};
use vstd::prelude::*;

verus! {

/// The notice of an installation waits to be tried from when the ticket came into
/// use, and tells when the one before it did.
pub proof fn what_a_notice_tells(
    installation: TurnStateInstallation,
    earlier: Seq<TurnStateInstallation>,
    before: TurnStateInstallation,
)
    ensures
        ({
            let notice = notice_of(installation, earlier.push(before));
            &&& notice.issued_at == installation.issued_at
            &&& notice.installation == installation
            &&& notice.previous_installed_at == Some(before.installed_at)
            &&& notice.next_attempt_at == installation.installed_at
            &&& notice.attempts == 0
            &&& notice.sent_at is None
            &&& notice_of(installation, Seq::empty()).previous_installed_at is None
        }),
{
}

/// A notice is due when it was not delivered, was tried less than five times, its
/// time has come, a webhook is set, and its ticket is the one in use, in date, and
/// of an account that may carry it.
pub proof fn when_a_notice_is_due(delivery: Delivery, now: int)
    ensures
        delivery.is_due(now) <==> (delivery.notice.sent_at is None && delivery.notice.attempts < 5
            && delivery.notice.next_attempt_at <= now && delivery.account.id@
            == delivery.row.account_id@ && delivery.account.enabled && delivery.provider_kind@
            == "openai"@ && delivery.account.authentication_kind@ == "oauth"@ && optional_text(
            delivery.row.upstream_account_id,
        ) == optional_text(delivery.account.upstream_account_id) && optional_text(
            delivery.row.upstream_user_id,
        ) == optional_text(delivery.account.upstream_user_id) && delivery.row.current_issued_at
            == Some(delivery.notice.issued_at) && delivery.row.current is Some
            && delivery.row.config.feishu_webhook_url@.len() > 0 && now - delivery.notice.issued_at
            < delivery.row.config.ttl_seconds),
{
}

/// A notice can be told while the ticket in use is the one it is about, of the target
/// length and in date, under a valid configuration.
pub proof fn when_a_notice_can_be_told(delivery: Delivery, now: int)
    ensures
        delivery.row.current is None ==> !delivery.can_be_told(now),
        delivery.row.current is Some ==> (delivery.can_be_told(now) <==> (
        delivery.row.config.valid() && issue_time(delivery.row.current->0@) is Some && issue_time(
            delivery.row.current->0@,
        )->0 == delivery.notice.issued_at && byte_len(delivery.row.current->0@)
            == delivery.row.config.target_length && 0 < delivery.notice.issued_at <= now && now
            - delivery.notice.issued_at < delivery.row.config.ttl_seconds)),
{
}

/// A notice that is taken up is counted, and waits a minute before the next time.
pub proof fn what_taking_up_a_notice_changes(delivery: Delivery, now: i64)
    requires
        delivery.notice.attempts < u32::MAX,
        now <= i64::MAX - 60,
    ensures
        ({
            let after = delivery.claimed(now as int);
            &&& after.attempts == delivery.notice.attempts + 1
            &&& after.next_attempt_at == now + 60
            &&& after == (PendingNotice {
                attempts: after.attempts,
                next_attempt_at: after.next_attempt_at,
                ..delivery.notice
            })
        }),
{
}

proof fn a_schedule_takes_the_earliest(
    times: Seq<Option<i64>>,
    places: Seq<usize>,
    most: nat,
)
    requires
        is_schedule(times, places, most),
    ensures
        places.len() <= most,
        forall|i: int|
            0 <= i < places.len() ==> (#[trigger] places[i]) < times.len()
                && times[places[i] as int] is Some,
        forall|i: int, j: int|
            0 <= i < j < places.len() ==> #[trigger] places[i] != #[trigger] places[j]
                && times[places[i] as int]->0 <= times[places[j] as int]->0 && (
            times[places[i] as int]->0 == times[places[j] as int]->0 ==> places[i] < places[j]),
        forall|k: int|
            0 <= k < times.len() && (#[trigger] times[k]) is Some && (forall|i: int|
                0 <= i < places.len() ==> #[trigger] places[i] != k) ==> places.len() == most && (
            forall|i: int|
                0 <= i < places.len() ==> times[(#[trigger] places[i]) as int]->0 <= times[k]->0),
    decreases places.len(),
{
    if places.len() > 0 {
        let first = places[0] as int;
        let left = times.update(first, None);
        let rest = places.drop_first();
        a_schedule_takes_the_earliest(left, rest, (most - 1) as nat);
        assert(earliest(times, first));
        assert forall|i: int| 0 <= i < places.len() implies (#[trigger] places[i]) < times.len()
            && times[places[i] as int] is Some by {
            if i > 0 {
                assert(rest[i - 1] == places[i]);
                assert(left[rest[i - 1] as int] is Some);
            }
        }
        assert forall|i: int, j: int|
            0 <= i < j < places.len() implies #[trigger] places[i] != #[trigger] places[j]
            && times[places[i] as int]->0 <= times[places[j] as int]->0 && (
        times[places[i] as int]->0 == times[places[j] as int]->0 ==> places[i] < places[j]) by {
            assert(rest[j - 1] == places[j]);
            assert(left[rest[j - 1] as int] is Some);
            assert(times[places[j] as int] is Some);
            if i > 0 {
                assert(rest[i - 1] == places[i]);
                assert(left[rest[i - 1] as int] is Some);
            }
        }
        assert forall|k: int|
            0 <= k < times.len() && (#[trigger] times[k]) is Some && (forall|i: int|
                0 <= i < places.len() ==> #[trigger] places[i] != k) implies places.len() == most
            && (forall|i: int|
            0 <= i < places.len() ==> times[(#[trigger] places[i]) as int]->0 <= times[k]->0) by {
            assert(places[0] != k);
            assert(left[k] == times[k]);
            assert forall|i: int| 0 <= i < rest.len() implies #[trigger] rest[i] != k by {
                assert(rest[i] == places[i + 1]);
            }
            assert forall|i: int| 0 <= i < places.len() implies times[(
            #[trigger] places[i]) as int]->0 <= times[k]->0 by {
                if i > 0 {
                    assert(rest[i - 1] == places[i]);
                    assert(left[rest[i - 1] as int] is Some);
                }
            }
        }
    }
}

/// The notices that are taken up are due, none of them twice, in the order of their
/// times and of equal times in their own order, and sixteen at most. One that is due
/// waits only when sixteen that were due no later are taken up.
pub proof fn which_notices_are_taken_up(deliveries: Seq<Delivery>, places: Seq<usize>, now: int)
    requires
        is_schedule(due_times(deliveries, now), places, CLAIM_LIMIT as nat),
    ensures
        places.len() <= 16,
        forall|i: int|
            0 <= i < places.len() ==> (#[trigger] places[i]) < deliveries.len()
                && deliveries[places[i] as int].is_due(now),
        forall|i: int, j: int|
            0 <= i < j < places.len() ==> #[trigger] places[i] != #[trigger] places[j]
                && deliveries[places[i] as int].notice.next_attempt_at
                <= deliveries[places[j] as int].notice.next_attempt_at && (
            deliveries[places[i] as int].notice.next_attempt_at
                == deliveries[places[j] as int].notice.next_attempt_at ==> places[i] < places[j]),
        forall|k: int|
            0 <= k < deliveries.len() && (#[trigger] deliveries[k]).is_due(now) && (forall|i: int|
                0 <= i < places.len() ==> #[trigger] places[i] != k) ==> places.len() == 16 && (
            forall|i: int|
                0 <= i < places.len() ==> deliveries[(
                #[trigger] places[i]) as int].notice.next_attempt_at
                    <= deliveries[k].notice.next_attempt_at),
{
    let times = due_times(deliveries, now);
    a_schedule_takes_the_earliest(times, places, CLAIM_LIMIT as nat);
    assert(times.len() == deliveries.len());
    assert forall|k: int| 0 <= k < deliveries.len() implies #[trigger] times[k] == (
    if deliveries[k].is_due(now) {
        Some(deliveries[k].notice.next_attempt_at)
    } else {
        None
    }) by {}
    assert forall|i: int| 0 <= i < places.len() implies (#[trigger] places[i]) < deliveries.len()
        && deliveries[places[i] as int].is_due(now) by {
        assert(times[places[i] as int] is Some);
    }
    assert forall|i: int, j: int|
        0 <= i < j < places.len() implies #[trigger] places[i] != #[trigger] places[j]
        && deliveries[places[i] as int].notice.next_attempt_at
        <= deliveries[places[j] as int].notice.next_attempt_at && (
    deliveries[places[i] as int].notice.next_attempt_at
        == deliveries[places[j] as int].notice.next_attempt_at ==> places[i] < places[j]) by {
        assert(times[places[i] as int]->0 <= times[places[j] as int]->0);
    }
    assert forall|k: int|
        0 <= k < deliveries.len() && (#[trigger] deliveries[k]).is_due(now) && (forall|i: int|
            0 <= i < places.len() ==> #[trigger] places[i] != k) implies places.len() == 16 && (
    forall|i: int|
        0 <= i < places.len() ==> deliveries[(#[trigger] places[i]) as int].notice.next_attempt_at
            <= deliveries[k].notice.next_attempt_at) by {
        assert(times[k] is Some);
        assert forall|i: int| 0 <= i < places.len() implies deliveries[(
        #[trigger] places[i]) as int].notice.next_attempt_at
            <= deliveries[k].notice.next_attempt_at by {
            assert(times[places[i] as int]->0 <= times[k]->0);
        }
    }
}

/// A cookie that chooses a host does not go along, nor one without a name or a value,
/// nor one with a semicolon in its value or a control character.
pub proof fn which_cookies_go_along(cookie: CookieView, i: int)
    ensures
        cookie.name == "__oailb"@ || cookie.name == "__oai_lb"@ ==> !is_replayable(cookie),
        cookie.name.len() == 0 || cookie.value.len() == 0 ==> !is_replayable(cookie),
        0 <= i < cookie.value.len() && (cookie.value[i] == ';' || cookie.value[i] < ' '
            || cookie.value[i] == '\u{7f}') ==> !is_replayable(cookie),
        0 <= i < cookie.name.len() && (cookie.name[i] < ' ' || cookie.name[i] == '\u{7f}')
            ==> !is_replayable(cookie),
        cookie.name.len() > 0 && cookie.value.len() > 0 && cookie.name != "__oailb"@ && cookie.name
            != "__oai_lb"@ && (forall|k: int|
            0 <= k < cookie.value.len() ==> ' ' <= #[trigger] cookie.value[k] < '\u{7f}'
                && cookie.value[k] != ';') && (forall|k: int|
            0 <= k < cookie.name.len() ==> ' ' <= #[trigger] cookie.name[k] < '\u{7f}')
            ==> is_replayable(cookie),
{
    if cookie.value.contains(';') {
        let k = cookie.value.index_of(';');
        assert(cookie.value[k] == ';');
    }
    if 0 <= i < cookie.value.len() && cookie.value[i] == ';' {
        assert(cookie.value.contains(';'));
    }
}

/// Each cookie that can go along does, by its name and its value and after those
/// before it, unless the time that it expires at can be read and lies in the past.
pub proof fn a_cookie_goes_along_until_it_expires(
    cookies: Seq<CookieView>,
    cookie: CookieView,
    now: int,
)
    ensures
        ({
            let before = replayed(cookies, now);
            let after = replayed(cookies.push(cookie), now);
            let read = match cookie.expires_at {
                Some(text) => rfc3339_seconds(text),
                None => None,
            };
            &&& replayed(Seq::empty(), now).len() == 0
            &&& is_replayable(cookie) && read is None ==> after == before.push(
                (cookie.name, cookie.value),
            )
            &&& is_replayable(cookie) && read is Some && read->0 >= now ==> after == before.push(
                (cookie.name, cookie.value),
            )
            &&& read is Some && read->0 < now ==> after == before
            &&& !is_replayable(cookie) ==> after == before
        }),
{
    assert(cookies.push(cookie).drop_last() =~= cookies);
    assert(is_past(expiry_of(cookie), now) ==> expiry_of(cookie) is Some);
}

/// What was changed is named, and nothing else.
pub proof fn what_was_changed_is_named(name: Seq<char>)
    ensures
        named(true, name) == seq![name],
        named(false, name).len() == 0,
{
}

/// A record is of a provider when it is there and says so.
pub proof fn whose_record_it_is(record: String, kind: Seq<char>)
    ensures
        !kind_is(None, kind),
        kind_is(Some(record), kind) <==> record@ == kind,
{
}

/// The groups of an account are the rows with its id, in their order.
pub proof fn which_groups_an_account_has(rows: Seq<GroupRow>, account_id: Seq<char>)
    ensures
        forall|i: int|
            #![trigger rows[i]]
            0 <= i < rows.len() ==> (rows_of_account(rows, account_id).contains(i)
                <==> rows[i].account_id@ == account_id),
        forall|k: int|
            0 <= k < rows_of_account(rows, account_id).len() ==> 0 <= #[trigger] rows_of_account(
                rows,
                account_id,
            )[k] < rows.len(),
        forall|j: int, k: int|
            0 <= j < k < rows_of_account(rows, account_id).len() ==> #[trigger] rows_of_account(
                rows,
                account_id,
            )[j] < #[trigger] rows_of_account(rows, account_id)[k],
    decreases rows.len(),
{
    if rows.len() > 0 {
        let rest = rows.drop_last();
        let last = rows.len() - 1;
        which_groups_an_account_has(rest, account_id);
        let before = rows_of_account(rest, account_id);
        let after = rows_of_account(rows, account_id);
        assert forall|i: int|
            #![trigger rows[i]]
            0 <= i < rows.len() implies (after.contains(i) <==> rows[i].account_id@
            == account_id) by {
            if i < last {
                assert(rest[i] == rows[i]);
                if before.contains(i) {
                    let k = before.index_of(i);
                    assert(after[k] == i);
                }
                if after.contains(i) {
                    let k = after.index_of(i);
                    assert(k < before.len());
                    assert(before[k] == i);
                }
            } else {
                if rows[i].account_id@ == account_id {
                    assert(after[before.len() as int] == i);
                } else if after.contains(i) {
                    let k = after.index_of(i);
                    assert(before[k] == i);
                }
            }
        }
    }
}

/// A part of a record is filled in when it is there and not empty.
pub proof fn when_a_part_is_filled_in(text: String)
    ensures
        !is_filled(None),
        is_filled(Some(text)) <==> text@.len() > 0,
        text_or_empty(None).len() == 0,
        text_or_empty(Some(text)) == text@,
{
}

} // verus!
