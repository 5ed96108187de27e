//! What exchanges make of the pool of routing cookies, row by row.

use crate::account::cookie_lock::{RoutingCookie, RoutingCookieObservation};
use crate::store::cookie_pool::{
    cleaned, is_live, is_row_of, live_rows, loaded, merge_row, newest_first,
    newest_first_orders_the_rows, recorded, restored, revoke_rows, row_of_cookie, rows_differ,
    takes_away, trimmed_pool, RowView,
};
use crate::text::byte_len;
use vstd::prelude::*;

verus! {

/// A later exchange that shows a cookie of a host and names a model renews the row
/// of that host: the cookie that was issued last counts, the new one where both were
/// issued at once, and what the exchange says of time and model is taken over. The
/// rows of hosts that the exchange is not about stay as they are.
pub proof fn a_later_exchange_renews_its_row(
    rows: Seq<RowView>,
    observation: RoutingCookieObservation,
    cookie: RoutingCookie,
    model: String,
    now: int,
    at: int,
)
    requires
        rows_differ(rows),
        rows.len() <= 256,
        0 <= at < rows.len(),
        !observation.deleted,
        observation.received == Some(cookie) || (observation.received is None && observation.sent
            == Some(cookie)),
        observation.reported_model == Some(model),
        0 < model@.len(),
        byte_len(model@) <= 256,
        cookie.origin@ == observation.origin@,
        cookie.expires_at > now,
        rows[at].origin == cookie.origin@,
        rows[at].pod == cookie.pod@,
        rows[at].observed_at < observation.observed_at,
    ensures
        ({
            let after = recorded(rows, observation, now);
            let row = rows[at];
            let renewed = after[at];
            &&& after.len() == rows.len()
            &&& renewed.origin == row.origin && renewed.pod == row.pod
            &&& renewed.observed_at == observation.observed_at
            &&& renewed.reported_model == model@
            &&& cookie.issued_at >= row.issued_at ==> renewed.issued_at == cookie.issued_at
                && renewed.expires_at == cookie.expires_at && renewed.name == cookie.name@
                && renewed.value == Some(cookie.value@)
            &&& cookie.issued_at < row.issued_at ==> renewed.issued_at == row.issued_at
                && renewed.expires_at == row.expires_at && renewed.name == row.name
                && renewed.value == row.value
            &&& forall|j: int|
                0 <= j < rows.len() && j != at && (observation.sent is None
                    || observation.sent->0.pod@ == cookie.pod@ || rows[j].pod
                    != observation.sent->0.pod@ || rows[j].origin != observation.origin@)
                    ==> #[trigger] after[j] == rows[j]
        }),
{
    let after = recorded(rows, observation, now);
    let left = if takes_away(observation) {
        revoke_rows(
            rows,
            observation.origin@,
            observation.sent->0.pod@,
            observation.observed_at as int,
        )
    } else {
        rows
    };
    assert(left[at] == rows[at]);
    assert(is_row_of(left[at], cookie.origin@, cookie.pod@));
    assert(after == merge_row(left, row_of_cookie(cookie, model@, observation.observed_at as int)));
    assert forall|j: int|
        0 <= j < rows.len() && j != at && (observation.sent is None || observation.sent->0.pod@
            == cookie.pod@ || rows[j].pod != observation.sent->0.pod@ || rows[j].origin
            != observation.origin@) implies #[trigger] after[j] == rows[j] by {
        if j < at {
            assert(!is_row_of(rows[j], rows[at].origin, rows[at].pod));
        } else {
            assert(!is_row_of(rows[at], rows[j].origin, rows[j].pod));
        }
    }
}

/// The first exchange that shows a cookie of a host and names a model gives the host
/// a row that says just that.
pub proof fn a_new_host_gets_a_row(
    rows: Seq<RowView>,
    observation: RoutingCookieObservation,
    cookie: RoutingCookie,
    model: String,
    now: int,
)
    requires
        rows.len() < 256,
        !observation.deleted,
        observation.received == Some(cookie) || (observation.received is None && observation.sent
            == Some(cookie)),
        observation.reported_model == Some(model),
        0 < model@.len(),
        byte_len(model@) <= 256,
        cookie.origin@ == observation.origin@,
        cookie.expires_at > now,
        forall|j: int|
            0 <= j < rows.len() ==> (#[trigger] rows[j]).origin != cookie.origin@ || rows[j].pod
                != cookie.pod@,
    ensures
        ({
            let after = recorded(rows, observation, now);
            let row = after.last();
            &&& after.len() == rows.len() + 1
            &&& row.origin == cookie.origin@ && row.pod == cookie.pod@ && row.name == cookie.name@
            &&& row.value == Some(cookie.value@) && row.issued_at == cookie.issued_at
            &&& row.expires_at == cookie.expires_at && row.observed_at == observation.observed_at
            &&& row.reported_model == model@
        }),
{
}

/// An exchange that shows no cookie, one of another endpoint or one that has expired,
/// or names no model, puts nothing into the pool.
pub proof fn a_poor_exchange_adds_nothing(
    rows: Seq<RowView>,
    observation: RoutingCookieObservation,
    now: int,
)
    requires
        rows.len() <= 256,
        observation.sent is None,
        ({
            ||| observation.deleted || observation.received is None
            ||| observation.reported_model is None || observation.reported_model->0@.len() == 0
                || byte_len(observation.reported_model->0@) > 256
            ||| observation.received->0.origin@ != observation.origin@
            ||| observation.received->0.expires_at <= now
        }),
    ensures
        recorded(rows, observation, now) == rows,
{
}

/// The cookie that was sent loses its value when the upstream takes it away or gives
/// another host in its place, unless its row was learnt from a later exchange. Its
/// row stays, without a model.
pub proof fn a_cookie_that_was_taken_away_loses_its_value(
    rows: Seq<RowView>,
    observation: RoutingCookieObservation,
    sent: RoutingCookie,
    now: int,
    at: int,
)
    requires
        rows.len() < 256,
        0 <= at < rows.len(),
        observation.sent == Some(sent),
        observation.deleted || (observation.received is Some && observation.received->0.pod@
            != sent.pod@),
        rows[at].origin == observation.origin@,
        rows[at].pod == sent.pod@,
    ensures
        ({
            let after = recorded(rows, observation, now);
            &&& after.len() >= rows.len()
            &&& rows[at].observed_at <= observation.observed_at ==> {
                &&& after[at].value is None
                &&& after[at].reported_model.len() == 0
                &&& after[at].observed_at == observation.observed_at
                &&& after[at].origin == rows[at].origin && after[at].pod == rows[at].pod
                &&& after[at].name == rows[at].name
                &&& after[at].issued_at == rows[at].issued_at
                &&& after[at].expires_at == rows[at].expires_at
            }
            &&& rows[at].observed_at > observation.observed_at ==> after[at] == rows[at]
            &&& observation.deleted ==> forall|j: int|
                0 <= j < rows.len() && (rows[j].pod != sent.pod@ || rows[j].origin
                    != observation.origin@) ==> #[trigger] after[j] == rows[j]
        }),
{
}

/// An answer that comes late changes nothing of a row that was learnt from a later
/// exchange, whatever it shows.
pub proof fn a_late_answer_leaves_the_row(
    rows: Seq<RowView>,
    observation: RoutingCookieObservation,
    now: int,
    at: int,
)
    requires
        rows.len() < 256,
        0 <= at < rows.len(),
        rows[at].observed_at > observation.observed_at,
    ensures
        recorded(rows, observation, now).len() >= rows.len(),
        recorded(rows, observation, now)[at] == rows[at],
{
}

/// Two models that are named for a cookie by answers to requests of one time leave
/// none; the same model stays.
pub proof fn two_models_at_one_time_leave_none(
    rows: Seq<RowView>,
    observation: RoutingCookieObservation,
    cookie: RoutingCookie,
    model: String,
    now: int,
    at: int,
)
    requires
        rows_differ(rows),
        rows.len() <= 256,
        0 <= at < rows.len(),
        !observation.deleted,
        observation.received == Some(cookie),
        observation.sent is None,
        observation.reported_model == Some(model),
        0 < model@.len(),
        byte_len(model@) <= 256,
        cookie.origin@ == observation.origin@,
        cookie.expires_at > now,
        rows[at].origin == cookie.origin@,
        rows[at].pod == cookie.pod@,
        rows[at].observed_at == observation.observed_at,
        rows[at].value is Some,
    ensures
        ({
            let after = recorded(rows, observation, now);
            &&& after.len() == rows.len()
            &&& rows[at].reported_model == model@ ==> after[at].reported_model == model@
            &&& rows[at].reported_model != model@ ==> after[at].reported_model.len() == 0
            &&& after[at].value is Some
        }),
{
    assert(rows[at].origin == cookie.origin@ && rows[at].pod == cookie.pod@);
}

proof fn ordered_rows_are_the_rows(rows: Seq<RowView>, row: RowView)
    ensures
        newest_first(rows).contains(row) == rows.contains(row),
{
    newest_first_orders_the_rows(rows);
    rows.to_multiset_ensures();
    newest_first(rows).to_multiset_ensures();
    assert(rows.contains(row) == (rows.to_multiset().count(row) > 0));
    assert(newest_first(rows).contains(row) == (newest_first(rows).to_multiset().count(row) > 0));
}

/// A pool of too many rows keeps as many as it may: none that leaves was seen after
/// one that stays.
pub proof fn the_pool_keeps_what_was_seen_last(rows: Seq<RowView>, kept: RowView, gone: RowView)
    ensures
        rows.len() <= 256 ==> trimmed_pool(rows) == rows,
        rows.len() > 256 ==> trimmed_pool(rows).len() == 256,
        trimmed_pool(rows).contains(kept) ==> rows.contains(kept),
        trimmed_pool(rows).contains(kept) && rows.contains(gone) && !trimmed_pool(rows).contains(
            gone,
        ) ==> gone.observed_at <= kept.observed_at,
{
    newest_first_orders_the_rows(rows);
    ordered_rows_are_the_rows(rows, kept);
    ordered_rows_are_the_rows(rows, gone);
    if rows.len() > 256 {
        let all = newest_first(rows);
        let few = trimmed_pool(rows);
        if few.contains(kept) {
            let i = choose|i: int| 0 <= i < few.len() && few[i] == kept;
            assert(all[i] == kept);
            if rows.contains(gone) && !few.contains(gone) {
                let j = choose|j: int| 0 <= j < all.len() && all[j] == gone;
                if j < 256 {
                    assert(few[j] == gone);
                }
            }
        }
    }
}

proof fn live_rows_are_live(rows: Seq<RowView>, now_us: int, row: RowView)
    ensures
        live_rows(rows, now_us).contains(row) == (rows.contains(row) && row.value is Some
            && row.expires_at * 1_000_000 > now_us),
        live_rows(rows, now_us).len() <= rows.len(),
    decreases rows.len(),
{
    if rows.len() > 0 {
        let fewer = rows.drop_last();
        let last = rows.last();
        live_rows_are_live(fewer, now_us, row);
        let all = live_rows(rows, now_us);
        let before = live_rows(fewer, now_us);
        assert(rows =~= fewer.push(last));
        assert(rows.contains(row) == (fewer.contains(row) || row == last)) by {
            if fewer.contains(row) {
                let i = choose|i: int| 0 <= i < fewer.len() && fewer[i] == row;
                assert(rows[i] == row);
            }
            if row == last {
                assert(rows[rows.len() - 1] == row);
            }
        }
        if is_live(last, now_us) {
            assert(all.contains(row) == (before.contains(row) || row == last)) by {
                if before.contains(row) {
                    let i = choose|i: int| 0 <= i < before.len() && before[i] == row;
                    assert(all[i] == row);
                }
                if row == last {
                    assert(all[all.len() - 1] == row);
                }
            }
        }
    }
}

/// What is loaded of a pool are its rows with a value whose time has not run out, all
/// of them where the pool is within its limit, the last seen first.
pub proof fn loading_takes_the_live_rows(rows: Seq<RowView>, now_us: int, row: RowView)
    ensures
        loaded(rows, now_us).contains(row) ==> rows.contains(row) && row.value is Some
            && row.expires_at * 1_000_000 > now_us,
        rows.len() <= 256 && rows.contains(row) && row.value is Some && row.expires_at * 1_000_000
            > now_us ==> loaded(rows, now_us).contains(row),
        loaded(rows, now_us).len() <= 256,
        forall|i: int, j: int|
            0 <= i < j < loaded(rows, now_us).len() ==> (#[trigger] loaded(
                rows,
                now_us,
            )[i]).observed_at >= (#[trigger] loaded(rows, now_us)[j]).observed_at,
{
    let live = live_rows(rows, now_us);
    live_rows_are_live(rows, now_us, row);
    newest_first_orders_the_rows(live);
    ordered_rows_are_the_rows(live, row);
    let all = newest_first(live);
    if loaded(rows, now_us).contains(row) {
        let i = choose|i: int| 0 <= i < loaded(rows, now_us).len() && loaded(rows, now_us)[i] == row;
        assert(all[i] == row);
    }
}

/// A row of a cookie says what the cookie says.
pub proof fn a_row_says_what_its_cookie_says(
    cookie: RoutingCookie,
    model: Seq<char>,
    observed_at: int,
)
    ensures
        ({
            let row = row_of_cookie(cookie, model, observed_at);
            &&& row.origin == cookie.origin@ && row.pod == cookie.pod@ && row.name == cookie.name@
            &&& row.value == Some(cookie.value@) && row.issued_at == cookie.issued_at
            &&& row.expires_at == cookie.expires_at && row.observed_at == observed_at
            &&& row.reported_model == model
        }),
{
}

/// A row can be used as long as it has a value and its time has not run out.
pub proof fn a_row_lives_until_it_expires(row: RowView, now_us: int)
    ensures
        is_live(row, now_us) == (row.value is Some && row.expires_at * 1_000_000 > now_us),
{
}

/// Cleaning leaves a row that has not expired, takes the value of one that has, and
/// drops one that expired more than an hour ago; there is nothing else in the pool
/// afterwards.
pub proof fn cleaning_goes_by_expiry(rows: Seq<RowView>, now_us: int, row: RowView)
    ensures
        rows.contains(row) && row.expires_at * 1_000_000 > now_us ==> cleaned(
            rows,
            now_us,
        ).contains(row),
        rows.contains(row) && now_us - 3_600_000_000 <= row.expires_at * 1_000_000 <= now_us
            ==> cleaned(rows, now_us).contains((RowView { value: None, ..row })),
        cleaned(rows, now_us).contains(row) ==> row.expires_at * 1_000_000 >= now_us
            - 3_600_000_000 && (row.value is Some ==> rows.contains(row) && row.expires_at
            * 1_000_000 > now_us),
        cleaned(rows, now_us).len() <= rows.len(),
    decreases rows.len(),
{
    if rows.len() > 0 {
        let fewer = rows.drop_last();
        let last = rows.last();
        let all = cleaned(rows, now_us);
        let before = cleaned(fewer, now_us);
        cleaning_goes_by_expiry(fewer, now_us, row);
        assert(rows =~= fewer.push(last));
        if fewer.contains(row) {
            let i = choose|i: int| 0 <= i < fewer.len() && fewer[i] == row;
            assert(rows[i] == row);
        }
        assert(rows.contains(row) ==> fewer.contains(row) || row == last);
        assert forall|other: RowView| before.contains(other) implies #[trigger] all.contains(
            other,
        ) by {
            let i = choose|i: int| 0 <= i < before.len() && before[i] == other;
            assert(all[i] == other);
        }
        assert(before.contains((RowView { value: None, ..row })) ==> all.contains(
            (RowView { value: None, ..row }),
        ));
        if all.len() > before.len() {
            assert(all[all.len() - 1] == all.last());
            assert(all.contains(all.last()));
            assert(all.contains(row) ==> before.contains(row) || row == all.last());
            assert(row == last ==> rows[rows.len() - 1] == row);
        }
    }
}

/// A cookie that is put back stands in the row of its host as it is, seen now, and
/// the rows of other hosts stay.
pub proof fn a_restored_cookie_stands_as_it_is(
    rows: Seq<RowView>,
    cookie: RoutingCookie,
    now_ms: int,
)
    requires
        rows_differ(rows),
        cookie.origin@.len() > 0,
    ensures
        ({
            let after = restored(rows, cookie, now_ms);
            &&& rows.len() <= after.len() <= rows.len() + 1
            &&& exists|i: int|
                {
                    &&& 0 <= i < after.len()
                    &&& (#[trigger] after[i]).origin == cookie.origin@ && after[i].pod == cookie.pod@
                    &&& after[i].name == cookie.name@ && after[i].value == Some(cookie.value@)
                    &&& after[i].issued_at == cookie.issued_at
                    &&& after[i].expires_at == cookie.expires_at
                    &&& after[i].observed_at == now_ms
                    &&& after[i].reported_model == cookie.reported_model@
                }
            &&& forall|j: int|
                0 <= j < rows.len() && (rows[j].origin != cookie.origin@ || rows[j].pod
                    != cookie.pod@) ==> #[trigger] after[j] == rows[j]
        }),
{
    let after = restored(rows, cookie, now_ms);
    if exists|i: int|
        0 <= i < rows.len() && is_row_of(
            #[trigger] rows[i],
            cookie.origin@,
            cookie.pod@,
        ) {
        let i = choose|i: int|
            0 <= i < rows.len() && is_row_of(
                #[trigger] rows[i],
                cookie.origin@,
                cookie.pod@,
            );
        assert(after[i].origin == cookie.origin@);
    } else {
        assert(after[rows.len() as int].origin == cookie.origin@);
    }
}

/// A cookie without an endpoint is put back under that of the row seen last, and
/// stays out of an empty pool.
pub proof fn a_cookie_without_an_endpoint_takes_the_last_one(
    rows: Seq<RowView>,
    cookie: RoutingCookie,
    now_ms: int,
    at: int,
)
    requires
        cookie.origin@.len() == 0,
    ensures
        rows.len() == 0 ==> restored(rows, cookie, now_ms) == rows,
        0 <= at < rows.len() && rows[at].origin.len() > 0 && (forall|j: int|
            0 <= j < rows.len() && j != at ==> (#[trigger] rows[j]).observed_at
                < rows[at].observed_at) ==> exists|i: int|
            0 <= i < restored(rows, cookie, now_ms).len() && (#[trigger] restored(
                rows,
                cookie,
                now_ms,
            )[i]).origin == rows[at].origin && restored(rows, cookie, now_ms)[i].pod == cookie.pod@
                && restored(rows, cookie, now_ms)[i].value == Some(cookie.value@),
{
    if 0 <= at < rows.len() && rows[at].origin.len() > 0 && (forall|j: int|
        0 <= j < rows.len() && j != at ==> (#[trigger] rows[j]).observed_at
            < rows[at].observed_at) {
        newest_first_orders_the_rows(rows);
        let all = newest_first(rows);
        ordered_rows_are_the_rows(rows, all[0]);
        ordered_rows_are_the_rows(rows, rows[at]);
        assert(all.contains(all[0]));
        assert(rows.contains(rows[at]));
        let k = choose|k: int| 0 <= k < rows.len() && rows[k] == all[0];
        let m = choose|m: int| 0 <= m < all.len() && all[m] == rows[at];
        assert(all[0].observed_at >= all[m].observed_at);
        assert(k == at);
        let origin = rows[at].origin;
        let after = restored(rows, cookie, now_ms);
        if exists|i: int|
            0 <= i < rows.len() && is_row_of(
                #[trigger] rows[i],
                origin,
                cookie.pod@,
            ) {
            let i = choose|i: int|
                0 <= i < rows.len() && is_row_of(
                    #[trigger] rows[i],
                    origin,
                    cookie.pod@,
                );
            assert(after[i].origin == origin);
        } else {
            assert(after[rows.len() as int].origin == origin);
        }
    }
}

} // verus!
