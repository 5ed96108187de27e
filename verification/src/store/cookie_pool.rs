//! The pool of routing cookies, shared by all accounts: one row for each host of
//! an endpoint.

use crate::account::cookie_lock::{RoutingCookie, RoutingCookieObservation};
use crate::text::{
    byte_len, byte_length, clone_optional, optional_text, same_text,
};
use crate::store::pool_laws::a_later_exchange_renews_its_row;
use vstd::prelude::*;

verus! {

/// How many rows the pool has at most.
pub const POOL_LIMIT: usize = 256;

/// A row of the pool. A cookie that was taken away, or has expired, leaves its row
/// without the value. `observed_at` is when the request began that the row was
/// last learnt from, in milliseconds.
pub struct PoolRow {
    pub origin: String,
    pub pod: String,
    pub name: String,
    pub value: Option<String>,
    pub issued_at: i64,
    pub expires_at: i64,
    pub observed_at: i64,
    pub reported_model: String,
}

pub struct RowView {
    pub origin: Seq<char>,
    pub pod: Seq<char>,
    pub name: Seq<char>,
    pub value: Option<Seq<char>>,
    pub issued_at: int,
    pub expires_at: int,
    pub observed_at: int,
    pub reported_model: Seq<char>,
}

impl View for PoolRow {
    type V = RowView;

    open spec fn view(&self) -> RowView {
        RowView {
            origin: self.origin@,
            pod: self.pod@,
            name: self.name@,
            value: optional_text(self.value),
            issued_at: self.issued_at as int,
            expires_at: self.expires_at as int,
            observed_at: self.observed_at as int,
            reported_model: self.reported_model@,
        }
    }
}

impl Clone for PoolRow {
    fn clone(&self) -> (r: PoolRow)
        ensures
            r == *self,
    {
        PoolRow {
            origin: self.origin.clone(),
            pod: self.pod.clone(),
            name: self.name.clone(),
            value: clone_optional(&self.value),
            issued_at: self.issued_at,
            expires_at: self.expires_at,
            observed_at: self.observed_at,
            reported_model: self.reported_model.clone(),
        }
    }
}

pub open spec fn row_views(rows: Seq<PoolRow>) -> Seq<RowView> {
    rows.map_values(|row: PoolRow| row@)
}

pub open spec fn is_row_of(row: RowView, origin: Seq<char>, pod: Seq<char>) -> bool {
    row.origin == origin && row.pod == pod
}

/// No two rows are for the same host of the same endpoint.
pub open spec fn rows_differ(rows: Seq<RowView>) -> bool {
    forall|i: int, j: int|
        0 <= i < j < rows.len() ==> !is_row_of(
            #[trigger] rows[i],
            (#[trigger] rows[j]).origin,
            rows[j].pod,
        )
}

/// A row put where it belongs among rows with the last seen first; of rows seen
/// at the same time the earlier one stays before it.
pub open spec fn placed(rows: Seq<RowView>, row: RowView) -> Seq<RowView>
    decreases rows.len(),
{
    if rows.len() == 0 {
        seq![row]
    } else if row.observed_at > rows[0].observed_at {
        seq![row] + rows
    } else {
        seq![rows[0]] + placed(rows.drop_first(), row)
    }
}

/// The rows with the last seen first.
pub open spec fn newest_first(rows: Seq<RowView>) -> Seq<RowView>
    decreases rows.len(),
{
    if rows.len() == 0 {
        Seq::empty()
    } else {
        placed(newest_first(rows.drop_last()), rows.last())
    }
}

/// The pool within its limit: where there are too many rows, those not seen for
/// the longest time leave.
pub open spec fn trimmed_pool(rows: Seq<RowView>) -> Seq<RowView> {
    if rows.len() <= POOL_LIMIT {
        rows
    } else {
        newest_first(rows).take(POOL_LIMIT as int)
    }
}

/// A row that an exchange took away: it keeps its place, without value and model.
pub open spec fn revoked(row: RowView, origin: Seq<char>, pod: Seq<char>, time: int) -> RowView {
    if is_row_of(row, origin, pod) && row.observed_at <= time {
        RowView { value: None, reported_model: Seq::empty(), observed_at: time, ..row }
    } else {
        row
    }
}

pub open spec fn revoke_rows(
    rows: Seq<RowView>,
    origin: Seq<char>,
    pod: Seq<char>,
    time: int,
) -> Seq<RowView> {
    rows.map_values(|row: RowView| revoked(row, origin, pod, time))
}

/// The row is older news than what comes in, or news of the same request that
/// does not undo a revocation.
pub open spec fn gives_way(row: RowView, fresh: RowView) -> bool {
    ||| row.observed_at < fresh.observed_at
    ||| row.observed_at == fresh.observed_at && row.value is Some && fresh.reported_model.len() > 0
}

/// A row with what comes in. The cookie that was issued last counts, and two
/// models named for one request leave none.
pub open spec fn merged(row: RowView, fresh: RowView) -> RowView {
    if !gives_way(row, fresh) {
        row
    } else {
        let later = fresh.issued_at >= row.issued_at;
        RowView {
            origin: row.origin,
            pod: row.pod,
            name: if later {
                fresh.name
            } else {
                row.name
            },
            value: if later {
                fresh.value
            } else {
                row.value
            },
            issued_at: if later {
                fresh.issued_at
            } else {
                row.issued_at
            },
            expires_at: if later {
                fresh.expires_at
            } else {
                row.expires_at
            },
            observed_at: fresh.observed_at,
            reported_model: if row.observed_at == fresh.observed_at && row.reported_model
                != fresh.reported_model {
                Seq::empty()
            } else {
                fresh.reported_model
            },
        }
    }
}

pub open spec fn has_row(rows: Seq<RowView>, origin: Seq<char>, pod: Seq<char>) -> bool {
    exists|i: int| 0 <= i < rows.len() && is_row_of(#[trigger] rows[i], origin, pod)
}

pub open spec fn merge_row(rows: Seq<RowView>, fresh: RowView) -> Seq<RowView> {
    if has_row(rows, fresh.origin, fresh.pod) {
        rows.map_values(
            |row: RowView|
                if is_row_of(row, fresh.origin, fresh.pod) {
                    merged(row, fresh)
                } else {
                    row
                },
        )
    } else {
        rows.push(fresh)
    }
}

/// The cookie that was sent is not good any more: the upstream took it away, or
/// gave another host.
pub open spec fn takes_away(observation: RoutingCookieObservation) -> bool {
    observation.sent is Some && (observation.deleted || (observation.received is Some
        && observation.received->0.pod@ != observation.sent->0.pod@))
}

pub open spec fn named_model(observation: RoutingCookieObservation) -> Option<Seq<char>> {
    match observation.reported_model {
        Some(model) if model@.len() > 0 && byte_len(model@) <= 256 => Some(model@),
        _ => None,
    }
}

pub open spec fn shown_cookie(observation: RoutingCookieObservation) -> Option<RoutingCookie> {
    if observation.deleted {
        None
    } else if observation.received is Some {
        observation.received
    } else {
        observation.sent
    }
}

pub open spec fn row_of_cookie(
    cookie: RoutingCookie,
    model: Seq<char>,
    observed_at: int,
) -> RowView {
    RowView {
        origin: cookie.origin@,
        pod: cookie.pod@,
        name: cookie.name@,
        value: Some(cookie.value@),
        issued_at: cookie.issued_at as int,
        expires_at: cookie.expires_at as int,
        observed_at,
        reported_model: model,
    }
}

/// The row that an exchange adds or renews, if it does.
pub open spec fn fresh_row(observation: RoutingCookieObservation, now: int) -> Option<RowView> {
    match (shown_cookie(observation), named_model(observation)) {
        (Some(cookie), Some(model)) => if cookie.origin@ == observation.origin@
            && cookie.expires_at > now {
            Some(row_of_cookie(cookie, model, observation.observed_at as int))
        } else {
            None
        },
        _ => None,
    }
}

/// The pool after an exchange.
pub open spec fn recorded(
    rows: Seq<RowView>,
    observation: RoutingCookieObservation,
    now: int,
) -> Seq<RowView> {
    let after_loss = if takes_away(observation) {
        revoke_rows(
            rows,
            observation.origin@,
            observation.sent->0.pod@,
            observation.observed_at as int,
        )
    } else {
        rows
    };
    let after_news = match fresh_row(observation, now) {
        Some(fresh) => merge_row(after_loss, fresh),
        None => after_loss,
    };
    trimmed_pool(after_news)
}

fn is_row(row: &PoolRow, origin: &str, pod: &str) -> (r: bool)
    ensures
        r == is_row_of(row@, origin@, pod@),
{
    same_text(row.origin.as_str(), origin) && same_text(row.pod.as_str(), pod)
}

proof fn placed_between(rows: Seq<RowView>, row: RowView, at: int)
    requires
        0 <= at <= rows.len(),
        forall|j: int| 0 <= j < at ==> row.observed_at <= (#[trigger] rows[j]).observed_at,
        at < rows.len() ==> row.observed_at > rows[at].observed_at,
    ensures
        placed(rows, row) == rows.insert(at, row),
    decreases rows.len(),
{
    if rows.len() == 0 {
        assert(rows.insert(at, row) =~= seq![row]);
    } else if at == 0 {
        assert(rows.insert(at, row) =~= seq![row] + rows);
    } else {
        let rest = rows.drop_first();
        assert forall|j: int| 0 <= j < at - 1 implies row.observed_at <= (
        #[trigger] rest[j]).observed_at by {
            assert(rest[j] == rows[j + 1]);
        }
        placed_between(rest, row, at - 1);
        assert(rows[0].observed_at >= row.observed_at);
        assert(rows.insert(at, row) =~= seq![rows[0]] + rest.insert(at - 1, row));
    }
}

fn sort_rows(rows: &Vec<PoolRow>) -> (r: Vec<PoolRow>)
    ensures
        row_views(r@) == newest_first(row_views(rows@)),
{
    let ghost all = row_views(rows@);
    let mut r: Vec<PoolRow> = Vec::new();
    let mut i: usize = 0;
    proof {
        assert(all.take(0) =~= Seq::empty());
        assert(row_views(r@) =~= Seq::empty());
    }
    while i < rows.len()
        invariant
            i <= rows@.len(),
            all == row_views(rows@),
            row_views(r@) == newest_first(all.take(i as int)),
        decreases rows@.len() - i,
    {
        let ghost before = row_views(r@);
        let mut at: usize = 0;
        while at < r.len() && rows[i].observed_at <= r[at].observed_at
            invariant
                i < rows@.len(),
                at <= r@.len(),
                before == row_views(r@),
                forall|j: int|
                    0 <= j < at ==> rows@[i as int].observed_at <= (
                    #[trigger] before[j]).observed_at,
            decreases r@.len() - at,
        {
            assert(before[at as int] == r@[at as int]@);
            at += 1;
        }
        proof {
            if at < r@.len() {
                assert(before[at as int] == r@[at as int]@);
            }
            placed_between(before, rows@[i as int]@, at as int);
            assert(all.take(i + 1).drop_last() =~= all.take(i as int));
            assert(all.take(i + 1).last() == rows@[i as int]@);
        }
        r.insert(at, rows[i].clone());
        proof {
            assert(row_views(r@) =~= before.insert(at as int, rows@[i as int]@));
        }
        i += 1;
    }
    proof {
        assert(all.take(rows@.len() as int) =~= all);
    }
    r
}

proof fn placing_keeps_rows(rows: Seq<RowView>, row: RowView)
    ensures
        placed(rows, row).len() == rows.len() + 1,
        placed(rows, row).to_multiset() == rows.to_multiset().insert(row),
    decreases rows.len(),
{
    broadcast use vstd::multiset::group_multiset_axioms;
    broadcast use vstd::seq_lib::group_to_multiset_ensures;

    if rows.len() == 0 {
        assert(seq![row] =~= rows.push(row));
    } else if row.observed_at > rows[0].observed_at {
        vstd::seq_lib::lemma_multiset_commutative(seq![row], rows);
        assert(seq![row] =~= Seq::empty().push(row));
        Seq::<RowView>::empty().to_multiset_ensures();
        assert((seq![row] + rows).to_multiset() =~= rows.to_multiset().insert(row));
    } else {
        let rest = rows.drop_first();
        placing_keeps_rows(rest, row);
        let all = seq![rows[0]] + placed(rest, row);
        vstd::seq_lib::lemma_multiset_commutative(seq![rows[0]], placed(rest, row));
        vstd::seq_lib::lemma_multiset_commutative(seq![rows[0]], rest);
        assert(rows =~= seq![rows[0]] + rest);
        assert(all.to_multiset() =~= rows.to_multiset().insert(row));
    }
}

/// Ordering rows keeps them all, and no row stands behind one seen before it.
pub proof fn newest_first_orders_the_rows(rows: Seq<RowView>)
    ensures
        newest_first(rows).len() == rows.len(),
        newest_first(rows).to_multiset() == rows.to_multiset(),
        forall|i: int, j: int|
            0 <= i < j < rows.len() ==> (#[trigger] newest_first(rows)[i]).observed_at >= (
            #[trigger] newest_first(rows)[j]).observed_at,
    decreases rows.len(),
{
    broadcast use vstd::multiset::group_multiset_axioms;
    broadcast use vstd::seq_lib::group_to_multiset_ensures;

    if rows.len() > 0 {
        newest_first_orders_the_rows(rows.drop_last());
        let before = newest_first(rows.drop_last());
        placing_keeps_rows(before, rows.last());
        placing_keeps_order(before, rows.last());
        assert(rows.drop_last().push(rows.last()) =~= rows);
        rows.drop_last().to_multiset_ensures();
    }
}

proof fn placing_keeps_order(rows: Seq<RowView>, row: RowView)
    requires
        forall|i: int, j: int|
            0 <= i < j < rows.len() ==> (#[trigger] rows[i]).observed_at >= (
            #[trigger] rows[j]).observed_at,
    ensures
        forall|i: int, j: int|
            0 <= i < j < placed(rows, row).len() ==> (#[trigger] placed(rows, row)[i]).observed_at
                >= (#[trigger] placed(rows, row)[j]).observed_at,
        forall|i: int|
            0 <= i < placed(rows, row).len() ==> (#[trigger] placed(rows, row)[i]).observed_at
                <= row.observed_at || (rows.len() > 0 && placed(rows, row)[i].observed_at
                <= rows[0].observed_at),
    decreases rows.len(),
{
    if rows.len() > 0 && row.observed_at <= rows[0].observed_at {
        let rest = rows.drop_first();
        assert forall|i: int, j: int| 0 <= i < j < rest.len() implies (
        #[trigger] rest[i]).observed_at >= (#[trigger] rest[j]).observed_at by {
            assert(rest[i] == rows[i + 1] && rest[j] == rows[j + 1]);
        }
        placing_keeps_order(rest, row);
        let inner = placed(rest, row);
        let all = placed(rows, row);
        assert(all == seq![rows[0]] + inner);
        assert forall|i: int| 0 <= i < inner.len() implies (#[trigger] inner[i]).observed_at
            <= rows[0].observed_at by {
            if rest.len() > 0 {
                assert(rest[0] == rows[1]);
            }
        }
        assert forall|i: int, j: int| 0 <= i < j < all.len() implies (#[trigger] all[i]).observed_at
            >= (#[trigger] all[j]).observed_at by {
            assert(all[j] == inner[j - 1]);
            if i > 0 {
                assert(all[i] == inner[i - 1]);
            }
        }
        assert forall|i: int| 0 <= i < all.len() implies (#[trigger] all[i]).observed_at
            <= rows[0].observed_at by {
            if i > 0 {
                assert(all[i] == inner[i - 1]);
            }
        }
    }
}

/// The pool of routing cookies.
pub struct CookiePool {
    pub rows: Vec<PoolRow>,
}

impl View for CookiePool {
    type V = Seq<RowView>;

    open spec fn view(&self) -> Seq<RowView> {
        row_views(self.rows@)
    }
}

/// A row has a value and has not expired. `now_us` is in microseconds.
pub open spec fn is_live(row: RowView, now_us: int) -> bool {
    row.value is Some && row.expires_at * 1_000_000 > now_us
}

pub open spec fn live_rows(rows: Seq<RowView>, now_us: int) -> Seq<RowView>
    decreases rows.len(),
{
    if rows.len() == 0 {
        Seq::empty()
    } else {
        let before = live_rows(rows.drop_last(), now_us);
        if is_live(rows.last(), now_us) {
            before.push(rows.last())
        } else {
            before
        }
    }
}

/// The rows that can be used, the last seen first, within the limit.
pub open spec fn loaded(rows: Seq<RowView>, now_us: int) -> Seq<RowView> {
    let live = newest_first(live_rows(rows, now_us));
    if live.len() <= POOL_LIMIT {
        live
    } else {
        live.take(POOL_LIMIT as int)
    }
}

/// The pool without what has expired: first the values go, an hour later the rows.
pub open spec fn cleaned(rows: Seq<RowView>, now_us: int) -> Seq<RowView>
    decreases rows.len(),
{
    if rows.len() == 0 {
        Seq::empty()
    } else {
        let before = cleaned(rows.drop_last(), now_us);
        let row = rows.last();
        if row.expires_at * 1_000_000 < now_us - 3_600_000_000 {
            before
        } else if row.expires_at * 1_000_000 <= now_us {
            before.push(RowView { value: None, ..row })
        } else {
            before.push(row)
        }
    }
}

/// The endpoint that a cookie is put back under: its own, or where it names none
/// that of the row seen last.
pub open spec fn origin_for(rows: Seq<RowView>, cookie: RoutingCookie) -> Seq<char> {
    if cookie.origin@.len() > 0 {
        cookie.origin@
    } else if rows.len() > 0 {
        newest_first(rows)[0].origin
    } else {
        Seq::empty()
    }
}

/// The pool with a cookie put back, whatever its row held. A cookie for which no
/// endpoint is known stays out.
pub open spec fn restored(rows: Seq<RowView>, cookie: RoutingCookie, now_ms: int) -> Seq<RowView> {
    let origin = origin_for(rows, cookie);
    let fresh = RowView { origin, ..row_of_cookie(cookie, cookie.reported_model@, now_ms) };
    if origin.len() == 0 {
        rows
    } else if has_row(rows, origin, cookie.pod@) {
        rows.map_values(
            |row: RowView|
                if is_row_of(row, origin, cookie.pod@) {
                    fresh
                } else {
                    row
                },
        )
    } else {
        rows.push(fresh)
    }
}

fn cookie_of_row(row: &PoolRow) -> (r: Option<RoutingCookie>)
    ensures
        match r {
            Some(cookie) => row@.value is Some && row_of_cookie(
                cookie,
                cookie.reported_model@,
                cookie.observed_at as int,
            ) == row@,
            None => row@.value is None,
        },
{
    match &row.value {
        Some(value) => Some(
            RoutingCookie {
                origin: row.origin.clone(),
                pod: row.pod.clone(),
                name: row.name.clone(),
                value: value.clone(),
                issued_at: row.issued_at,
                expires_at: row.expires_at,
                observed_at: row.observed_at,
                reported_model: row.reported_model.clone(),
            },
        ),
        None => None,
    }
}

pub open spec fn cookie_rows(cookies: Seq<RoutingCookie>) -> Seq<RowView> {
    cookies.map_values(
        |cookie: RoutingCookie|
            row_of_cookie(cookie, cookie.reported_model@, cookie.observed_at as int),
    )
}

impl CookiePool {
    pub fn new() -> (r: CookiePool)
        ensures
            r@ == Seq::<RowView>::empty(),
    {
        let r = CookiePool { rows: Vec::new() };
        assert(r@ =~= Seq::empty());
        r
    }

    /// A pool of rows that are all for different hosts, or nothing if they are not.
    #[verifier::loop_isolation(false)]
    pub fn from_rows(rows: Vec<PoolRow>) -> (r: Option<CookiePool>)
        ensures
            match r {
                Some(pool) => pool.rows == rows && rows_differ(pool@),
                None => !rows_differ(row_views(rows@)),
            },
    {
        let ghost all = row_views(rows@);
        let mut i: usize = 0;
        while i < rows.len()
            invariant
                i <= rows@.len(),
                all == row_views(rows@),
                forall|a: int, b: int|
                    0 <= a < b < i ==> !is_row_of(
                        #[trigger] all[a],
                        (#[trigger] all[b]).origin,
                        all[b].pod,
                    ),
            decreases rows@.len() - i,
        {
            let mut j: usize = 0;
            while j < i
                invariant
                    j <= i < rows@.len(),
                    all == row_views(rows@),
                    forall|a: int|
                        0 <= a < j ==> !is_row_of(
                            #[trigger] all[a],
                            all[i as int].origin,
                            all[i as int].pod,
                        ),
                decreases i - j,
            {
                assert(all[j as int] == rows@[j as int]@);
                assert(all[i as int] == rows@[i as int]@);
                if is_row(&rows[j], rows[i].origin.as_str(), rows[i].pod.as_str()) {
                    return None;
                }
                j += 1;
            }
            i += 1;
        }
        Some(CookiePool { rows })
    }

    fn position(&self, origin: &str, pod: &str) -> (r: Option<usize>)
        ensures
            match r {
                Some(i) => i < self@.len() && is_row_of(self@[i as int], origin@, pod@),
                None => !has_row(self@, origin@, pod@),
            },
    {
        let mut i: usize = 0;
        while i < self.rows.len()
            invariant
                i <= self.rows@.len(),
                forall|j: int| 0 <= j < i ==> !is_row_of(#[trigger] self@[j], origin@, pod@),
            decreases self.rows@.len() - i,
        {
            assert(self@[i as int] == self.rows@[i as int]@);
            if is_row(&self.rows[i], origin, pod) {
                return Some(i);
            }
            i += 1;
        }
        None
    }

    fn revoke(&mut self, origin: &str, pod: &str, time: i64)
        ensures
            final(self)@ == revoke_rows(old(self)@, origin@, pod@, time as int),
    {
        let ghost start = self@;
        let mut i: usize = 0;
        while i < self.rows.len()
            invariant
                i <= self.rows@.len(),
                self.rows@.len() == start.len(),
                forall|j: int|
                    0 <= j < i ==> (#[trigger] self.rows@[j])@ == revoked(
                        start[j],
                        origin@,
                        pod@,
                        time as int,
                    ),
                forall|j: int| i <= j < start.len() ==> (#[trigger] self.rows@[j])@ == start[j],
            decreases self.rows@.len() - i,
        {
            if is_row(&self.rows[i], origin, pod) && self.rows[i].observed_at <= time {
                let mut row = self.rows[i].clone();
                row.value = None;
                row.reported_model = String::new();
                row.observed_at = time;
                assert(row@.reported_model =~= Seq::empty());
                self.rows.set(i, row);
            }
            i += 1;
        }
        assert(self@ =~= revoke_rows(start, origin@, pod@, time as int));
    }

    fn merge(&mut self, fresh: PoolRow)
        requires
            rows_differ(old(self)@),
        ensures
            final(self)@ == merge_row(old(self)@, fresh@),
    {
        let ghost start = self@;
        match self.position(fresh.origin.as_str(), fresh.pod.as_str()) {
            Some(i) => {
                let ghost new = fresh@;
                let row = self.rows[i].clone();
                assert(row@ == start[i as int]);
                let gives_way = row.observed_at < fresh.observed_at || (row.observed_at
                    == fresh.observed_at && row.value.is_some()
                    && !fresh.reported_model.as_str().is_empty());
                if gives_way {
                    let mut row = row;
                    let same_time = row.observed_at == fresh.observed_at;
                    let other_model = !same_text(
                        row.reported_model.as_str(),
                        fresh.reported_model.as_str(),
                    );
                    if fresh.issued_at >= row.issued_at {
                        row.name = fresh.name;
                        row.value = fresh.value;
                        row.issued_at = fresh.issued_at;
                        row.expires_at = fresh.expires_at;
                    }
                    row.observed_at = fresh.observed_at;
                    row.reported_model = if same_time && other_model {
                        String::new()
                    } else {
                        fresh.reported_model
                    };
                    proof {
                        assert(row@.reported_model =~= merged(start[i as int], new).reported_model);
                        assert(row@ == merged(start[i as int], new));
                    }
                    self.rows.set(i, row);
                }
                proof {
                    assert(has_row(start, new.origin, new.pod));
                    assert forall|j: int| 0 <= j < start.len() implies self@[j] == (if is_row_of(
                        start[j],
                        new.origin,
                        new.pod,
                    ) {
                        merged(start[j], new)
                    } else {
                        start[j]
                    }) by {
                        if j < i {
                            assert(!is_row_of(start[j], start[i as int].origin, start[i as int].pod));
                        } else if j > i {
                            assert(!is_row_of(start[i as int], start[j].origin, start[j].pod));
                        }
                    }
                    assert(self@ =~= merge_row(start, new));
                }
            },
            None => {
                let ghost new = fresh@;
                self.rows.push(fresh);
                assert(self@ =~= start.push(new));
            },
        }
    }

    fn trim(&mut self)
        ensures
            final(self)@ == trimmed_pool(old(self)@),
    {
        if self.rows.len() <= POOL_LIMIT {
            return ;
        }
        let ghost start = self@;
        let mut sorted = sort_rows(&self.rows);
        proof {
            newest_first_orders_the_rows(start);
        }
        let ghost whole = sorted@;
        sorted.truncate(POOL_LIMIT);
        assert(row_views(sorted@) =~= row_views(whole).take(POOL_LIMIT as int));
        self.rows = sorted;
    }

    /// Records what an exchange showed. `now` is in seconds.
    pub fn record_routing_cookie(&mut self, observation: &RoutingCookieObservation, now: i64)
        requires
            rows_differ(old(self)@),
        ensures
            final(self)@ == recorded(old(self)@, *observation, now as int),
            old(self)@.len() <= 256 && !observation.deleted && (observation.received is Some
                || observation.sent is Some) && observation.reported_model is Some && 0
                < observation.reported_model->0@.len() && byte_len(observation.reported_model->0@)
                <= 256 ==> {
                let cookie = if observation.received is Some {
                    observation.received->0
                } else {
                    observation.sent->0
                };
                forall|at: int|
                    0 <= at < old(self)@.len() && (#[trigger] old(self)@[at]).origin
                        == cookie.origin@ && old(self)@[at].pod == cookie.pod@ && cookie.origin@
                        == observation.origin@ && cookie.expires_at > now
                        && old(self)@[at].observed_at < observation.observed_at ==> {
                        let row = old(self)@[at];
                        let renewed = final(self)@[at];
                        &&& final(self)@.len() == old(self)@.len()
                        &&& renewed.origin == row.origin && renewed.pod == row.pod
                        &&& renewed.observed_at == observation.observed_at
                        &&& renewed.reported_model == observation.reported_model->0@
                        &&& cookie.issued_at >= row.issued_at ==> renewed.issued_at
                            == cookie.issued_at && renewed.expires_at == cookie.expires_at
                            && renewed.name == cookie.name@ && renewed.value == Some(cookie.value@)
                        &&& cookie.issued_at < row.issued_at ==> renewed.issued_at == row.issued_at
                            && renewed.expires_at == row.expires_at && renewed.name == row.name
                            && renewed.value == row.value
                    }
            },
    {
        let ghost start = self@;
        if let Some(sent) = &observation.sent {
            let other_pod = match &observation.received {
                Some(cookie) => !same_text(cookie.pod.as_str(), sent.pod.as_str()),
                None => false,
            };
            if observation.deleted || other_pod {
                self.revoke(
                    observation.origin.as_str(),
                    sent.pod.as_str(),
                    observation.observed_at,
                );
                proof {
                    assert forall|i: int, j: int| 0 <= i < j < self@.len() implies !is_row_of(
                        #[trigger] self@[i],
                        (#[trigger] self@[j]).origin,
                        self@[j].pod,
                    ) by {
                        assert(!is_row_of(start[i], start[j].origin, start[j].pod));
                    }
                }
            }
        }
        let shown = if observation.deleted {
            None
        } else {
            match &observation.received {
                Some(cookie) => Some(cookie),
                None => match &observation.sent {
                    Some(cookie) => Some(cookie),
                    None => None,
                },
            }
        };
        if let (Some(cookie), Some(model)) = (shown, &observation.reported_model) {
            if !model.as_str().is_empty() && byte_length(model.as_str()) <= 256 && same_text(
                cookie.origin.as_str(),
                observation.origin.as_str(),
            ) && cookie.expires_at > now {
                let fresh = PoolRow {
                    origin: cookie.origin.clone(),
                    pod: cookie.pod.clone(),
                    name: cookie.name.clone(),
                    value: Some(cookie.value.clone()),
                    issued_at: cookie.issued_at,
                    expires_at: cookie.expires_at,
                    observed_at: observation.observed_at,
                    reported_model: model.clone(),
                };
                self.merge(fresh);
            }
        }
        self.trim();
        proof {
            if start.len() <= 256 && !observation.deleted && (observation.received is Some
                || observation.sent is Some) && observation.reported_model is Some && 0
                < observation.reported_model->0@.len() && byte_len(observation.reported_model->0@)
                <= 256 {
                let cookie = if observation.received is Some {
                    observation.received->0
                } else {
                    observation.sent->0
                };
                assert forall|at: int|
                    0 <= at < start.len() && (#[trigger] start[at]).origin == cookie.origin@
                        && start[at].pod == cookie.pod@ && cookie.origin@ == observation.origin@
                        && cookie.expires_at > now && start[at].observed_at
                        < observation.observed_at implies {
                    let row = start[at];
                    let renewed = self@[at];
                    &&& self@.len() == start.len()
                    &&& renewed.origin == row.origin && renewed.pod == row.pod
                    &&& renewed.observed_at == observation.observed_at
                    &&& renewed.reported_model == observation.reported_model->0@
                    &&& cookie.issued_at >= row.issued_at ==> renewed.issued_at == cookie.issued_at
                        && renewed.expires_at == cookie.expires_at && renewed.name == cookie.name@
                        && renewed.value == Some(cookie.value@)
                    &&& cookie.issued_at < row.issued_at ==> renewed.issued_at == row.issued_at
                        && renewed.expires_at == row.expires_at && renewed.name == row.name
                        && renewed.value == row.value
                } by {
                    a_later_exchange_renews_its_row(
                        start,
                        *observation,
                        cookie,
                        observation.reported_model->0,
                        now as int,
                        at,
                    );
                }
            }
        }
    }

    /// The cookies that can be used.
    pub fn load_routing_cookies(&self, now_us: i64) -> (r: Vec<RoutingCookie>)
        ensures
            cookie_rows(r@) == loaded(self@, now_us as int),
    {
        let ghost all = self@;
        let mut live: Vec<PoolRow> = Vec::new();
        let mut i: usize = 0;
        proof {
            assert(all.take(0) =~= Seq::empty());
            assert(row_views(live@) =~= Seq::empty());
        }
        while i < self.rows.len()
            invariant
                i <= self.rows@.len(),
                all == row_views(self.rows@),
                row_views(live@) == live_rows(all.take(i as int), now_us as int),
                forall|j: int| 0 <= j < live@.len() ==> (#[trigger] live@[j])@.value is Some,
            decreases self.rows@.len() - i,
        {
            let ghost before = row_views(live@);
            proof {
                assert(all.take(i + 1).drop_last() =~= all.take(i as int));
                assert(all.take(i + 1).last() == self.rows@[i as int]@);
            }
            let row = &self.rows[i];
            if row.value.is_some() && (row.expires_at as i128) * 1_000_000 > now_us as i128 {
                live.push(row.clone());
                assert(row_views(live@) =~= before.push(row@));
            }
            i += 1;
        }
        let ghost kept = row_views(live@);
        proof {
            assert(all.take(self.rows@.len() as int) =~= all);
            newest_first_orders_the_rows(kept);
        }
        let mut sorted = sort_rows(&live);
        let ghost whole = sorted@;
        proof {
            assert forall|j: int| 0 <= j < sorted@.len() implies (
            #[trigger] sorted@[j])@.value is Some by {
                let row = row_views(sorted@)[j];
                kept.to_multiset_ensures();
                newest_first(kept).to_multiset_ensures();
                assert(newest_first(kept).contains(row));
                assert(newest_first(kept).to_multiset().count(row) > 0);
                assert(kept.to_multiset().count(row) > 0);
                assert(kept.contains(row));
                let k = choose|k: int| 0 <= k < kept.len() && kept[k] == row;
                assert(live@[k]@ == row);
            }
        }
        sorted.truncate(POOL_LIMIT);
        proof {
            assert(row_views(sorted@) =~= loaded(self@, now_us as int));
        }
        let mut r: Vec<RoutingCookie> = Vec::new();
        let mut k: usize = 0;
        while k < sorted.len()
            invariant
                k <= sorted@.len(),
                r@.len() == k,
                forall|j: int| 0 <= j < sorted@.len() ==> (#[trigger] sorted@[j])@.value is Some,
                forall|j: int|
                    0 <= j < k ==> row_of_cookie(
                        #[trigger] r@[j],
                        r@[j].reported_model@,
                        r@[j].observed_at as int,
                    ) == sorted@[j]@,
            decreases sorted@.len() - k,
        {
            assert(sorted@[k as int]@.value is Some);
            if let Some(cookie) = cookie_of_row(&sorted[k]) {
                r.push(cookie);
            }
            k += 1;
        }
        proof {
            assert(cookie_rows(r@) =~= row_views(sorted@));
        }
        r
    }

    /// Takes out what has expired.
    pub fn clean_routing_cookies(&mut self, now_us: i64)
        ensures
            final(self)@ == cleaned(old(self)@, now_us as int),
    {
        let ghost all = self@;
        let mut kept: Vec<PoolRow> = Vec::new();
        let mut i: usize = 0;
        proof {
            assert(all.take(0) =~= Seq::empty());
            assert(row_views(kept@) =~= Seq::empty());
        }
        while i < self.rows.len()
            invariant
                i <= self.rows@.len(),
                all == row_views(self.rows@),
                row_views(kept@) == cleaned(all.take(i as int), now_us as int),
            decreases self.rows@.len() - i,
        {
            let ghost before = row_views(kept@);
            proof {
                assert(all.take(i + 1).drop_last() =~= all.take(i as int));
                assert(all.take(i + 1).last() == self.rows@[i as int]@);
            }
            let expiry: i128 = (self.rows[i].expires_at as i128) * 1_000_000;
            if expiry >= now_us as i128 - 3_600_000_000 {
                let mut row = self.rows[i].clone();
                if expiry <= now_us as i128 {
                    row.value = None;
                }
                let ghost added = row@;
                kept.push(row);
                assert(row_views(kept@) =~= before.push(added));
            }
            i += 1;
        }
        proof {
            assert(all.take(self.rows@.len() as int) =~= all);
        }
        self.rows = kept;
    }

    fn origin_for_cookie(&self, cookie: &RoutingCookie) -> (r: String)
        ensures
            r@ == origin_for(self@, *cookie),
    {
        if !cookie.origin.as_str().is_empty() {
            return cookie.origin.clone();
        }
        if self.rows.len() == 0 {
            let none = String::new();
            assert(none@ =~= Seq::empty());
            return none;
        }
        let sorted = sort_rows(&self.rows);
        proof {
            newest_first_orders_the_rows(self@);
            assert(row_views(sorted@)[0] == sorted@[0]@);
        }
        sorted[0].origin.clone()
    }

    /// Puts a cookie back, to be sent again. `now_ms` is in milliseconds.
    pub fn restore_routing_cookie(&mut self, cookie: &RoutingCookie, now_ms: i64)
        requires
            rows_differ(old(self)@),
        ensures
            final(self)@ == restored(old(self)@, *cookie, now_ms as int),
    {
        let ghost start = self@;
        let origin = self.origin_for_cookie(cookie);
        if origin.as_str().is_empty() {
            return ;
        }
        let found = self.position(origin.as_str(), cookie.pod.as_str());
        let fresh = PoolRow {
            origin,
            pod: cookie.pod.clone(),
            name: cookie.name.clone(),
            value: Some(cookie.value.clone()),
            issued_at: cookie.issued_at,
            expires_at: cookie.expires_at,
            observed_at: now_ms,
            reported_model: cookie.reported_model.clone(),
        };
        let ghost new = fresh@;
        match found {
            Some(i) => {
                self.rows.set(i, fresh);
                proof {
                    assert(has_row(start, new.origin, new.pod));
                    assert forall|j: int| 0 <= j < start.len() implies self@[j] == (if is_row_of(
                        start[j],
                        new.origin,
                        new.pod,
                    ) {
                        new
                    } else {
                        start[j]
                    }) by {
                        if j < i {
                            assert(!is_row_of(start[j], start[i as int].origin, start[i as int].pod));
                        } else if j > i {
                            assert(!is_row_of(start[i as int], start[j].origin, start[j].pod));
                        }
                    }
                    assert(self@ =~= restored(start, *cookie, now_ms as int));
                }
            },
            None => {
                self.rows.push(fresh);
                assert(self@ =~= start.push(new));
            },
        }
    }

    /// The value of the cookie of a host, if it can be used: the row seen last.
    pub fn routing_cookie_value(&self, pod: &str, now_us: i64) -> (r: Option<RoutingCookie>)
        ensures
            match r {
                Some(cookie) => exists|i: int|
                    0 <= i < self@.len() && #[trigger] self@[i] == row_of_cookie(
                        cookie,
                        cookie.reported_model@,
                        cookie.observed_at as int,
                    ) && is_live(self@[i], now_us as int) && self@[i].pod == pod@ && (forall|j: int|
                        0 <= j < self@.len() && is_live(#[trigger] self@[j], now_us as int)
                            && self@[j].pod == pod@ ==> self@[j].observed_at
                            <= self@[i].observed_at),
                None => forall|j: int|
                    0 <= j < self@.len() ==> !(is_live(#[trigger] self@[j], now_us as int)
                        && self@[j].pod == pod@),
            },
    {
        let mut best: Option<usize> = None;
        let mut i: usize = 0;
        while i < self.rows.len()
            invariant
                i <= self.rows@.len(),
                match best {
                    Some(b) => b < i && is_live(self@[b as int], now_us as int)
                        && self@[b as int].pod == pod@ && (forall|j: int|
                        0 <= j < i && is_live(#[trigger] self@[j], now_us as int) && self@[j].pod
                            == pod@ ==> self@[j].observed_at <= self@[b as int].observed_at),
                    None => forall|j: int|
                        0 <= j < i ==> !(is_live(#[trigger] self@[j], now_us as int)
                            && self@[j].pod == pod@),
                },
            decreases self.rows@.len() - i,
        {
            assert(self@[i as int] == self.rows@[i as int]@);
            let row = &self.rows[i];
            if row.value.is_some() && (row.expires_at as i128) * 1_000_000 > now_us as i128
                && same_text(row.pod.as_str(), pod) {
                match best {
                    Some(b) => {
                        assert(self@[b as int] == self.rows@[b as int]@);
                        if row.observed_at > self.rows[b].observed_at {
                            best = Some(i);
                        }
                    },
                    None => {
                        best = Some(i);
                    },
                }
            }
            i += 1;
        }
        match best {
            Some(b) => {
                assert(self@[b as int] == self.rows@[b as int]@);
                cookie_of_row(&self.rows[b])
            },
            None => None,
        }
    }
}

/// An exchange leaves each host with one row, and the pool within its limit.
pub proof fn recording_keeps_the_pool_sound(
    rows: Seq<RowView>,
    observation: RoutingCookieObservation,
    now: int,
)
    requires
        rows_differ(rows),
    ensures
        rows_differ(recorded(rows, observation, now)),
        recorded(rows, observation, now).len() <= POOL_LIMIT,
{
    let after_loss = if takes_away(observation) {
        revoke_rows(
            rows,
            observation.origin@,
            observation.sent->0.pod@,
            observation.observed_at as int,
        )
    } else {
        rows
    };
    assert(rows_differ(after_loss)) by {
        assert forall|i: int, j: int| 0 <= i < j < after_loss.len() implies !is_row_of(
            #[trigger] after_loss[i],
            (#[trigger] after_loss[j]).origin,
            after_loss[j].pod,
        ) by {
            assert(!is_row_of(rows[i], rows[j].origin, rows[j].pod));
        }
    }
    let after_news = match fresh_row(observation, now) {
        Some(fresh) => merge_row(after_loss, fresh),
        None => after_loss,
    };
    assert(rows_differ(after_news)) by {
        if fresh_row(observation, now) is Some {
            let fresh = fresh_row(observation, now)->0;
            assert forall|i: int, j: int| 0 <= i < j < after_news.len() implies !is_row_of(
                #[trigger] after_news[i],
                (#[trigger] after_news[j]).origin,
                after_news[j].pod,
            ) by {
                if has_row(after_loss, fresh.origin, fresh.pod) {
                    assert(!is_row_of(after_loss[i], after_loss[j].origin, after_loss[j].pod));
                } else if j < after_loss.len() {
                    assert(!is_row_of(after_loss[i], after_loss[j].origin, after_loss[j].pod));
                } else {
                    assert(!is_row_of(after_loss[i], fresh.origin, fresh.pod));
                }
            }
        }
    }
    if after_news.len() > POOL_LIMIT {
        newest_first_orders_the_rows(after_news);
        ordering_keeps_rows_different(after_news);
    }
}

proof fn ordering_keeps_rows_different(rows: Seq<RowView>)
    requires
        rows_differ(rows),
    ensures
        rows_differ(newest_first(rows)),
        forall|k: int|
            0 <= k < newest_first(rows).len() ==> rows.contains(#[trigger] newest_first(rows)[k]),
    decreases rows.len(),
{
    if rows.len() > 0 {
        let fewer = rows.drop_last();
        let last = rows.last();
        assert forall|i: int, j: int| 0 <= i < j < fewer.len() implies !is_row_of(
            #[trigger] fewer[i],
            (#[trigger] fewer[j]).origin,
            fewer[j].pod,
        ) by {
            assert(fewer[i] == rows[i] && fewer[j] == rows[j]);
        }
        ordering_keeps_rows_different(fewer);
        let before = newest_first(fewer);
        assert forall|k: int| 0 <= k < before.len() implies !is_row_of(
            #[trigger] before[k],
            last.origin,
            last.pod,
        ) by {
            assert(fewer.contains(before[k]));
            let m = choose|m: int| 0 <= m < fewer.len() && fewer[m] == before[k];
            assert(rows[m] == fewer[m]);
            assert(!is_row_of(rows[m], rows[rows.len() - 1].origin, rows[rows.len() - 1].pod));
        }
        placing_keeps_rows_different(before, last);
        assert forall|k: int| 0 <= k < newest_first(rows).len() implies rows.contains(
            #[trigger] newest_first(rows)[k],
        ) by {
            let row = placed(before, last)[k];
            if row == last {
                assert(rows[rows.len() - 1] == last);
            } else {
                assert(before.contains(row));
                let m = choose|m: int| 0 <= m < before.len() && before[m] == row;
                assert(fewer.contains(before[m]));
                let n = choose|n: int| 0 <= n < fewer.len() && fewer[n] == row;
                assert(rows[n] == row);
            }
        }
    }
}

proof fn placing_keeps_rows_different(rows: Seq<RowView>, row: RowView)
    requires
        rows_differ(rows),
        forall|k: int| 0 <= k < rows.len() ==> !is_row_of(#[trigger] rows[k], row.origin, row.pod),
    ensures
        rows_differ(placed(rows, row)),
        forall|k: int|
            0 <= k < placed(rows, row).len() ==> #[trigger] placed(rows, row)[k] == row
                || rows.contains(placed(rows, row)[k]),
    decreases rows.len(),
{
    let all = placed(rows, row);
    if rows.len() == 0 {
    } else if row.observed_at > rows[0].observed_at {
        assert forall|i: int, j: int| 0 <= i < j < all.len() implies !is_row_of(
            #[trigger] all[i],
            (#[trigger] all[j]).origin,
            all[j].pod,
        ) by {
            assert(all[j] == rows[j - 1]);
            if i == 0 {
                assert(!is_row_of(rows[j - 1], row.origin, row.pod));
            } else {
                assert(all[i] == rows[i - 1]);
            }
        }
        assert forall|k: int| 0 <= k < all.len() implies #[trigger] all[k] == row || rows.contains(
            all[k],
        ) by {
            if k > 0 {
                assert(all[k] == rows[k - 1]);
            }
        }
    } else {
        let rest = rows.drop_first();
        assert forall|i: int, j: int| 0 <= i < j < rest.len() implies !is_row_of(
            #[trigger] rest[i],
            (#[trigger] rest[j]).origin,
            rest[j].pod,
        ) by {
            assert(rest[i] == rows[i + 1] && rest[j] == rows[j + 1]);
        }
        assert forall|k: int| 0 <= k < rest.len() implies !is_row_of(
            #[trigger] rest[k],
            row.origin,
            row.pod,
        ) by {
            assert(rest[k] == rows[k + 1]);
        }
        placing_keeps_rows_different(rest, row);
        let inner = placed(rest, row);
        assert forall|k: int| 0 <= k < inner.len() implies #[trigger] inner[k] == row
            || rows.contains(inner[k]) by {
            if inner[k] != row {
                let m = choose|m: int| 0 <= m < rest.len() && rest[m] == inner[k];
                assert(rows[m + 1] == inner[k]);
            }
        }
        assert forall|i: int, j: int| 0 <= i < j < all.len() implies !is_row_of(
            #[trigger] all[i],
            (#[trigger] all[j]).origin,
            all[j].pod,
        ) by {
            assert(all[j] == inner[j - 1]);
            if i == 0 {
                if inner[j - 1] == row {
                    assert(!is_row_of(rows[0], row.origin, row.pod));
                } else {
                    assert(rest.contains(inner[j - 1]));
                    let m = choose|m: int| 0 <= m < rest.len() && rest[m] == inner[j - 1];
                    assert(!is_row_of(rows[0], rows[m + 1].origin, rows[m + 1].pod));
                }
            } else {
                assert(all[i] == inner[i - 1]);
            }
        }
        assert forall|k: int| 0 <= k < all.len() implies #[trigger] all[k] == row || rows.contains(
            all[k],
        ) by {
            if k == 0 {
                assert(rows[0] == all[0]);
            } else {
                assert(all[k] == inner[k - 1]);
            }
        }
    }
}

/// A cookie that is put back and has not expired is found by its host.
pub proof fn a_restored_cookie_is_found(
    rows: Seq<RowView>,
    cookie: RoutingCookie,
    now_ms: int,
    now_us: int,
)
    requires
        origin_for(rows, cookie).len() > 0,
        cookie.expires_at * 1_000_000 > now_us,
    ensures
        exists|i: int|
            0 <= i < restored(rows, cookie, now_ms).len() && is_live(
                #[trigger] restored(rows, cookie, now_ms)[i],
                now_us,
            ) && restored(rows, cookie, now_ms)[i].pod == cookie.pod@ && restored(
                rows,
                cookie,
                now_ms,
            )[i].value == Some(cookie.value@),
{
    let after = restored(rows, cookie, now_ms);
    let origin = origin_for(rows, cookie);
    if has_row(rows, origin, cookie.pod@) {
        let i = choose|i: int| 0 <= i < rows.len() && is_row_of(rows[i], origin, cookie.pod@);
        assert(is_live(after[i], now_us));
    } else {
        assert(is_live(after[rows.len() as int], now_us));
    }
}

/// A late answer changes nothing: a row that was learnt from a later request
/// stays as it is, whatever the answer to an earlier one shows of its host.
pub proof fn late_answers_change_nothing(row: RowView, fresh: RowView, time: int)
    requires
        fresh.observed_at < row.observed_at,
        time < row.observed_at,
    ensures
        merged(row, fresh) == row,
        revoked(row, row.origin, row.pod, time) == row,
{
}

/// A cookie that was taken away comes back only by a later request.
pub proof fn a_revoked_cookie_needs_a_later_request(row: RowView, time: int, fresh: RowView)
    requires
        row.observed_at <= time,
        fresh.observed_at <= time,
    ensures
        revoked(row, row.origin, row.pod, time).value is None,
        merged(revoked(row, row.origin, row.pod, time), fresh) == revoked(
            row,
            row.origin,
            row.pod,
            time,
        ),
{
}

} // verus!
