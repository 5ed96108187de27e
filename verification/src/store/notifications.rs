//! Notices of installed tickets that wait to be delivered.

use crate::account::provider::ProviderAccount;
use crate::account::turn_state::{
    issue_time, TurnStateInstallation, TurnStateNotification, TurnStateToken,
};
use crate::store::ticket::{has_spent, is_spent, TicketRow};
use crate::text::{byte_len, byte_length};
use vstd::prelude::*;

verus! {

/// How often a notice is tried.
pub const ATTEMPT_LIMIT: u32 = 5;

/// How many notices are taken up at once.
pub const CLAIM_LIMIT: usize = 16;

/// The notice of the last installation of an account and a model. It does not
/// hold the ticket.
pub struct PendingNotice {
    pub issued_at: i64,
    pub installation: TurnStateInstallation,
    pub previous_installed_at: Option<i64>,
    pub next_attempt_at: i64,
    pub attempts: u32,
    pub sent_at: Option<i64>,
}

/// The notice of an installation. `earlier` are the installations before it.
pub open spec fn notice_of(
    installation: TurnStateInstallation,
    earlier: Seq<TurnStateInstallation>,
) -> PendingNotice {
    PendingNotice {
        issued_at: installation.issued_at,
        installation,
        previous_installed_at: if earlier.len() > 0 {
            Some(earlier.last().installed_at)
        } else {
            None
        },
        next_attempt_at: installation.installed_at,
        attempts: 0,
        sent_at: None,
    }
}

/// Queues the notice of an installation in place of the one before. `earlier` are
/// the installations of the row before this one, the oldest first. Without a
/// webhook there is no notice.
pub fn enqueue(
    pending: Option<PendingNotice>,
    row: &TicketRow,
    installation: &TurnStateInstallation,
    earlier: &Vec<TurnStateInstallation>,
) -> (r: Option<PendingNotice>)
    ensures
        if row.config.feishu_webhook_url@.len() == 0 {
            r == pending
        } else {
            r == Some(notice_of(*installation, earlier@))
        },
{
    if row.config.feishu_webhook_url.as_str().is_empty() {
        return pending;
    }
    let previous_installed_at = if earlier.len() > 0 {
        Some(earlier[earlier.len() - 1].installed_at)
    } else {
        None
    };
    Some(
        PendingNotice {
            issued_at: installation.issued_at,
            installation: installation.clone(),
            previous_installed_at,
            next_attempt_at: installation.installed_at,
            attempts: 0,
            sent_at: None,
        },
    )
}

/// A notice with the row and the account that it is about.
pub struct Delivery {
    pub notice: PendingNotice,
    pub row: TicketRow,
    pub account: ProviderAccount,
    pub provider_kind: String,
}

impl Delivery {
    /// The notice is due, and its ticket is still the one in use.
    pub open spec fn is_due(self, now: int) -> bool {
        &&& self.notice.sent_at is None
        &&& self.notice.attempts < ATTEMPT_LIMIT
        &&& self.notice.next_attempt_at <= now
        &&& self.row.serves(self.account, self.provider_kind@)
        &&& self.row.current_issued_at == Some(self.notice.issued_at)
        &&& self.row.current is Some
        &&& self.row.config.feishu_webhook_url@.len() > 0
        &&& !is_spent(self.notice.issued_at as int, self.row.config.ttl_seconds as int, now)
    }

    fn due(&self, now: i64) -> (r: bool)
        ensures
            r == self.is_due(now as int),
    {
        let in_use = match self.row.current_issued_at {
            Some(time) => time == self.notice.issued_at,
            None => false,
        };
        self.notice.sent_at.is_none() && self.notice.attempts < ATTEMPT_LIMIT
            && self.notice.next_attempt_at <= now && self.row.may_serve(
            &self.account,
            self.provider_kind.as_str(),
        ) && in_use && self.row.current.is_some()
            && !self.row.config.feishu_webhook_url.as_str().is_empty() && !has_spent(
            self.notice.issued_at,
            self.row.config.ttl_seconds,
            now,
        )
    }
}

/// The times at which the notices that are due were to be tried.
pub open spec fn due_times(deliveries: Seq<Delivery>, now: int) -> Seq<Option<i64>> {
    deliveries.map_values(
        |delivery: Delivery|
            if delivery.is_due(now) {
                Some(delivery.notice.next_attempt_at)
            } else {
                None
            },
    )
}

/// The place of the earliest time, the first of equal ones.
pub open spec fn earliest(times: Seq<Option<i64>>, at: int) -> bool {
    &&& 0 <= at < times.len()
    &&& times[at] is Some
    &&& forall|j: int|
        0 <= j < times.len() && (#[trigger] times[j]) is Some ==> times[at]->0 <= times[j]->0
    &&& forall|j: int|
        0 <= j < at && (#[trigger] times[j]) is Some ==> times[at]->0 < times[j]->0
}

/// Places in the order of their times: each is the earliest of those that the
/// ones before it left, and the list ends early only when none is left.
pub open spec fn is_schedule(times: Seq<Option<i64>>, places: Seq<usize>, most: nat) -> bool
    decreases places.len(),
{
    if places.len() == 0 {
        most == 0 || forall|j: int| 0 <= j < times.len() ==> (#[trigger] times[j]) is None
    } else {
        most > 0 && earliest(times, places[0] as int) && is_schedule(
            times.update(places[0] as int, None),
            places.drop_first(),
            (most - 1) as nat,
        )
    }
}

fn find_earliest(times: &Vec<Option<i64>>) -> (r: Option<usize>)
    ensures
        match r {
            Some(at) => earliest(times@, at as int),
            None => forall|j: int| 0 <= j < times@.len() ==> (#[trigger] times@[j]) is None,
        },
{
    let mut best: Option<usize> = None;
    let mut i: usize = 0;
    while i < times.len()
        invariant
            i <= times@.len(),
            match best {
                Some(at) => {
                    &&& at < i
                    &&& times@[at as int] is Some
                    &&& forall|j: int|
                        0 <= j < i && (#[trigger] times@[j]) is Some ==> times@[at as int]->0
                            <= times@[j]->0
                    &&& forall|j: int|
                        0 <= j < at && (#[trigger] times@[j]) is Some ==> times@[at as int]->0
                            < times@[j]->0
                },
                None => forall|j: int| 0 <= j < i ==> (#[trigger] times@[j]) is None,
            },
        decreases times@.len() - i,
    {
        if let Some(time) = times[i] {
            match best {
                Some(at) => if let Some(earlier) = times[at] {
                    if time < earlier {
                        best = Some(i);
                    }
                },
                None => {
                    best = Some(i);
                },
            }
        }
        i += 1;
    }
    best
}

proof fn a_schedule_grows(
    times: Seq<Option<i64>>,
    places: Seq<usize>,
    left: Seq<Option<i64>>,
    next: usize,
    most: nat,
)
    requires
        leaves(times, places, left),
        places.len() < most,
        earliest(left, next as int),
    ensures
        leaves(times, places.push(next), left.update(next as int, None)),
    decreases places.len(),
{
    if places.len() == 0 {
        assert(places.push(next).drop_first() =~= Seq::empty());
        assert(places.push(next)[0] == next);
        reveal_with_fuel(leaves, 2);
    } else {
        let rest = places.drop_first();
        a_schedule_grows(
            times.update(places[0] as int, None),
            rest,
            left,
            next,
            (most - 1) as nat,
        );
        assert(places.push(next).drop_first() =~= rest.push(next));
    }
}

/// What places taken in order leave of the times.
pub open spec fn leaves(
    times: Seq<Option<i64>>,
    places: Seq<usize>,
    left: Seq<Option<i64>>,
) -> bool
    decreases places.len(),
{
    if places.len() == 0 {
        left == times
    } else {
        earliest(times, places[0] as int) && leaves(
            times.update(places[0] as int, None),
            places.drop_first(),
            left,
        )
    }
}

proof fn what_leaves_nothing_is_a_schedule(
    times: Seq<Option<i64>>,
    places: Seq<usize>,
    left: Seq<Option<i64>>,
    most: nat,
)
    requires
        leaves(times, places, left),
        places.len() <= most,
        places.len() == most || forall|j: int| 0 <= j < left.len() ==> (#[trigger] left[j]) is None,
    ensures
        is_schedule(times, places, most),
    decreases places.len(),
{
    if places.len() > 0 {
        what_leaves_nothing_is_a_schedule(
            times.update(places[0] as int, None),
            places.drop_first(),
            left,
            (most - 1) as nat,
        );
    }
}

/// The notices to take up, in the order in which they were due.
pub fn due_notices(deliveries: &Vec<Delivery>, now: i64) -> (r: Vec<usize>)
    ensures
        is_schedule(due_times(deliveries@, now as int), r@, CLAIM_LIMIT as nat),
{
    let mut times: Vec<Option<i64>> = Vec::new();
    let mut i: usize = 0;
    while i < deliveries.len()
        invariant
            i <= deliveries@.len(),
            times@.len() == i,
            forall|j: int|
                0 <= j < i ==> #[trigger] times@[j] == due_times(deliveries@, now as int)[j],
        decreases deliveries@.len() - i,
    {
        if deliveries[i].due(now) {
            times.push(Some(deliveries[i].notice.next_attempt_at));
        } else {
            times.push(None);
        }
        i += 1;
    }
    let ghost all = due_times(deliveries@, now as int);
    assert(times@ =~= all);
    let mut r: Vec<usize> = Vec::new();
    while r.len() < CLAIM_LIMIT
        invariant
            r@.len() <= CLAIM_LIMIT,
            leaves(all, r@, times@),
            all == due_times(deliveries@, now as int),
        decreases CLAIM_LIMIT - r@.len(),
    {
        match find_earliest(&times) {
            Some(at) => {
                proof {
                    a_schedule_grows(all, r@, times@, at, CLAIM_LIMIT as nat);
                }
                times.set(at, None);
                r.push(at);
            },
            None => {
                proof {
                    what_leaves_nothing_is_a_schedule(all, r@, times@, CLAIM_LIMIT as nat);
                }
                return r;
            },
        }
    }
    proof {
        what_leaves_nothing_is_a_schedule(all, r@, times@, CLAIM_LIMIT as nat);
    }
    r
}

impl Delivery {
    /// The ticket in use is the one that the notice is about, and it is good.
    pub open spec fn can_be_told(self, now: int) -> bool {
        self.row.current is Some && {
            let value = self.row.current->0@;
            &&& self.row.config.valid()
            &&& issue_time(value) is Some && issue_time(value)->0 == self.notice.issued_at
            &&& byte_len(value) == self.row.config.target_length
            &&& 0 < self.notice.issued_at <= now
            &&& !is_spent(self.notice.issued_at as int, self.row.config.ttl_seconds as int, now)
        }
    }

    /// The notice after it was taken up.
    pub open spec fn claimed(self, now: int) -> PendingNotice {
        PendingNotice {
            attempts: (self.notice.attempts + 1) as u32,
            next_attempt_at: (now + 60) as i64,
            ..self.notice
        }
    }

    /// Takes a notice up that is due: the attempt is counted before it is made, so
    /// that a crash does not repeat it without end.
    pub fn claim(&mut self, now: i64) -> (r: Option<TurnStateNotification>)
        requires
            old(self).is_due(now as int),
            now <= i64::MAX - 60,
        ensures
            r is Some == old(self).can_be_told(now as int),
            match r {
                Some(notification) => {
                    &&& *final(self) == (Delivery {
                        notice: old(self).claimed(now as int),
                        ..*old(self)
                    })
                    &&& notification.account_id@ == old(self).row.account_id@
                    &&& notification.account_name@ == old(self).account.name@
                    &&& notification.model@ == old(self).row.model@
                    &&& notification.webhook_url@ == old(self).row.config.feishu_webhook_url@
                    &&& notification.token.value@ == old(self).row.current->0@
                    &&& notification.token.issued_at == old(self).notice.issued_at
                    &&& notification.installation == old(self).notice.installation
                    &&& notification.previous_installed_at
                        == old(self).notice.previous_installed_at
                    &&& notification.manual == old(self).row.manual_override
                },
                None => *final(self) == *old(self),
            },
    {
        let token = match &self.row.current {
            Some(value) => {
                let length: usize = byte_length(value.as_str());
                match TurnStateToken::parse(value.as_str()) {
                    Some(token) => {
                        if !self.row.config.is_valid() || token.issued_at != self.notice.issued_at
                            || length != self.row.config.target_length || !token.is_fresh(
                            now,
                            self.row.config.ttl_seconds,
                        ) {
                            return None;
                        }
                        token
                    },
                    None => {
                        return None;
                    },
                }
            },
            None => {
                return None;
            },
        };
        self.notice.attempts = self.notice.attempts + 1;
        self.notice.next_attempt_at = now + 60;
        Some(
            TurnStateNotification {
                account_id: self.row.account_id.clone(),
                account_name: self.account.name.clone(),
                model: self.row.model.clone(),
                webhook_url: self.row.config.feishu_webhook_url.clone(),
                token,
                installation: self.notice.installation.clone(),
                previous_installed_at: self.notice.previous_installed_at,
                manual: self.row.manual_override,
            },
        )
    }
}

/// Records how an attempt ended. The outcome of an attempt for an earlier ticket
/// is passed over.
pub fn finish_notification(notice: &mut PendingNotice, issued_at: i64, delivered: bool, now: i64)
    ensures
        *final(notice) == (PendingNotice {
            sent_at: if delivered && old(notice).issued_at == issued_at {
                Some(now)
            } else {
                old(notice).sent_at
            },
            ..*old(notice)
        }),
{
    if delivered && notice.issued_at == issued_at {
        notice.sent_at = Some(now);
    }
}

/// A notice is tried no more than five times, and not again once it was delivered.
pub proof fn attempts_are_bounded(delivery: Delivery, now: int)
    requires
        delivery.notice.attempts >= ATTEMPT_LIMIT || delivery.notice.sent_at is Some,
    ensures
        !delivery.is_due(now),
{
}

/// A notice is due only while its ticket is the one in use, and its account is
/// enabled and still has the identity that the ticket was obtained under.
pub proof fn a_notice_follows_its_ticket(delivery: Delivery, now: int)
    requires
        delivery.is_due(now),
    ensures
        !(Delivery { row: delivery.row.without_ticket(), ..delivery }).is_due(now),
        forall|time: i64|
            time != delivery.notice.issued_at ==> !(#[trigger] (Delivery {
                row: TicketRow { current_issued_at: Some(time), ..delivery.row },
                ..delivery
            }).is_due(now)),
        forall|account: ProviderAccount|
            !account.enabled || !delivery.row.is_of(
                account.upstream_account_id,
                account.upstream_user_id,
            ) ==> !(#[trigger] (Delivery { account, ..delivery }).is_due(now)),
{
}

/// When an administrator brings the candidate into use and a webhook is set, the
/// notice of it can be taken up at once: it tells this ticket, as one that was
/// applied by hand. The candidate is a ticket of the target length that was issued
/// when the row says: no other is taken as one.
pub proof fn an_applied_ticket_is_announced(
    row: TicketRow,
    account: ProviderAccount,
    provider_kind: String,
    installation: TurnStateInstallation,
    earlier: Seq<TurnStateInstallation>,
    now: i64,
)
    requires
        row.candidate is Some,
        row.config.valid(),
        row.config.feishu_webhook_url@.len() > 0,
        row.installs(account, provider_kind@, Some(row.candidate->0.issued_at), now as int),
        byte_len(row.candidate->0.value@) == row.config.target_length,
        issue_time(row.candidate->0.value@) == Some(row.candidate->0.issued_at as nat),
        row.candidate->0.issued_at > 0,
        installation.installed_at == now,
        installation.issued_at == row.candidate->0.issued_at,
    ensures
        ({
            let held = row.candidate->0;
            let delivery = Delivery {
                notice: notice_of(installation, earlier),
                row: row.with_ticket(held.value, held.issued_at, held.reported_model, true),
                account,
                provider_kind,
            };
            &&& delivery.is_due(now as int)
            &&& delivery.can_be_told(now as int)
            &&& delivery.row.current == Some(held.value)
            &&& delivery.row.manual_override
        }),
{
}

/// The notice of one installation was taken up at these times: each time it was
/// due, and in between nothing but the taking up changed it. The row and the
/// account may have changed.
pub open spec fn was_taken_up(deliveries: Seq<Delivery>, times: Seq<i64>) -> bool {
    &&& deliveries.len() == times.len()
    &&& forall|i: int|
        0 <= i < times.len() ==> (#[trigger] deliveries[i]).is_due(times[i] as int) && times[i]
            <= i64::MAX - 60
    &&& forall|i: int|
        0 <= i < times.len() - 1 ==> (#[trigger] deliveries[i + 1]).notice
            == deliveries[i].claimed(times[i] as int)
}

/// The notice of one installation is taken up no more than five times in all, and
/// there is at least a minute between one time and the next, so that of two
/// callers at the same time one at most gets it.
pub proof fn claims_are_few_and_apart(
    deliveries: Seq<Delivery>,
    times: Seq<i64>,
    i: int,
    now: int,
)
    requires
        was_taken_up(deliveries, times),
        0 <= i < times.len(),
    ensures
        times.len() <= ATTEMPT_LIMIT,
        i + 1 < times.len() ==> times[i] + 60 <= times[i + 1],
        now < times[i] + 60 ==> !(Delivery {
            notice: deliveries[i].claimed(times[i] as int),
            ..deliveries[i]
        }).is_due(now),
{
    attempts_are_counted(deliveries, times, times.len() - 1);
    assert(deliveries[i].is_due(times[i] as int));
    if i + 1 < times.len() {
        assert(deliveries[i + 1].notice == deliveries[i].claimed(times[i] as int));
        assert(deliveries[i + 1].is_due(times[i + 1] as int));
    }
}

proof fn attempts_are_counted(deliveries: Seq<Delivery>, times: Seq<i64>, i: int)
    requires
        was_taken_up(deliveries, times),
        0 <= i < times.len(),
    ensures
        deliveries[i].notice.attempts >= i,
        i < ATTEMPT_LIMIT,
    decreases i,
{
    assert(deliveries[i].is_due(times[i] as int));
    if i > 0 {
        attempts_are_counted(deliveries, times, i - 1);
        assert(deliveries[(i - 1) + 1].notice == deliveries[i - 1].claimed(times[i - 1] as int));
        assert(deliveries[i - 1].is_due(times[i - 1] as int));
    }
}

} // verus!
