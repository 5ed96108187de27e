//! Which account serves a request.

use crate::account::provider::{ProviderAccount, ProviderAccountId};
use crate::account::turn_state::TurnStateAvailability;
use crate::text::{
    same_text, text_le, text_not_after,
};
use vstd::prelude::*;

verus! {

/// How the account for a request is chosen.
#[derive(Debug, Clone, Copy, PartialEq, Eq, Structural)]
pub enum RotationStrategy {
    /// In turn among the accounts whose score is close to the best.
    Smart,
    /// The account that served before; else as `Smart`.
    Sticky,
    /// In turn among all accounts.
    RoundRobin,
    /// The account whose quota is renewed first.
    QuotaResetPriority,
}

/// What is known of an account when a request comes.
#[derive(Debug, Clone, Copy)]
pub struct SchedulingSignals {
    pub in_flight: u32,
    pub concurrency_limit: u32,
    /// The quota that remains, in hundredths of a percent.
    pub quota_remaining_rank: Option<u64>,
    pub quota_resets_at: Option<i64>,
    pub failure_rate_basis_points: Option<u64>,
    pub first_output_latency_ms: Option<u64>,
    pub turn_state: TurnStateAvailability,
}

pub struct AccountCandidate {
    pub account: ProviderAccount,
    pub signals: SchedulingSignals,
}

/// What a request asks for.
pub struct SelectionContext {
    pub strategy: RotationStrategy,
    pub preferred_account: Option<ProviderAccountId>,
    pub round_robin_cursor: u64,
    /// In seconds since 1970.
    pub now: i64,
}

/// Why an account is passed over.
#[derive(Debug, Clone, Copy, PartialEq, Eq, Structural)]
pub enum AccountSchedulingBlocker {
    Disabled,
    MissingTurnState,
    AtCapacity,
}

/// What became of the account that a request would rather have.
#[derive(Debug, Clone, Copy, PartialEq, Eq, Structural)]
pub enum PreferredAccountSelection {
    NotRequested,
    Absent,
    Selected,
    Blocked(AccountSchedulingBlocker),
}

pub struct AccountSelection<'a> {
    pub chosen: &'a AccountCandidate,
    pub preferred_account: PreferredAccountSelection,
}

impl<'a> AccountSelection<'a> {
    pub fn candidate(&self) -> (r: &'a AccountCandidate)
        ensures
            *r == *self.chosen,
    {
        self.chosen
    }

    pub fn preferred(&self) -> (r: PreferredAccountSelection)
        ensures
            r == self.preferred_account,
    {
        self.preferred_account
    }
}

/// How many requests the accounts can take, and how many they have.
#[derive(Debug, Clone, Copy, PartialEq, Eq, Structural)]
pub struct CapacitySnapshot {
    pub in_flight: u64,
    pub limit: u64,
}

/// The score of an account of which nothing is known.
pub const NEUTRAL_QUOTA: u64 = 5000;

/// How far below the best score an account may be and still take its turn.
pub const SCORE_TOLERANCE: i64 = 500;

pub open spec fn capped(n: int) -> int {
    if n > 10000 {
        10000
    } else {
        n
    }
}

fn cap(n: u64) -> (r: i64)
    ensures
        r == capped(n as int),
        0 <= r <= 10000,
{
    if n > 10000 {
        10000
    } else {
        n as i64
    }
}

pub open spec fn or_zero(n: Option<u64>) -> int {
    match n {
        Some(n) => n as int,
        None => 0,
    }
}

impl SchedulingSignals {
    /// The share of its limit that an account has in use, in hundredths of a
    /// percent.
    pub open spec fn load(self) -> int {
        if self.concurrency_limit == 0 {
            10000
        } else {
            capped(self.in_flight * 10000 / self.concurrency_limit as int)
        }
    }

    /// More quota is better; load, failures and waiting are worse. A quota that is
    /// not known counts as half.
    pub open spec fn score(self) -> int {
        let quota = match self.quota_remaining_rank {
            Some(rank) => capped(rank as int),
            None => NEUTRAL_QUOTA as int,
        };
        quota + 10000 - self.load() - capped(or_zero(self.failure_rate_basis_points)) - capped(
            or_zero(self.first_output_latency_ms) / 4,
        )
    }

    fn compute_score(&self) -> (r: i64)
        ensures
            r == self.score(),
            -20000 <= r <= 20000,
    {
        let load: i64 = if self.concurrency_limit == 0 {
            10000
        } else {
            let used: u64 = self.in_flight as u64 * 10000;
            assert(used / self.concurrency_limit as u64 == self.in_flight * 10000
                / self.concurrency_limit as int);
            cap(used / self.concurrency_limit as u64)
        };
        let quota: i64 = match self.quota_remaining_rank {
            Some(rank) => cap(rank),
            None => NEUTRAL_QUOTA as i64,
        };
        let failures: i64 = match self.failure_rate_basis_points {
            Some(rate) => cap(rate),
            None => 0,
        };
        let waiting: i64 = match self.first_output_latency_ms {
            Some(time) => cap(time / 4),
            None => 0,
        };
        quota + 10000 - load - failures - waiting
    }
}

impl AccountCandidate {
    /// The account may serve, were it not for its load.
    pub open spec fn is_schedulable(self, now: int) -> bool {
        self.account.enabled && self.signals.turn_state.allowed(now)
    }

    pub open spec fn has_room(self) -> bool {
        self.signals.in_flight < self.signals.concurrency_limit
    }

    /// Why the account cannot serve, if it cannot.
    pub open spec fn blocker_at(self, now: int) -> Option<AccountSchedulingBlocker> {
        if !self.account.enabled {
            Some(AccountSchedulingBlocker::Disabled)
        } else if !self.signals.turn_state.allowed(now) {
            Some(AccountSchedulingBlocker::MissingTurnState)
        } else if !self.has_room() {
            Some(AccountSchedulingBlocker::AtCapacity)
        } else {
            None
        }
    }

    pub fn blocker(&self, now: i64) -> (r: Option<AccountSchedulingBlocker>)
        ensures
            r == self.blocker_at(now as int),
    {
        if !self.account.enabled {
            Some(AccountSchedulingBlocker::Disabled)
        } else if !self.signals.turn_state.allows(now) {
            Some(AccountSchedulingBlocker::MissingTurnState)
        } else if self.signals.in_flight >= self.signals.concurrency_limit {
            Some(AccountSchedulingBlocker::AtCapacity)
        } else {
            None
        }
    }
}

pub open spec fn is_open(candidates: Seq<AccountCandidate>, now: int, i: int) -> bool {
    0 <= i < candidates.len() && candidates[i].blocker_at(now) is None
}

/// An account that can serve and whose score is close to the best of those that
/// can.
pub open spec fn is_near_best(candidates: Seq<AccountCandidate>, now: int, i: int) -> bool {
    is_open(candidates, now, i) && forall|j: int| #[trigger]
        is_open(candidates, now, j) ==> candidates[j].signals.score()
            <= candidates[i].signals.score() + SCORE_TOLERANCE
}

/// When an account's quota is renewed; one of which that is not known comes last.
pub open spec fn reset_of(candidate: AccountCandidate) -> int {
    match candidate.signals.quota_resets_at {
        Some(time) => time as int,
        None => i64::MAX + 1,
    }
}

pub open spec fn resets_first(candidates: Seq<AccountCandidate>, now: int, i: int) -> bool {
    is_open(candidates, now, i) && forall|j: int| #[trigger]
        is_open(candidates, now, j) ==> reset_of(candidates[i]) <= reset_of(candidates[j])
}

/// The accounts among which a strategy takes turns.
pub open spec fn takes_turn(
    candidates: Seq<AccountCandidate>,
    strategy: RotationStrategy,
    now: int,
    i: int,
) -> bool {
    match strategy {
        RotationStrategy::Smart | RotationStrategy::Sticky => is_near_best(candidates, now, i),
        RotationStrategy::RoundRobin => is_open(candidates, now, i),
        RotationStrategy::QuotaResetPriority => resets_first(candidates, now, i),
    }
}

/// An account put in its place among accounts in the order of their names.
pub open spec fn placed(candidates: Seq<AccountCandidate>, line: Seq<int>, i: int) -> Seq<int>
    decreases line.len(),
{
    if line.len() == 0 {
        seq![i]
    } else if !text_le(candidates[line[0]].account.id@, candidates[i].account.id@) {
        seq![i] + line
    } else {
        seq![line[0]] + placed(candidates, line.drop_first(), i)
    }
}

/// The accounts that take turns among the first ones, in the order of their names.
pub open spec fn line_up(
    candidates: Seq<AccountCandidate>,
    strategy: RotationStrategy,
    now: int,
    count: nat,
) -> Seq<int>
    decreases count,
{
    if count == 0 {
        Seq::empty()
    } else {
        let before = line_up(candidates, strategy, now, (count - 1) as nat);
        if takes_turn(candidates, strategy, now, count - 1) {
            placed(candidates, before, count - 1)
        } else {
            before
        }
    }
}

/// The account whose turn it is.
pub open spec fn turn_of(
    candidates: Seq<AccountCandidate>,
    strategy: RotationStrategy,
    now: int,
    cursor: nat,
) -> Option<int> {
    let line = line_up(candidates, strategy, now, candidates.len());
    if line.len() == 0 {
        None
    } else if strategy == RotationStrategy::QuotaResetPriority {
        Some(line[0])
    } else {
        Some(line[(cursor % line.len()) as int])
    }
}

/// The place of the account that a request would rather have.
pub open spec fn is_preferred(
    candidates: Seq<AccountCandidate>,
    context: SelectionContext,
    i: int,
) -> bool {
    &&& context.preferred_account is Some
    &&& 0 <= i < candidates.len()
    &&& candidates[i].account.id@ == context.preferred_account->0@
    &&& forall|j: int|
        0 <= j < i ==> (#[trigger] candidates[j]).account.id@ != context.preferred_account->0@
}

pub open spec fn has_preferred(
    candidates: Seq<AccountCandidate>,
    context: SelectionContext,
) -> bool {
    exists|i: int| is_preferred(candidates, context, i)
}

#[verifier::loop_isolation(false)]
fn find_preferred(candidates: &[AccountCandidate], context: &SelectionContext) -> (r: Option<usize>)
    ensures
        match r {
            Some(i) => is_preferred(candidates@, *context, i as int),
            None => !has_preferred(candidates@, *context),
        },
{
    let wanted = match &context.preferred_account {
        Some(id) => id,
        None => {
            return None;
        },
    };
    let mut i: usize = 0;
    while i < candidates.len()
        invariant
            i <= candidates@.len(),
            forall|j: int|
                0 <= j < i ==> (#[trigger] candidates@[j]).account.id@
                    != context.preferred_account->0@,
        decreases candidates@.len() - i,
    {
        if same_text(candidates[i].account.id.as_str(), wanted.as_str()) {
            assert(is_preferred(candidates@, *context, i as int));
            return Some(i);
        }
        i += 1;
    }
    None
}

fn best_score(candidates: &[AccountCandidate], now: i64) -> (r: Option<i64>)
    ensures
        match r {
            Some(best) => {
                &&& best <= 20000
                &&& exists|i: int| #[trigger]
                    is_open(candidates@, now as int, i) && candidates@[i].signals.score() == best
                &&& forall|i: int| #[trigger]
                    is_open(candidates@, now as int, i) ==> candidates@[i].signals.score() <= best
            },
            None => forall|i: int| !(#[trigger] is_open(candidates@, now as int, i)),
        },
{
    let mut best: Option<i64> = None;
    let mut i: usize = 0;
    while i < candidates.len()
        invariant
            i <= candidates@.len(),
            match best {
                Some(best) => {
                    &&& best <= 20000
                    &&& exists|k: int|
                        k < i && #[trigger] is_open(candidates@, now as int, k)
                            && candidates@[k].signals.score() == best
                    &&& forall|k: int|
                        k < i && #[trigger] is_open(candidates@, now as int, k)
                            ==> candidates@[k].signals.score() <= best
                },
                None => forall|k: int| k < i ==> !(#[trigger] is_open(candidates@, now as int, k)),
            },
        decreases candidates@.len() - i,
    {
        let candidate = &candidates[i];
        if candidate.blocker(now).is_none() {
            assert(is_open(candidates@, now as int, i as int));
            let score: i64 = candidate.signals.compute_score();
            match best {
                Some(so_far) => if score > so_far {
                    best = Some(score);
                },
                None => {
                    best = Some(score);
                },
            }
        }
        i += 1;
    }
    best
}

fn first_reset(candidates: &[AccountCandidate], now: i64) -> (r: Option<i128>)
    ensures
        match r {
            Some(first) => {
                &&& exists|i: int| #[trigger]
                    is_open(candidates@, now as int, i) && reset_of(candidates@[i]) == first
                &&& forall|i: int| #[trigger]
                    is_open(candidates@, now as int, i) ==> first <= reset_of(candidates@[i])
            },
            None => forall|i: int| !(#[trigger] is_open(candidates@, now as int, i)),
        },
{
    let mut first: Option<i128> = None;
    let mut i: usize = 0;
    while i < candidates.len()
        invariant
            i <= candidates@.len(),
            match first {
                Some(first) => {
                    &&& exists|k: int|
                        k < i && #[trigger] is_open(candidates@, now as int, k) && reset_of(
                            candidates@[k],
                        ) == first
                    &&& forall|k: int|
                        k < i && #[trigger] is_open(candidates@, now as int, k) ==> first
                            <= reset_of(candidates@[k])
                },
                None => forall|k: int| k < i ==> !(#[trigger] is_open(candidates@, now as int, k)),
            },
        decreases candidates@.len() - i,
    {
        let candidate = &candidates[i];
        if candidate.blocker(now).is_none() {
            assert(is_open(candidates@, now as int, i as int));
            let reset: i128 = reset_time(candidate);
            match first {
                Some(so_far) => if reset < so_far {
                    first = Some(reset);
                },
                None => {
                    first = Some(reset);
                },
            }
        }
        i += 1;
    }
    first
}

fn reset_time(candidate: &AccountCandidate) -> (r: i128)
    ensures
        r == reset_of(*candidate),
{
    match candidate.signals.quota_resets_at {
        Some(time) => time as i128,
        None => i64::MAX as i128 + 1,
    }
}

proof fn placed_between(
    candidates: Seq<AccountCandidate>,
    line: Seq<int>,
    i: int,
    at: int,
)
    requires
        0 <= at <= line.len(),
        forall|k: int|
            0 <= k < at ==> text_le(
                candidates[#[trigger] line[k]].account.id@,
                candidates[i].account.id@,
            ),
        at < line.len() ==> !text_le(candidates[line[at]].account.id@, candidates[i].account.id@),
    ensures
        placed(candidates, line, i) == line.insert(at, i),
    decreases line.len(),
{
    if line.len() == 0 {
        assert(line.insert(at, i) =~= seq![i]);
    } else if at == 0 {
        assert(line.insert(at, i) =~= seq![i] + line);
    } else {
        let rest = line.drop_first();
        assert forall|k: int| 0 <= k < at - 1 implies text_le(
            candidates[#[trigger] rest[k]].account.id@,
            candidates[i].account.id@,
        ) by {
            assert(rest[k] == line[k + 1]);
        }
        placed_between(candidates, rest, i, at - 1);
        assert(text_le(candidates[line[0]].account.id@, candidates[i].account.id@));
        assert(line.insert(at, i) =~= seq![line[0]] + rest.insert(at - 1, i));
    }
}

pub open spec fn places(line: Seq<usize>) -> Seq<int> {
    line.map_values(|i: usize| i as int)
}

/// The accounts that take turns, in the order of their names.
#[verifier::loop_isolation(false)]
fn accounts_in_turn(candidates: &[AccountCandidate], strategy: RotationStrategy, now: i64) -> (r:
    Vec<usize>)
    ensures
        places(r@) == line_up(candidates@, strategy, now as int, candidates@.len()),
        forall|k: int| 0 <= k < r@.len() ==> (#[trigger] r@[k]) < candidates@.len(),
{
    let best = best_score(candidates, now);
    let first = first_reset(candidates, now);
    let mut r: Vec<usize> = Vec::new();
    let mut i: usize = 0;
    assert(places(r@) =~= Seq::empty());
    while i < candidates.len()
        invariant
            i <= candidates@.len(),
            places(r@) == line_up(candidates@, strategy, now as int, i as nat),
            forall|k: int| 0 <= k < r@.len() ==> (#[trigger] r@[k]) < i,
        decreases candidates@.len() - i,
    {
        let candidate = &candidates[i];
        let open = candidate.blocker(now).is_none();
        assert(open == is_open(candidates@, now as int, i as int));
        let in_turn = open && (match strategy {
            RotationStrategy::Smart | RotationStrategy::Sticky => match best {
                Some(best) => candidate.signals.compute_score() + SCORE_TOLERANCE >= best,
                None => false,
            },
            RotationStrategy::RoundRobin => true,
            RotationStrategy::QuotaResetPriority => match first {
                Some(first) => reset_time(candidate) <= first,
                None => false,
            },
        });
        assert(in_turn == takes_turn(candidates@, strategy, now as int, i as int));
        if in_turn {
            let ghost before = places(r@);
            let mut at: usize = 0;
            while at < r.len() && text_not_after(
                candidates[r[at]].account.id.as_str(),
                candidate.account.id.as_str(),
            )
                invariant
                    at <= r@.len(),
                    before == places(r@),
                    i < candidates@.len(),
                    *candidate == candidates@[i as int],
                    forall|k: int| 0 <= k < r@.len() ==> (#[trigger] r@[k]) < i,
                    forall|k: int|
                        0 <= k < at ==> text_le(
                            candidates@[#[trigger] before[k]].account.id@,
                            candidates@[i as int].account.id@,
                        ),
                decreases r@.len() - at,
            {
                assert(before[at as int] == r@[at as int]);
                at += 1;
            }
            proof {
                if at < r@.len() {
                    assert(before[at as int] == r@[at as int]);
                }
                placed_between(candidates@, before, i as int, at as int);
            }
            r.insert(at, i);
            assert(places(r@) =~= before.insert(at as int, i as int));
        }
        i += 1;
    }
    r
}

/// Chooses accounts for requests.
#[derive(Debug, Clone, Copy)]
pub struct AccountSelector;

impl AccountSelector {
    /// The account for a request: the one that it would rather have, if that can
    /// serve, and else the one whose turn it is.
    pub fn select<'a>(&self, candidates: &'a [AccountCandidate], context: &SelectionContext) -> (r:
        Option<AccountSelection<'a>>)
        ensures
            ({
                let now = context.now as int;
                let turn = turn_of(
                    candidates@,
                    context.strategy,
                    now,
                    context.round_robin_cursor as nat,
                );
                match r {
                    Some(selection) => match selection.preferred_account {
                        PreferredAccountSelection::Selected => exists|i: int| #[trigger]
                            is_preferred(candidates@, *context, i) && is_open(candidates@, now, i)
                                && *selection.chosen == candidates@[i],
                        PreferredAccountSelection::Blocked(blocker) => {
                            &&& exists|i: int| #[trigger]
                                is_preferred(candidates@, *context, i)
                                    && candidates@[i].blocker_at(now) == Some(blocker)
                            &&& turn is Some && *selection.chosen == candidates@[turn->0]
                        },
                        PreferredAccountSelection::Absent => context.preferred_account is Some
                            && !has_preferred(candidates@, *context) && turn is Some
                            && *selection.chosen == candidates@[turn->0],
                        PreferredAccountSelection::NotRequested => context.preferred_account is None
                            && turn is Some && *selection.chosen == candidates@[turn->0],
                    },
                    None => turn is None && forall|i: int|
                        !(#[trigger] is_preferred(candidates@, *context, i) && is_open(
                            candidates@,
                            now,
                            i,
                        )),
                }
            }),
    {
        let preferred = match find_preferred(candidates, context) {
            Some(i) => {
                assert(is_preferred(candidates@, *context, i as int));
                match candidates[i].blocker(context.now) {
                    Some(blocker) => PreferredAccountSelection::Blocked(blocker),
                    None => {
                        assert(is_open(candidates@, context.now as int, i as int));
                        return Some(
                            AccountSelection {
                                chosen: &candidates[i],
                                preferred_account: PreferredAccountSelection::Selected,
                            },
                        );
                    },
                }
            },
            None => if context.preferred_account.is_some() {
                PreferredAccountSelection::Absent
            } else {
                PreferredAccountSelection::NotRequested
            },
        };
        proof {
            assert forall|i: int|
                !(#[trigger] is_preferred(candidates@, *context, i) && is_open(
                    candidates@,
                    context.now as int,
                    i,
                )) by {
                if is_preferred(candidates@, *context, i) {
                    assert(has_preferred(candidates@, *context));
                    assert(preferred is Blocked);
                    let k = choose|k: int| #[trigger]
                        is_preferred(candidates@, *context, k) && candidates@[k].blocker_at(
                            context.now as int,
                        ) is Some;
                    if i < k {
                        assert(candidates@[i].account.id@ != context.preferred_account->0@);
                    } else if k < i {
                        assert(candidates@[k].account.id@ != context.preferred_account->0@);
                    }
                }
            }
        }
        let line = accounts_in_turn(candidates, context.strategy, context.now);
        if line.len() == 0 {
            return None;
        }
        let at: usize = if context.strategy == RotationStrategy::QuotaResetPriority {
            0
        } else {
            (context.round_robin_cursor % line.len() as u64) as usize
        };
        proof {
            assert(places(line@)[at as int] == line@[at as int]);
            assert(line@[at as int] < candidates@.len());
        }
        Some(AccountSelection { chosen: &candidates[line[at]], preferred_account: preferred })
    }

    /// The accounts that a request can wait for: those that only lack room.
    pub fn wait_candidates(&self, candidates: &[AccountCandidate], context: &SelectionContext) -> (r:
        Vec<usize>)
        ensures
            forall|i: int|
                0 <= i < candidates@.len() ==> (places(r@).contains(i) <==> (
                #[trigger] candidates@[i]).blocker_at(context.now as int) == Some(
                    AccountSchedulingBlocker::AtCapacity,
                )),
            forall|k: int| 0 <= k < r@.len() ==> (#[trigger] r@[k]) < candidates@.len(),
            forall|k: int, m: int| 0 <= k < m < r@.len() ==> #[trigger] r@[k] < #[trigger] r@[m],
    {
        let mut r: Vec<usize> = Vec::new();
        let mut i: usize = 0;
        while i < candidates.len()
            invariant
                i <= candidates@.len(),
                forall|k: int|
                    0 <= k < i ==> (places(r@).contains(k) <==> (
                    #[trigger] candidates@[k]).blocker_at(context.now as int) == Some(
                        AccountSchedulingBlocker::AtCapacity,
                    )),
                forall|k: int| 0 <= k < r@.len() ==> (#[trigger] r@[k]) < i,
                forall|k: int, m: int|
                    0 <= k < m < r@.len() ==> #[trigger] r@[k] < #[trigger] r@[m],
            decreases candidates@.len() - i,
        {
            let ghost before = r@;
            proof {
                if places(before).contains(i as int) {
                    let k = choose|k: int|
                        0 <= k < places(before).len() && places(before)[k] == i as int;
                    assert(before[k] < i);
                }
            }
            if let Some(AccountSchedulingBlocker::AtCapacity) = candidates[i].blocker(context.now) {
                r.push(i);
                proof {
                    assert(places(r@)[before.len() as int] == i);
                    assert forall|k: int| 0 <= k < i implies places(r@).contains(k) == places(
                        before,
                    ).contains(k) by {
                        if places(before).contains(k) {
                            let m = choose|m: int|
                                0 <= m < places(before).len() && places(before)[m] == k;
                            assert(places(r@)[m] == k);
                        }
                        if places(r@).contains(k) {
                            let m = choose|m: int| 0 <= m < places(r@).len() && places(r@)[m] == k;
                            assert(places(before)[m] == k);
                        }
                    }
                }
            }
            i += 1;
        }
        r
    }

    /// The capacity of the accounts that may serve, if there is one.
    pub fn capacity_snapshot(
        &self,
        candidates: &[AccountCandidate],
        context: &SelectionContext,
    ) -> (r: Option<CapacitySnapshot>)
        requires
            candidates@.len() <= u32::MAX,
        ensures
            ({
                let now = context.now as int;
                match r {
                    Some(snapshot) => {
                        &&& serving(candidates@, now) > 0
                        &&& snapshot.in_flight == total_in_flight(candidates@, now)
                        &&& snapshot.limit == total_limit(candidates@, now)
                    },
                    None => serving(candidates@, now) == 0,
                }
            }),
    {
        let mut count: u64 = 0;
        let mut in_flight: u64 = 0;
        let mut limit: u64 = 0;
        let mut i: usize = 0;
        proof {
            assert(candidates@.take(0) =~= Seq::empty());
        }
        while i < candidates.len()
            invariant
                i <= candidates@.len(),
                candidates@.len() <= u32::MAX,
                count <= i,
                in_flight <= i * u32::MAX,
                limit <= i * u32::MAX,
                count == serving(candidates@.take(i as int), context.now as int),
                in_flight == total_in_flight(candidates@.take(i as int), context.now as int),
                limit == total_limit(candidates@.take(i as int), context.now as int),
            decreases candidates@.len() - i,
        {
            let candidate = &candidates[i];
            proof {
                assert(candidates@.take(i + 1).drop_last() =~= candidates@.take(i as int));
                assert(i * u32::MAX + u32::MAX <= u64::MAX) by (nonlinear_arith)
                    requires
                        i < u32::MAX,
                ;
                assert((i + 1) * u32::MAX == i * u32::MAX + u32::MAX) by (nonlinear_arith);
            }
            if candidate.account.enabled && candidate.signals.turn_state.allows(context.now) {
                count += 1;
                in_flight += candidate.signals.in_flight as u64;
                limit += candidate.signals.concurrency_limit as u64;
            }
            i += 1;
        }
        proof {
            assert(candidates@.take(candidates@.len() as int) =~= candidates@);
        }
        if count == 0 {
            None
        } else {
            Some(CapacitySnapshot { in_flight, limit })
        }
    }
}

/// How many accounts may serve.
pub open spec fn serving(candidates: Seq<AccountCandidate>, now: int) -> int
    decreases candidates.len(),
{
    if candidates.len() == 0 {
        0
    } else {
        serving(candidates.drop_last(), now) + if candidates.last().is_schedulable(now) {
            1int
        } else {
            0int
        }
    }
}

pub open spec fn total_in_flight(candidates: Seq<AccountCandidate>, now: int) -> int
    decreases candidates.len(),
{
    if candidates.len() == 0 {
        0
    } else {
        total_in_flight(candidates.drop_last(), now) + if candidates.last().is_schedulable(now) {
            candidates.last().signals.in_flight as int
        } else {
            0int
        }
    }
}

pub open spec fn total_limit(candidates: Seq<AccountCandidate>, now: int) -> int
    decreases candidates.len(),
{
    if candidates.len() == 0 {
        0
    } else {
        total_limit(candidates.drop_last(), now) + if candidates.last().is_schedulable(now) {
            candidates.last().signals.concurrency_limit as int
        } else {
            0int
        }
    }
}

proof fn placing_adds_one(candidates: Seq<AccountCandidate>, line: Seq<int>, i: int)
    ensures
        placed(candidates, line, i).len() == line.len() + 1,
        placed(candidates, line, i).contains(i),
        forall|k: int| line.contains(k) ==> #[trigger] placed(candidates, line, i).contains(k),
        forall|k: int| #[trigger]
            placed(candidates, line, i).contains(k) ==> k == i || line.contains(k),
    decreases line.len(),
{
    let all = placed(candidates, line, i);
    if line.len() == 0 {
        assert(all[0] == i);
    } else if !text_le(candidates[line[0]].account.id@, candidates[i].account.id@) {
        assert(all[0] == i);
        assert forall|k: int| line.contains(k) implies #[trigger] all.contains(k) by {
            let m = choose|m: int| 0 <= m < line.len() && line[m] == k;
            assert(all[m + 1] == k);
        }
        assert forall|k: int| #[trigger] all.contains(k) implies k == i || line.contains(k) by {
            let m = choose|m: int| 0 <= m < all.len() && all[m] == k;
            if m > 0 {
                assert(line[m - 1] == k);
            }
        }
    } else {
        let rest = line.drop_first();
        placing_adds_one(candidates, rest, i);
        let inner = placed(candidates, rest, i);
        let m = choose|m: int| 0 <= m < inner.len() && inner[m] == i;
        assert(all[m + 1] == i);
        assert forall|k: int| line.contains(k) implies #[trigger] all.contains(k) by {
            let n = choose|n: int| 0 <= n < line.len() && line[n] == k;
            if n == 0 {
                assert(all[0] == k);
            } else {
                assert(rest[n - 1] == k);
                assert(inner.contains(k));
                let q = choose|q: int| 0 <= q < inner.len() && inner[q] == k;
                assert(all[q + 1] == k);
            }
        }
        assert forall|k: int| #[trigger] all.contains(k) implies k == i || line.contains(k) by {
            let n = choose|n: int| 0 <= n < all.len() && all[n] == k;
            if n == 0 {
                assert(line[0] == k);
            } else {
                assert(inner[n - 1] == k);
                assert(inner.contains(k));
                if k != i {
                    let q = choose|q: int| 0 <= q < rest.len() && rest[q] == k;
                    assert(line[q + 1] == k);
                }
            }
        }
    }
}

/// The accounts that take turns are exactly those that the strategy admits.
pub proof fn everyone_admitted_takes_a_turn(
    candidates: Seq<AccountCandidate>,
    strategy: RotationStrategy,
    now: int,
    count: nat,
    i: int,
)
    requires
        count <= candidates.len(),
    ensures
        line_up(candidates, strategy, now, count).contains(i) <==> 0 <= i < count && takes_turn(
            candidates,
            strategy,
            now,
            i,
        ),
    decreases count,
{
    if count > 0 {
        let before = line_up(candidates, strategy, now, (count - 1) as nat);
        everyone_admitted_takes_a_turn(candidates, strategy, now, (count - 1) as nat, i);
        placing_adds_one(candidates, before, count - 1);
    }
}

/// The account whose turn it is can serve: it is enabled, has what its ticket
/// policy demands, and has room.
pub proof fn a_turn_goes_to_an_open_account(
    candidates: Seq<AccountCandidate>,
    strategy: RotationStrategy,
    now: int,
    cursor: nat,
)
    ensures
        turn_of(candidates, strategy, now, cursor) matches Some(i) ==> is_open(candidates, now, i)
            && takes_turn(candidates, strategy, now, i),
{
    let line = line_up(candidates, strategy, now, candidates.len());
    if line.len() > 0 {
        let at: int = if strategy == RotationStrategy::QuotaResetPriority {
            0
        } else {
            (cursor % line.len()) as int
        };
        assert(line.contains(line[at]));
        everyone_admitted_takes_a_turn(candidates, strategy, now, candidates.len(), line[at]);
    }
}

proof fn a_highest_exists(
    candidates: Seq<AccountCandidate>,
    now: int,
    value: spec_fn(int) -> int,
    count: int,
    i: int,
) -> (best: int)
    requires
        0 <= i < count,
        is_open(candidates, now, i),
    ensures
        0 <= best < count,
        is_open(candidates, now, best),
        forall|j: int|
            0 <= j < count && #[trigger] is_open(candidates, now, j) ==> value(j) <= value(best),
    decreases count,
{
    if i == count - 1 {
        if exists|k: int| 0 <= k < count - 1 && #[trigger] is_open(candidates, now, k) {
            let k = choose|k: int| 0 <= k < count - 1 && #[trigger] is_open(candidates, now, k);
            let before = a_highest_exists(candidates, now, value, count - 1, k);
            if value(before) >= value(i) {
                before
            } else {
                i
            }
        } else {
            i
        }
    } else {
        let before = a_highest_exists(candidates, now, value, count - 1, i);
        if is_open(candidates, now, count - 1) && value(count - 1) > value(before) {
            count - 1
        } else {
            before
        }
    }
}

/// Whenever an account can serve, every strategy finds one.
pub proof fn an_open_account_is_found(
    candidates: Seq<AccountCandidate>,
    strategy: RotationStrategy,
    now: int,
    cursor: nat,
    i: int,
)
    requires
        is_open(candidates, now, i),
    ensures
        turn_of(candidates, strategy, now, cursor) is Some,
{
    let value = match strategy {
        RotationStrategy::Smart | RotationStrategy::Sticky => |j: int|
            candidates[j].signals.score(),
        RotationStrategy::RoundRobin => |j: int| 0int,
        RotationStrategy::QuotaResetPriority => |j: int| -reset_of(candidates[j]),
    };
    let best = a_highest_exists(candidates, now, value, candidates.len() as int, i);
    assert forall|j: int| #[trigger] is_open(candidates, now, j) implies value(j) <= value(best) by {
        assert(0 <= j < candidates.len());
    }
    assert(takes_turn(candidates, strategy, now, best));
    everyone_admitted_takes_a_turn(candidates, strategy, now, candidates.len(), best);
}

/// An account whose ticket is missing or has run out is never chosen, whatever
/// the request would rather have.
pub proof fn a_missing_ticket_blocks(
    candidates: Seq<AccountCandidate>,
    strategy: RotationStrategy,
    now: int,
    cursor: nat,
    i: int,
)
    requires
        0 <= i < candidates.len(),
        !candidates[i].signals.turn_state.allowed(now),
    ensures
        !is_open(candidates, now, i),
        turn_of(candidates, strategy, now, cursor) != Some(i),
{
    a_turn_goes_to_an_open_account(candidates, strategy, now, cursor);
}

} // verus!
