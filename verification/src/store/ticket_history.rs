//! The bounded history of a stored ticket, and tickets taken from it.

use crate::account::provider::ProviderAccount;
use crate::account::turn_state::{
    issue_time, ObservationView, TurnStateInstallation, TurnStateObservation, TurnStateToken,
};
use crate::store::error::{AdminStoreError, AdminStoreErrorKind};
use crate::store::ticket::{
    char_count, comes_after, has_fresh_envelope, has_spent, is_fresh_envelope, is_later, is_spent,
    seconds_between, HistoryEntry, TicketRow,
};
use crate::text::{clone_optional, same_text, signed_decimal, signed_decimal_text};
use vstd::prelude::*;

verus! {

/// How many entries of one kind a history keeps.
pub const HISTORY_LIMIT: usize = 100;

/// The entries of a history, the oldest first, of which those of one source are
/// cut down to the newest.
pub open spec fn newest_of(
    history: Seq<HistoryEntry>,
    source: Seq<char>,
    keep: nat,
) -> Seq<HistoryEntry>
    decreases history.len(),
{
    if history.len() == 0 {
        Seq::empty()
    } else {
        let last = history.last();
        if last.observation.source@ != source {
            newest_of(history.drop_last(), source, keep).push(last)
        } else if keep > 0 {
            newest_of(history.drop_last(), source, (keep - 1) as nat).push(last)
        } else {
            newest_of(history.drop_last(), source, 0)
        }
    }
}

pub open spec fn count_of(history: Seq<HistoryEntry>, source: Seq<char>) -> nat
    decreases history.len(),
{
    if history.len() == 0 {
        0
    } else {
        count_of(history.drop_last(), source) + if history.last().observation.source@ == source {
            1nat
        } else {
            0nat
        }
    }
}

/// Adds an observation to a history. Of its source the newest hundred stay.
pub fn append_observation(history: Vec<HistoryEntry>, entry: HistoryEntry) -> (r: Vec<HistoryEntry>)
    ensures
        r@ == newest_of(history@.push(entry), entry.observation.source@, HISTORY_LIMIT as nat),
{
    let ghost all = history@.push(entry);
    let source = entry.observation.source.clone();
    let mut rest = history;
    rest.push(entry);
    let mut kept: Vec<HistoryEntry> = Vec::new();
    let mut left: usize = HISTORY_LIMIT;
    proof {
        assert(newest_of(rest@, source@, left as nat) + kept@ =~= newest_of(
            all,
            source@,
            HISTORY_LIMIT as nat,
        ));
    }
    while rest.len() > 0
        invariant
            newest_of(rest@, source@, left as nat) + kept@ == newest_of(
                all,
                source@,
                HISTORY_LIMIT as nat,
            ),
        decreases rest@.len(),
    {
        let ghost before = rest@;
        let ghost before_kept = kept@;
        let ghost before_left = left as nat;
        match rest.pop() {
            Some(last) => {
                let ghost taken = last;
                assert(rest@ =~= before.drop_last());
                let of_source = same_text(last.observation.source.as_str(), source.as_str());
                if !of_source {
                    kept.insert(0, last);
                    assert(newest_of(before, source@, before_left) + before_kept =~= newest_of(
                        rest@,
                        source@,
                        before_left,
                    ) + kept@);
                } else if left > 0 {
                    left = left - 1;
                    kept.insert(0, last);
                    assert(newest_of(before, source@, before_left) + before_kept =~= newest_of(
                        rest@,
                        source@,
                        left as nat,
                    ) + kept@);
                }
            },
            None => {},
        }
    }
    proof {
        assert(newest_of(rest@, source@, left as nat) + kept@ =~= kept@);
    }
    kept
}

proof fn cut_is_bounded(history: Seq<HistoryEntry>, source: Seq<char>, keep: nat)
    ensures
        count_of(newest_of(history, source, keep), source) <= keep,
    decreases history.len(),
{
    if history.len() > 0 {
        let last = history.last();
        if last.observation.source@ != source {
            cut_is_bounded(history.drop_last(), source, keep);
            let before = newest_of(history.drop_last(), source, keep);
            assert(before.push(last).drop_last() =~= before);
        } else if keep > 0 {
            cut_is_bounded(history.drop_last(), source, (keep - 1) as nat);
            let before = newest_of(history.drop_last(), source, (keep - 1) as nat);
            assert(before.push(last).drop_last() =~= before);
        } else {
            cut_is_bounded(history.drop_last(), source, 0);
        }
    }
}

proof fn cut_keeps_other_sources(
    history: Seq<HistoryEntry>,
    source: Seq<char>,
    other: Seq<char>,
    keep: nat,
)
    requires
        other != source,
    ensures
        count_of(newest_of(history, source, keep), other) == count_of(history, other),
    decreases history.len(),
{
    if history.len() > 0 {
        let last = history.last();
        if last.observation.source@ != source {
            cut_keeps_other_sources(history.drop_last(), source, other, keep);
            let before = newest_of(history.drop_last(), source, keep);
            assert(before.push(last).drop_last() =~= before);
        } else if keep > 0 {
            cut_keeps_other_sources(history.drop_last(), source, other, (keep - 1) as nat);
            let before = newest_of(history.drop_last(), source, (keep - 1) as nat);
            assert(before.push(last).drop_last() =~= before);
        } else {
            cut_keeps_other_sources(history.drop_last(), source, other, 0);
        }
    }
}

/// After an observation is added, its source has no more than a hundred entries,
/// it is the newest of them, and those of every other source are untouched.
pub proof fn a_history_is_bounded(
    history: Seq<HistoryEntry>,
    entry: HistoryEntry,
    other: Seq<char>,
)
    requires
        other != entry.observation.source@,
    ensures
        ({
            let after = newest_of(
                history.push(entry),
                entry.observation.source@,
                HISTORY_LIMIT as nat,
            );
            &&& count_of(after, entry.observation.source@) <= HISTORY_LIMIT
            &&& after.len() > 0 && after.last() == entry
            &&& count_of(after, other) == count_of(history, other)
        }),
{
    let all = history.push(entry);
    cut_is_bounded(all, entry.observation.source@, HISTORY_LIMIT as nat);
    cut_keeps_other_sources(all, entry.observation.source@, other, HISTORY_LIMIT as nat);
    assert(all.drop_last() =~= history);
}

/// Adds an installation to those of a row, the oldest first. The newest hundred
/// stay.
pub fn append_installation(
    installations: Vec<TurnStateInstallation>,
    installation: TurnStateInstallation,
) -> (r: Vec<TurnStateInstallation>)
    ensures
        ({
            let all = installations@.push(installation);
            r@ == if all.len() <= HISTORY_LIMIT {
                all
            } else {
                all.subrange(all.len() - HISTORY_LIMIT, all.len() as int)
            }
        }),
{
    let ghost all = installations@.push(installation);
    let mut r = installations;
    r.push(installation);
    let ghost mut gone: int = 0;
    assert(r@ =~= all.subrange(0, all.len() as int));
    while r.len() > HISTORY_LIMIT
        invariant
            0 <= gone <= all.len(),
            r@ == all.subrange(gone, all.len() as int),
            gone > 0 ==> r@.len() >= HISTORY_LIMIT,
        decreases r@.len(),
    {
        r.remove(0);
        proof {
            gone = gone + 1;
            assert(r@ =~= all.subrange(gone, all.len() as int));
        }
    }
    proof {
        if all.len() <= HISTORY_LIMIT {
            assert(gone == 0);
            assert(r@ =~= all);
        } else {
            assert(gone == all.len() - HISTORY_LIMIT);
        }
    }
    r
}

impl TicketRow {
    /// The entry holds a ticket of the row that was issued then and is fresh.
    pub open spec fn offers(self, entry: HistoryEntry, issued_at: i64, now: int) -> bool {
        let observation = entry.observation;
        &&& observation.account_id@ == self.account_id@
        &&& observation.model@ == self.model@
        &&& self.is_of(observation.upstream_account_id, observation.upstream_user_id)
        &&& observation.token is Some
        &&& issued_at >= 0 && issue_time(observation.token->0@) == Some(issued_at as nat)
        &&& 0 < issued_at <= now
        &&& !is_spent(issued_at as int, self.config.ttl_seconds as int, now)
    }

    fn is_offered(&self, entry: &HistoryEntry, issued_at: i64, now: i64) -> (r: bool)
        ensures
            r == self.offers(*entry, issued_at, now as int),
    {
        let observation = &entry.observation;
        if !same_text(observation.account_id.as_str(), self.account_id.as_str()) || !same_text(
            observation.model.as_str(),
            self.model.as_str(),
        ) || !self.has_identity(&observation.upstream_account_id, &observation.upstream_user_id) {
            return false;
        }
        match &observation.token {
            Some(text) => match TurnStateToken::parse(text.as_str()) {
                Some(token) => token.issued_at == issued_at && 0 < issued_at && issued_at <= now
                    && !has_spent(issued_at, self.config.ttl_seconds, now),
                None => false,
            },
            None => false,
        }
    }

    /// The entry is asked for: by its number, or where none is given by holding a
    /// ticket that was issued then.
    pub open spec fn is_asked(
        self,
        entry: HistoryEntry,
        issued_at: i64,
        id: Option<i64>,
        now: int,
    ) -> bool {
        (id is None || entry.id == id->0) && self.offers(entry, issued_at, now)
    }

    /// Without a number, two entries with different tickets leave open which is
    /// meant.
    pub open spec fn is_ambiguous(
        self,
        history: Seq<HistoryEntry>,
        issued_at: i64,
        now: int,
    ) -> bool {
        exists|i: int, j: int|
            0 <= i < history.len() && 0 <= j < history.len() && self.offers(
                #[trigger] history[i],
                issued_at,
                now,
            ) && self.offers(#[trigger] history[j], issued_at, now)
                && history[i].observation.token->0@ != history[j].observation.token->0@
    }

    /// The place of the entry that is meant.
    pub open spec fn is_meant(
        self,
        history: Seq<HistoryEntry>,
        issued_at: i64,
        id: Option<i64>,
        now: int,
        at: int,
    ) -> bool {
        &&& 0 <= at < history.len()
        &&& self.is_asked(history[at], issued_at, id, now)
        &&& forall|j: int| 0 <= j < at ==> !self.is_asked(#[trigger] history[j], issued_at, id, now)
        &&& id is None ==> !self.is_ambiguous(history, issued_at, now)
    }

    pub open spec fn means_one(
        self,
        history: Seq<HistoryEntry>,
        issued_at: i64,
        id: Option<i64>,
        now: int,
    ) -> bool {
        exists|at: int| self.is_meant(history, issued_at, id, now, at)
    }

    #[verifier::loop_isolation(false)]
    fn find_entry(
        &self,
        history: &Vec<HistoryEntry>,
        issued_at: i64,
        id: Option<i64>,
        now: i64,
    ) -> (r: Option<usize>)
        ensures
            match r {
                Some(at) => self.is_meant(history@, issued_at, id, now as int, at as int),
                None => !self.means_one(history@, issued_at, id, now as int),
            },
    {
        let mut found: Option<usize> = None;
        let mut i: usize = 0;
        while i < history.len()
            invariant
                i <= history@.len(),
                match found {
                    Some(at) => {
                        &&& at < i
                        &&& self.is_asked(history@[at as int], issued_at, id, now as int)
                        &&& forall|j: int|
                            0 <= j < at ==> !self.is_asked(
                                #[trigger] history@[j],
                                issued_at,
                                id,
                                now as int,
                            )
                        &&& id is None ==> forall|j: int|
                            0 <= j < i && self.offers(
                                #[trigger] history@[j],
                                issued_at,
                                now as int,
                            ) ==> history@[j].observation.token->0@
                                == history@[at as int].observation.token->0@
                    },
                    None => forall|j: int|
                        0 <= j < i ==> !self.is_asked(
                            #[trigger] history@[j],
                            issued_at,
                            id,
                            now as int,
                        ),
                },
            decreases history@.len() - i,
        {
            let entry = &history[i];
            let named = match id {
                Some(id) => entry.id == id,
                None => true,
            };
            if named && self.is_offered(entry, issued_at, now) {
                match found {
                    Some(at) => if id.is_none() {
                        let same = match (
                            &history[at].observation.token,
                            &entry.observation.token,
                        ) {
                            (Some(one), Some(other)) => same_text(one.as_str(), other.as_str()),
                            _ => true,
                        };
                        if !same {
                            proof {
                                assert(self.offers(history@[at as int], issued_at, now as int));
                                assert(self.offers(history@[i as int], issued_at, now as int));
                                assert(self.is_ambiguous(history@, issued_at, now as int));
                            }
                            return None;
                        }
                    },
                    None => {
                        found = Some(i);
                    },
                }
            }
            i += 1;
        }
        proof {
            match found {
                Some(at) => {
                    assert(self.is_meant(history@, issued_at, id, now as int, at as int));
                },
                None => {},
            }
        }
        found
    }

    /// The ticket in use was issued then and is fresh.
    pub open spec fn current_is(self, issued_at: i64, now: int) -> bool {
        self.current is Some && self.current_issued_at == Some(issued_at) && 0 < issued_at <= now
            && !is_spent(issued_at as int, self.config.ttl_seconds as int, now)
    }

    pub open spec fn candidate_is(self, issued_at: i64, now: int) -> bool {
        self.candidate is Some && self.candidate->0.issued_at == issued_at && 0 < issued_at <= now
            && !is_spent(issued_at as int, self.config.ttl_seconds as int, now)
    }

    /// The ticket that was issued then, to be copied: that of the entry with the
    /// number, or where no number is given the one in use, the candidate, or the
    /// only one of the history. The account has to be the one that the row was
    /// made for.
    pub fn copyable_turn_state(
        &self,
        account: &ProviderAccount,
        history: &Vec<HistoryEntry>,
        issued_at: i64,
        id: Option<i64>,
        now: i64,
    ) -> (r: Option<TurnStateToken>)
        ensures
            r matches Some(token) ==> token.issued_at == issued_at,
            ({
                let mine = self.account_id@ == account.id@ && self.is_of(
                    account.upstream_account_id,
                    account.upstream_user_id,
                );
                if !mine {
                    r is None
                } else if id is None && self.current_is(issued_at, now as int) {
                    r is Some && r->0.value@ == self.current->0@
                } else if id is None && self.candidate_is(issued_at, now as int) {
                    r is Some && r->0.value@ == self.candidate->0.value@
                } else {
                    &&& r is Some == self.means_one(history@, issued_at, id, now as int)
                    &&& r is Some ==> exists|at: int| #[trigger]
                        self.is_meant(history@, issued_at, id, now as int, at) && r->0.value@
                            == history@[at].observation.token->0@
                }
            }),
    {
        if !same_text(self.account_id.as_str(), account.id.as_str()) || !self.has_identity(
            &account.upstream_account_id,
            &account.upstream_user_id,
        ) {
            return None;
        }
        let in_time = 0 < issued_at && issued_at <= now && !has_spent(
            issued_at,
            self.config.ttl_seconds,
            now,
        );
        if id.is_none() && in_time {
            if let Some(value) = &self.current {
                let same = match self.current_issued_at {
                    Some(time) => time == issued_at,
                    None => false,
                };
                if same {
                    return Some(TurnStateToken { value: value.clone(), issued_at });
                }
            }
            if let Some(held) = &self.candidate {
                if held.issued_at == issued_at {
                    return Some(TurnStateToken { value: held.value.clone(), issued_at });
                }
            }
        }
        match self.find_entry(history, issued_at, id, now) {
            Some(at) => {
                proof {
                    assert(self.is_meant(history@, issued_at, id, now as int, at as int));
                }
                match &history[at].observation.token {
                    Some(value) => Some(TurnStateToken { value: value.clone(), issued_at }),
                    None => None,
                }
            },
            None => None,
        }
    }

    /// A ticket of the history may come into use.
    pub open spec fn installs_observed(
        self,
        account: ProviderAccount,
        provider_kind: Seq<char>,
        entry: HistoryEntry,
        issued_at: i64,
    ) -> bool {
        &&& entry.observation.token->0@.len() == self.config.target_length
        &&& is_later(issued_at, self.current_issued_at)
        &&& self.serves(account, provider_kind)
    }

    pub open spec fn finds_installable(
        self,
        account: ProviderAccount,
        provider_kind: Seq<char>,
        history: Seq<HistoryEntry>,
        issued_at: i64,
        id: Option<i64>,
        now: int,
        at: int,
    ) -> bool {
        self.is_meant(history, issued_at, id, now, at) && self.installs_observed(
            account,
            provider_kind,
            history[at],
            issued_at,
        )
    }

    /// The installation of a ticket of the history.
    pub open spec fn is_installation_of(
        self,
        installation: TurnStateInstallation,
        entry: HistoryEntry,
        issued_at: i64,
        now: i64,
    ) -> bool {
        let observation = entry.observation;
        installation == (TurnStateInstallation {
            installed_at: now,
            issued_at,
            token_length: observation.token->0@.len() as usize,
            source: observation.source,
            acquired_at: observation.observed_at,
            attempts: match observation.hunt_attempts {
                Some(n) => n,
                None => 0,
            },
            hunt_seconds: match observation.hunt_seconds {
                Some(n) => n,
                None => 0,
            },
        })
    }

    pub open spec fn installed_from_history(
        self,
        after: TicketRow,
        installation: TurnStateInstallation,
        account: ProviderAccount,
        provider_kind: Seq<char>,
        history: Seq<HistoryEntry>,
        issued_at: i64,
        id: Option<i64>,
        now: i64,
    ) -> bool {
        exists|at: int| #[trigger]
            self.finds_installable(
                account,
                provider_kind,
                history,
                issued_at,
                id,
                now as int,
                at,
            ) && after == self.with_ticket(
                history[at].observation.token->0,
                issued_at,
                history[at].observation.reported_model,
                true,
            ) && self.is_installation_of(installation, history[at], issued_at, now)
    }

    /// Brings a ticket of the history into use, if it may.
    pub fn install_observed_turn_state(
        &mut self,
        account: &ProviderAccount,
        provider_kind: &str,
        history: &Vec<HistoryEntry>,
        issued_at: i64,
        id: Option<i64>,
        now: i64,
    ) -> (r: Option<TurnStateInstallation>)
        requires
            issued_at + old(self).config.refresh_after_seconds <= i64::MAX,
        ensures
            match r {
                Some(installation) => old(self).installed_from_history(
                    *final(self),
                    installation,
                    *account,
                    provider_kind@,
                    history@,
                    issued_at,
                    id,
                    now,
                ),
                None => *final(self) == *old(self) && forall|at: int|
                    !(#[trigger] old(self).finds_installable(
                        *account,
                        provider_kind@,
                        history@,
                        issued_at,
                        id,
                        now as int,
                        at,
                    )),
            },
    {
        let ghost start = *self;
        let at = match self.find_entry(history, issued_at, id, now) {
            Some(at) => at,
            None => {
                return None;
            },
        };
        let observation = &history[at].observation;
        let value = match &observation.token {
            Some(value) => value,
            None => {
                return None;
            },
        };
        let length: usize = char_count(value.as_str());
        if length != self.config.target_length || !comes_after(issued_at, self.current_issued_at)
            || !self.may_serve(account, provider_kind) {
            proof {
                assert forall|k: int|
                    !(#[trigger] start.finds_installable(
                        *account,
                        provider_kind@,
                        history@,
                        issued_at,
                        id,
                        now as int,
                        k,
                    )) by {
                    if start.is_meant(history@, issued_at, id, now as int, k) {
                        if k < at {
                            assert(!start.is_asked(history@[k], issued_at, id, now as int));
                        } else if at < k {
                            assert(!start.is_asked(history@[at as int], issued_at, id, now as int));
                        }
                    }
                }
            }
            return None;
        }
        let next: i64 = (issued_at as i128 + self.config.refresh_after_seconds as i128) as i64;
        self.current = Some(value.clone());
        self.current_issued_at = Some(issued_at);
        self.current_length = Some(length);
        self.attached_model = clone_optional(&observation.reported_model);
        self.manual_override = true;
        self.candidate = None;
        self.hunt_attempts = 0;
        self.hunt_started_at = None;
        self.next_probe_at = Some(next);
        let installation = TurnStateInstallation {
            installed_at: now,
            issued_at,
            token_length: length,
            source: observation.source.clone(),
            acquired_at: observation.observed_at,
            attempts: match observation.hunt_attempts {
                Some(n) => n,
                None => 0,
            },
            hunt_seconds: match observation.hunt_seconds {
                Some(n) => n,
                None => 0,
            },
        };
        proof {
            assert(start.finds_installable(
                *account,
                provider_kind@,
                history@,
                issued_at,
                id,
                now as int,
                at as int,
            ));
            assert(start.is_installation_of(installation, history@[at as int], issued_at, now));
        }
        Some(installation)
    }

    /// Brings the ticket into use that an administrator chose by its issue time:
    /// the candidate, or one of the history. Where an entry of the history is
    /// named, no other ticket takes its place.
    pub fn apply_turn_state(
        &mut self,
        account: &ProviderAccount,
        provider_kind: &str,
        history: &Vec<HistoryEntry>,
        issued_at: i64,
        id: Option<i64>,
        now: i64,
    ) -> (r: Result<TurnStateInstallation, AdminStoreError>)
        requires
            issued_at + old(self).config.refresh_after_seconds <= i64::MAX,
        ensures
            ({
                let by_candidate = id is None && old(self).installs(
                    *account,
                    provider_kind@,
                    Some(issued_at),
                    now as int,
                );
                match r {
                    Ok(installation) => if by_candidate {
                        &&& *final(self) == old(self).with_ticket(
                            old(self).candidate->0.value,
                            issued_at,
                            old(self).candidate->0.reported_model,
                            true,
                        )
                        &&& installation.installed_at == now && installation.issued_at == issued_at
                        &&& installation.source == old(self).candidate->0.source
                        &&& installation.acquired_at == old(self).candidate->0.observed_at
                        &&& installation.attempts == old(self).candidate->0.attempts
                        &&& installation.token_length == old(self).candidate->0.value@.len()
                        &&& installation.hunt_seconds == seconds_between(
                            old(self).candidate->0.hunt_started_at,
                            old(self).candidate->0.observed_at,
                        )
                    } else {
                        old(self).installed_from_history(
                            *final(self),
                            installation,
                            *account,
                            provider_kind@,
                            history@,
                            issued_at,
                            id,
                            now,
                        )
                    },
                    Err(error) => {
                        &&& *final(self) == *old(self)
                        &&& error.is(
                            AdminStoreErrorKind::Conflict,
                            "turn state expired or changed"@,
                        )
                        &&& !by_candidate
                        &&& forall|at: int|
                            !(#[trigger] old(self).finds_installable(
                                *account,
                                provider_kind@,
                                history@,
                                issued_at,
                                id,
                                now as int,
                                at,
                            ))
                    },
                }
            }),
    {
        if id.is_none() {
            if let Some(installation) = self.install_candidate(
                account,
                provider_kind,
                Some(issued_at),
                now,
            ) {
                return Ok(installation);
            }
        }
        match self.install_observed_turn_state(account, provider_kind, history, issued_at, id, now) {
            Some(installation) => Ok(installation),
            None => Err(
                AdminStoreError::new(AdminStoreErrorKind::Conflict, "turn state expired or changed"),
            ),
        }
    }

    /// The entry without a text that is no fresh ticket.
    pub open spec fn cleaned_entry(self, entry: HistoryEntry, now: int) -> HistoryEntry {
        HistoryEntry {
            observation: TurnStateObservation {
                token: match entry.observation.token {
                    Some(text) if is_fresh_envelope(
                        text@,
                        self.config.ttl_seconds as int,
                        now,
                    ) => Some(text),
                    _ => None,
                },
                ..entry.observation
            },
            ..entry
        }
    }

    /// Drops from a history the tickets that have outlived their time, that are not
    /// issued yet, or that cannot be read. Nothing else changes.
    pub fn clean_history(&self, history: Vec<HistoryEntry>, now: i64) -> (r: Vec<HistoryEntry>)
        ensures
            r@.len() == history@.len(),
            forall|i: int|
                0 <= i < r@.len() ==> #[trigger] r@[i] == self.cleaned_entry(
                    history@[i],
                    now as int,
                ),
    {
        let ghost all = history@;
        let mut rest = history;
        let mut r: Vec<HistoryEntry> = Vec::new();
        while rest.len() > 0
            invariant
                rest@.len() + r@.len() == all.len(),
                rest@ == all.take(rest@.len() as int),
                forall|i: int|
                    0 <= i < r@.len() ==> #[trigger] r@[i] == self.cleaned_entry(
                        all[i + rest@.len()],
                        now as int,
                    ),
            decreases rest@.len(),
        {
            let ghost done = r@;
            let ghost left = rest@;
            if let Some(last) = rest.pop() {
                let mut entry = last;
                let fresh = match &entry.observation.token {
                    Some(text) => has_fresh_envelope(text.as_str(), self.config.ttl_seconds, now),
                    None => false,
                };
                if !fresh {
                    entry.observation.token = None;
                }
                r.insert(0, entry);
                proof {
                    assert(rest@ =~= all.take(left.len() - 1));
                    assert forall|i: int| 0 <= i < r@.len() implies #[trigger] r@[i]
                        == self.cleaned_entry(all[i + rest@.len()], now as int) by {
                        if i > 0 {
                            assert(r@[i] == done[i - 1]);
                        }
                    }
                }
            }
        }
        r
    }

    /// What is shown of an entry: whether it holds a ticket and whether that is
    /// the one in use, but not the ticket.
    pub open spec fn shown(self, entry: HistoryEntry) -> ObservationView {
        ObservationView {
            observation_id: Some(signed_decimal(entry.id as int)),
            has_token: entry.observation.token is Some,
            is_installed: entry.observation.token is Some && self.current is Some
                && entry.observation.token->0@ == self.current->0@,
            token: None,
            ..entry.observation@
        }
    }

    /// What is shown of the history, the newest entry first.
    pub fn shown_observations(&self, history: &Vec<HistoryEntry>) -> (r: Vec<TurnStateObservation>)
        ensures
            r@.len() == history@.len(),
            forall|i: int|
                0 <= i < r@.len() ==> (#[trigger] r@[i])@ == self.shown(
                    history@[history@.len() - 1 - i],
                ),
    {
        let mut r: Vec<TurnStateObservation> = Vec::new();
        let mut i: usize = history.len();
        while i > 0
            invariant
                i <= history@.len(),
                r@.len() == history@.len() - i,
                forall|k: int|
                    0 <= k < r@.len() ==> (#[trigger] r@[k])@ == self.shown(
                        history@[history@.len() - 1 - k],
                    ),
            decreases i,
        {
            i -= 1;
            let entry = &history[i];
            let mut shown = entry.observation.clone();
            shown.observation_id = Some(signed_decimal_text(entry.id));
            shown.has_token = shown.token.is_some();
            shown.is_installed = match (&shown.token, &self.current) {
                (Some(one), Some(other)) => same_text(one.as_str(), other.as_str()),
                _ => false,
            };
            shown.token = None;
            r.push(shown);
        }
        r
    }
}

} // verus!
