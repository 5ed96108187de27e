//! What administrators and the hunt change in the stored ticket of an account and
//! a model.

use crate::account::provider::ProviderAccount;
use crate::account::turn_state::{TurnStateConfig, TurnStateObservation, TurnStateToken};
use crate::store::error::{AdminStoreError, AdminStoreErrorKind};
use crate::store::ticket::{char_count, is_spent, CookieOverride, TicketRow};
use crate::text::{clone_optional, same_ignoring_case, same_text, same_text_ignoring_case};
use vstd::prelude::*;

verus! {

/// How many different texts a list holds.
pub open spec fn distinct(list: Seq<String>) -> nat {
    list.map_values(|s: String| s@).to_set().len()
}

fn count_distinct(list: &Vec<String>) -> (r: usize)
    ensures
        r == distinct(list@),
{
    let ghost all = list@.map_values(|s: String| s@);
    let mut seen: Vec<usize> = Vec::new();
    let mut i: usize = 0;
    proof {
        assert(all.take(0).to_set() =~= Set::empty());
    }
    while i < list.len()
        invariant
            i <= list@.len(),
            all == list@.map_values(|s: String| s@),
            seen@.len() == all.take(i as int).to_set().len(),
            all.take(i as int).to_set().finite(),
            forall|j: int| 0 <= j < seen@.len() ==> #[trigger] seen@[j] < i,
            forall|s: Seq<char>| #[trigger]
                all.take(i as int).to_set().contains(s) ==> exists|j: int|
                    0 <= j < seen@.len() && all[#[trigger] seen@[j] as int] == s,
        decreases list@.len() - i,
    {
        let mut known = false;
        let mut j: usize = 0;
        while j < seen.len()
            invariant
                i < list@.len(),
                j <= seen@.len(),
                all == list@.map_values(|s: String| s@),
                forall|j: int| 0 <= j < seen@.len() ==> #[trigger] seen@[j] < i,
                known ==> exists|k: int|
                    0 <= k < seen@.len() && all[#[trigger] seen@[k] as int] == all[i as int],
                !known ==> forall|k: int|
                    0 <= k < j ==> all[#[trigger] seen@[k] as int] != all[i as int],
            decreases seen@.len() - j,
        {
            assert(seen@[j as int] < i);
            if same_text(list[seen[j]].as_str(), list[i].as_str()) {
                known = true;
            }
            j += 1;
        }
        proof {
            let before = all.take(i as int);
            let after = all.take(i + 1);
            assert(after.to_set() =~= before.to_set().insert(all[i as int])) by {
                assert forall|s: Seq<char>| #[trigger]
                    after.to_set().contains(s) == before.to_set().insert(all[i as int]).contains(
                        s,
                    ) by {
                    if after.contains(s) {
                        let k = choose|k: int| 0 <= k < after.len() && after[k] == s;
                        if k < i {
                            assert(before[k] == s);
                        }
                    }
                    if before.contains(s) {
                        let k = choose|k: int| 0 <= k < before.len() && before[k] == s;
                        assert(after[k] == s);
                    }
                    assert(after[i as int] == all[i as int]);
                }
            }
            if known {
                let k = choose|k: int|
                    0 <= k < seen@.len() && all[#[trigger] seen@[k] as int] == all[i as int];
                assert(before[seen@[k] as int] == all[i as int]);
                assert(before.to_set().contains(all[i as int]));
                assert(after.to_set() =~= before.to_set());
            } else {
                if before.to_set().contains(all[i as int]) {
                    assert(false);
                }
            }
        }
        let ghost old_seen = seen@;
        if !known {
            seen.push(i);
        }
        proof {
            let before = all.take(i as int);
            let after = all.take(i + 1);
            assert forall|s: Seq<char>| #[trigger] after.to_set().contains(s) implies exists|j: int|
                0 <= j < seen@.len() && all[#[trigger] seen@[j] as int] == s by {
                if before.to_set().contains(s) {
                    let k = choose|k: int|
                        0 <= k < old_seen.len() && all[#[trigger] old_seen[k] as int] == s;
                    assert(seen@[k] == old_seen[k]);
                } else {
                    assert(s == all[i as int]);
                    assert(!known);
                    assert(seen@[old_seen.len() as int] == i);
                }
            }
        }
        i += 1;
    }
    proof {
        assert(all.take(list@.len() as int) =~= all);
    }
    seen.len()
}

/// A configuration can be saved. `known_proxies` is how many of its proxies exist.
pub fn check_configuration(config: &TurnStateConfig, known_proxies: u64) -> (r: Result<
    (),
    AdminStoreError,
>)
    ensures
        match r {
            Ok(_) => config.valid() && known_proxies == distinct(config.proxy_ids@),
            Err(error) => if !config.valid() {
                error.is(AdminStoreErrorKind::Invalid, "invalid turn state configuration"@)
            } else {
                &&& known_proxies != distinct(config.proxy_ids@)
                &&& error.is(AdminStoreErrorKind::Invalid, "selected proxy does not exist"@)
            },
        },
{
    if !config.is_valid() {
        return Err(
            AdminStoreError::new(AdminStoreErrorKind::Invalid, "invalid turn state configuration"),
        );
    }
    if known_proxies as u128 != count_distinct(&config.proxy_ids) as u128 {
        return Err(
            AdminStoreError::new(AdminStoreErrorKind::Invalid, "selected proxy does not exist"),
        );
    }
    Ok(())
}

impl TicketRow {
    /// A row without tickets for an account and a model.
    pub open spec fn is_blank_for(self, account: ProviderAccount, model: Seq<char>) -> bool {
        &&& self.account_id@ == account.id@
        &&& self.model@ == model
        &&& self.is_of(account.upstream_account_id, account.upstream_user_id)
        &&& self.current is None
        &&& self.current_issued_at is None
        &&& self.current_length is None
        &&& self.attached_model is None
        &&& self.candidate is None
        &&& self.hunt_attempts == 0
        &&& self.hunt_started_at is None
        &&& self.next_probe_at is None
        &&& self.manual_probe_requested_at is None
        &&& !self.manual_override
        &&& self.cookie_override is None
    }

    pub fn new(account: &ProviderAccount, model: &str, config: TurnStateConfig) -> (r: TicketRow)
        ensures
            r.is_blank_for(*account, model@),
            r.config == config,
    {
        TicketRow {
            account_id: account.id.as_str().to_owned(),
            model: model.to_owned(),
            upstream_account_id: clone_optional(&account.upstream_account_id),
            upstream_user_id: clone_optional(&account.upstream_user_id),
            config,
            current: None,
            current_issued_at: None,
            current_length: None,
            attached_model: None,
            candidate: None,
            hunt_attempts: 0,
            hunt_started_at: None,
            next_probe_at: None,
            manual_probe_requested_at: None,
            manual_override: false,
            cookie_override: None,
        }
    }

    /// The row of an account whose upstream identity may have changed: nothing of
    /// the old identity stays but the configuration.
    pub fn follow_identity(self, account: &ProviderAccount) -> (r: TicketRow)
        requires
            self.account_id@ == account.id@,
        ensures
            if self.is_of(account.upstream_account_id, account.upstream_user_id) {
                r == self
            } else {
                r.is_blank_for(*account, self.model@) && r.config == self.config
            },
    {
        if self.has_identity(&account.upstream_account_id, &account.upstream_user_id) {
            self
        } else {
            TicketRow::new(account, self.model.as_str(), self.config)
        }
    }

    /// The ticket in use fits a configuration.
    pub open spec fn current_fits(self, config: TurnStateConfig, now: int) -> bool {
        &&& self.current is Some ==> self.current->0@.len() == config.target_length
        &&& self.current_issued_at is Some ==> !is_spent(
            self.current_issued_at->0 as int,
            config.ttl_seconds as int,
            now,
        )
    }

    pub open spec fn candidate_fits(self, config: TurnStateConfig, now: int) -> bool {
        self.candidate is Some ==> self.candidate->0.value@.len() == config.target_length
            && !is_spent(self.candidate->0.issued_at as int, config.ttl_seconds as int, now)
    }

    /// The row with another configuration: what fits it stays.
    pub open spec fn configured(self, config: TurnStateConfig, now: int) -> TicketRow {
        let fits = self.current_fits(config, now);
        TicketRow {
            config,
            next_probe_at: None,
            manual_override: self.manual_override && fits && self.current is Some
                && self.current_issued_at is Some,
            current: if fits {
                self.current
            } else {
                None
            },
            candidate: if self.candidate_fits(config, now) {
                self.candidate
            } else {
                None
            },
            ..self
        }
    }

    /// Saves a configuration. A ticket in use that is still good stays.
    pub fn configure(&mut self, config: TurnStateConfig, now: i64)
        ensures
            *final(self) == old(self).configured(config, now as int),
    {
        let length_fits = match &self.current {
            Some(value) => char_count(value.as_str()) == config.target_length,
            None => true,
        };
        let fits = length_fits && !self.current_is_spent(config.ttl_seconds, now);
        let candidate_length_fits = match &self.candidate {
            Some(held) => char_count(held.value.as_str())
                == config.target_length,
            None => true,
        };
        let candidate_fits = candidate_length_fits && !self.candidate_is_spent(
            config.ttl_seconds,
            now,
        );
        self.manual_override = self.manual_override && fits && self.current.is_some()
            && self.current_issued_at.is_some();
        if !fits {
            self.current = None;
        }
        if !candidate_fits {
            self.candidate = None;
        }
        self.next_probe_at = None;
        self.config = config;
    }

    /// The row without its ticket. When the ticket was issued stays, so that an
    /// answer on its way, or the hunt, cannot bring it back.
    pub open spec fn without_ticket(self) -> TicketRow {
        TicketRow {
            current: None,
            attached_model: None,
            manual_override: false,
            next_probe_at: None,
            ..self
        }
    }

    /// Takes the ticket in use out, if it is the one that was issued then.
    pub fn remove_turn_state(&mut self, issued_at: i64) -> (r: Result<(), AdminStoreError>)
        ensures
            r is Ok == (old(self).current is Some && old(self).current_issued_at == Some(issued_at)),
            match r {
                Ok(_) => *final(self) == old(self).without_ticket(),
                Err(error) => *final(self) == *old(self) && error.is(
                    AdminStoreErrorKind::Conflict,
                    "installed state changed or already removed"@,
                ),
            },
    {
        let named = match self.current_issued_at {
            Some(time) => time == issued_at,
            None => false,
        };
        if !named || self.current.is_none() {
            return Err(
                AdminStoreError::new(
                    AdminStoreErrorKind::Conflict,
                    "installed state changed or already removed",
                ),
            );
        }
        self.current = None;
        self.attached_model = None;
        self.manual_override = false;
        self.next_probe_at = None;
        Ok(())
    }

    /// Fixes a cookie for the row.
    pub fn apply_turn_state_cookie(&mut self, fixed: CookieOverride) -> (r: Result<
        (),
        AdminStoreError,
    >)
        ensures
            r is Ok == (old(self).config.cookie_lock_enabled && fixed.name@.len() > 0
                && fixed.value@.len() > 0),
            match r {
                Ok(_) => *final(self) == (TicketRow {
                    cookie_override: Some(fixed),
                    next_probe_at: None,
                    ..*old(self)
                }),
                Err(error) => *final(self) == *old(self) && error.is(
                    AdminStoreErrorKind::Conflict,
                    "routing cookie expired or model mismatched"@,
                ),
            },
    {
        if !self.config.cookie_lock_enabled || fixed.name.as_str().is_empty()
            || fixed.value.as_str().is_empty() {
            return Err(
                AdminStoreError::new(
                    AdminStoreErrorKind::Conflict,
                    "routing cookie expired or model mismatched",
                ),
            );
        }
        self.cookie_override = Some(fixed);
        self.next_probe_at = None;
        Ok(())
    }

    /// Lets go of the fixed cookie.
    pub fn remove_turn_state_cookie(&mut self) -> (r: Result<(), AdminStoreError>)
        ensures
            r is Ok == old(self).cookie_override is Some,
            match r {
                Ok(_) => *final(self) == (TicketRow {
                    cookie_override: None,
                    next_probe_at: None,
                    ..*old(self)
                }),
                Err(error) => *final(self) == *old(self) && error.is(
                    AdminStoreErrorKind::Conflict,
                    "routing cookie override is already removed"@,
                ),
            },
    {
        if self.cookie_override.is_none() {
            return Err(
                AdminStoreError::new(
                    AdminStoreErrorKind::Conflict,
                    "routing cookie override is already removed",
                ),
            );
        }
        self.cookie_override = None;
        self.next_probe_at = None;
        Ok(())
    }

    /// Asks for a probe. A request that waits already keeps its time.
    pub fn request_turn_state_probe(
        &mut self,
        account: &ProviderAccount,
        provider_kind: &str,
        now: i64,
    ) -> (r: Result<(), AdminStoreError>)
        ensures
            r is Ok == (account.enabled && provider_kind@ == "openai"@
                && account.authentication_kind@ == "oauth"@),
            match r {
                Ok(_) => *final(self) == (TicketRow {
                    manual_probe_requested_at: Some(
                        match old(self).manual_probe_requested_at {
                            Some(time) => time,
                            None => now,
                        },
                    ),
                    ..*old(self)
                }),
                Err(error) => *final(self) == *old(self) && error.is(
                    AdminStoreErrorKind::Unavailable,
                    "request turn state probe"@,
                ),
            },
    {
        if !account.enabled || !same_text(provider_kind, "openai") || !same_text(
            account.authentication_kind.as_str(),
            "oauth",
        ) {
            return Err(
                AdminStoreError::new(AdminStoreErrorKind::Unavailable, "request turn state probe"),
            );
        }
        if self.manual_probe_requested_at.is_none() {
            self.manual_probe_requested_at = Some(now);
        }
        Ok(())
    }

    /// Takes up the request for a probe, once.
    pub fn claim_turn_state_probe(&mut self) -> (r: bool)
        ensures
            r == old(self).manual_probe_requested_at is Some,
            *final(self) == (TicketRow { manual_probe_requested_at: None, ..*old(self) }),
    {
        let waits = self.manual_probe_requested_at.is_some();
        self.manual_probe_requested_at = None;
        waits
    }

    /// The ticket that a request carried is the one in use.
    pub open spec fn carries(self, sent: Seq<char>) -> bool {
        self.current is Some && self.current->0@ == sent
    }

    /// Another model answered than the ticket is attached to.
    pub open spec fn is_detached(self, reported: Seq<char>) -> bool {
        self.attached_model is Some && !same_ignoring_case(self.attached_model->0@, reported)
    }

    /// Takes note of the model that answered a request with a ticket, and says
    /// whether the ticket was taken out because another model answered.
    pub fn observe_installed_model(&mut self, sent: &str, reported: &str, revoke: bool) -> (r: bool)
        ensures
            r == (old(self).carries(sent@) && old(self).is_detached(reported@) && revoke),
            r ==> *final(self) == old(self).without_ticket(),
            !r && old(self).carries(sent@) && old(self).attached_model is None ==> {
                &&& final(self).attached_model is Some
                &&& final(self).attached_model->0@ == reported@
                &&& *final(self) == (TicketRow {
                    attached_model: final(self).attached_model,
                    ..*old(self)
                })
            },
            !r && (!old(self).carries(sent@) || old(self).attached_model is Some) ==> *final(self)
                == *old(self),
    {
        let carried = match &self.current {
            Some(value) => same_text(value.as_str(), sent),
            None => false,
        };
        if !carried {
            return false;
        }
        let detached = match &self.attached_model {
            Some(model) => !same_text_ignoring_case(model.as_str(), reported),
            None => {
                self.attached_model = Some(reported.to_owned());
                return false;
            },
        };
        if !detached || !revoke {
            return false;
        }
        self.current = None;
        self.attached_model = None;
        self.manual_override = false;
        self.next_probe_at = None;
        true
    }
}

/// A ticket that was taken out does not come back: neither it nor an older one is
/// taken as a candidate or comes into use.
pub proof fn a_removed_ticket_stays_out(
    row: TicketRow,
    token: TurnStateToken,
    account: ProviderAccount,
    provider_kind: Seq<char>,
    expected: Option<i64>,
    now: int,
)
    requires
        row.current_issued_at is Some,
        token.issued_at <= row.current_issued_at->0,
    ensures
        !row.without_ticket().takes(token, now),
        row.candidate is Some && row.candidate->0.issued_at == token.issued_at
            ==> !row.without_ticket().installs(account, provider_kind, expected, now),
{
}

/// An observation changes neither the ticket in use nor what an administrator set:
/// at most the candidate and the count of the hunt.
pub proof fn an_observation_leaves_the_ticket_alone(
    row: TicketRow,
    observation: TurnStateObservation,
    offered: Option<TurnStateToken>,
    now: int,
)
    ensures
        ({
            let after = row.after_observation(observation, offered, now);
            after == (TicketRow {
                candidate: after.candidate,
                hunt_attempts: after.hunt_attempts,
                hunt_started_at: after.hunt_started_at,
                ..row
            })
        }),
{
}

/// Saving a configuration never brings a ticket in, and keeps the one in use as
/// long as it fits.
pub proof fn a_configuration_keeps_a_good_ticket(row: TicketRow, config: TurnStateConfig, now: int)
    ensures
        row.current_fits(config, now) ==> row.configured(config, now).current == row.current,
        row.configured(config, now).current is Some ==> row.configured(config, now).current
            == row.current,
        row.configured(config, now).current_issued_at == row.current_issued_at,
{
}

/// A candidate comes into use once: afterwards it is the ticket in use, no candidate
/// is left, the hunt begins anew, and another attempt, whoever makes it, installs
/// nothing.
pub proof fn a_candidate_installs_once(
    row: TicketRow,
    account: ProviderAccount,
    provider_kind: Seq<char>,
    expected: Option<i64>,
    now: int,
    other_account: ProviderAccount,
    other_kind: Seq<char>,
    other_expected: Option<i64>,
    later: int,
)
    requires
        row.installs(account, provider_kind, expected, now),
    ensures
        ({
            let held = row.candidate->0;
            let after = row.with_ticket(
                held.value,
                held.issued_at,
                held.reported_model,
                expected is Some,
            );
            &&& after.current == Some(held.value)
            &&& after.current_issued_at == Some(held.issued_at)
            &&& after.candidate is None && after.hunt_attempts == 0
            &&& held.value@.len() == row.config.target_length
            &&& expected is None ==> row.config.enabled
            &&& expected is Some ==> expected == Some(held.issued_at)
            &&& !after.installs(other_account, other_kind, other_expected, later)
        }),
{
}

/// A ticket comes into use only if it was issued after the last one.
pub proof fn tickets_only_get_newer(
    row: TicketRow,
    account: ProviderAccount,
    provider_kind: Seq<char>,
    expected: Option<i64>,
    now: int,
)
    requires
        row.installs(account, provider_kind, expected, now),
        row.current_issued_at is Some,
    ensures
        row.candidate->0.issued_at > row.current_issued_at->0,
        row.with_ticket(
            row.candidate->0.value,
            row.candidate->0.issued_at,
            row.candidate->0.reported_model,
            expected is Some,
        ).current_issued_at == Some(row.candidate->0.issued_at),
{
}

} // verus!
