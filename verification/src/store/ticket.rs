//! The stored ticket of an account and a model: the one in use, the candidate for
//! it, and the hunt for the next.

use crate::account::provider::ProviderAccount;
use crate::account::turn_state::{
    issue_time, ObservationView, TurnStateConfig, TurnStateInstallation, TurnStateObservation,
    TurnStateToken,
};
use crate::text::{
    byte_len, byte_length, chars_of, optional_text, same_optional_text, same_text,
};
use vstd::prelude::*;

verus! {

/// A ticket that was seen and may come into use.
pub struct Candidate {
    pub value: String,
    pub issued_at: i64,
    pub source: String,
    pub observed_at: i64,
    pub attempts: u64,
    pub hunt_started_at: i64,
    pub reported_model: Option<String>,
}

/// A cookie that an administrator fixed.
pub struct CookieOverride {
    pub pod: String,
    pub issued_at: Option<i64>,
    pub name: String,
    pub value: String,
    pub expires_at: i64,
    pub observation_id: i64,
}

/// The row of an account and a model. `current_issued_at` stays when the ticket
/// goes, so that no ticket that old comes back.
pub struct TicketRow {
    pub account_id: String,
    pub model: String,
    pub upstream_account_id: Option<String>,
    pub upstream_user_id: Option<String>,
    pub config: TurnStateConfig,
    pub current: Option<String>,
    pub current_issued_at: Option<i64>,
    pub current_length: Option<usize>,
    pub attached_model: Option<String>,
    pub candidate: Option<Candidate>,
    pub hunt_attempts: u64,
    pub hunt_started_at: Option<i64>,
    pub next_probe_at: Option<i64>,
    pub manual_probe_requested_at: Option<i64>,
    pub manual_override: bool,
    pub cookie_override: Option<CookieOverride>,
}

/// A time is later than a mark, or there is no mark.
pub open spec fn is_later(time: i64, mark: Option<i64>) -> bool {
    mark is None || time > mark->0
}

pub(crate) fn comes_after(time: i64, mark: Option<i64>) -> (r: bool)
    ensures
        r == is_later(time, mark),
{
    match mark {
        Some(mark) => time > mark,
        None => true,
    }
}

/// What was issued then has outlived its time.
pub open spec fn is_spent(issued_at: int, ttl_seconds: int, now: int) -> bool {
    issued_at + ttl_seconds <= now
}

pub(crate) fn has_spent(issued_at: i64, ttl_seconds: u64, now: i64) -> (r: bool)
    ensures
        r == is_spent(issued_at as int, ttl_seconds as int, now as int),
{
    issued_at as i128 + ttl_seconds as i128 <= now as i128
}

pub(crate) fn char_count(s: &str) -> (r: usize)
    ensures
        r == s@.len(),
{
    chars_of(s).len()
}

/// The text is the envelope of a ticket that is fresh.
pub open spec fn is_fresh_envelope(value: Seq<char>, ttl_seconds: int, now: int) -> bool {
    match issue_time(value) {
        Some(time) => 0 < time <= now && now - time < ttl_seconds,
        None => false,
    }
}

pub(crate) fn has_fresh_envelope(value: &str, ttl_seconds: u64, now: i64) -> (r: bool)
    ensures
        r == is_fresh_envelope(value@, ttl_seconds as int, now as int),
{
    match TurnStateToken::parse(value) {
        Some(token) => token.is_fresh(now, ttl_seconds),
        None => false,
    }
}

/// An observation as it is kept, and whether the history gets it.
pub struct Recorded {
    pub observation: TurnStateObservation,
    pub logged: bool,
}

/// An observation in the history of a row.
pub struct HistoryEntry {
    pub id: i64,
    pub observation: TurnStateObservation,
}

/// An observation that counts as an attempt of the hunt.
pub open spec fn is_attempt(observation: TurnStateObservation) -> bool {
    observation.source@ == "probe"@ && observation.probe_id is Some
}

pub open spec fn start_of(observation: TurnStateObservation) -> i64 {
    match observation.started_at {
        Some(time) => time,
        None => observation.observed_at,
    }
}

pub open spec fn one_more(n: u64) -> u64 {
    if n < u64::MAX {
        (n + 1) as u64
    } else {
        n
    }
}

pub open spec fn seconds_between(from: i64, to: i64) -> u64 {
    if to <= from {
        0
    } else if to - from <= i64::MAX {
        (to - from) as u64
    } else {
        i64::MAX as u64
    }
}

fn elapsed(from: i64, to: i64) -> (r: u64)
    ensures
        r == seconds_between(from, to),
{
    let difference: i128 = to as i128 - from as i128;
    if difference <= 0 {
        0
    } else if difference <= i64::MAX as i128 {
        difference as u64
    } else {
        i64::MAX as u64
    }
}

impl TicketRow {
    /// The row is of this upstream identity.
    pub open spec fn is_of(
        self,
        upstream_account_id: Option<String>,
        upstream_user_id: Option<String>,
    ) -> bool {
        &&& optional_text(self.upstream_account_id) == optional_text(upstream_account_id)
        &&& optional_text(self.upstream_user_id) == optional_text(upstream_user_id)
    }

    pub(crate) fn has_identity(
        &self,
        upstream_account_id: &Option<String>,
        upstream_user_id: &Option<String>,
    ) -> (r: bool)
        ensures
            r == self.is_of(*upstream_account_id, *upstream_user_id),
    {
        same_optional_text(&self.upstream_account_id, upstream_account_id) && same_optional_text(
            &self.upstream_user_id,
            upstream_user_id,
        )
    }

    /// The account may carry the tickets of the row now.
    pub open spec fn serves(self, account: ProviderAccount, provider_kind: Seq<char>) -> bool {
        &&& account.id@ == self.account_id@
        &&& account.enabled
        &&& provider_kind == "openai"@
        &&& account.authentication_kind@ == "oauth"@
        &&& self.is_of(account.upstream_account_id, account.upstream_user_id)
    }

    pub(crate) fn may_serve(&self, account: &ProviderAccount, provider_kind: &str) -> (r: bool)
        ensures
            r == self.serves(*account, provider_kind@),
    {
        same_text(account.id.as_str(), self.account_id.as_str()) && account.enabled && same_text(
            provider_kind,
            "openai",
        ) && same_text(account.authentication_kind.as_str(), "oauth") && self.has_identity(
            &account.upstream_account_id,
            &account.upstream_user_id,
        )
    }

    /// When the candidate was issued, as long as it is fresh.
    pub open spec fn held_candidate(self, now: int) -> Option<i64> {
        match self.candidate {
            Some(held) => if 0 < held.issued_at <= now && now - held.issued_at
                < self.config.ttl_seconds {
                Some(held.issued_at)
            } else {
                None
            },
            None => None,
        }
    }

    fn candidate_time(&self, now: i64) -> (r: Option<i64>)
        ensures
            r == self.held_candidate(now as int),
    {
        match &self.candidate {
            Some(held) => if 0 < held.issued_at && held.issued_at <= now && !has_spent(
                held.issued_at,
                self.config.ttl_seconds,
                now,
            ) {
                Some(held.issued_at)
            } else {
                None
            },
            None => None,
        }
    }

    /// A ticket is newer than all that the row knows.
    pub open spec fn is_news(self, issued_at: i64, now: int) -> bool {
        is_later(issued_at, self.current_issued_at) && is_later(issued_at, self.held_candidate(now))
    }

    /// A ticket becomes the candidate.
    pub open spec fn takes(self, token: TurnStateToken, now: int) -> bool {
        &&& byte_len(token.value@) == self.config.target_length
        &&& issue_time(token.value@) == Some(token.issued_at as nat) && token.issued_at >= 0
        &&& token.fresh(now, self.config.ttl_seconds as int)
        &&& self.is_news(token.issued_at, now)
    }

    /// The row after an attempt of the hunt.
    pub open spec fn after_attempt(self, observation: TurnStateObservation) -> TicketRow {
        if is_attempt(observation) {
            TicketRow {
                hunt_attempts: one_more(self.hunt_attempts),
                hunt_started_at: Some(
                    match self.hunt_started_at {
                        Some(time) => time,
                        None => start_of(observation),
                    },
                ),
                ..self
            }
        } else {
            self
        }
    }

    /// The row after an observation, with what it offered as a candidate.
    pub open spec fn after_observation(
        self,
        observation: TurnStateObservation,
        offered: Option<TurnStateToken>,
        now: int,
    ) -> TicketRow {
        let hunted = self.after_attempt(observation);
        match offered {
            Some(token) if self.takes(token, now) => {
                let probed = observation.source@ == "probe"@;
                TicketRow {
                    candidate: Some(
                        Candidate {
                            value: token.value,
                            issued_at: token.issued_at,
                            source: observation.source,
                            observed_at: observation.observed_at,
                            attempts: if probed {
                                hunted.hunt_attempts
                            } else {
                                0
                            },
                            hunt_started_at: if !probed {
                                observation.observed_at
                            } else {
                                match self.hunt_started_at {
                                    Some(time) => time,
                                    None => start_of(observation),
                                }
                            },
                            reported_model: observation.reported_model,
                        },
                    ),
                    ..hunted
                }
            },
            _ => hunted,
        }
    }

    /// The observation as it is kept: a ticket that came too late is no
    /// candidate, a text that is no fresh ticket is dropped, and an attempt says
    /// how far the hunt had come.
    pub open spec fn kept(
        self,
        observation: TurnStateObservation,
        offered: Option<TurnStateToken>,
        now: int,
    ) -> ObservationView {
        let hunted = self.after_attempt(observation);
        ObservationView {
            outcome: if observation.outcome@ == "candidate"@ && offered is Some && !self.is_news(
                offered->0.issued_at,
                now,
            ) {
                "not_newer"@
            } else {
                observation.outcome@
            },
            token: match observation.token {
                Some(text) if is_fresh_envelope(text@, self.config.ttl_seconds as int, now) => Some(
                    text@,
                ),
                _ => None,
            },
            hunt_attempts: if is_attempt(observation) {
                Some(hunted.hunt_attempts)
            } else {
                observation.hunt_attempts
            },
            hunt_seconds: if is_attempt(observation) {
                Some(seconds_between(hunted.hunt_started_at->0, observation.observed_at))
            } else {
                observation.hunt_seconds
            },
            ..observation@
        }
    }

    /// The history gets an observation.
    pub open spec fn logs(self, observation: TurnStateObservation, account_enabled: bool) -> bool {
        account_enabled && (self.config.enabled || self.config.cookie_lock_enabled || (
        observation.probe_trigger is Some && observation.probe_trigger->0@ == "manual"@))
    }

    /// Records an observation of the row's account and model. One that was made
    /// under another upstream identity is passed over.
    pub fn record_turn_state(
        &mut self,
        observation: TurnStateObservation,
        offered: Option<TurnStateToken>,
        account_enabled: bool,
        now: i64,
    ) -> (r: Option<Recorded>)
        ensures
            match r {
                Some(recorded) => {
                    &&& old(self).is_of(
                        observation.upstream_account_id,
                        observation.upstream_user_id,
                    )
                    &&& *final(self) == old(self).after_observation(
                        observation,
                        offered,
                        now as int,
                    )
                    &&& recorded.observation@ == old(self).kept(observation, offered, now as int)
                    &&& recorded.logged == old(self).logs(observation, account_enabled)
                },
                None => !old(self).is_of(
                    observation.upstream_account_id,
                    observation.upstream_user_id,
                ) && *final(self) == *old(self),
            },
    {
        if !self.has_identity(&observation.upstream_account_id, &observation.upstream_user_id) {
            return None;
        }
        let ghost start = *self;
        let mut kept = observation.clone();
        let candidate_time = self.candidate_time(now);
        let news = match &offered {
            Some(token) => comes_after(token.issued_at, self.current_issued_at) && comes_after(
                token.issued_at,
                candidate_time,
            ),
            None => true,
        };
        if same_text(observation.outcome.as_str(), "candidate") && !news {
            kept.outcome = "not_newer".to_owned();
        }
        let fresh_text = match &observation.token {
            Some(text) => has_fresh_envelope(text.as_str(), self.config.ttl_seconds, now),
            None => false,
        };
        if !fresh_text {
            kept.token = None;
        }
        let manual = match &observation.probe_trigger {
            Some(trigger) => same_text(trigger.as_str(), "manual"),
            None => false,
        };
        let logged = account_enabled && (self.config.enabled || self.config.cookie_lock_enabled
            || manual);
        let started: i64 = match observation.started_at {
            Some(time) => time,
            None => observation.observed_at,
        };
        let hunt_started: i64 = match self.hunt_started_at {
            Some(time) => time,
            None => started,
        };
        let probed = same_text(observation.source.as_str(), "probe");
        if probed && observation.probe_id.is_some() {
            if self.hunt_attempts < u64::MAX {
                self.hunt_attempts = self.hunt_attempts + 1;
            }
            self.hunt_started_at = Some(hunt_started);
            kept.hunt_attempts = Some(self.hunt_attempts);
            kept.hunt_seconds = Some(elapsed(hunt_started, observation.observed_at));
        }
        if let Some(token) = offered {
            let parsed = match TurnStateToken::parse(token.value.as_str()) {
                Some(parsed) => parsed.issued_at == token.issued_at,
                None => false,
            };
            if byte_length(token.value.as_str()) == self.config.target_length && parsed
                && token.is_fresh(now, self.config.ttl_seconds) && news {
                self.candidate = Some(
                    Candidate {
                        value: token.value,
                        issued_at: token.issued_at,
                        source: observation.source,
                        observed_at: observation.observed_at,
                        attempts: if probed {
                            self.hunt_attempts
                        } else {
                            0
                        },
                        hunt_started_at: if probed {
                            hunt_started
                        } else {
                            observation.observed_at
                        },
                        reported_model: observation.reported_model,
                    },
                );
            }
        }
        Some(Recorded { observation: kept, logged })
    }

    /// The ticket in use goes when it has outlived its time, and so does the
    /// candidate.
    pub open spec fn cleaned(self, now: int) -> TicketRow {
        TicketRow {
            current: if self.current_issued_at is Some && is_spent(
                self.current_issued_at->0 as int,
                self.config.ttl_seconds as int,
                now,
            ) {
                None
            } else {
                self.current
            },
            candidate: if self.candidate is Some && is_spent(
                self.candidate->0.issued_at as int,
                self.config.ttl_seconds as int,
                now,
            ) {
                None
            } else {
                self.candidate
            },
            ..self
        }
    }

    pub(crate) fn current_is_spent(&self, ttl_seconds: u64, now: i64) -> (r: bool)
        ensures
            r == (self.current_issued_at is Some && is_spent(
                self.current_issued_at->0 as int,
                ttl_seconds as int,
                now as int,
            )),
    {
        match self.current_issued_at {
            Some(time) => has_spent(time, ttl_seconds, now),
            None => false,
        }
    }

    pub(crate) fn candidate_is_spent(&self, ttl_seconds: u64, now: i64) -> (r: bool)
        ensures
            r == (self.candidate is Some && is_spent(
                self.candidate->0.issued_at as int,
                ttl_seconds as int,
                now as int,
            )),
    {
        match &self.candidate {
            Some(held) => has_spent(held.issued_at, ttl_seconds, now),
            None => false,
        }
    }

    /// Drops what has outlived its time.
    pub fn clean(&mut self, now: i64)
        ensures
            *final(self) == old(self).cleaned(now as int),
    {
        if self.current_is_spent(self.config.ttl_seconds, now) {
            self.current = None;
        }
        if self.candidate_is_spent(self.config.ttl_seconds, now) {
            self.candidate = None;
        }
    }

    /// The candidate may come into use. An administrator names the candidate by
    /// its issue time; without that, rotation has to be on.
    pub open spec fn installs(
        self,
        account: ProviderAccount,
        provider_kind: Seq<char>,
        expected: Option<i64>,
        now: int,
    ) -> bool {
        self.candidate is Some && {
            let held = self.candidate->0;
            &&& match expected {
                Some(time) => held.issued_at == time,
                None => self.config.enabled,
            }
            &&& held.value@.len() == self.config.target_length
            &&& held.issued_at <= now
            &&& !is_spent(held.issued_at as int, self.config.ttl_seconds as int, now)
            &&& is_later(held.issued_at, self.current_issued_at)
            &&& self.serves(account, provider_kind)
        }
    }

    /// The row with a ticket in use.
    pub open spec fn with_ticket(
        self,
        value: String,
        issued_at: i64,
        model: Option<String>,
        manual: bool,
    ) -> TicketRow {
        TicketRow {
            current: Some(value),
            current_issued_at: Some(issued_at),
            current_length: Some(value@.len() as usize),
            attached_model: model,
            manual_override: manual,
            candidate: None,
            hunt_attempts: 0,
            hunt_started_at: None,
            next_probe_at: Some((issued_at + self.config.refresh_after_seconds) as i64),
            ..self
        }
    }

    /// Brings the candidate into use, if it may.
    pub fn install_candidate(
        &mut self,
        account: &ProviderAccount,
        provider_kind: &str,
        expected: Option<i64>,
        now: i64,
    ) -> (r: Option<TurnStateInstallation>)
        requires
            old(self).candidate is Some && (expected is None || expected == Some(
                old(self).candidate->0.issued_at,
            )) ==> old(self).candidate->0.issued_at + old(self).config.refresh_after_seconds
                <= i64::MAX,
        ensures
            r is Some == old(self).installs(*account, provider_kind@, expected, now as int),
            match r {
                Some(installation) => {
                    let held = old(self).candidate->0;
                    &&& *final(self) == old(self).with_ticket(
                        held.value,
                        held.issued_at,
                        held.reported_model,
                        expected is Some,
                    )
                    &&& installation == (TurnStateInstallation {
                        installed_at: now,
                        issued_at: held.issued_at,
                        token_length: held.value@.len() as usize,
                        source: held.source,
                        acquired_at: held.observed_at,
                        attempts: held.attempts,
                        hunt_seconds: seconds_between(held.hunt_started_at, held.observed_at),
                    })
                },
                None => *final(self) == *old(self),
            },
    {
        let may_serve = self.may_serve(account, provider_kind);
        let allowed = match &self.candidate {
            Some(held) => {
                let chosen = match expected {
                    Some(time) => held.issued_at == time,
                    None => self.config.enabled,
                };
                chosen && char_count(held.value.as_str()) == self.config.target_length
                    && held.issued_at <= now && !has_spent(
                    held.issued_at,
                    self.config.ttl_seconds,
                    now,
                ) && comes_after(held.issued_at, self.current_issued_at) && may_serve
            },
            None => false,
        };
        if !allowed {
            return None;
        }
        let mut taken: Option<Candidate> = None;
        std::mem::swap(&mut taken, &mut self.candidate);
        match taken {
            Some(held) => {
                let length: usize = char_count(held.value.as_str());
                let next: i64 = (held.issued_at as i128 + self.config.refresh_after_seconds as i128) as i64;
                self.current = Some(held.value);
                self.current_issued_at = Some(held.issued_at);
                self.current_length = Some(length);
                self.attached_model = held.reported_model;
                self.manual_override = expected.is_some();
                self.hunt_attempts = 0;
                self.hunt_started_at = None;
                self.next_probe_at = Some(next);
                Some(
                    TurnStateInstallation {
                        installed_at: now,
                        issued_at: held.issued_at,
                        token_length: length,
                        source: held.source,
                        acquired_at: held.observed_at,
                        attempts: held.attempts,
                        hunt_seconds: elapsed(held.hunt_started_at, held.observed_at),
                    },
                )
            },
            None => None,
        }
    }
}

} // verus!
