//! What the hunt makes of a stored ticket, from one cycle to the next.

use crate::account::provider::ProviderAccount;
use crate::account::turn_state::{TurnStateBucket, TurnStateObservation, TurnStateToken};
use crate::probe::plan::begun_probe;
use crate::probe::worker::{first_step_of, probes_made, FirstStep};
use crate::store::ticket::TicketRow;
use vstd::prelude::*;

verus! {

/// The bucket was made of the row, as far as the hunt decides by it.
pub open spec fn is_bucket_of(bucket: TurnStateBucket, row: TicketRow) -> bool {
    &&& bucket.config.same_as(row.config)
    &&& bucket.manual_probe_requested_at == row.manual_probe_requested_at
}

/// The row after the probe that was asked for by hand: the request is taken up,
/// and the probe is recorded with the ticket that it offered.
pub open spec fn after_manual_probe(
    row: TicketRow,
    observation: TurnStateObservation,
    offered: Option<TurnStateToken>,
    now: int,
) -> TicketRow {
    (TicketRow { manual_probe_requested_at: None, ..row }).after_observation(
        observation,
        offered,
        now,
    )
}

/// A probe that was asked for by hand is made once and leaves rotation off. The
/// cycle that claims it makes one probe, which is noted as made by hand; the cycle
/// after it makes none. The configuration and the ticket in use stay as they were,
/// and the ticket of the probe waits as a candidate, which does not come into use
/// by itself.
pub proof fn a_manual_probe_runs_once(
    row: TicketRow,
    first: TurnStateBucket,
    second: TurnStateBucket,
    observation: TurnStateObservation,
    offered: Option<TurnStateToken>,
    account: ProviderAccount,
    provider_kind: Seq<char>,
    now: i64,
    later: int,
)
    requires
        !row.config.enabled,
        !row.config.cookie_lock_enabled,
        row.manual_probe_requested_at is Some,
        is_bucket_of(first, row),
        observation@.probe_trigger == begun_probe(first, true, now).probe_trigger,
        is_bucket_of(second, after_manual_probe(row, observation, offered, now as int)),
    ensures
        ({
            let after = after_manual_probe(row, observation, offered, now as int);
            &&& first_step_of(first, now as int) == FirstStep::ClaimManual
            &&& forall|installed: bool| #[trigger]
                probes_made(
                    first,
                    row.manual_probe_requested_at is Some,
                    installed,
                    now as int,
                ) == 1
            &&& forall|claimed: bool, installed: bool| #[trigger]
                probes_made(second, claimed, installed, later) == 0
            &&& observation@.probe_trigger == Some("manual"@)
            &&& row.logs(observation, true)
            &&& after.manual_probe_requested_at is None
            &&& after.config == row.config
            &&& after.current == row.current && after.current_issued_at == row.current_issued_at
            &&& match offered {
                Some(token) if row.takes(token, now as int) => after.candidate is Some
                    && after.candidate->0.value == token.value && after.candidate->0.issued_at
                    == token.issued_at,
                _ => after.candidate == row.candidate,
            }
            &&& !after.installs(account, provider_kind, None, later)
        }),
{
}

} // verus!
