use turn_state_gateway::account::provider::{ProviderAccount, ProviderAccountId};
use turn_state_gateway::account::selection::{
    AccountCandidate, AccountSchedulingBlocker, AccountSelector, CapacitySnapshot,
    PreferredAccountSelection, RotationStrategy, SchedulingSignals, SelectionContext,
};
use turn_state_gateway::account::turn_state::TurnStateAvailability;

fn candidate_with_concurrency(id: &str, in_flight: u32, limit: u32) -> AccountCandidate {
    AccountCandidate {
        account: ProviderAccount {
            id: ProviderAccountId::new(id),
            name: id.to_owned(),
            upstream_account_id: None,
            upstream_user_id: None,
            authentication_kind: "oauth".to_owned(),
            enabled: true,
        },
        signals: SchedulingSignals {
            in_flight,
            concurrency_limit: limit,
            quota_remaining_rank: None,
            quota_resets_at: None,
            failure_rate_basis_points: None,
            first_output_latency_ms: None,
            turn_state: TurnStateAvailability::Optional,
        },
    }
}

fn candidate(id: &str, in_flight: u32, quota: Option<u64>) -> AccountCandidate {
    let mut candidate = candidate_with_concurrency(id, in_flight, 10);
    candidate.signals.quota_remaining_rank = quota;
    candidate
}

fn context(strategy: RotationStrategy) -> SelectionContext {
    SelectionContext {
        strategy,
        preferred_account: None,
        round_robin_cursor: 0,
        now: 1_800_000_000,
    }
}

#[test]
fn missing_ticket_blocks_sticky_selection_capacity_and_waiting_until_installed() {
    for strategy in [
        RotationStrategy::Smart,
        RotationStrategy::Sticky,
        RotationStrategy::RoundRobin,
        RotationStrategy::QuotaResetPriority,
    ] {
        let mut context = context(strategy);
        let mut candidates = vec![
            candidate("acct_waiting", 0, None),
            candidate("acct_ready", 0, None),
        ];
        context.preferred_account = Some(candidates[0].account.id().clone());
        candidates[0].signals.turn_state = TurnStateAvailability::Required { expires_at: None };
        let selected = AccountSelector.select(&candidates, &context).unwrap();
        assert_eq!(selected.candidate().account.id().as_str(), "acct_ready");
        assert_eq!(
            selected.preferred(),
            PreferredAccountSelection::Blocked(AccountSchedulingBlocker::MissingTurnState)
        );
        assert!(AccountSelector.select(&candidates[..1], &context).is_none());
        assert!(AccountSelector
            .wait_candidates(&candidates[..1], &context)
            .is_empty());
        assert!(AccountSelector
            .capacity_snapshot(&candidates[..1], &context)
            .is_none());
        let expires_at = context.now + 1;
        candidates[0].signals.turn_state = TurnStateAvailability::Required {
            expires_at: Some(expires_at),
        };
        assert_eq!(
            AccountSelector
                .select(&candidates, &context)
                .unwrap()
                .candidate()
                .account
                .id()
                .as_str(),
            "acct_waiting"
        );
        context.now = expires_at;
        assert_eq!(
            AccountSelector
                .select(&candidates, &context)
                .unwrap()
                .candidate()
                .account
                .id()
                .as_str(),
            "acct_ready"
        );
        assert!(AccountSelector
            .wait_candidates(&candidates[..1], &context)
            .is_empty());
        context.now -= 1;
        candidates[0].account.enabled = false;
        assert!(AccountSelector.select(&candidates[..1], &context).is_none());
    }
}

fn smart_selection_ids(candidates: &[AccountCandidate]) -> Vec<&str> {
    let mut selection = context(RotationStrategy::Smart);
    (0..20)
        .map(|cursor| {
            selection.round_robin_cursor = cursor;
            AccountSelector
                .select(candidates, &selection)
                .expect("candidate available")
                .candidate()
                .account
                .id()
                .as_str()
        })
        .collect()
}

#[test]
fn smart_selector_should_rotate_despite_small_signal_differences() {
    for signal in ["quota", "latency", "load", "failure"] {
        let mut candidates = [
            candidate_with_concurrency("acct_a", 0, 100),
            candidate_with_concurrency("acct_b", 0, 100),
        ];
        match signal {
            "quota" => {
                candidates[0].signals.quota_remaining_rank = Some(600);
                candidates[1].signals.quota_remaining_rank = Some(601);
            }
            "latency" => {
                candidates[0].signals.first_output_latency_ms = Some(2_500);
                candidates[1].signals.first_output_latency_ms = Some(2_501);
            }
            "load" => candidates[0].signals.in_flight = 1,
            "failure" => candidates[0].signals.failure_rate_basis_points = Some(1),
            _ => unreachable!(),
        }
        let selected = smart_selection_ids(&candidates);

        assert_eq!(selected, ["acct_a", "acct_b"].repeat(10), "{signal}");
    }
}

#[test]
fn smart_selector_should_keep_rotation_order_when_nearby_scores_cross() {
    let mut candidates = [
        candidate("acct_a", 0, Some(8_000)),
        candidate("acct_b", 0, Some(8_001)),
        candidate("acct_worse", 0, Some(2_000)),
    ];
    let mut selection = context(RotationStrategy::Smart);
    let mut selected = Vec::new();
    for cursor in 0..20 {
        selection.round_robin_cursor = cursor;
        for candidate in &mut candidates {
            match candidate.account.id().as_str() {
                "acct_a" => candidate.signals.quota_remaining_rank = Some(8_000 + cursor % 2),
                "acct_b" => candidate.signals.quota_remaining_rank = Some(8_001 - cursor % 2),
                _ => {}
            }
        }
        candidates.reverse();
        selected.push(
            AccountSelector
                .select(&candidates, &selection)
                .expect("candidate available")
                .candidate()
                .account
                .id()
                .as_str()
                .to_owned(),
        );
    }

    assert_eq!(selected, ["acct_a", "acct_b"].repeat(10));
}

#[test]
fn smart_selector_should_only_rotate_among_candidates_close_to_the_best() {
    let candidates = [
        candidate("acct_a", 0, Some(10_000)),
        candidate("acct_b", 0, Some(9_500)),
        candidate("acct_c", 0, Some(9_000)),
    ];

    assert_eq!(
        smart_selection_ids(&candidates),
        ["acct_a", "acct_b"].repeat(10)
    );
}

#[test]
fn smart_selector_should_preserve_material_signal_advantages() {
    for signal in ["quota", "latency", "load", "failure"] {
        let mut candidates = [
            candidate_with_concurrency("acct_a", 0, 10),
            candidate_with_concurrency("acct_b", 0, 10),
        ];
        match signal {
            "quota" => {
                candidates[0].signals.quota_remaining_rank = Some(600);
                candidates[1].signals.quota_remaining_rank = Some(2_600);
            }
            "latency" => {
                candidates[0].signals.first_output_latency_ms = Some(20_000);
                candidates[1].signals.first_output_latency_ms = Some(2_500);
            }
            "load" => candidates[0].signals.in_flight = 1,
            "failure" => candidates[0].signals.failure_rate_basis_points = Some(2_000),
            _ => unreachable!(),
        }

        assert_eq!(smart_selection_ids(&candidates), ["acct_b"; 20], "{signal}");
    }
}

#[test]
fn smart_selector_should_balance_actual_load_against_remaining_quota() {
    let mut candidates = [
        candidate_with_concurrency("acct_a", 0, 10),
        candidate_with_concurrency("acct_b", 1, 10),
    ];
    candidates[0].signals.quota_remaining_rank = Some(600);
    candidates[1].signals.quota_remaining_rank = Some(2_600);

    assert_eq!(smart_selection_ids(&candidates), ["acct_b"; 20]);
}

#[test]
fn smart_selector_should_treat_unknown_quota_as_neutral() {
    let candidates = [
        candidate("acct_known_low", 0, Some(600)),
        candidate("acct_unknown", 0, None),
    ];

    assert_eq!(smart_selection_ids(&candidates), ["acct_unknown"; 20]);
}

#[test]
fn a_full_account_is_waited_for() {
    let candidates = [
        candidate_with_concurrency("acct_full", 4, 4),
        candidate_with_concurrency("acct_free", 1, 4),
    ];
    let mut context = context(RotationStrategy::RoundRobin);
    context.preferred_account = Some(ProviderAccountId::new("acct_full"));
    let selected = AccountSelector.select(&candidates, &context).unwrap();
    assert_eq!(selected.candidate().account.id().as_str(), "acct_free");
    assert_eq!(
        selected.preferred(),
        PreferredAccountSelection::Blocked(AccountSchedulingBlocker::AtCapacity)
    );
    assert_eq!(AccountSelector.wait_candidates(&candidates, &context), [0]);
    assert_eq!(
        AccountSelector.capacity_snapshot(&candidates, &context),
        Some(CapacitySnapshot {
            in_flight: 5,
            limit: 8
        })
    );
    context.preferred_account = Some(ProviderAccountId::new("acct_gone"));
    assert_eq!(
        AccountSelector
            .select(&candidates, &context)
            .unwrap()
            .preferred(),
        PreferredAccountSelection::Absent
    );
    context.preferred_account = None;
    assert_eq!(
        AccountSelector
            .select(&candidates, &context)
            .unwrap()
            .preferred(),
        PreferredAccountSelection::NotRequested
    );
}

#[test]
fn the_quota_that_is_renewed_first_is_used_first() {
    let mut candidates = [
        candidate("acct_a", 0, None),
        candidate("acct_b", 0, None),
        candidate("acct_c", 0, None),
    ];
    candidates[1].signals.quota_resets_at = Some(200);
    candidates[2].signals.quota_resets_at = Some(100);
    let context = context(RotationStrategy::QuotaResetPriority);
    assert_eq!(
        AccountSelector
            .select(&candidates, &context)
            .unwrap()
            .candidate()
            .account
            .id()
            .as_str(),
        "acct_c"
    );
}
