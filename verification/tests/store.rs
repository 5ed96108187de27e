use base64::engine::general_purpose::URL_SAFE;
use base64::Engine as _;
use turn_state_gateway::account::cookie_lock::{RoutingCookie, RoutingCookieObservation};
use turn_state_gateway::account::provider::{ProviderAccount, ProviderAccountId};
use turn_state_gateway::account::turn_state::{
    MissingTurnStatePolicy, TurnStateBusinessStatus, TurnStateConfig, TurnStateInstallation,
    TurnStateObservation, TurnStateToken,
};
use turn_state_gateway::probe::observe::new_observation;
use turn_state_gateway::store::commands::{
    audit_target, authorized_account, batch_changes, check_export, check_exported, check_groups,
    check_page, check_renewal, counts_by_hour, first_deleted, groups_of_account, import_changes,
    lowers_concurrency, rotation_changes, update_changes, AccountChanges, GroupRow,
    ImportSettings, Renewal,
};
use turn_state_gateway::store::cookie_pool::{CookiePool, PoolRow};
use turn_state_gateway::store::error::AdminStoreErrorKind;
use turn_state_gateway::store::notifications::{
    due_notices, enqueue, finish_notification, Delivery,
};
use turn_state_gateway::store::replay::{
    account_replay_cookies, recorded_routing_cookie, RecordedCookie, StoredCookie,
};
use turn_state_gateway::store::ticket::{CookieOverride, HistoryEntry, TicketRow};
use turn_state_gateway::store::ticket_admin::check_configuration;
use turn_state_gateway::store::ticket_history::{append_installation, append_observation};
use turn_state_gateway::store::ticket_status::turn_state_status;
use turn_state_gateway::store::usage::{
    account_pieces, distinct_accounts, usage_by_windows, UsageRow,
};

const NOW: i64 = 1_800_000_000;

fn cookie(pod: &str, origin: &str) -> RoutingCookie {
    RoutingCookie {
        origin: origin.to_owned(),
        pod: pod.to_owned(),
        name: "__oailb".to_owned(),
        value: "synthetic-cookie".to_owned(),
        issued_at: NOW,
        expires_at: NOW + 3600,
        observed_at: 0,
        reported_model: String::new(),
    }
}

fn seen(
    sent: Option<RoutingCookie>,
    received: Option<RoutingCookie>,
    time: i64,
    model: &str,
) -> RoutingCookieObservation {
    RoutingCookieObservation {
        origin: "endpoint".to_owned(),
        observed_at: time,
        sent,
        received,
        reported_model: Some(model.to_owned()),
        deleted: false,
    }
}

fn encoded(issued_at: i64, size: usize, fill: u8) -> String {
    let mut bytes = vec![fill; size];
    bytes[0] = 0x80;
    bytes[1..9].copy_from_slice(&(issued_at as u64).to_be_bytes());
    URL_SAFE.encode(bytes)
}

fn token(issued_at: i64, size: usize, fill: u8) -> TurnStateToken {
    TurnStateToken {
        value: encoded(issued_at, size, fill),
        issued_at,
    }
}

fn account(id: &str) -> ProviderAccount {
    ProviderAccount {
        id: ProviderAccountId::new(id),
        name: format!("name of {id}"),
        upstream_account_id: Some("upstream".to_owned()),
        upstream_user_id: Some("user".to_owned()),
        authentication_kind: "oauth".to_owned(),
        enabled: true,
    }
}

fn row(account: &ProviderAccount, config: TurnStateConfig) -> TicketRow {
    TicketRow::new(account, "model-a", config)
}

fn enabled_config() -> TurnStateConfig {
    TurnStateConfig {
        enabled: true,
        ..TurnStateConfig::default()
    }
}

fn probe_of(account: &ProviderAccount, token: Option<&TurnStateToken>) -> TurnStateObservation {
    let mut observation = new_observation(
        account.id().as_str(),
        &account.upstream_account_id,
        &account.upstream_user_id,
        "model-a",
        "probe",
        "direct",
        NOW,
    );
    observation.outcome = "candidate".to_owned();
    observation.probe_id = Some("probe-1".to_owned());
    observation.probe_trigger = Some("scheduled".to_owned());
    observation.token = token.map(|token| token.value.clone());
    observation.issued_at = token.map(|token| token.issued_at);
    observation
}

#[test]
fn pool_shares_models_revokes_switched_pods_and_fences_late_responses() {
    let mut pool = CookiePool::new();
    let now_us = NOW * 1_000_000;
    let first = cookie("pod-1", "endpoint");
    pool.record_routing_cookie(&seen(None, Some(first.clone()), 100, "gpt-6-astra"), NOW);
    assert!(pool.load_routing_cookies(now_us)[0].is_usable("gpt-6-astra", NOW));
    pool.record_routing_cookie(&seen(Some(first.clone()), None, 300, "gpt-5.6-luna"), NOW);
    pool.record_routing_cookie(&seen(None, Some(first.clone()), 200, "gpt-6-astra"), NOW);
    assert!(!pool.load_routing_cookies(now_us)[0].is_usable("gpt-6-astra", NOW));
    let second = cookie("pod-2", "endpoint");
    pool.record_routing_cookie(
        &seen(Some(first.clone()), Some(second), 400, "gpt-6-astra"),
        NOW,
    );
    pool.record_routing_cookie(&seen(None, Some(first), 350, "gpt-6-astra"), NOW);
    let loaded = pool.load_routing_cookies(now_us);
    assert_eq!(loaded.len(), 1);
    assert_eq!(loaded[0].pod, "pod-2");
    let mut deleted = seen(Some(loaded[0].clone()), None, 500, "gpt-6-astra");
    deleted.deleted = true;
    pool.record_routing_cookie(&deleted, NOW);
    assert!(pool.load_routing_cookies(now_us).is_empty());
}

#[test]
fn the_pool_keeps_the_rows_that_were_seen_last() {
    let mut pool = CookiePool::new();
    for i in 0..300 {
        let pod = format!("pod-{i}");
        pool.record_routing_cookie(&seen(None, Some(cookie(&pod, "endpoint")), i, "m"), NOW);
    }
    assert_eq!(pool.rows.len(), 256);
    let loaded = pool.load_routing_cookies(NOW * 1_000_000);
    assert_eq!(loaded.len(), 256);
    assert_eq!(loaded[0].pod, "pod-299");
    assert_eq!(loaded[255].pod, "pod-44");
}

#[test]
fn a_pool_has_one_row_for_a_host() {
    let row = |origin: &str, pod: &str| PoolRow {
        origin: origin.to_owned(),
        pod: pod.to_owned(),
        name: "__oailb".to_owned(),
        value: None,
        issued_at: NOW,
        expires_at: NOW + 60,
        observed_at: 1,
        reported_model: String::new(),
    };
    assert!(CookiePool::from_rows(vec![row("a", "x"), row("a", "y"), row("b", "x")]).is_some());
    assert!(CookiePool::from_rows(vec![row("a", "x"), row("a", "y"), row("a", "x")]).is_none());
}

#[test]
fn two_models_for_one_request_leave_none() {
    let mut pool = CookiePool::new();
    let first = cookie("pod-1", "endpoint");
    pool.record_routing_cookie(&seen(None, Some(first.clone()), 100, "one"), NOW);
    pool.record_routing_cookie(&seen(None, Some(first.clone()), 100, "other"), NOW);
    assert_eq!(pool.rows[0].reported_model, "");
    let mut older = first;
    older.issued_at = NOW - 60;
    older.value = "older".to_owned();
    pool.record_routing_cookie(&seen(None, Some(older), 200, "one"), NOW);
    assert_eq!(pool.rows[0].value.as_deref(), Some("synthetic-cookie"));
    assert_eq!(pool.rows[0].reported_model, "one");
}

#[test]
fn expired_cookies_lose_their_value_before_their_row() {
    let mut pool = CookiePool::new();
    pool.record_routing_cookie(
        &seen(None, Some(cookie("pod-1", "endpoint")), 100, "m"),
        NOW,
    );
    let expiry = (NOW + 3600) * 1_000_000;
    pool.clean_routing_cookies(expiry - 1);
    assert!(pool.rows[0].value.is_some());
    assert!(pool.routing_cookie_value("pod-1", expiry - 1).is_some());
    pool.clean_routing_cookies(expiry);
    assert!(pool.rows[0].value.is_none());
    assert!(pool.routing_cookie_value("pod-1", expiry - 1).is_none());
    pool.clean_routing_cookies(expiry + 3_600_000_000);
    assert_eq!(pool.rows.len(), 1);
    pool.clean_routing_cookies(expiry + 3_600_000_001);
    assert!(pool.rows.is_empty());
}

#[test]
fn a_recorded_cookie_is_put_back_under_the_endpoint_seen_last() {
    let record = RecordedCookie {
        name: Some("__oailb".to_owned()),
        value: Some("kept".to_owned()),
        pod: Some("pod-9".to_owned()),
        origin: None,
        issued_at: Some(NOW),
        expires_at: Some(NOW + 60),
        reported_model: None,
    };
    let cookie_back = recorded_routing_cookie(record).unwrap();
    assert_eq!((cookie_back.origin.as_str(), cookie_back.observed_at), ("", 0));
    let mut pool = CookiePool::new();
    pool.restore_routing_cookie(&cookie_back, 5);
    assert!(pool.rows.is_empty());
    pool.record_routing_cookie(
        &seen(None, Some(cookie("pod-1", "endpoint")), 100, "m"),
        NOW,
    );
    pool.restore_routing_cookie(&cookie_back, 200);
    let found = pool
        .routing_cookie_value("pod-9", NOW * 1_000_000)
        .unwrap();
    assert_eq!(found.origin, "endpoint");
    assert_eq!(found.value, "kept");
    assert_eq!(found.observed_at, 200);
    assert!(recorded_routing_cookie(RecordedCookie {
        name: Some("__oailb".to_owned()),
        value: Some(String::new()),
        pod: Some("pod-9".to_owned()),
        origin: None,
        issued_at: None,
        expires_at: None,
        reported_model: None,
    })
    .is_none());
}

#[test]
fn routing_cookies_and_expired_cookies_are_not_replayed() {
    let stored = |name: &str, value: &str, expires_at: Option<&str>| StoredCookie {
        name: name.to_owned(),
        value: value.to_owned(),
        expires_at: expires_at.map(str::to_owned),
    };
    let cookies = vec![
        stored("session", "one", None),
        stored("__oailb", "two", None),
        stored("__oai_lb", "three", None),
        stored("", "four", None),
        stored("empty", "", None),
        stored("joined", "a;b", None),
        stored("broken", "a\nb", None),
        stored("past", "five", Some("2027-01-15T07:59:59Z")),
        stored("present", "six", Some("2027-01-15T16:00:00+08:00")),
        stored("unread", "seven", Some("soon")),
    ];
    assert_eq!(
        account_replay_cookies(&cookies, NOW),
        [
            ("session".to_owned(), "one".to_owned()),
            ("present".to_owned(), "six".to_owned()),
            ("unread".to_owned(), "seven".to_owned()),
        ]
    );
}

#[test]
fn candidates_are_taken_and_expire_from_their_issue_time() {
    let account = account("acct_1");
    let mut row = row(&account, enabled_config());
    let fresh = token(NOW - 10, 217, 1);
    let recorded = row
        .record_turn_state(probe_of(&account, Some(&fresh)), Some(fresh.clone()), true, NOW)
        .unwrap();
    assert_eq!(recorded.observation.outcome, "candidate");
    assert!(recorded.logged);
    assert_eq!(row.hunt_attempts, 1);
    let old = token(NOW - 20, 217, 2);
    let recorded = row
        .record_turn_state(probe_of(&account, Some(&old)), Some(old), true, NOW)
        .unwrap();
    assert_eq!(recorded.observation.outcome, "not_newer");
    assert_eq!(row.candidate.as_ref().unwrap().value, fresh.value);
    assert_eq!(row.hunt_attempts, 2);
    assert!(row.install_candidate(&account, "openai", None, NOW + 3590).is_none());
    assert!(row.install_candidate(&account, "other", None, NOW).is_none());
    let installed = row.install_candidate(&account, "openai", None, NOW).unwrap();
    assert_eq!(installed.issued_at, NOW - 10);
    assert_eq!(installed.token_length, 292);
    assert_eq!(installed.attempts, 1);
    assert_eq!(row.current.as_deref(), Some(fresh.value.as_str()));
    assert!(row.candidate.is_none());
    assert_eq!(row.hunt_attempts, 0);
    assert_eq!(
        row.next_probe_at,
        Some(NOW - 10 + row.config.refresh_after_seconds as i64)
    );
    assert!(row
        .record_turn_state(probe_of(&account, Some(&fresh)), Some(fresh), true, NOW)
        .is_some());
    assert!(row.candidate.is_none());
    row.clean(NOW - 10 + 3600);
    assert!(row.current.is_none());
    assert_eq!(row.current_issued_at, Some(NOW - 10));
}

#[test]
fn an_observation_of_another_identity_is_passed_over() {
    let account = account("acct_2");
    let mut row = row(&account, enabled_config());
    let mut other = account.clone();
    other.upstream_user_id = Some("new-user".to_owned());
    let fresh = token(NOW, 217, 1);
    assert!(row
        .record_turn_state(probe_of(&other, Some(&fresh)), Some(fresh.clone()), true, NOW)
        .is_none());
    row.record_turn_state(probe_of(&account, Some(&fresh)), Some(fresh), true, NOW);
    assert!(row.candidate.is_some());
    let replaced = row.follow_identity(&other);
    assert!(replaced.candidate.is_none());
    assert!(replaced.config.enabled);
    assert_eq!(replaced.upstream_user_id.as_deref(), Some("new-user"));
}

#[test]
fn candidates_are_kept_where_nothing_is_logged() {
    let account = account("acct_3");
    let mut row = row(&account, TurnStateConfig::default());
    let fresh = token(NOW, 217, 1);
    let recorded = row
        .record_turn_state(probe_of(&account, Some(&fresh)), Some(fresh.clone()), true, NOW)
        .unwrap();
    assert!(!recorded.logged);
    assert!(row.candidate.is_some());
    let mut manual = probe_of(&account, Some(&fresh));
    manual.probe_trigger = Some("manual".to_owned());
    let recorded = row
        .record_turn_state(manual.clone(), Some(fresh.clone()), true, NOW)
        .unwrap();
    assert!(recorded.logged);
    assert!(!row
        .record_turn_state(manual, Some(fresh), false, NOW)
        .unwrap()
        .logged);
}

#[test]
fn a_candidate_is_applied_by_its_issue_time() {
    let account = account("acct_4");
    let mut row = row(&account, TurnStateConfig::default());
    let fresh = token(NOW, 217, 1);
    row.record_turn_state(probe_of(&account, Some(&fresh)), Some(fresh.clone()), true, NOW);
    let history: Vec<HistoryEntry> = Vec::new();
    assert!(row.install_candidate(&account, "openai", None, NOW).is_none());
    let error = row
        .apply_turn_state(&account, "openai", &history, NOW - 1, None, NOW)
        .unwrap_err();
    assert_eq!(error.kind, AdminStoreErrorKind::Conflict);
    assert_eq!(error.message, "turn state expired or changed");
    let installed = row
        .apply_turn_state(&account, "openai", &history, NOW, None, NOW)
        .unwrap();
    assert_eq!(installed.attempts, 1);
    assert!(row.manual_override);
    assert!(!row.config.enabled);
}

#[test]
fn entries_of_the_history_are_told_apart_by_number() {
    let account = account("acct_5");
    let issued = NOW - 5;
    let mut row = row(&account, enabled_config());
    let first = token(issued, 217, 1);
    let second = token(issued, 217, 2);
    let miss = token(issued, 233, 3);
    let mut history: Vec<HistoryEntry> = Vec::new();
    for (id, value) in [(1, &first), (2, &second), (3, &miss)] {
        let mut observed = probe_of(&account, Some(value));
        observed.started_at = Some(NOW - 61);
        let recorded = row
            .record_turn_state(observed, Some(value.clone()), true, NOW)
            .unwrap();
        assert!(recorded.logged);
        history = append_observation(
            history,
            HistoryEntry {
                id,
                observation: recorded.observation,
            },
        );
    }
    for (id, value) in [(1, &first), (2, &second), (3, &miss)] {
        assert_eq!(
            row.copyable_turn_state(&account, &history, issued, Some(id), NOW)
                .unwrap()
                .value,
            value.value
        );
    }
    assert!(row
        .copyable_turn_state(&account, &history, issued - 1, Some(2), NOW)
        .is_none());
    assert!(row
        .copyable_turn_state(&account, &history, issued, Some(i64::MAX), NOW)
        .is_none());
    for id in [3, i64::MAX] {
        assert!(row
            .apply_turn_state(&account, "openai", &history, issued, Some(id), NOW)
            .is_err());
    }
    let installed = row
        .apply_turn_state(&account, "openai", &history, issued, Some(2), NOW)
        .unwrap();
    assert!(row.candidate.is_none());
    assert_eq!(installed.attempts, 2);
    assert!(installed.hunt_seconds >= 61);
    let shown = row.shown_observations(&history);
    assert_eq!(
        shown.iter().map(|row| row.is_installed).collect::<Vec<_>>(),
        [false, true, false]
    );
    assert!(shown.iter().all(|row| row.has_token && row.token.is_none()));
    assert_eq!(shown[0].observation_id.as_deref(), Some("3"));
    assert_eq!(
        row.copyable_turn_state(&account, &history, issued, None, NOW)
            .unwrap()
            .value,
        second.value
    );
    row.remove_turn_state(issued).unwrap();
    assert!(row
        .shown_observations(&history)
        .iter()
        .all(|row| !row.is_installed));
    assert!(row
        .copyable_turn_state(&account, &history, issued, None, NOW)
        .is_none());
    assert_eq!(
        row.copyable_turn_state(&account, &history, issued, Some(1), NOW)
            .unwrap()
            .value,
        first.value
    );
    assert!(row
        .apply_turn_state(&account, "openai", &history, issued, Some(1), NOW)
        .is_err());
    let mut other = account.clone();
    other.upstream_user_id = None;
    assert!(row
        .copyable_turn_state(&other, &history, issued, Some(1), NOW)
        .is_none());
}

#[test]
fn texts_that_are_no_fresh_ticket_are_not_kept() {
    let account = account("acct_6");
    let mut row = row(&account, enabled_config());
    for issued in [0, NOW - 3601, NOW + 3600, i64::MAX] {
        let value = token(issued, 217, 1);
        let recorded = row
            .record_turn_state(probe_of(&account, Some(&value)), Some(value), true, NOW)
            .unwrap();
        assert!(recorded.observation.token.is_none());
    }
    assert!(row.candidate.is_none());
    let other_length = token(NOW, 233, 1);
    let recorded = row
        .record_turn_state(
            probe_of(&account, Some(&other_length)),
            Some(other_length.clone()),
            true,
            NOW,
        )
        .unwrap();
    assert_eq!(
        recorded.observation.token.as_deref(),
        Some(other_length.value.as_str())
    );
    assert!(row.candidate.is_none());
}

#[test]
fn a_removed_ticket_leaves_its_issue_time() {
    let account = account("acct_7");
    let mut row = row(&account, enabled_config());
    let fresh = token(NOW, 217, 1);
    row.record_turn_state(probe_of(&account, Some(&fresh)), Some(fresh.clone()), true, NOW);
    row.install_candidate(&account, "openai", Some(NOW), NOW).unwrap();
    let error = row.remove_turn_state(NOW - 1).unwrap_err();
    assert_eq!(error.message, "installed state changed or already removed");
    row.remove_turn_state(NOW).unwrap();
    assert!(row.current.is_none());
    assert!(!row.manual_override);
    assert_eq!(row.current_issued_at, Some(NOW));
    assert!(row.config.enabled);
    assert!(row.remove_turn_state(NOW).is_err());
    let recorded = row
        .record_turn_state(probe_of(&account, Some(&fresh)), Some(fresh), true, NOW)
        .unwrap();
    assert_eq!(recorded.observation.outcome, "not_newer");
    assert!(row.candidate.is_none());
}

#[test]
fn pause_voids_the_installed_ticket_when_the_reported_model_changes() {
    let account = account("acct_8");
    let mut row = row(&account, enabled_config());
    let fresh = token(NOW, 217, 1);
    let mut observed = probe_of(&account, Some(&fresh));
    observed.reported_model = Some("gpt-5.6-astra".to_owned());
    row.record_turn_state(observed, Some(fresh.clone()), true, NOW);
    row.install_candidate(&account, "openai", None, NOW).unwrap();
    assert_eq!(row.attached_model.as_deref(), Some("gpt-5.6-astra"));
    assert!(!row.observe_installed_model(&fresh.value, "GPT-5.6-ASTRA", true));
    assert!(!row.observe_installed_model(&fresh.value, "gpt-5.6-luna", false));
    assert!(!row.observe_installed_model("another", "gpt-5.6-luna", true));
    assert_eq!(row.current.as_deref(), Some(fresh.value.as_str()));
    assert!(row.observe_installed_model(&fresh.value, "gpt-5.6-luna", true));
    assert!(row.current.is_none());
    assert_eq!(row.current_issued_at, Some(NOW));
}

#[test]
fn a_ticket_attaches_to_the_first_model_that_answers() {
    let account = account("acct_9");
    let mut row = row(&account, enabled_config());
    let fresh = token(NOW, 217, 1);
    row.record_turn_state(probe_of(&account, Some(&fresh)), Some(fresh.clone()), true, NOW);
    row.install_candidate(&account, "openai", None, NOW).unwrap();
    assert!(row.attached_model.is_none());
    assert!(!row.observe_installed_model(&fresh.value, "gpt-5.6-luna", true));
    assert_eq!(row.attached_model.as_deref(), Some("gpt-5.6-luna"));
}

#[test]
fn a_configuration_keeps_a_ticket_that_fits() {
    let account = account("acct_10");
    let mut row = row(&account, enabled_config());
    let fresh = token(NOW, 217, 1);
    row.record_turn_state(probe_of(&account, Some(&fresh)), Some(fresh), true, NOW);
    row.install_candidate(&account, "openai", Some(NOW), NOW).unwrap();
    row.configure(TurnStateConfig::default(), NOW + 10);
    assert!(row.current.is_some());
    assert!(row.manual_override);
    assert_eq!(row.next_probe_at, None);
    row.configure(
        TurnStateConfig {
            target_length: 312,
            ..TurnStateConfig::default()
        },
        NOW + 10,
    );
    assert!(row.current.is_none());
    assert!(!row.manual_override);
    assert_eq!(row.current_issued_at, Some(NOW));
}

#[test]
fn configurations_are_checked_with_their_proxies() {
    let mut config = TurnStateConfig::default();
    config.proxy_ids = vec![
        "proxy_a".to_owned(),
        "proxy_b".to_owned(),
        "proxy_a".to_owned(),
    ];
    assert!(check_configuration(&config, 2).is_ok());
    assert_eq!(
        check_configuration(&config, 3).unwrap_err().message,
        "selected proxy does not exist"
    );
    config.budget = 0;
    assert_eq!(
        check_configuration(&config, 2).unwrap_err().message,
        "invalid turn state configuration"
    );
}

#[test]
fn a_cookie_can_be_fixed_only_under_the_lock() {
    let account = account("acct_11");
    let fixed = |value: &str| CookieOverride {
        pod: "pod-1".to_owned(),
        issued_at: Some(NOW),
        name: "__oailb".to_owned(),
        value: value.to_owned(),
        expires_at: NOW + 60,
        observation_id: 7,
    };
    let mut row = row(&account, TurnStateConfig::default());
    assert_eq!(
        row.apply_turn_state_cookie(fixed("v")).unwrap_err().message,
        "routing cookie expired or model mismatched"
    );
    row.config.cookie_lock_enabled = true;
    assert!(row.apply_turn_state_cookie(fixed("")).is_err());
    row.apply_turn_state_cookie(fixed("v")).unwrap();
    assert_eq!(
        row.bucket(Vec::new(), NOW).cookie_override_pod.as_deref(),
        Some("pod-1")
    );
    row.remove_turn_state_cookie().unwrap();
    assert_eq!(
        row.remove_turn_state_cookie().unwrap_err().message,
        "routing cookie override is already removed"
    );
}

#[test]
fn a_probe_is_asked_for_and_taken_up_once() {
    let mut account = account("acct_12");
    let mut row = row(&account, TurnStateConfig::default());
    row.request_turn_state_probe(&account, "openai", NOW).unwrap();
    row.request_turn_state_probe(&account, "openai", NOW + 5).unwrap();
    assert_eq!(row.manual_probe_requested_at, Some(NOW));
    assert!(row.claim_turn_state_probe());
    assert!(!row.claim_turn_state_probe());
    account.enabled = false;
    assert_eq!(
        row.request_turn_state_probe(&account, "openai", NOW)
            .unwrap_err()
            .kind,
        AdminStoreErrorKind::Unavailable
    );
}

#[test]
fn histories_are_cut_by_source() {
    let account = account("acct_13");
    let mut history: Vec<HistoryEntry> = Vec::new();
    for id in 0..150 {
        let mut observation = probe_of(&account, None);
        if id % 3 == 0 {
            observation.source = "business".to_owned();
        }
        history = append_observation(history, HistoryEntry { id, observation });
    }
    let probes = history
        .iter()
        .filter(|entry| entry.observation.source == "probe")
        .count();
    assert_eq!((probes, history.len()), (100, 150));
    for id in 150..160 {
        history = append_observation(
            history,
            HistoryEntry {
                id,
                observation: probe_of(&account, None),
            },
        );
    }
    assert_eq!(history.len(), 150);
    assert_eq!(history.last().unwrap().id, 159);
    let mut installations: Vec<TurnStateInstallation> = Vec::new();
    for at in 0..120 {
        installations = append_installation(
            installations,
            TurnStateInstallation {
                installed_at: at,
                issued_at: at,
                token_length: 292,
                source: "probe".to_owned(),
                acquired_at: at,
                attempts: 1,
                hunt_seconds: 0,
            },
        );
    }
    assert_eq!(installations.len(), 100);
    assert_eq!(installations[0].installed_at, 20);
}

#[test]
fn the_status_says_whether_business_waits() {
    let mut account = account("acct_14");
    let mut row = row(&account, enabled_config());
    row.config.missing_state_policy = MissingTurnStatePolicy::Pause;
    let status = turn_state_status(
        row.bucket(Vec::new(), NOW),
        &account,
        None,
        None,
        Vec::new(),
        Vec::new(),
        Vec::new(),
        NOW,
    );
    assert_eq!(
        status.business_status,
        TurnStateBusinessStatus::WaitingForState
    );
    assert_eq!(status.next_probe_at, Some(NOW));
    let fresh = token(NOW - 7, 217, 1);
    row.record_turn_state(probe_of(&account, Some(&fresh)), Some(fresh), true, NOW);
    assert_eq!(
        row.bucket(Vec::new(), NOW).candidate.unwrap().issued_at,
        NOW - 7
    );
    row.install_candidate(&account, "openai", None, NOW).unwrap();
    let bucket = row.bucket(Vec::new(), NOW);
    let refresh = bucket.config.refresh_after_seconds as i64;
    let status = turn_state_status(
        bucket,
        &account,
        Some("mail".to_owned()),
        None,
        Vec::new(),
        Vec::new(),
        Vec::new(),
        NOW,
    );
    assert_eq!(status.business_status, TurnStateBusinessStatus::Ready);
    assert!(status.active && status.has_installed_state);
    assert_eq!(status.age_seconds, Some(7));
    assert_eq!(status.next_probe_at, Some(NOW - 7 + refresh));
    assert_eq!(status.account_name, "name of acct_14");
    account.enabled = false;
    let status = turn_state_status(
        row.bucket(Vec::new(), NOW),
        &account,
        None,
        None,
        Vec::new(),
        Vec::new(),
        Vec::new(),
        NOW,
    );
    assert_eq!(
        status.business_status,
        TurnStateBusinessStatus::ManualDisabled
    );
    assert_eq!(status.next_probe_at, None);
}

#[test]
fn a_notice_is_tried_five_times() {
    let account = account("acct_15");
    let mut row = row(&account, enabled_config());
    let fresh = token(NOW, 217, 1);
    row.record_turn_state(probe_of(&account, Some(&fresh)), Some(fresh.clone()), true, NOW);
    let installation = row.install_candidate(&account, "openai", None, NOW).unwrap();
    let mut earlier: Vec<TurnStateInstallation> = Vec::new();
    assert!(enqueue(None, &row, &installation, &earlier).is_none());
    row.config.feishu_webhook_url =
        "https://open.feishu.cn/open-apis/bot/v2/hook/test-bot".to_owned();
    let notice = enqueue(None, &row, &installation, &earlier).unwrap();
    assert_eq!(notice.previous_installed_at, None);
    let mut delivery = Delivery {
        notice,
        row,
        account,
        provider_kind: "openai".to_owned(),
    };
    for attempt in 0..5 {
        let now = NOW + 60 * attempt;
        let deliveries = vec![delivery];
        assert_eq!(due_notices(&deliveries, now), [0]);
        delivery = deliveries.into_iter().next().unwrap();
        let told = delivery.claim(now).unwrap();
        assert_eq!(told.token.value, fresh.value);
        assert_eq!(told.installation.attempts, 1);
        assert!(!told.manual);
        finish_notification(&mut delivery.notice, NOW, false, now);
        let deliveries = vec![delivery];
        assert!(due_notices(&deliveries, now + 59).is_empty());
        delivery = deliveries.into_iter().next().unwrap();
    }
    let deliveries = vec![delivery];
    assert!(due_notices(&deliveries, NOW + 600).is_empty());
    delivery = deliveries.into_iter().next().unwrap();
    earlier.push(installation.clone());
    delivery.notice = enqueue(Some(delivery.notice), &delivery.row, &installation, &earlier).unwrap();
    assert_eq!(delivery.notice.previous_installed_at, Some(NOW));
    assert_eq!(delivery.notice.attempts, 0);
    finish_notification(&mut delivery.notice, NOW - 1, true, NOW);
    assert_eq!(delivery.notice.sent_at, None);
    finish_notification(&mut delivery.notice, NOW, true, NOW + 3);
    assert_eq!(delivery.notice.sent_at, Some(NOW + 3));
    let deliveries = vec![delivery];
    assert!(due_notices(&deliveries, NOW + 700).is_empty());
}

#[test]
fn at_most_sixteen_notices_are_taken_up_the_earliest_first() {
    let mut deliveries = Vec::new();
    for i in 0..20 {
        let account = account("acct_many");
        let mut row = row(&account, enabled_config());
        let fresh = token(NOW, 217, 1);
        row.record_turn_state(probe_of(&account, Some(&fresh)), Some(fresh), true, NOW);
        let installation = row.install_candidate(&account, "openai", None, NOW).unwrap();
        row.config.feishu_webhook_url =
            "https://open.feishu.cn/open-apis/bot/v2/hook/test-bot".to_owned();
        let mut notice = enqueue(None, &row, &installation, &Vec::new()).unwrap();
        notice.next_attempt_at = NOW - i;
        deliveries.push(Delivery {
            notice,
            row,
            account,
            provider_kind: "openai".to_owned(),
        });
    }
    let due = due_notices(&deliveries, NOW);
    assert_eq!(due.len(), 16);
    assert_eq!(due[..3], [19, 18, 17]);
}

fn usage_row(
    key: &str,
    markers: (i32, i32),
    model: Option<&str>,
    currency: Option<&str>,
    amount: &str,
    count: u64,
) -> UsageRow {
    UsageRow {
        account_id: "acct".to_owned(),
        key: key.to_owned(),
        model_grouping: markers.0,
        currency_grouping: markers.1,
        model: model.map(str::to_owned),
        cost_currency: currency.map(str::to_owned),
        cost_amount: amount.to_owned(),
        request_count: count,
    }
}

#[test]
fn usage_rows_are_put_together_by_window() {
    let rows = vec![
        usage_row("week", (0, 1), Some("b"), None, "", 3),
        usage_row("week", (0, 1), Some("c"), None, "", 9),
        usage_row("week", (0, 1), Some("a"), None, "", 3),
        usage_row("week", (0, 1), None, None, "", 100),
        usage_row("week", (0, 0), Some("a"), Some("USD"), "1.5", 0),
        usage_row("week", (0, 0), Some("a"), None, "9", 0),
        usage_row("week", (1, 0), None, Some("USD"), "4", 0),
        usage_row("week", (1, 0), None, None, "5", 0),
        usage_row("week", (1, 1), None, None, "", 15),
        usage_row("day", (1, 1), None, None, "", 2),
        usage_row("week", (1, 1), None, None, "", 1),
    ];
    let windows = usage_by_windows(&rows).unwrap();
    assert_eq!(windows.len(), 3);
    let week = &windows[0];
    assert_eq!((week.key.as_str(), week.request_count), ("week", 15));
    assert_eq!(
        week.models
            .iter()
            .map(|model| (model.model.as_str(), model.request_count, model.costs.len()))
            .collect::<Vec<_>>(),
        [("c", 9, 0), ("a", 3, 1), ("b", 3, 0)]
    );
    assert_eq!(week.models[1].costs[0].amount, "1.5");
    assert_eq!(week.costs.len(), 1);
    assert_eq!(
        (week.costs[0].currency.as_str(), week.costs[0].amount.as_str()),
        ("USD", "4")
    );
    assert_eq!((windows[1].key.as_str(), windows[1].models.len()), ("day", 0));
    assert_eq!((windows[2].models.len(), windows[2].costs.len()), (0, 0));
}

#[test]
fn accounts_are_asked_for_once() {
    let ids = ["b", "a", "b", "ab"].map(str::to_owned).to_vec();
    assert_eq!(distinct_accounts(&ids), ["a", "ab", "b"]);
}

#[test]
fn accounts_are_asked_for_in_pieces() {
    let ids = |names: &[&str]| names.iter().map(|name| (*name).to_owned()).collect::<Vec<_>>();
    let five = ids(&["b", "a", "b", "c", "d"]);
    assert_eq!(
        account_pieces(&five, 2),
        [ids(&["b", "a"]), ids(&["b", "c"]), ids(&["d"])]
    );
    assert_eq!(account_pieces(&five, 5), [five.clone()]);
    assert_eq!(account_pieces(&five, usize::MAX), [five.clone()]);
    assert!(account_pieces(&Vec::new(), 3).is_empty());
}

#[test]
fn an_unknown_grouping_marker_is_refused() {
    let rows = vec![usage_row("week", (2, 1), None, None, "", 1)];
    let error = match usage_by_windows(&rows) {
        Ok(_) => panic!("accepted"),
        Err(error) => error,
    };
    assert_eq!(error.kind, AdminStoreErrorKind::Unavailable);
    assert_eq!(
        error.message,
        "account usage window query returned an invalid grouping marker"
    );
}

fn no_changes() -> AccountChanges {
    AccountChanges {
        enabled: false,
        concurrency_limit: false,
        weight: false,
        groups: false,
        model_access: false,
        outbound_proxy: false,
        notes: false,
        turn_state_override: false,
    }
}

#[test]
fn the_audit_names_what_changed() {
    assert_eq!(import_changes(&None, &vec![false]), ["credentials"]);
    assert_eq!(
        import_changes(&None, &vec![false, true]),
        ["credentials", "model_access"]
    );
    assert_eq!(
        import_changes(
            &Some(ImportSettings {
                model_access: false,
                notes: true
            }),
            &Vec::new()
        ),
        [
            "credentials",
            "enabled",
            "concurrency_limit",
            "weight",
            "group_ids",
            "notes"
        ]
    );
    assert_eq!(rotation_changes(&None), ["credentials"]);
    assert_eq!(
        rotation_changes(&Some(AccountChanges {
            outbound_proxy: true,
            ..no_changes()
        })),
        [
            "credentials",
            "enabled",
            "concurrency_limit",
            "weight",
            "groups",
            "outbound_proxy"
        ]
    );
    assert_eq!(
        update_changes(&AccountChanges {
            turn_state_override: true,
            ..no_changes()
        }),
        [
            "enabled",
            "concurrency_limit",
            "weight",
            "groups",
            "turn_state_override"
        ]
    );
    assert_eq!(
        batch_changes(&AccountChanges {
            weight: true,
            notes: true,
            model_access: true,
            ..no_changes()
        }),
        ["weight", "model_access"]
    );
    assert_eq!(audit_target(&vec!["a".to_owned()]), "a");
    assert_eq!(
        audit_target(&vec!["a".to_owned(), "b".to_owned()]),
        "provider_accounts"
    );
}

#[test]
fn commands_that_cannot_be_carried_out_are_refused() {
    assert_eq!(
        first_deleted(&Vec::new()).unwrap_err().message,
        "account deletion requires at least one account ID"
    );
    assert_eq!(
        first_deleted(&vec!["a".to_owned(), "b".to_owned()]).unwrap(),
        "a"
    );
    assert_eq!(
        check_page(0).unwrap_err().message,
        "page number must be positive"
    );
    assert!(check_page(1).is_ok());
    assert!(check_renewal(Renewal::Rotation, true).is_ok());
    assert!(check_renewal(Renewal::Refresh, false).is_ok());
    assert_eq!(
        check_renewal(Renewal::Refresh, true).unwrap_err().message,
        "credential refresh cannot change account settings"
    );
    assert_eq!(
        check_renewal(Renewal::Reauthorization, true)
            .unwrap_err()
            .message,
        "reauthorization cannot change account settings"
    );
    assert_eq!(authorized_account(vec!["a".to_owned()]).unwrap(), "a");
    assert_eq!(
        authorized_account(Vec::new()).unwrap_err().message,
        "authorization import returned an unexpected account count"
    );
    let openai = || Some("openai".to_owned());
    assert!(check_export(&vec![openai(), openai()], "openai").is_ok());
    assert_eq!(
        check_export(&vec![openai(), Some("other".to_owned()), None], "openai")
            .unwrap_err()
            .message,
        "one or more exported credentials belong to another Provider"
    );
    assert_eq!(
        check_export(&vec![None], "openai").unwrap_err().message,
        "one or more exported credentials do not exist"
    );
    assert!(check_exported(&vec![true]).is_ok());
    assert_eq!(
        check_exported(&vec![true, false]).unwrap_err().kind,
        AdminStoreErrorKind::NotFound
    );
}

#[test]
fn limits_only_go_down() {
    assert!(lowers_concurrency(true, Some(5), 1, 4));
    assert!(!lowers_concurrency(true, Some(4), 10, 4));
    assert!(lowers_concurrency(true, None, 10, 4));
    assert!(!lowers_concurrency(false, Some(5), 10, 4));
    assert!(counts_by_hour(0, 86_400_000));
    assert!(!counts_by_hour(0, 86_400_001));
}

#[test]
fn groups_are_gathered_by_account() {
    let group = |account: &str, id_is_valid: bool, color_is_valid: bool| GroupRow {
        account_id: account.to_owned(),
        group_id: "g".to_owned(),
        name: "name".to_owned(),
        color: "red".to_owned(),
        enabled: true,
        id_is_valid,
        color_is_valid,
    };
    let rows = vec![
        group("a", true, true),
        group("b", true, true),
        group("a", true, true),
    ];
    assert!(check_groups(&rows).is_ok());
    assert_eq!(groups_of_account(&rows, "a"), [0, 2]);
    assert_eq!(
        check_groups(&vec![group("a", true, false), group("a", false, true)])
            .unwrap_err()
            .message,
        "persisted account group color is invalid"
    );
    assert_eq!(
        check_groups(&vec![group("a", false, false)])
            .unwrap_err()
            .message,
        "persisted account group ID is invalid"
    );
}
