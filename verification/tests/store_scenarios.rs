use base64::engine::general_purpose::URL_SAFE;
use base64::Engine as _;
use turn_state_gateway::account::cookie_lock::RoutingCookie;
use turn_state_gateway::account::provider::{ProviderAccount, ProviderAccountId};
use turn_state_gateway::account::turn_state::{
    MissingTurnStatePolicy, TimeZone, TurnStateBucket, TurnStateBusinessStatus, TurnStateConfig,
    TurnStateInstallation, TurnStateNotification, TurnStateObservation, TurnStateStatus,
    TurnStateToken,
};
use turn_state_gateway::probe::observe::{
    latest_issued_at, new_observation, observe, passive_observation, TurnStateResponse,
};
use turn_state_gateway::probe::plan::{
    begin_probe, check_credential, conclude_probe, CredentialCheck, CredentialFacts, ProbeOutcome,
};
use turn_state_gateway::probe::request::{compressed_body, request};
use turn_state_gateway::probe::worker::{
    first_step, next_step, wants_attention, FirstStep, NextStep, StepResult,
};
use turn_state_gateway::store::error::AdminStoreError;
use turn_state_gateway::store::notifications::{
    due_notices, enqueue, finish_notification, Delivery, PendingNotice,
};
use turn_state_gateway::store::ticket::{Candidate, HistoryEntry, TicketRow};
use turn_state_gateway::store::ticket_history::{append_installation, append_observation};

const NOW: i64 = 1_800_000_000;

fn token(length: usize, issued_at: i64) -> TurnStateToken {
    let mut bytes = vec![0; (length / 4) * 3 - 2];
    bytes[0] = 0x80;
    bytes[1..9].copy_from_slice(&(issued_at as u64).to_be_bytes());
    TurnStateToken {
        value: URL_SAFE.encode(bytes),
        issued_at,
    }
}

fn observation(
    account: &str,
    model: &str,
    length: usize,
    issued_at: i64,
) -> TurnStateObservation {
    let user = Some(account.to_owned());
    let mut observation =
        new_observation(account, &None, &user, model, "probe", "direct", NOW);
    observation.started_at = Some(NOW - 1);
    observation.request_state_source = Some("none".to_owned());
    observation.response_source = Some("http_headers".to_owned());
    observation.probe_trigger = Some("scheduled".to_owned());
    observation.outcome = if length == 292 {
        "candidate"
    } else {
        "length_miss"
    }
    .to_owned();
    observation.http_status = Some(200);
    observation.token_length = Some(length);
    observation.issued_at = Some(issued_at);
    observation.token = Some(token(length, issued_at).value);
    observation.shape = Some("greeting".to_owned());
    observation.effort = Some("high".to_owned());
    observation.elapsed_ms = 1;
    observation.probe_id = Some("test-probe".to_owned());
    observation.stop_mode = Some("headers".to_owned());
    observation.stop_reason = Some("headers".to_owned());
    observation
}

struct Kept {
    row: TicketRow,
    history: Vec<HistoryEntry>,
    installations: Vec<TurnStateInstallation>,
    notice: Option<PendingNotice>,
}

/// The rows of one account, kept in memory.
struct Store {
    account: ProviderAccount,
    kept: Vec<Kept>,
    next_id: i64,
}

impl Store {
    fn new(id: &str) -> Store {
        Store {
            account: ProviderAccount {
                id: ProviderAccountId::new(id),
                name: id.to_owned(),
                upstream_account_id: None,
                upstream_user_id: Some(id.to_owned()),
                authentication_kind: "oauth".to_owned(),
                enabled: true,
            },
            kept: Vec::new(),
            next_id: 1,
        }
    }

    fn add(&mut self, model: &str, config: TurnStateConfig) {
        self.kept.push(Kept {
            row: TicketRow::new(&self.account, model, config),
            history: Vec::new(),
            installations: Vec::new(),
            notice: None,
        });
    }

    fn place(&self, model: &str) -> Option<usize> {
        self.kept.iter().position(|kept| kept.row.model == model)
    }

    fn of(&mut self, model: &str) -> &mut Kept {
        let place = self.place(model).unwrap();
        &mut self.kept[place]
    }

    fn configure(&mut self, model: &str, config: TurnStateConfig) {
        match self.place(model) {
            Some(place) => self.kept[place].row.configure(config, NOW),
            None => self.add(model, config),
        }
    }

    fn observe(&mut self, observed: TurnStateObservation, offered: Option<TurnStateToken>) {
        if self.place(&observed.model).is_none() {
            self.add(&observed.model, TurnStateConfig::default());
        }
        let place = self.place(&observed.model).unwrap();
        let Kept {
            row,
            history,
            installations,
            notice,
        } = self.kept.remove(place);
        let mut row = row.follow_identity(&self.account);
        let recorded = row.record_turn_state(observed, offered, self.account.enabled, NOW);
        let mut history = history;
        if let Some(recorded) = recorded {
            if recorded.logged {
                history = append_observation(
                    history,
                    HistoryEntry {
                        id: self.next_id,
                        observation: recorded.observation,
                    },
                );
                self.next_id += 1;
            }
        }
        self.kept.insert(
            place,
            Kept {
                row,
                history,
                installations,
                notice,
            },
        );
    }

    fn installed(kept: &mut Kept, installation: TurnStateInstallation) {
        let pending = kept.notice.take();
        kept.notice = enqueue(pending, &kept.row, &installation, &kept.installations);
        let earlier = std::mem::take(&mut kept.installations);
        kept.installations = append_installation(earlier, installation);
    }

    fn install(&mut self, model: &str) -> bool {
        let account = self.account.clone();
        let Some(place) = self.place(model) else {
            return false;
        };
        let kept = &mut self.kept[place];
        match kept.row.install_candidate(&account, "openai", None, NOW) {
            Some(installation) => {
                Store::installed(kept, installation);
                true
            }
            None => false,
        }
    }

    fn apply(
        &mut self,
        model: &str,
        issued_at: i64,
        id: Option<i64>,
    ) -> Result<(), AdminStoreError> {
        let account = self.account.clone();
        let kept = self.of(model);
        let installation =
            kept.row
                .apply_turn_state(&account, "openai", &kept.history, issued_at, id, NOW)?;
        Store::installed(kept, installation);
        Ok(())
    }

    fn copy(&self, model: &str, issued_at: i64, id: Option<i64>) -> Option<TurnStateToken> {
        let kept = &self.kept[self.place(model)?];
        kept.row
            .copyable_turn_state(&self.account, &kept.history, issued_at, id, NOW)
    }

    fn status(&self, model: &str) -> TurnStateStatus {
        let kept = &self.kept[self.place(model).unwrap()];
        let mut installations = kept.installations.clone();
        installations.reverse();
        assert!(kept.row.renewal_can_be_told(NOW));
        kept.row.shown_status(
            &self.account,
            Some(format!("{}@example.invalid", self.account.id().as_str())),
            Vec::new(),
            &kept.history,
            installations,
            NOW,
        )
    }

    fn bucket(&self, model: &str) -> TurnStateBucket {
        self.kept[self.place(model).unwrap()]
            .row
            .bucket(Vec::new(), NOW)
    }

    /// Drops what has outlived its time from the rows and their histories.
    fn clean(&mut self) {
        for kept in &mut self.kept {
            kept.row.clean(NOW);
            let history = std::mem::take(&mut kept.history);
            kept.history = kept.row.clean_history(history, NOW);
        }
    }

    fn claim_notices(&mut self, now: i64) -> Vec<TurnStateNotification> {
        let mut deliveries = Vec::new();
        let mut rest = Vec::new();
        for kept in std::mem::take(&mut self.kept) {
            let Kept {
                row,
                history,
                installations,
                notice,
            } = kept;
            match notice {
                Some(notice) => {
                    deliveries.push(Delivery {
                        notice,
                        row,
                        account: self.account.clone(),
                        provider_kind: "openai".to_owned(),
                    });
                    rest.push((history, installations));
                }
                None => self.kept.push(Kept {
                    row,
                    history,
                    installations,
                    notice: None,
                }),
            }
        }
        let mut claimed = Vec::new();
        for place in due_notices(&deliveries, now) {
            claimed.extend(deliveries[place].claim(now));
        }
        for (delivery, (history, installations)) in deliveries.into_iter().zip(rest) {
            self.kept.push(Kept {
                row: delivery.row,
                history,
                installations,
                notice: Some(delivery.notice),
            });
        }
        claimed
    }
}

/// Every text that is shown of an observation.
fn texts_of(shown: &TurnStateObservation) -> Vec<&str> {
    let mut texts = vec![
        shown.account_id.as_str(),
        shown.model.as_str(),
        shown.source.as_str(),
        shown.outcome.as_str(),
        shown.egress.as_str(),
    ];
    for text in [
        &shown.observation_id,
        &shown.upstream_account_id,
        &shown.upstream_user_id,
        &shown.request_state_source,
        &shown.response_source,
        &shown.probe_trigger,
        &shown.reported_model,
        &shown.oailb_host,
        &shown.token,
        &shown.shape,
        &shown.effort,
        &shown.probe_id,
        &shown.stop_mode,
        &shown.stop_reason,
        &shown.answer,
    ] {
        texts.extend(text.as_deref());
    }
    texts
}

/// Whether a text stands anywhere in a status.
fn holds_text(status: &TurnStateStatus, text: &str) -> bool {
    let config = &status.config;
    let mut texts = vec![
        status.account_id.as_str(),
        status.account_name.as_str(),
        status.model.as_str(),
        config.cookie_gateway_ids.as_str(),
        config.originator.as_str(),
        config.client_version.as_str(),
        config.user_agent.as_str(),
    ];
    texts.extend(status.account_email.as_deref());
    texts.extend(status.cookie_override_pod.as_deref());
    texts.extend(config.proxy_ids.iter().map(String::as_str));
    for cookie in status.routing_cookie.iter().chain(&status.cookie_pool) {
        texts.extend([
            cookie.gateway_id.as_str(),
            cookie.pod.as_str(),
            cookie.reported_model.as_str(),
        ]);
    }
    for shown in &status.observations {
        texts.extend(texts_of(shown));
    }
    for installation in &status.installations {
        texts.push(installation.source.as_str());
    }
    texts.iter().any(|shown| shown.contains(text))
        || status
            .observations
            .iter()
            .any(|shown| shown.debug_text().contains(text))
}

#[test]
fn removal_preserves_switches_and_watermark_and_isolates_models() {
    let mut store = Store::new("acct_remove");
    let issued = NOW - 10;
    for model in ["model-a", "model-b"] {
        store.configure(
            model,
            TurnStateConfig {
                enabled: true,
                missing_state_policy: MissingTurnStatePolicy::Pause,
                ..TurnStateConfig::default()
            },
        );
        store.observe(
            observation("acct_remove", model, 292, issued),
            Some(token(292, issued)),
        );
        assert!(store.install(model));
    }
    assert!(store.of("model-a").row.remove_turn_state(issued - 1).is_err());
    store.of("model-a").row.remove_turn_state(issued).unwrap();
    assert!(store.of("model-a").row.remove_turn_state(issued).is_err());
    let removed = store.status("model-a");
    assert!(!removed.has_installed_state);
    assert!(!removed.active);
    assert_eq!(
        removed.business_status,
        TurnStateBusinessStatus::WaitingForState
    );
    assert_eq!(removed.issued_at, Some(issued));
    assert!(removed.account_enabled && removed.config.enabled);
    assert!(store.status("model-b").active);
    assert_eq!(
        store
            .copy("model-a", issued, None)
            .map(|state| state.value.len()),
        Some(292)
    );
    assert!(store.apply("model-a", issued, None).is_err());
    assert!(store.bucket("model-a").manages_injection());
    store.observe(
        observation("acct_remove", "model-a", 292, issued),
        Some(token(292, issued)),
    );
    assert!(!store.install("model-a"));
    let renewed = issued + 1;
    store.observe(
        observation("acct_remove", "model-a", 292, renewed),
        Some(token(292, renewed)),
    );
    assert!(store.install("model-a"));
    store.account.enabled = false;
    store.of("model-a").row.remove_turn_state(renewed).unwrap();
    for model in ["model-a", "model-b"] {
        let status = store.status(model);
        assert!(!status.account_enabled && status.config.enabled);
        assert_eq!(
            status.business_status,
            TurnStateBusinessStatus::ManualDisabled
        );
    }
}

#[test]
fn disabled_logging_retains_candidates_and_copy_is_scoped_to_valid_current_identity() {
    let mut store = Store::new("acct_copy");
    let issued = NOW - 5;
    let expected = token(292, issued);
    let mut passive = observation("acct_copy", "model-a", 292, issued);
    passive.source = "passive".to_owned();
    passive.probe_trigger = None;
    store.observe(passive, Some(expected.clone()));
    let status = store.status("model-a");
    assert!(status.observations.is_empty());
    assert_eq!(status.candidate_issued_at, Some(issued));
    assert_eq!(
        store.copy("model-a", issued, None).unwrap().value,
        expected.value
    );
    assert!(store.copy("model-b", issued, None).is_none());
    assert!(store.copy("model-a", issued - 1, None).is_none());
    let other = Store::new("acct_other").account;
    let kept = store.of("model-a");
    assert!(kept
        .row
        .copyable_turn_state(&other, &kept.history, issued, None, NOW)
        .is_none());
    let mut manual = observation("acct_copy", "model-a", 312, issued + 1);
    manual.probe_trigger = Some("manual".to_owned());
    store.observe(manual.clone(), None);
    assert_eq!(store.status("model-a").observations.len(), 1);
    store.apply("model-a", issued, None).unwrap();
    assert!(store.copy("model-a", issued, None).is_some());
    store.account.enabled = false;
    store.observe(manual, None);
    assert_eq!(store.status("model-a").observations.len(), 1);
    store.of("model-a").row.upstream_user_id = Some("different".to_owned());
    assert!(store.copy("model-a", issued, None).is_none());
    let expired = issued - 3600;
    let kept = store.of("model-a");
    kept.row.upstream_user_id = Some("acct_copy".to_owned());
    kept.row.current = Some(token(292, expired).value);
    kept.row.current_issued_at = Some(expired);
    assert!(store.copy("model-a", expired, None).is_none());
}

#[test]
fn turn_state_candidates_are_atomic_isolated_and_expire_from_issue_time() {
    let enabled = || TurnStateConfig {
        enabled: true,
        ..TurnStateConfig::default()
    };
    let mut store = Store::new("acct_turn_a");
    let mut other = Store::new("acct_turn_b");
    for model in ["model-a", "model-b"] {
        store.configure(model, enabled());
        other.configure(model, enabled());
    }
    assert_eq!(store.bucket("model-a").account_id, "acct_turn_a");
    assert_eq!(store.bucket("model-a").model, "model-a");
    store.add("manual-model", TurnStateConfig::default());
    let account = store.account.clone();
    let row = &mut store.of("manual-model").row;
    row.request_turn_state_probe(&account, "openai", NOW).unwrap();
    row.request_turn_state_probe(&account, "openai", NOW).unwrap();
    let manual = store.bucket("manual-model");
    assert!(!manual.config.enabled);
    assert!(manual.manual_probe_requested_at.is_some());
    assert!(manual.next_probe_at.is_none());
    let row = &mut store.of("manual-model").row;
    let claims = [row.claim_turn_state_probe(), row.claim_turn_state_probe()];
    assert_eq!(claims.iter().filter(|claimed| **claimed).count(), 1);
    assert!(!row.claim_turn_state_probe());
    let issued = NOW - 60;
    let initial = token(292, issued);
    store.observe(
        observation("acct_turn_a", "model-a", 292, issued),
        Some(initial.clone()),
    );
    assert!(store.install("model-a"));
    assert!(!store.install("model-a"));
    assert!(!store.install("model-b"));
    assert!(!other.install("model-a"));
    for (length, time) in [
        (292, issued),
        (292, issued - 1),
        (312, issued + 1),
        (552, issued + 1),
    ] {
        store.observe(
            observation("acct_turn_a", "model-a", length, time),
            Some(token(length, time)),
        );
        assert!(!store.install("model-a"));
    }
    store.observe(
        observation("acct_turn_a", "model-b", 292, issued - 4000),
        Some(token(292, issued - 4000)),
    );
    assert!(!store.install("model-b"));
    let model = store.status("model-a");
    assert_eq!(model.installations.len(), 1);
    assert_eq!(
        model.account_email.as_deref(),
        Some("acct_turn_a@example.invalid")
    );
    assert!(model
        .observations
        .iter()
        .any(|item| item.outcome == "not_newer"));
    assert_eq!(model.issued_at, Some(issued));
    assert_eq!(model.installations[0].attempts, 1);
    assert!(model.installations[0].acquired_at >= issued);
    assert!(model.next_probe_at.is_some());
    assert!(model
        .observations
        .iter()
        .any(|item| item.token_length == Some(552)));
    assert!(!holds_text(&model, &initial.value));
    store.observe(
        observation("acct_turn_a", "model-a", 292, issued + 1),
        Some(TurnStateToken {
            value: "x".repeat(292),
            issued_at: issued + 1,
        }),
    );
    assert!(!store.install("model-a"));
    store.observe(
        observation("acct_turn_a", "model-a", 292, issued + 2),
        Some(token(292, issued + 2)),
    );
    let installs = [store.install("model-a"), store.install("model-a")];
    assert_eq!(installs.iter().filter(|installed| **installed).count(), 1);
    store.of("model-a").row.current_issued_at = Some(issued - 4000);
    assert!(store.bucket("model-a").current.is_none());
    store.clean();
    assert!(store.of("model-a").row.current.is_none());
    store
        .of("model-a")
        .row
        .request_turn_state_probe(&account, "openai", NOW)
        .unwrap();
    store.account.upstream_user_id = Some("new-user".to_owned());
    store.observe(
        observation("acct_turn_a", "model-a", 292, issued + 3),
        Some(token(292, issued + 3)),
    );
    let replaced = store.bucket("model-a");
    assert!(replaced.current.is_none());
    assert!(replaced.candidate.is_none());
    assert!(replaced.current_issued_at.is_none());
    assert!(replaced.manual_probe_requested_at.is_none());
    assert!(!replaced.manual_override);
    assert!(replaced.config.enabled);
    assert_eq!(replaced.upstream_user_id.as_deref(), Some("new-user"));
}

#[test]
fn manual_apply_keeps_rotation_disabled_and_rejects_stale_candidates() {
    let strict = || TurnStateConfig {
        missing_state_policy: MissingTurnStatePolicy::Pause,
        ..TurnStateConfig::default()
    };
    let mut store = Store::new("acct_manual_apply");
    store.configure("model-a", strict());
    store.configure("model-b", strict());
    let issued = NOW - 60;
    store.observe(
        observation("acct_manual_apply", "model-a", 292, issued),
        Some(token(292, issued)),
    );
    let status = store.status("model-a");
    assert_eq!(status.candidate_issued_at, Some(issued));
    assert_eq!(status.candidate_length, Some(292));
    assert!(!status.config.enabled);
    assert!(!status.active);
    assert_eq!(
        status.business_status,
        TurnStateBusinessStatus::WaitingForState
    );
    assert!(store.apply("model-b", issued, None).is_err());
    assert!(store.apply("model-a", issued - 1, None).is_err());
    let applied = [
        store.apply("model-a", issued, None).is_ok(),
        store.apply("model-a", issued, None).is_ok(),
    ];
    assert_eq!(applied.iter().filter(|applied| **applied).count(), 1);
    let status = store.status("model-a");
    assert!(status.active);
    assert_eq!(status.business_status, TurnStateBusinessStatus::Ready);
    assert!(status.manual_override);
    assert!(!status.config.enabled);
    assert!(status.next_probe_at.is_none());
    assert!(status.candidate_issued_at.is_none());
    assert_eq!(status.installations.len(), 1);
    store.configure("model-a", strict());
    let configured = store.bucket("model-a");
    assert!(configured.installed_token(NOW).is_some());
    assert!(configured.manual_override);
    assert!(!configured.config.enabled);
    for outcome in ["length_miss", "missing_header", "transport_error"] {
        let mut miss = observation("acct_manual_apply", "model-a", 312, issued + 1);
        miss.outcome = outcome.to_owned();
        store.observe(miss, None);
        assert!(!store.install("model-a"));
        let retained = store.bucket("model-a");
        assert_eq!(retained.installed_token(NOW).unwrap().issued_at, issued);
    }
    store.account.enabled = false;
    let disabled = store.status("model-a");
    assert!(!disabled.account_enabled);
    assert_eq!(
        disabled.business_status,
        TurnStateBusinessStatus::ManualDisabled
    );
    store.clean();
    assert!(!store.install("model-a"));
    assert!(!store.account.enabled);
    store.account.enabled = true;
    assert!(store.apply("model-a", issued, None).is_err());
    let expired = NOW - 3600;
    let row = &mut store.of("model-a").row;
    row.current = Some(token(292, expired).value);
    row.current_issued_at = Some(expired);
    let status = store.status("model-a");
    assert!(!status.active);
    assert_eq!(
        status.business_status,
        TurnStateBusinessStatus::WaitingForState
    );
    let row = &mut store.of("model-a").row;
    row.current = None;
    row.current_issued_at = None;
    row.candidate = Some(Candidate {
        value: token(292, expired).value,
        issued_at: expired,
        source: "probe".to_owned(),
        observed_at: expired,
        attempts: 0,
        hunt_started_at: expired,
        reported_model: None,
    });
    assert!(store.apply("model-a", expired, None).is_err());
    store.configure("model-a", TurnStateConfig::default());
    let state = store.bucket("model-a");
    assert!(!state.manual_override);
    assert!(state.current.is_none());
}

#[test]
fn non_target_token_is_kept_in_history_copyable_and_installable_after_retarget() {
    let mut store = Store::new("acct_nontarget");
    store.configure(
        "model-a",
        TurnStateConfig {
            enabled: true,
            ..TurnStateConfig::default()
        },
    );
    let issued = NOW - 5;
    let expected = token(312, issued);
    let mut miss = observation("acct_nontarget", "model-a", 312, issued);
    miss.reported_model = Some("gpt-5.6-luna".to_owned());
    store.observe(miss, Some(expected.clone()));
    let status = store.status("model-a");
    assert!(status.candidate_issued_at.is_none());
    assert!(status.observations[0].has_token);
    assert_eq!(
        status.observations[0].reported_model.as_deref(),
        Some("gpt-5.6-luna")
    );
    assert!(!holds_text(&status, &expected.value));
    assert_eq!(
        store.copy("model-a", issued, None).unwrap().value,
        expected.value
    );
    assert!(!store.install("model-a"));
    assert!(store.apply("model-a", issued, None).is_err());
    store.configure(
        "model-a",
        TurnStateConfig {
            enabled: true,
            target_length: 312,
            ..TurnStateConfig::default()
        },
    );
    store.apply("model-a", issued, None).unwrap();
    let status = store.status("model-a");
    assert!(status.active);
    assert!(status.manual_override);
    assert_eq!(status.token_length, Some(312));
    assert_eq!(status.installations[0].issued_at, issued);
}

#[test]
fn history_selection_is_exact_even_when_tokens_share_timestamp_and_length() {
    let mut store = Store::new("acct_exact_history");
    for model in ["model-a", "model-b"] {
        store.configure(
            model,
            TurnStateConfig {
                enabled: true,
                ..TurnStateConfig::default()
            },
        );
    }
    let issued = NOW - 5;
    let first = token(292, issued);
    let mut bytes = URL_SAFE.decode(&first.value).unwrap();
    bytes[10] = 1;
    let second = TurnStateToken::parse(&URL_SAFE.encode(bytes)).unwrap();
    let miss = token(312, issued);
    for value in [&first, &second, &miss] {
        let mut observed =
            observation("acct_exact_history", "model-a", value.value.len(), issued);
        observed.started_at = Some(NOW - 61);
        observed.token = Some(value.value.clone());
        store.observe(observed, Some(value.clone()));
    }
    let status = store.status("model-a");
    let ids: Vec<i64> = status
        .observations
        .iter()
        .rev()
        .map(|row| row.observation_id.as_ref().unwrap().parse().unwrap())
        .collect();
    for (id, value) in ids.iter().zip([&first, &second, &miss]) {
        assert_eq!(
            store.copy("model-a", issued, Some(*id)).unwrap().value,
            value.value
        );
    }
    assert!(store.copy("model-b", issued, Some(ids[1])).is_none());
    assert!(store.copy("model-a", issued - 1, Some(ids[1])).is_none());
    assert!(store.copy("model-a", issued, Some(i64::MAX)).is_none());
    assert!(store.apply("model-a", issued, Some(ids[2])).is_err());
    assert!(store.apply("model-a", issued, Some(i64::MAX)).is_err());
    store.apply("model-a", issued, Some(ids[1])).unwrap();
    let status = store.status("model-a");
    assert!(status.has_installed_state);
    assert!(status.candidate_issued_at.is_none());
    assert!(!status.observations[0].is_installed);
    assert!(status.observations[1].is_installed);
    assert!(!status.observations[2].is_installed);
    assert_eq!(status.installations[0].attempts, 2);
    assert!(status.installations[0].hunt_seconds >= 61);
    assert_eq!(
        store.copy("model-a", issued, None).unwrap().value,
        second.value
    );
    store.of("model-a").row.remove_turn_state(issued).unwrap();
    let status = store.status("model-a");
    assert!(status.observations.iter().all(|row| !row.is_installed));
    assert!(store.copy("model-a", issued, None).is_none());
    assert_eq!(
        store.copy("model-a", issued, Some(ids[0])).unwrap().value,
        first.value
    );
}

#[test]
fn invalid_history_bodies_are_rejected_and_legacy_extreme_dates_do_not_break_cleanup() {
    let mut store = Store::new("acct_invalid_history");
    store.configure(
        "model-a",
        TurnStateConfig {
            enabled: true,
            ..TurnStateConfig::default()
        },
    );
    for issued in [0, NOW - 3601, NOW + 3600, i64::MAX] {
        let observed = observation("acct_invalid_history", "model-a", 312, issued);
        assert!(!observed
            .debug_text()
            .contains(observed.token.as_ref().unwrap()));
        store.observe(observed.clone(), None);
        assert!(!store.status("model-a").observations[0].has_token);
        let id = store.next_id;
        store.next_id += 1;
        store.of("model-a").history.push(HistoryEntry {
            id,
            observation: observed,
        });
        assert!(store.status("model-a").observations[0].has_token);
    }
    let id = store.next_id;
    store.next_id += 1;
    let mut unread = observation("acct_invalid_history", "model-a", 312, NOW);
    unread.token = Some("not a ticket".to_owned());
    store.of("model-a").history.push(HistoryEntry {
        id,
        observation: unread,
    });
    let fresh = token(292, NOW - 1);
    store.observe(
        observation("acct_invalid_history", "model-a", 292, fresh.issued_at),
        Some(fresh.clone()),
    );
    assert!(store.install("model-a"));
    store.clean();
    let history = &store.of("model-a").history;
    assert_eq!(history.len(), 10);
    assert_eq!(
        history.iter().map(|entry| entry.id).collect::<Vec<_>>(),
        (1..=10).collect::<Vec<i64>>()
    );
    assert!(history
        .iter()
        .all(|entry| entry.observation.token_length.is_some()));
    assert_eq!(
        history
            .iter()
            .filter(|entry| entry.observation.token.is_some())
            .count(),
        1
    );
    assert_eq!(
        store.copy("model-a", fresh.issued_at, None).unwrap().value,
        fresh.value
    );
}

#[test]
fn notifications_follow_committed_installations_and_bound_retries_without_copying_tokens() {
    let mut store = Store::new("acct_notice");
    store.configure(
        "model-a",
        TurnStateConfig {
            feishu_webhook_url: "https://open.feishu.cn/open-apis/bot/v2/hook/test-only"
                .to_owned(),
            ..TurnStateConfig::default()
        },
    );
    let issued = NOW - 100;
    let first = token(292, issued);
    store.observe(
        observation("acct_notice", "model-a", 292, issued),
        Some(first.clone()),
    );
    assert!(store.claim_notices(NOW).is_empty());
    store.apply("model-a", issued, None).unwrap();
    let mut notices = store.claim_notices(NOW);
    notices.extend(store.claim_notices(NOW));
    assert_eq!(notices.len(), 1);
    let notice = notices.pop().unwrap();
    assert_eq!(notice.token.value, first.value);
    assert!(notice.manual);
    assert!(notice.previous_installed_at.is_none());
    assert_eq!(notice.installation.attempts, 1);
    let first_installed_at = notice.installation.installed_at;
    assert!(store.claim_notices(NOW + 59).is_empty());
    let pending = |store: &mut Store, issued_at: i64, delivered: bool| {
        let notice = store.of("model-a").notice.as_mut().unwrap();
        finish_notification(notice, issued_at, delivered, NOW);
    };
    pending(&mut store, issued, false);
    for _ in 1..5 {
        store.of("model-a").notice.as_mut().unwrap().next_attempt_at = 0;
        assert_eq!(store.claim_notices(NOW).len(), 1);
    }
    store.of("model-a").notice.as_mut().unwrap().next_attempt_at = 0;
    assert!(store.claim_notices(NOW).is_empty());
    let renewed = issued + 1;
    store.observe(
        observation("acct_notice", "model-a", 292, renewed),
        Some(token(292, renewed)),
    );
    store.apply("model-a", renewed, None).unwrap();
    pending(&mut store, issued, true);
    let notice = store.claim_notices(NOW).pop().unwrap();
    assert_eq!(notice.previous_installed_at, Some(first_installed_at));
    assert_eq!(notice.token.issued_at, renewed);
    pending(&mut store, renewed, true);
    assert!(store.claim_notices(NOW + 60).is_empty());
    let latest = renewed + 1;
    store.observe(
        observation("acct_notice", "model-a", 292, latest),
        Some(token(292, latest)),
    );
    store.apply("model-a", latest, None).unwrap();
    store.account.enabled = false;
    assert!(store.claim_notices(NOW).is_empty());
    store.account.enabled = true;
    store.of("model-a").row.remove_turn_state(latest).unwrap();
    assert!(store.claim_notices(NOW).is_empty());
}

/// What the credential of an account shows before a probe.
fn facts_of(account: &ProviderAccount) -> CredentialFacts {
    CredentialFacts {
        enabled: account.enabled,
        model_allowed: true,
        upstream_account_id: Some("upstream-probe".to_owned()),
        upstream_user_id: account.upstream_user_id.clone(),
        decoded: true,
        is_oauth: true,
        token_expires_ms: Some((NOW + 3600) * 1000),
        account_expires_ms: None,
    }
}

/// One cycle over a bucket: how many requests it sent.
fn run_cycle(store: &mut Store, model: &str, answer: &TurnStateToken) -> usize {
    let bucket = store.bucket(model);
    if !wants_attention(&bucket) {
        return 0;
    }
    let mut probes = 0;
    let mut result = match first_step(&bucket, NOW) {
        FirstStep::Done => return 0,
        FirstStep::ClaimManual => {
            StepResult::Claimed(store.of(model).row.claim_turn_state_probe())
        }
        FirstStep::TryInstall => StepResult::Installed(store.install(model)),
        FirstStep::ConsiderProbe => StepResult::Considered,
    };
    loop {
        match next_step(&bucket, result, NOW) {
            NextStep::Probe { manual } => {
                let facts = facts_of(&store.account);
                if !matches!(
                    check_credential(Some(&facts), NOW * 1000),
                    CredentialCheck::Ready(_)
                ) {
                    let outcome = ProbeOutcome::Skipped;
                    result = StepResult::Probed { manual, outcome };
                    continue;
                }
                probes += 1;
                let mut observed = begin_probe(&bucket, manual, NOW);
                observed.outcome = "candidate".to_owned();
                observed.probe_id = Some("probe".to_owned());
                observed.token = Some(answer.value.clone());
                store.observe(observed, Some(answer.clone()));
                let outcome = conclude_probe(store.install(model));
                result = StepResult::Probed { manual, outcome };
            }
            NextStep::Schedule => {
                store.of(model).row.next_probe_at = Some(NOW + 30);
                return probes;
            }
            NextStep::Done => return probes,
        }
    }
}

#[test]
fn manual_probe_runs_once_without_enabling_rotation() {
    let mut store = Store::new("acct_turn_probe");
    store.configure("gpt-5.4", TurnStateConfig::default());
    let account = store.account.clone();
    store
        .of("gpt-5.4")
        .row
        .request_turn_state_probe(&account, "openai", NOW)
        .unwrap();
    let answer = token(292, NOW);
    assert_eq!(run_cycle(&mut store, "gpt-5.4", &answer), 1);
    assert_eq!(run_cycle(&mut store, "gpt-5.4", &answer), 0);
    let observations = store.status("gpt-5.4").observations;
    assert_eq!(observations.len(), 1);
    assert_eq!(observations[0].probe_trigger.as_deref(), Some("manual"));
    let bucket = store.bucket("gpt-5.4");
    assert!(!bucket.config.enabled);
    assert!(bucket.current.is_none());
    assert!(bucket.candidate.is_some());
    assert!(bucket.manual_probe_requested_at.is_none());
}

#[test]
fn strict_business_waits_without_queueing_while_worker_and_manual_recovery_remain_available() {
    let strict = |enabled: bool| TurnStateConfig {
        enabled,
        missing_state_policy: MissingTurnStatePolicy::Pause,
        ..TurnStateConfig::default()
    };
    let model = "gpt-5.4";
    let mut store = Store::new("acct_turn_probe");
    store.configure(model, strict(true));
    let waits = |store: &Store| {
        !store
            .bucket(model)
            .checked_scheduling_availability(&store.account, model, NOW)
            .unwrap()
            .allows(NOW)
    };
    assert!(waits(&store));
    let installed = token(292, NOW - 5);
    assert_eq!(run_cycle(&mut store, model, &installed), 1);
    assert!(store.account.enabled);
    assert!(store.bucket(model).config.enabled);
    assert!(!waits(&store));
    let account = store.account.clone();
    store
        .of(model)
        .row
        .request_turn_state_probe(&account, "openai", NOW)
        .unwrap();
    assert_eq!(run_cycle(&mut store, model, &token(312, NOW)), 1);
    assert_eq!(store.bucket(model).current.unwrap().value, installed.value);
    let expired = token(292, NOW - 3600);
    store.of(model).row.current = Some(expired.value);
    store.of(model).row.current_issued_at = Some(expired.issued_at);
    assert!(waits(&store));
    assert!(store.account.enabled);
    store.configure(model, strict(false));
    assert_eq!(run_cycle(&mut store, model, &token(292, NOW)), 0);
    store
        .of(model)
        .row
        .request_turn_state_probe(&account, "openai", NOW)
        .unwrap();
    assert_eq!(run_cycle(&mut store, model, &token(292, NOW)), 1);
    let bucket = store.bucket(model);
    assert!(!bucket.config.enabled);
    assert!(bucket.current.is_none());
    assert!(waits(&store));
    store.apply(model, NOW, None).unwrap();
    assert!(!waits(&store));
    store.account.enabled = false;
    let account = store.account.clone();
    assert!(store
        .of(model)
        .row
        .request_turn_state_probe(&account, "openai", NOW)
        .is_err());
    store.of(model).row.manual_probe_requested_at = Some(NOW);
    assert_eq!(run_cycle(&mut store, model, &token(292, NOW)), 0);
    assert!(store.bucket(model).manual_probe_requested_at.is_none());
    assert!(!store.account.enabled);
    assert_eq!(
        store.status(model).business_status,
        TurnStateBusinessStatus::ManualDisabled
    );
}

#[test]
fn mapped_model_and_sticky_account_cannot_bypass_expired_bucket() {
    let model = "gpt-5.4";
    let mut store = Store::new("acct_turn_probe");
    store.configure(
        model,
        TurnStateConfig {
            enabled: true,
            missing_state_policy: MissingTurnStatePolicy::Pause,
            ..TurnStateConfig::default()
        },
    );
    let fresh = token(292, NOW);
    store.of(model).row.current = Some(fresh.value);
    store.of(model).row.current_issued_at = Some(fresh.issued_at);
    let allows = |store: &Store, model_asked: &str| {
        store
            .bucket(model)
            .checked_scheduling_availability(&store.account, model_asked, NOW)
            .unwrap()
            .allows(NOW)
    };
    assert!(allows(&store, model));
    let expired = token(292, NOW - 3600);
    store.of(model).row.current = Some(expired.value);
    store.of(model).row.current_issued_at = Some(expired.issued_at);
    assert!(!allows(&store, model));
    assert!(store.place("other-model").is_none());
}

#[test]
fn a_cycle_goes_on_by_what_came_of_each_step() {
    let mut store = Store::new("acct_steps");
    store.configure(
        "model-a",
        TurnStateConfig {
            enabled: true,
            ..TurnStateConfig::default()
        },
    );
    let bucket = store.bucket("model-a");
    let next = |result: StepResult| next_step(&bucket, result, NOW);
    assert_eq!(
        next(StepResult::Claimed(true)),
        NextStep::Probe { manual: true }
    );
    assert_eq!(next(StepResult::Claimed(false)), NextStep::Done);
    assert_eq!(next(StepResult::Installed(true)), NextStep::Done);
    assert_eq!(
        next(StepResult::Installed(false)),
        NextStep::Probe { manual: false }
    );
    assert_eq!(
        next(StepResult::Considered),
        NextStep::Probe { manual: false }
    );
    for outcome in [
        ProbeOutcome::Installed,
        ProbeOutcome::Miss,
        ProbeOutcome::Skipped,
    ] {
        let by_hand = StepResult::Probed {
            manual: true,
            outcome,
        };
        assert_eq!(next(by_hand), NextStep::Done);
        let scheduled = StepResult::Probed {
            manual: false,
            outcome,
        };
        let expected = if outcome == ProbeOutcome::Installed {
            NextStep::Done
        } else {
            NextStep::Schedule
        };
        assert_eq!(next(scheduled), expected);
    }
    store.of("model-a").row.next_probe_at = Some(NOW + 1);
    let later = store.bucket("model-a");
    assert_eq!(
        next_step(&later, StepResult::Installed(false), NOW),
        NextStep::Done
    );
}

#[test]
fn probes_refresh_identity_observe_any_length_and_inject_only_target_bucket() {
    let model = "gpt-5.4";
    let mut store = Store::new("acct_turn_probe");
    store.configure(
        model,
        TurnStateConfig {
            enabled: true,
            retry_seconds: 1,
            jitter_seconds: 0,
            timezone: TimeZone::parse("Pacific/Kiritimati").unwrap(),
            originator: "test-probe-persona".to_owned(),
            user_agent: "test-probe-agent/1.0".to_owned(),
            ..TurnStateConfig::default()
        },
    );
    let answered = |value: &str| TurnStateResponse {
        status: Some(200),
        value: Some(value.as_bytes().to_vec()),
        reported_model: None,
        elapsed_ms: 1,
        transport_error: false,
        source: "http_headers".to_owned(),
    };
    let target = token(292, NOW);
    let mut identities: Vec<String> = Vec::new();
    let mut new_identity = |value: String| {
        let fresh = !identities.contains(&value);
        identities.push(value);
        fresh
    };
    for length in [312, 552, 292] {
        let bucket = store.bucket(model);
        let probe = request(model, &bucket.config, &bucket.config.user_agent, NOW * 1000).unwrap();
        let header = |name: &str| {
            let field = probe.headers.iter().find(|field| field.name == name);
            field.unwrap().value.clone()
        };
        assert_eq!(header("originator"), "test-probe-persona");
        assert_eq!(header("user-agent"), "test-probe-agent/1.0");
        let packed = compressed_body(&probe.body).unwrap();
        let bytes = zstd::stream::decode_all(std::io::Cursor::new(&packed)).unwrap();
        let body: serde_json::Value = serde_json::from_slice(&bytes).unwrap();
        for key in [
            "session-id",
            "thread-id",
            "x-client-request-id",
            "x-codex-window-id",
        ] {
            let value = header(key);
            assert_eq!(uuid::Uuid::parse_str(&value).unwrap().get_version_num(), 7);
            assert_eq!(body["client_metadata"][key], value.as_str());
            assert!(new_identity(value));
        }
        let metadata: serde_json::Value =
            serde_json::from_str(&header("x-codex-turn-metadata")).unwrap();
        let in_body = body["client_metadata"]["x-codex-turn-metadata"].as_str();
        let in_body: serde_json::Value = serde_json::from_str(in_body.unwrap()).unwrap();
        assert_eq!(metadata, in_body);
        for key in ["turn_id", "context_window_id"] {
            assert!(new_identity(metadata[key].as_str().unwrap().to_owned()));
        }
        assert_eq!(metadata["turn_started_at_unix_ms"], NOW * 1000);
        assert_eq!(
            body["prompt_cache_key"],
            body["client_metadata"]["session_id"]
        );
        let text = body["input"][0]["content"][0]["text"].as_str().unwrap();
        assert!(text.contains("<current_date>2027-01-15</current_date>"));
        assert!(text.contains("<timezone>Pacific/Kiritimati</timezone>"));
        let value = if length == 292 {
            target.clone()
        } else {
            token(length, NOW)
        };
        let mut observation = begin_probe(&bucket, false, NOW);
        observation.probe_id = Some(probe.id.clone());
        let observed = observe(
            observation,
            &answered(&value.value),
            &bucket.config,
            None,
            latest_issued_at(&bucket),
        );
        store.observe(observed.observation, observed.candidate);
        store.install(model);
        assert_eq!(store.bucket(model).current.is_some(), length == 292);
        assert!(store.place("other-model").is_none());
    }
    let mut shown = store.status(model).observations;
    shown.reverse();
    assert_eq!(
        shown.iter().map(|item| item.token_length).collect::<Vec<_>>(),
        vec![Some(312), Some(552), Some(292)]
    );
    assert_eq!(shown[0].outcome, "length_miss");
    let account = store.account.clone();
    for (phase, outcome) in ["length_miss", "reused_state", "reused_state", "candidate"]
        .into_iter()
        .enumerate()
    {
        if phase == 2 {
            store.of(model).row.manual_override = true;
        }
        if phase == 3 {
            let expired = token(292, NOW - 3600);
            store.of(model).row.current = Some(expired.value);
            store.of(model).row.current_issued_at = Some(expired.issued_at);
        }
        let bucket = store.bucket(model);
        let carried = bucket.installed_token(NOW).map(|token| token.value.clone());
        assert_eq!(
            carried.as_deref(),
            if phase == 3 {
                None
            } else {
                Some(target.value.as_str())
            }
        );
        let value = if phase == 0 {
            token(312, NOW)
        } else {
            target.clone()
        };
        let source = ["automatic_override", "automatic_override", "bucket_manual_override", "none"];
        let observation =
            passive_observation(&account, model, &None, source[phase], "direct", NOW);
        let observed = observe(
            observation,
            &answered(&value.value),
            &bucket.config,
            carried.as_deref(),
            latest_issued_at(&bucket),
        );
        assert_eq!(observed.observation.outcome, outcome);
        assert_eq!(
            observed.observation.request_state_source.as_deref(),
            Some(source[phase])
        );
        store.observe(observed.observation, observed.candidate);
        if phase == 1 {
            let bucket = store.bucket(model);
            assert!(bucket.candidate.is_none());
            assert_eq!(bucket.current_issued_at, Some(target.issued_at));
        }
    }
    assert!(store.status(model).observations.iter().any(|item| {
        item.source == "passive"
            && item.token_length == Some(312)
            && item.request_state_source.as_deref() == Some("automatic_override")
    }));
}

#[test]
fn a_candidate_installs_once() {
    let mut store = Store::new("acct_once");
    store.configure(
        "model-a",
        TurnStateConfig {
            enabled: true,
            ..TurnStateConfig::default()
        },
    );
    let offered = token(292, NOW - 5);
    store.observe(
        observation("acct_once", "model-a", 292, NOW - 5),
        Some(offered.clone()),
    );
    assert!(store.install("model-a"));
    assert!(!store.install("model-a"));
    let bucket = store.bucket("model-a");
    assert_eq!(bucket.current.unwrap().value, offered.value);
    assert!(bucket.candidate.is_none());
    assert_eq!(bucket.hunt_attempts, 0);
}

#[test]
fn a_status_shows_cookies_and_history_without_tickets() {
    let mut store = Store::new("acct_shown");
    store.configure(
        "model-a",
        TurnStateConfig {
            enabled: true,
            cookie_lock_enabled: true,
            cookie_gateway_ids: "8".to_owned(),
            ..TurnStateConfig::default()
        },
    );
    let tickets = [token(292, NOW - 9), token(292, NOW - 5)];
    for ticket in &tickets {
        store.observe(
            observation("acct_shown", "model-a", 292, ticket.issued_at),
            Some(ticket.clone()),
        );
    }
    let cookie = |pod: &str, expires_at: i64| RoutingCookie {
        origin: "endpoint".to_owned(),
        pod: pod.to_owned(),
        name: "__oailb".to_owned(),
        value: "secret".to_owned(),
        issued_at: NOW - 60,
        expires_at,
        observed_at: NOW - 30,
        reported_model: "model-a".to_owned(),
    };
    let kept = store.of("model-a");
    kept.row.current = Some(tickets[0].value.clone());
    kept.row.current_issued_at = Some(tickets[0].issued_at);
    let account = store.account.clone();
    let kept = store.of("model-a");
    let status = kept.row.shown_status(
        &account,
        None,
        vec![
            cookie("chat.gateway.unified-7.api.openai.com", NOW + 600),
            cookie("chat.gateway.unified-8.api.openai.com", NOW + 900),
        ],
        &kept.history,
        Vec::new(),
        NOW,
    );
    assert_eq!(status.cookie_pool.len(), 2);
    assert_eq!(status.cookie_pool[0].gateway_id, "7");
    assert_eq!(status.cookie_pool[1].expires_at, NOW + 900);
    let chosen = status.routing_cookie.as_ref().unwrap();
    assert_eq!(chosen.pod, "chat.gateway.unified-8.api.openai.com");
    let issued = status
        .observations
        .iter()
        .map(|shown| shown.issued_at.unwrap())
        .collect::<Vec<_>>();
    assert_eq!(issued, [NOW - 5, NOW - 9]);
    assert!(status.observations.iter().all(|shown| shown.token.is_none()));
    assert!(status.observations.iter().all(|shown| shown.has_token));
    for ticket in &tickets {
        assert!(!holds_text(&status, &ticket.value));
    }
    assert!(!holds_text(&status, "secret"));
}

#[test]
fn a_renewal_beyond_all_times_cannot_be_told() {
    let mut store = Store::new("acct_renewal");
    store.configure("model-a", TurnStateConfig::default());
    let row = &mut store.of("model-a").row;
    assert!(row.renewal_can_be_told(i64::MAX));
    row.current = Some("ticket".to_owned());
    row.current_issued_at = Some(i64::MAX);
    assert!(!row.renewal_can_be_told(i64::MAX));
    assert!(row.renewal_can_be_told(NOW));
    row.current_issued_at = Some(NOW);
    assert!(row.renewal_can_be_told(NOW));
}
