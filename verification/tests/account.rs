use base64::engine::general_purpose::{URL_SAFE, URL_SAFE_NO_PAD};
use base64::Engine as _;
use turn_state_gateway::account::cookie_lock::{signed_claims, RoutingCookie};
use turn_state_gateway::account::provider::{ProviderAccount, ProviderAccountId};
use turn_state_gateway::account::turn_state::{
    has_no_tags, is_feishu_hook, valid_feishu_webhook, MissingTurnStatePolicy, TimeZone, TurnStateAvailability,
    TurnStateBucket, TurnStateConfig, TurnStateStopStrategy, TurnStateToken, UrlParts,
};
use turn_state_gateway::json::parse_object;

fn jwt(host: &str, iat: i64, exp: i64, alg: &str) -> String {
    format!(
        "{}.{}.c2ln",
        URL_SAFE_NO_PAD.encode(format!("{{\"alg\":\"{alg}\"}}")),
        URL_SAFE_NO_PAD.encode(format!(
            "{{\"host\":\"{host}\",\"iat\":{iat},\"exp\":{exp}}}"
        ))
    )
}

fn encoded(issued_at: u64, size: usize) -> String {
    let mut bytes = vec![0; size];
    bytes[0] = 0x80;
    bytes[1..9].copy_from_slice(&issued_at.to_be_bytes());
    URL_SAFE.encode(bytes)
}

fn account(id: &str) -> ProviderAccount {
    ProviderAccount {
        id: ProviderAccountId::new(id),
        name: id.to_owned(),
        upstream_account_id: Some(format!("upstream-{id}")),
        upstream_user_id: Some(format!("user-{id}")),
        authentication_kind: "oauth".to_owned(),
        enabled: true,
    }
}

fn bucket(account: &ProviderAccount) -> TurnStateBucket {
    TurnStateBucket {
        account_id: account.id().as_str().to_owned(),
        upstream_account_id: account.upstream_account_id(),
        upstream_user_id: account.upstream_user_id(),
        model: "upstream-model".to_owned(),
        config: TurnStateConfig::default(),
        routing_cookies: Vec::new(),
        cookie_override_pod: None,
        cookie_override_issued_at: None,
        current: None,
        current_issued_at: None,
        current_length: None,
        candidate: None,
        hunt_attempts: 0,
        next_probe_at: None,
        manual_probe_requested_at: None,
        manual_override: false,
        attached_model: None,
    }
}

fn cookie(pod: &str, issued_at: i64, expires_at: i64) -> RoutingCookie {
    RoutingCookie {
        origin: "endpoint".to_owned(),
        pod: pod.to_owned(),
        name: "__oailb".to_owned(),
        value: "synthetic-cookie".to_owned(),
        issued_at,
        expires_at,
        observed_at: 0,
        reported_model: "upstream-model".to_owned(),
    }
}

#[test]
fn routing_cookie_rejects_expired_future_and_invalid_scope() {
    let now = 1_800_000_000;
    let host = "chat.gateway.unified-185.api.openai.com";
    let value = jwt(host, now, now + 3600, "ES256");
    let mut cookie = RoutingCookie::parse(
        "https://chatgpt.com/backend-api/codex/responses",
        "__oailb",
        &value,
        now,
    )
    .unwrap();
    assert!(!cookie.is_usable("gpt-6-astra", now));
    cookie.reported_model = "gpt-6-astra".to_owned();
    assert!(cookie.is_usable("GPT-6-ASTRA", now));
    assert!(!cookie.is_usable("gpt-6-astra", now + 3600));
    assert!(!cookie.is_usable("gpt-5.6-luna", now));
    assert!(!cookie.debug_text().contains(&value));
    for (host, iat, exp, alg) in [
        (host, now + 1, now + 3600, "ES256"),
        (host, now - 3600, now, "ES256"),
        ("evil.example", now, now + 3600, "ES256"),
        (host, now, now + 3600, "none"),
    ] {
        assert!(
            RoutingCookie::parse("origin", "__oailb", &jwt(host, iat, exp, alg), now).is_none()
        );
    }
    assert!(RoutingCookie::parse(
        "origin",
        "__oailb",
        &jwt(host, now, now + 7200, "ES256"),
        now
    )
    .is_some());
    assert!(RoutingCookie::parse("origin", "session-token", &value, now).is_none());
    assert!(RoutingCookie::parse("origin", "__oai_lb", &value, now).is_some());
}

#[test]
fn routing_cookie_exposes_gateway_id_and_expiry_metadata() {
    let now = 1_800_000_000;
    let cookie = RoutingCookie::parse(
        "origin",
        "__oailb",
        &jwt(
            "chat.gateway.unified-87.api.openai.com",
            now,
            now + 3600,
            "ES256",
        ),
        now,
    )
    .unwrap();
    assert_eq!(cookie.gateway_id(), "87");
    assert_eq!(cookie.expires_at, now + 3600);
    assert_eq!(cookie.status().gateway_id, "87");
}

#[test]
fn a_cookie_is_shown_without_its_value() {
    let cookie = cookie("chat.gateway.unified-7.api.openai.com", 10, 20);
    assert_eq!(cookie.header(), "__oailb=synthetic-cookie");
    assert_eq!(
        cookie.debug_text(),
        "RoutingCookie { pod: \"chat.gateway.unified-7.api.openai.com\", expires_at: 20, .. }"
    );
    let status = cookie.status();
    assert_eq!(
        (status.pod.as_str(), status.issued_at, status.expires_at),
        ("chat.gateway.unified-7.api.openai.com", 10, 20)
    );
    assert!(!status.allowed);
}

#[test]
fn gateway_ids_are_read_from_the_pod() {
    assert_eq!(
        RoutingCookie::gateway_id_from_pod("chat.gateway.unified-42.api.openai.com"),
        Some("42".to_owned())
    );
    for pod in [
        "chat.gateway.unified-.api.openai.com",
        "chat.gateway.unified-4x.api.openai.com",
        "unified-42.api.openai.com",
        "",
    ] {
        assert_eq!(RoutingCookie::gateway_id_from_pod(pod), None);
    }
}

#[test]
fn feishu_webhook_accepts_only_official_https_bot_endpoints() {
    for (url, valid) in [
        ("", true),
        (
            "https://open.feishu.cn/open-apis/bot/v2/hook/test-bot",
            true,
        ),
        (
            "https://open.larksuite.com/open-apis/bot/v2/hook/test-bot",
            true,
        ),
        (
            "http://open.feishu.cn/open-apis/bot/v2/hook/test-bot",
            false,
        ),
        (
            "https://open.feishu.cn.attacker.invalid/open-apis/bot/v2/hook/test-bot",
            false,
        ),
        (
            "https://user@open.feishu.cn/open-apis/bot/v2/hook/test-bot",
            false,
        ),
        (
            "https://open.feishu.cn/open-apis/bot/v2/hook/test-bot?redirect=other",
            false,
        ),
        (
            "https://open.feishu.cn/open-apis/bot/v2/hook/test-bot#fragment",
            false,
        ),
        ("https://open.feishu.cn/open-apis/bot/v2/hook/", false),
    ] {
        let config = TurnStateConfig {
            feishu_webhook_url: url.to_owned(),
            ..TurnStateConfig::default()
        };
        assert_eq!(config.is_valid(), valid);
    }
}

#[test]
fn a_webhook_is_judged_by_the_parts_of_its_url() {
    assert!(valid_feishu_webhook(
        "https://open.feishu.cn/open-apis/bot/v2/hook/aB-9"
    ));
    assert!(!valid_feishu_webhook("not a url"));
    assert!(!valid_feishu_webhook(
        "https://open.feishu.cn/open-apis/bot/v2/hook/a_b"
    ));
    let parts = UrlParts {
        scheme: "https".to_owned(),
        host: Some("open.feishu.cn".to_owned()),
        port: Some(443),
        username: String::new(),
        has_password: false,
        has_query: false,
        has_fragment: false,
        path: "/open-apis/bot/v2/hook/test".to_owned(),
    };
    assert!(is_feishu_hook(&parts));
    assert!(!is_feishu_hook(&UrlParts {
        port: Some(8443),
        ..parts
    }));
}

#[test]
fn embedded_timestamp_is_big_endian_and_age_never_uses_observation_time() {
    let value = encoded(1_800_000_000, 217);
    assert_eq!(value.len(), 292);
    let token = TurnStateToken::parse(&value).unwrap();
    assert_eq!(token.issued_at, 1_800_000_000);
    assert!(token.is_fresh(1_800_001_799, 1800));
    assert!(!token.is_fresh(1_800_001_800, 1800));
    assert!(!token.is_fresh(1_800_003_720, 2700));
    assert!(!token.is_fresh(1_799_999_999, 2700));
    assert!(token.is_newer_than(None));
    assert!(token.is_newer_than(Some(1_799_999_999)));
    assert!(!token.is_newer_than(Some(token.issued_at)));
    assert!(!token.is_newer_than(Some(token.issued_at + 1)));
    assert!(!token.debug_text().contains(&value));
}

#[test]
fn all_lengths_are_parseable_without_treating_errors_as_tokens() {
    for (size, length) in [(217, 292), (233, 312), (414, 552)] {
        let value = encoded(1_800_000_000, size);
        assert_eq!(value.len(), length);
        assert!(TurnStateToken::parse(&value).is_some());
        assert_eq!(
            value.len() == TurnStateConfig::default().target_length,
            length == 292
        );
    }
    for value in [
        "transport error".to_owned(),
        "x".repeat(292),
        " ".repeat(292),
        encoded(u64::MAX, 217),
        format!("{}\n", encoded(1_800_000_000, 217)),
    ] {
        assert!(TurnStateToken::parse(&value).is_none());
    }
    let mut invalid_version = vec![0; 217];
    invalid_version[0] = 0x81;
    assert!(TurnStateToken::parse(&URL_SAFE.encode(invalid_version)).is_none());
}

#[test]
fn an_envelope_may_come_without_padding() {
    let mut bytes = vec![0; 218];
    bytes[0] = 0x80;
    bytes[1..9].copy_from_slice(&1_800_000_000u64.to_be_bytes());
    let padded = URL_SAFE.encode(&bytes);
    let bare = URL_SAFE_NO_PAD.encode(&bytes);
    assert!(padded.ends_with('='));
    assert_ne!(padded, bare);
    for value in [padded, bare] {
        assert_eq!(
            TurnStateToken::parse(&value).unwrap().issued_at,
            1_800_000_000
        );
    }
}

#[test]
fn rotation_config_bounds_ttl_budget_and_proxy_selection() {
    let mut config = TurnStateConfig::default();
    assert!(config.is_valid());
    assert_eq!(config.ttl_seconds, 3600);
    assert!(config.include_account_proxy);
    assert!(!config.include_direct);
    config.refresh_after_seconds = config.ttl_seconds;
    assert!(!config.is_valid());
    config.refresh_after_seconds = 2100;
    config.include_account_proxy = false;
    assert!(!config.is_valid());
    config.proxy_ids = vec!["proxy_test".to_owned()];
    assert!(config.is_valid());
    config.budget = 0;
    assert!(!config.is_valid());
}

#[test]
fn probe_persona_defaults_are_compatible_and_reject_header_injection() {
    let mut config = TurnStateConfig::default();
    assert_eq!(config.originator, "codex-tui");
    assert_eq!(config.client_version, "0.154.0");
    assert!(config.user_agent.is_empty());
    for version in [
        "0.154.0-alpha.1",
        "0.154.0-beta.1",
        "0.154.0-rc.1",
        "0.154.0+local",
        "v0.154.0",
        "",
    ] {
        config.client_version = version.to_owned();
        assert!(!config.is_valid());
    }
    config.client_version = "0.153.0".to_owned();
    config.originator = "Custom Probe".to_owned();
    config.user_agent = "Custom Probe/1.0".to_owned();
    assert!(config.is_valid());
    for invalid in [
        "\r\nx-test: injected".to_owned(),
        " ".to_owned(),
        "x".repeat(1025),
    ] {
        config.user_agent = invalid;
        assert!(!config.is_valid());
    }
    config.user_agent.clear();
    for invalid in ["".to_owned(), "\n".to_owned(), "x".repeat(129)] {
        config.originator = invalid;
        assert!(!config.is_valid());
    }
    assert!(TimeZone::parse("not-a-timezone").is_none());
}

#[test]
fn missing_state_policy_defaults_to_allow_and_requires_an_installed_matching_ticket() {
    let now = 1_800_000_000;
    let account = account("acct_state");
    let mut bucket = bucket(&account);
    bucket.candidate = Some(TurnStateToken::parse(&encoded(now as u64, 217)).unwrap());
    assert_eq!(
        bucket.config.missing_state_policy,
        MissingTurnStatePolicy::Allow
    );
    assert!(bucket
        .scheduling_availability(&account, &bucket.model, now)
        .allows(now));
    bucket.config.missing_state_policy = MissingTurnStatePolicy::Pause;
    assert!(bucket.manages_injection());
    assert!(!bucket
        .scheduling_availability(&account, &bucket.model, now)
        .allows(now));
    bucket.current = bucket.candidate.take();
    bucket.current_issued_at = Some(now);
    bucket.current_length = Some(292);
    assert!(bucket
        .scheduling_availability(&account, &bucket.model, now)
        .allows(now));
    assert!(!bucket.config.enabled);
    assert!(!bucket.manual_override);
    for (model, other) in [
        (&bucket.model[..], self::account("acct_other")),
        ("alias", account.clone()),
    ] {
        assert!(!bucket
            .scheduling_availability(&other, model, now)
            .allows(now));
    }
    bucket.upstream_user_id = Some("different-user".to_owned());
    assert!(!bucket
        .scheduling_availability(&account, &bucket.model, now)
        .allows(now));
    bucket.upstream_user_id = account.upstream_user_id();
    assert!(bucket.installed_token(now + 3599).is_some());
    assert!(bucket.installed_token(now + 3600).is_none());
    assert!(bucket.installed_token(now - 1).is_none());
    bucket.current = Some(TurnStateToken::parse(&encoded(now as u64, 233)).unwrap());
    assert!(bucket.installed_token(now).is_none());
    bucket.current = Some(TurnStateToken {
        value: encoded((now - 3600) as u64, 217),
        issued_at: now,
    });
    assert!(bucket.installed_token(now).is_none());
    assert!(MissingTurnStatePolicy::from_wire("invalid").is_none());
}

#[test]
fn the_end_of_a_tickets_time_is_checked() {
    let now = 1_800_000_000;
    let account = account("acct_range");
    let mut bucket = bucket(&account);
    bucket.config.missing_state_policy = MissingTurnStatePolicy::Pause;
    bucket.current = Some(TurnStateToken::parse(&encoded(now as u64, 217)).unwrap());
    bucket.current_issued_at = Some(now);
    assert_eq!(
        bucket.checked_scheduling_availability(&account, &bucket.model, now),
        Some(TurnStateAvailability::Required {
            expires_at: Some(now + 3600)
        })
    );
    bucket.config.ttl_seconds = u64::MAX;
    assert_eq!(
        bucket.checked_scheduling_availability(&account, &bucket.model, now),
        None
    );
}

#[test]
fn wire_names_are_read_back() {
    for policy in [MissingTurnStatePolicy::Allow, MissingTurnStatePolicy::Pause] {
        assert_eq!(
            MissingTurnStatePolicy::from_wire(policy.wire_name()),
            Some(policy)
        );
    }
    for strategy in [
        TurnStateStopStrategy::Mixed,
        TurnStateStopStrategy::FirstOutput,
        TurnStateStopStrategy::Headers,
    ] {
        assert_eq!(
            TurnStateStopStrategy::from_wire(strategy.wire_name()),
            Some(strategy)
        );
    }
    assert_eq!(TurnStateStopStrategy::from_wire("later"), None);
    assert_eq!(TimeZone::utc().name(), "UTC");
    assert_eq!(
        TimeZone::parse("Asia/Shanghai").unwrap().name(),
        "Asia/Shanghai"
    );
}

#[test]
fn the_cookie_that_lasts_longest_is_chosen_unless_one_is_pinned() {
    let account = account("acct_cookie");
    let mut bucket = bucket(&account);
    bucket.config.cookie_lock_enabled = true;
    let short = "chat.gateway.unified-1.api.openai.com";
    let long = "chat.gateway.unified-2.api.openai.com";
    bucket.routing_cookies = vec![cookie(short, 0, 500), cookie(long, 0, 900)];
    assert!(bucket.routing_cookie(100).is_none());
    bucket.config.cookie_gateway_ids = "1|2".to_owned();
    assert_eq!(bucket.routing_cookie(100).unwrap().pod, long);
    assert_eq!(bucket.routing_cookie(899).unwrap().pod, long);
    assert!(bucket.routing_cookie(900).is_none());
    bucket.config.cookie_gateway_ids = "1".to_owned();
    assert!(bucket.config.cookie_gateway_ids_valid());
    assert_eq!(bucket.routing_cookie(100).unwrap().pod, short);
    bucket.config.cookie_gateway_ids = "1;2".to_owned();
    assert!(!bucket.config.cookie_gateway_ids_valid());
    bucket.config.cookie_gateway_ids = "2".to_owned();
    bucket.cookie_override_pod = Some(short.to_owned());
    bucket.cookie_override_issued_at = Some(0);
    assert_eq!(bucket.routing_cookie(100).unwrap().pod, short);
    bucket.cookie_override_issued_at = Some(7);
    assert!(bucket.routing_cookie(100).is_none());
}

#[test]
fn a_ticket_is_void_when_its_model_detaches_only_under_both_switches() {
    let mut config = TurnStateConfig::default();
    config.missing_state_policy = MissingTurnStatePolicy::Pause;
    config.detect_actual_model = false;
    assert!(!config.revokes_ticket_when_model_detaches());
    config.detect_actual_model = true;
    assert!(config.revokes_ticket_when_model_detaches());
    config.missing_state_policy = MissingTurnStatePolicy::Allow;
    assert!(!config.revokes_ticket_when_model_detaches());
}

#[test]
fn claims_are_read_under_a_signed_header() {
    let object = |text: &str| parse_object(text).unwrap();
    let signed = object(r#"{"alg":"ES256"}"#);
    let claims = object(
        r#"{"host":"chat.gateway.unified-7.api.openai.com","iat":1800000000,"exp":1800003600}"#,
    );
    let found = signed_claims(&signed, &claims).unwrap();
    assert_eq!(found.pod, "chat.gateway.unified-7.api.openai.com");
    assert_eq!((found.issued_at, found.expires_at), (1800000000, 1800003600));
    for header in [r#"{"alg":"none"}"#, r#"{"alg":7}"#, "{}"] {
        assert!(signed_claims(&object(header), &claims).is_none());
    }
    for claims in [
        r#"{"host":"evil.example","iat":1,"exp":2}"#,
        r#"{"host":"chat.gateway.unified-7.api.openai.com","exp":2}"#,
        r#"{"host":"chat.gateway.unified-7.api.openai.com","iat":1,"exp":"2"}"#,
    ] {
        assert!(signed_claims(&signed, &object(claims)).is_none());
    }
}

#[test]
fn a_release_has_nothing_behind_its_numbers() {
    assert!(has_no_tags("", ""));
    assert!(!has_no_tags("rc.1", ""));
    assert!(!has_no_tags("", "local"));
}
