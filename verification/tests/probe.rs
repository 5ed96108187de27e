use base64::engine::general_purpose::{URL_SAFE, URL_SAFE_NO_PAD};
use base64::Engine as _;
use turn_state_gateway::account::cookie_lock::RoutingCookie;
use turn_state_gateway::account::provider::{ProviderAccount, ProviderAccountId};
use turn_state_gateway::account::turn_state::{
    MissingTurnStatePolicy, TurnStateBucket, TurnStateConfig, TurnStateInstallation,
    TurnStateNotification, TurnStateStopStrategy, TurnStateToken,
};
use turn_state_gateway::json::{parse_object, render, render_object};
use turn_state_gateway::probe::cookie::{
    observe_business_cookie, observed_cookie, CookieInput, TurnStateService,
};
use turn_state_gateway::probe::notify::{
    duration, extend_reply, is_delivered, notification_payload,
};
use turn_state_gateway::probe::observe::{
    after_model_check, latest_issued_at, new_observation, observe, observes_business,
    passive_observation, TurnStateResponse, WebSocketFailure,
};
use turn_state_gateway::probe::plan::{
    begin_probe, check_credential, conclude_cookie_probe, conclude_probe, exit_name, exits_or_skip,
    identify, list_exits, made_or_skip, probe_cookie, reads_body, reads_cookies, reads_output,
    reported_model, skip, stop_mode, stop_reason, CredentialCheck, CredentialFacts, OutboundProxy,
    ProbeOutcome, Sent,
};
use turn_state_gateway::probe::random::{accept_draw, random_index};
use turn_state_gateway::probe::reader::{
    contains_ignore_ascii_case, push_bounded, reading_plan, OutputReader, ReadingPlan,
    StreamEvent,
};
use turn_state_gateway::probe::request::{
    compressed_body, effort_name, probe_request, question, request, ProbeDraw, ProbeIds,
};
use turn_state_gateway::probe::worker::{
    cap_delay, delay_after, ends_hunt, expiry_of_first, first_step, jitter_range,
    next_probe_time, probes_now, wants_attention, FirstStep,
};
use turn_state_gateway::store::ticket::TicketRow;

const NOW: i64 = 1_800_000_000;
const POD: &str = "chat.gateway.unified-7.api.openai.com";

fn encoded(issued_at: i64, size: usize) -> String {
    let mut bytes = vec![0; size];
    bytes[0] = 0x80;
    bytes[1..9].copy_from_slice(&(issued_at as u64).to_be_bytes());
    URL_SAFE.encode(bytes)
}

fn jwt(host: &str, iat: i64, exp: i64) -> String {
    format!(
        "{}.{}.c2ln",
        URL_SAFE_NO_PAD.encode("{\"alg\":\"ES256\"}"),
        URL_SAFE_NO_PAD.encode(format!(
            "{{\"host\":\"{host}\",\"iat\":{iat},\"exp\":{exp}}}"
        ))
    )
}

fn account() -> ProviderAccount {
    ProviderAccount {
        id: ProviderAccountId::new("acct"),
        name: "name".to_owned(),
        upstream_account_id: Some("upstream".to_owned()),
        upstream_user_id: Some("user".to_owned()),
        authentication_kind: "oauth".to_owned(),
        enabled: true,
    }
}

fn bucket() -> TurnStateBucket {
    TurnStateBucket {
        account_id: "acct".to_owned(),
        upstream_account_id: Some("upstream".to_owned()),
        upstream_user_id: Some("user".to_owned()),
        model: "model".to_owned(),
        config: TurnStateConfig {
            enabled: true,
            ..TurnStateConfig::default()
        },
        routing_cookies: Vec::new(),
        cookie_override_pod: None,
        cookie_override_issued_at: None,
        current: None,
        current_issued_at: None,
        current_length: None,
        candidate: None,
        hunt_attempts: 0,
        next_probe_at: None,
        manual_probe_requested_at: None,
        manual_override: false,
        attached_model: None,
    }
}

fn cookie(expires_at: i64) -> RoutingCookie {
    RoutingCookie {
        origin: "endpoint".to_owned(),
        pod: POD.to_owned(),
        name: "__oailb".to_owned(),
        value: "v".to_owned(),
        issued_at: NOW,
        expires_at,
        observed_at: 0,
        reported_model: "model".to_owned(),
    }
}

fn answer(status: u16, value: Option<&str>) -> TurnStateResponse {
    TurnStateResponse {
        status: Some(status),
        value: value.map(|text| text.as_bytes().to_vec()),
        reported_model: None,
        elapsed_ms: 12,
        transport_error: false,
        source: "http".to_owned(),
    }
}

#[test]
fn missing_header_invalid_token_and_transport_error_remain_distinct() {
    let config = TurnStateConfig {
        enabled: true,
        ..TurnStateConfig::default()
    };
    let mut row = TicketRow::new(&account(), "gpt-5.4", config);
    let mut failed = answer(200, None);
    failed.status = None;
    failed.transport_error = true;
    let mut observations = Vec::new();
    for response in [answer(200, None), answer(200, Some("not-a-token")), failed] {
        let bucket = row.bucket(Vec::new(), NOW);
        let begun = begin_probe(&bucket, false, NOW);
        let latest = latest_issued_at(&bucket);
        let observed = observe(begun, &response, &bucket.config, None, latest);
        let recorded = row
            .record_turn_state(observed.observation, observed.candidate, true, NOW)
            .unwrap();
        assert!(recorded.logged);
        observations.push(recorded.observation);
    }
    assert_eq!(
        observations
            .iter()
            .map(|item| item.outcome.as_str())
            .collect::<Vec<_>>(),
        ["missing_header", "invalid_token", "transport_error"]
    );
    assert_eq!(observations[1].token_length, Some(11));
    assert_eq!(observations[2].http_status, None);
    let bucket = row.bucket(Vec::new(), NOW);
    assert!(bucket.current.is_none());
    assert!(bucket.candidate.is_none());
}

#[test]
fn every_answer_has_its_outcome() {
    let config = TurnStateConfig::default();
    let fresh = encoded(NOW - 5, 217);
    let outcome = |response: TurnStateResponse, sent: Option<&str>, latest: Option<i64>| {
        let seen = new_observation("acct", &None, &None, "model", "probe", "direct", NOW);
        let observed = observe(seen, &response, &config, sent, latest);
        assert_eq!(
            observed.candidate.is_some(),
            observed.observation.outcome == "candidate"
        );
        observed.observation.outcome
    };
    assert_eq!(outcome(answer(200, None), None, None), "missing_header");
    assert_eq!(outcome(answer(200, Some("x")), None, None), "invalid_token");
    let mut failed = answer(200, None);
    failed.transport_error = true;
    assert_eq!(outcome(failed, None, None), "transport_error");
    assert_eq!(outcome(answer(500, Some(&fresh)), None, None), "http_error");
    assert_eq!(
        outcome(answer(200, Some(&encoded(NOW - 3600, 217))), None, None),
        "expired_or_future"
    );
    assert_eq!(
        outcome(answer(200, Some(&encoded(NOW, 233))), None, None),
        "length_miss"
    );
    assert_eq!(
        outcome(answer(200, Some(&fresh)), Some(&fresh), None),
        "reused_state"
    );
    assert_eq!(
        outcome(answer(200, Some(&fresh)), None, Some(NOW - 5)),
        "not_newer"
    );
    assert_eq!(
        outcome(answer(200, Some(&fresh)), None, Some(NOW - 6)),
        "candidate"
    );
}

#[test]
fn a_detached_model_is_noted() {
    let seen = new_observation("acct", &None, &None, "model", "passive", "direct", NOW);
    let (kept, _) = after_model_check(seen.clone(), false);
    assert_eq!(kept.outcome, seen.outcome);
    let (detached, _) = after_model_check(seen, true);
    assert_eq!(detached.outcome, "model_detached");
    let passive = passive_observation(
        &account(),
        "model",
        &Some("high".to_owned()),
        "none",
        "direct",
        NOW,
    );
    assert_eq!(passive.source, "passive");
    assert_eq!(passive.effort.as_deref(), Some("high"));
}

#[test]
fn the_latest_ticket_is_the_one_in_use_or_the_candidate() {
    let mut bucket = bucket();
    assert_eq!(latest_issued_at(&bucket), None);
    bucket.current_issued_at = Some(10);
    assert_eq!(latest_issued_at(&bucket), Some(10));
    bucket.candidate = Some(TurnStateToken {
        value: "x".to_owned(),
        issued_at: 20,
    });
    assert_eq!(latest_issued_at(&bucket), Some(20));
    assert!(observes_business(&bucket.config));
}

#[test]
fn failed_connections_say_what_they_saw() {
    let rejected = WebSocketFailure::ConnectionObserved(Box::new(WebSocketFailure::Rejected {
        status: 403,
        value: Some(b"v".to_vec()),
        reported_model: None,
    }));
    let seen = TurnStateResponse::websocket_failure(&rejected, 7).unwrap();
    assert_eq!((seen.status, seen.elapsed_ms), (Some(403), 7));
    assert!(!seen.transport_error);
    let timeout =
        WebSocketFailure::PostSendAmbiguous(Some(Box::new(WebSocketFailure::SendTimeout)));
    assert!(
        TurnStateResponse::websocket_failure(&timeout, 7)
            .unwrap()
            .transport_error
    );
    assert!(TurnStateResponse::websocket_failure(&WebSocketFailure::Local, 7).is_none());
}

#[test]
fn draws_stay_in_range() {
    assert_eq!(accept_draw(7, 3), Some(1));
    assert_eq!(accept_draw(u64::MAX, 3), None);
    assert_eq!(accept_draw(u64::MAX - 1, 3), Some(2));
    for count in 1..20 {
        assert!(random_index(count) < count);
    }
    let drawn = (0..200).map(|_| random_index(2)).sum::<usize>();
    assert!(0 < drawn && drawn < 200);
}

#[test]
fn answers_are_cut_at_whole_characters() {
    let mut answer = "a".repeat(8190);
    push_bounded(&mut answer, "日本");
    assert_eq!(answer.len(), 8190);
    push_bounded(&mut answer, "bcd");
    assert_eq!(answer.len(), 8192);
    assert!(contains_ignore_ascii_case("It is @ThSottiaux.", "@thsottiaux"));
    assert!(!contains_ignore_ascii_case("nobody", "@thsottiaux"));
}

fn stream_event(data: &str) -> StreamEvent {
    StreamEvent {
        data: data.to_owned(),
        header_model: None,
    }
}

#[test]
fn probe_stop_strategies_abort_at_the_selected_boundary() {
    for strategy in [
        TurnStateStopStrategy::Headers,
        TurnStateStopStrategy::FirstOutput,
        TurnStateStopStrategy::Mixed,
    ] {
        for draw in [0, 1] {
            let mut bucket = bucket();
            bucket.config.stop_strategy = strategy;
            let config = bucket.config.clone();
            let mut observation = begin_probe(&bucket, false, NOW);
            let read_output = reads_output(&config, draw);
            observation.stop_mode = Some(stop_mode(read_output).to_owned());
            let sent = Sent::Answered(200);
            let output = if reads_body(&sent, read_output) {
                let mut reader = OutputReader::new(reading_plan(&config, "@thsottiaux"));
                for data in [
                    r#"{"type":"response.created"}"#,
                    r#"{"type":"response.output_text.delta","delta":"OK"}"#,
                    r#"{"type":"response.completed"}"#,
                ] {
                    reader.read_event(&stream_event(data));
                }
                Some(reader.finish("body_ended", None))
            } else {
                None
            };
            observation.stop_reason = Some(stop_reason(
                &sent,
                read_output,
                output.as_ref().map(|output| output.reason.as_str()),
            ));
            let ticket = encoded(NOW, 217);
            let observed = observe(
                observation,
                &answer(200, Some(&ticket)),
                &config,
                None,
                latest_issued_at(&bucket),
            );
            let observation = observed.observation;
            assert_eq!(observation.stop_mode, observation.stop_reason);
            match strategy {
                TurnStateStopStrategy::Headers => {
                    assert_eq!(observation.stop_reason.as_deref(), Some("headers"))
                }
                TurnStateStopStrategy::FirstOutput => {
                    assert_eq!(observation.stop_reason.as_deref(), Some("first_output"))
                }
                TurnStateStopStrategy::Mixed => {
                    assert!([Some("headers"), Some("first_output")]
                        .contains(&observation.stop_reason.as_deref()))
                }
            }
            assert_eq!(observation.outcome, "candidate");
            assert_eq!(observed.candidate.unwrap().value, ticket);
        }
    }
}

#[test]
fn a_probe_is_read_by_what_it_is_for() {
    let mut config = TurnStateConfig::default();
    let plan = reading_plan(&config, "x");
    assert!(!plan.stop_at_model && plan.first_output_only);
    assert_eq!(plan.expect.as_deref(), Some("x"));
    config.cookie_lock_enabled = true;
    let plan = reading_plan(&config, "x");
    assert!(plan.stop_at_model && !plan.first_output_only);
    assert_eq!(plan.expect.as_deref(), Some("x"));
}

#[test]
fn an_awaited_answer_is_why_reading_stops() {
    let mut config = TurnStateConfig::default();
    config.cookie_lock_enabled = true;
    let delta = |text: &str| {
        stream_event(&format!(
            "{{\"type\":\"response.output_text.delta\",\"delta\":\"{text}\"}}"
        ))
    };
    for (pieces, reason, found) in [
        (vec!["It is @Th", "Sottiaux", "!"], "answer_matched", true),
        (vec!["nobody"], "terminal", false),
        (vec![], "terminal", false),
    ] {
        let mut reader = OutputReader::new(reading_plan(&config, "@thsottiaux"));
        for piece in pieces {
            reader.read_chunk(10, &vec![delta(piece)]);
        }
        reader.read_chunk(10, &vec![stream_event(r#"{"type":"response.completed"}"#)]);
        let output = reader.finish("body_ended", None);
        assert_eq!(output.reason, reason);
        assert_eq!(output.answer_match, Some(found));
    }
    let mut reader = OutputReader::new(reading_plan(&config, "@thsottiaux"));
    reader.read_chunk(10, &vec![delta(&"a".repeat(9000))]);
    let output = reader.finish("body_ended", None);
    assert_eq!(output.reason, "answer_limit");
    assert_eq!(output.answer_match, Some(false));
}

#[test]
fn readings_stop_as_planned() {
    let plan = |stop_at_model: bool, first_output_only: bool, expect: Option<&str>| ReadingPlan {
        stop_at_model,
        first_output_only,
        expect: expect.map(str::to_owned),
    };
    let created = r#"{"type":"response.created","response":{"model":"gpt-6-astra"}}"#;
    let delta = r#"{"type":"response.output_text.delta","delta":"@ThSottiaux"}"#;
    let mut reader = OutputReader::new(plan(true, false, None));
    reader.read_event(&stream_event(created));
    assert!(reader.has_stopped());
    let output = reader.finish("body_ended", None);
    assert_eq!(output.reason, "response_created");
    assert_eq!(output.created_model.as_deref(), Some("gpt-6-astra"));
    let mut reader = OutputReader::new(plan(false, true, Some("@thsottiaux")));
    reader.read_chunk(10, &vec![stream_event(created), stream_event(delta)]);
    let output = reader.finish("body_ended", Some("body-model".to_owned()));
    assert_eq!(output.reason, "first_output");
    assert_eq!(output.answer.as_deref(), Some("@ThSottiaux"));
    assert_eq!(output.answer_match, Some(true));
    assert_eq!(output.reported_model.as_deref(), Some("body-model"));
    let mut reader = OutputReader::new(plan(false, false, Some("missing")));
    reader.read_event(&stream_event(delta));
    assert!(!reader.has_stopped());
    reader.read_event(&stream_event("no json"));
    reader.read_event(&stream_event(r#"{"type":"response.completed"}"#));
    let output = reader.finish("body_ended", None);
    assert_eq!(output.reason, "terminal");
    assert_eq!(output.answer_match, Some(false));
    let mut reader = OutputReader::new(plan(false, true, None));
    reader.read_chunk(1024 * 1024 + 1, &vec![stream_event(delta)]);
    let output = reader.finish("body_ended", None);
    assert_eq!(output.reason, "body_limit");
    let reader = OutputReader::new(plan(false, true, None));
    assert_eq!(reader.finish("body_ended", None).reason, "body_ended");
}

#[test]
fn a_probe_asks_a_question() {
    let ids = ProbeIds {
        session: "s".to_owned(),
        thread: "t".to_owned(),
        id: "i".to_owned(),
        window: "w".to_owned(),
        turn: "u".to_owned(),
        context: "c".to_owned(),
    };
    let draw = ProbeDraw {
        ids,
        question: 0,
        effort: 1,
        nonce: 5,
    };
    let config = TurnStateConfig::default();
    let probe = probe_request("model", &config, "agent/1", &draw, NOW * 1000, "2027-01-15");
    assert_eq!(probe.effort, effort_name(1));
    assert_eq!(probe.shape, question(0).shape);
    assert_eq!(probe.expect, "@thsottiaux");
    let get = |name: &str| {
        probe
            .headers
            .iter()
            .find(|field| field.name == name)
            .map(|field| field.value.as_str())
    };
    assert_eq!(get("originator"), Some("codex-tui"));
    assert_eq!(get("user-agent"), Some("agent/1"));
    assert_eq!(probe.body.text_at("model"), "model");
    let body = render_object(&probe.body);
    assert!(body.contains("5: Don't search the internet."));
    assert!(body.contains("<current_date>2027-01-15</current_date>"));
    let packed = compressed_body(&probe.body).unwrap();
    assert_eq!(
        zstd::decode_all(&packed[..]).unwrap(),
        body.as_bytes()
    );
}

#[test]
fn a_drawn_probe_has_the_local_date() {
    let mut config = TurnStateConfig::default();
    config.timezone =
        turn_state_gateway::account::turn_state::TimeZone::parse("Asia/Shanghai").unwrap();
    let probe = request("model", &config, "agent\n", 1_800_000_000_000 + 57_600_000).unwrap();
    let body = render_object(&probe.body);
    assert!(body.contains("<current_date>2027-01-16</current_date>"));
    assert!(body.contains("<timezone>Asia/Shanghai</timezone>"));
    assert!(probe.headers.iter().all(|field| field.name != "user-agent"));
    let id: Vec<char> = probe.id.chars().collect();
    assert_eq!(id.len(), 36);
    for (i, c) in id.iter().enumerate() {
        if matches!(i, 8 | 13 | 18 | 23) {
            assert_eq!(*c, '-');
        } else {
            assert!(matches!(*c, '0'..='9' | 'a'..='f'));
        }
    }
    assert_eq!(id[14], '7');
    assert!(matches!(id[19], '8' | '9' | 'a' | 'b'));
    let other = request("model", &config, "agent", 1_800_000_000_000).unwrap();
    assert_ne!(probe.id, other.id);
    assert!(request("model", &config, "agent", i64::MAX).is_none());
}

#[test]
fn expired_access_token_skips_probe_without_refreshing_credentials() {
    let facts = || CredentialFacts {
        enabled: true,
        model_allowed: true,
        upstream_account_id: Some("upstream".to_owned()),
        upstream_user_id: None,
        decoded: true,
        is_oauth: true,
        token_expires_ms: Some(100_000),
        account_expires_ms: Some(900_000),
    };
    let reason = |facts: Option<CredentialFacts>, now_ms: i64| match check_credential(
        facts.as_ref(),
        now_ms,
    ) {
        CredentialCheck::Skip(reason) => reason.to_owned(),
        CredentialCheck::Silent => "silent".to_owned(),
        CredentialCheck::Ready(id) => format!("ready {id}"),
    };
    assert_eq!(reason(Some(facts()), 69_999), "ready upstream");
    assert_eq!(
        reason(Some(facts()), 70_000),
        "access_token_expired_or_unknown"
    );
    assert_eq!(reason(None, 0), "credential_unavailable");
    let mut disabled = facts();
    disabled.model_allowed = false;
    assert_eq!(reason(Some(disabled), 0), "silent");
    let mut broken = facts();
    broken.decoded = false;
    assert_eq!(reason(Some(broken), 0), "credential_invalid");
    let mut key = facts();
    key.is_oauth = false;
    assert_eq!(reason(Some(key), 0), "oauth_required");
    let mut nameless = facts();
    nameless.upstream_account_id = None;
    assert_eq!(reason(Some(nameless), 0), "missing_account_identity");
    let mut by_record = facts();
    by_record.token_expires_ms = None;
    assert_eq!(reason(Some(by_record), 800_000), "ready upstream");
    let begun = begin_probe(&bucket(), true, NOW);
    assert_eq!(begun.probe_trigger.as_deref(), Some("manual"));
    assert_eq!(skip(begun.clone(), "why").outcome, "why");
    let mut moved = facts();
    moved.upstream_user_id = Some("new".to_owned());
    assert_eq!(
        identify(begun, &moved).upstream_user_id.as_deref(),
        Some("new")
    );
}

#[test]
fn probes_default_to_account_proxy_and_respect_selected_pool() {
    let proxy = |name: &str| OutboundProxy {
        url: format!("http://{name}"),
        endpoint: name.to_owned(),
    };
    let mut config = TurnStateConfig::default();
    let names = |exits: Vec<Option<OutboundProxy>>| {
        exits.iter().map(exit_name).collect::<Vec<_>>()
    };
    assert_eq!(
        names(list_exits(&config, &Some(proxy("own")), &Vec::new())),
        ["own"]
    );
    assert_eq!(names(list_exits(&config, &None, &Vec::new())), ["direct"]);
    let mut selected = TurnStateConfig {
        enabled: true,
        include_account_proxy: false,
        proxy_ids: vec!["proxy_a".to_owned(), "proxy_b".to_owned()],
        ..TurnStateConfig::default()
    };
    let pool = vec![proxy("proxy_a"), proxy("proxy_b")];
    let exits = exits_or_skip(Some(list_exits(&selected, &Some(proxy("own")), &pool))).unwrap();
    for _ in 0..20 {
        let exit = exit_name(&exits[random_index(exits.len())]);
        assert!(["proxy_a", "proxy_b"].contains(&exit.as_str()));
    }
    assert_eq!(names(exits), ["proxy_a", "proxy_b"]);
    selected.include_direct = true;
    assert_eq!(
        names(list_exits(&selected, &Some(proxy("own")), &pool)),
        ["direct", "proxy_a", "proxy_b"]
    );
    config.include_direct = true;
    assert_eq!(
        names(list_exits(
            &config,
            &Some(proxy("own")),
            &vec![proxy("pool"), proxy("own")]
        )),
        ["own", "direct", "pool"]
    );
}

#[test]
fn a_probe_is_skipped_without_a_way_out_or_a_request() {
    assert_eq!(
        exits_or_skip(None).err(),
        Some("proxy_pool_unavailable")
    );
    assert_eq!(
        exits_or_skip(Some(Vec::new())).err(),
        Some("proxy_pool_empty")
    );
    assert_eq!(exits_or_skip(Some(vec![None])).unwrap().len(), 1);
    assert_eq!(made_or_skip(Some(7u8)), Ok(7));
    assert_eq!(made_or_skip::<u8>(None), Err("template_error"));
}

#[test]
fn what_is_read_of_a_probe() {
    let mut config = TurnStateConfig::default();
    assert!(!reads_output(&config, 1));
    config.stop_strategy = TurnStateStopStrategy::FirstOutput;
    assert!(reads_output(&config, 0));
    assert_eq!(stop_mode(true), "first_output");
    assert_eq!(stop_mode(false), "headers");
    assert!(reads_body(&Sent::Answered(200), true));
    assert!(!reads_body(&Sent::Failed, true));
    assert!(reads_cookies(&Sent::Answered(200)) && reads_cookies(&Sent::Answered(299)));
    assert!(!reads_cookies(&Sent::Answered(199)) && !reads_cookies(&Sent::Answered(300)));
    assert!(!reads_cookies(&Sent::Failed));
    assert_eq!(stop_reason(&Sent::Failed, true, None), "transport_error");
    assert_eq!(stop_reason(&Sent::Answered(200), true, None), "body_timeout");
    assert_eq!(
        stop_reason(&Sent::Answered(200), true, Some("terminal")),
        "terminal"
    );
    assert_eq!(stop_reason(&Sent::Answered(200), false, None), "headers");
    assert_eq!(
        reported_model(Some("h".to_owned()), Some("e".to_owned())).as_deref(),
        Some("h")
    );
    assert_eq!(
        reported_model(None, Some("e".to_owned())).as_deref(),
        Some("e")
    );
    assert_eq!(conclude_probe(true), ProbeOutcome::Installed);
    assert_eq!(conclude_probe(false), ProbeOutcome::Miss);
}

#[test]
fn cookie_probes_end_with_what_the_cookie_is_worth() {
    let mut bucket = bucket();
    bucket.config.cookie_lock_enabled = true;
    bucket.config.cookie_gateway_ids = "7".to_owned();
    let end = |response: TurnStateResponse,
               cookie: Option<RoutingCookie>,
               deleted: bool,
               model: Option<&str>| {
        let (seen, outcome) = conclude_cookie_probe(
            &bucket,
            begin_probe(&bucket, false, NOW),
            &response,
            &cookie,
            deleted,
            model.map(str::to_owned),
            NOW,
        );
        (seen.outcome, outcome)
    };
    let good = || Some(cookie(NOW + 60));
    assert_eq!(
        end(answer(200, None), good(), false, Some("model")),
        ("cookie_ready".to_owned(), ProbeOutcome::Installed)
    );
    assert_eq!(
        end(answer(503, None), good(), false, Some("model")).0,
        "http_error"
    );
    assert_eq!(
        end(answer(200, None), good(), true, Some("model")).0,
        "cookie_deleted"
    );
    assert_eq!(
        end(answer(200, None), good(), false, None).0,
        "missing_model"
    );
    assert_eq!(
        end(answer(200, None), None, false, Some("model")).0,
        "missing_cookie"
    );
    let mut other = cookie(NOW + 60);
    other.pod = "chat.gateway.unified-8.api.openai.com".to_owned();
    assert_eq!(
        end(answer(200, None), Some(other), false, Some("model")).0,
        "cookie_gateway_filtered"
    );
}

#[test]
fn received_cookies_are_kept_for_their_endpoint() {
    let service = TurnStateService::new("https://chatgpt.com/codex".to_owned());
    assert_eq!(service.endpoint(), "https://chatgpt.com/codex");
    assert_eq!(service.host().as_deref(), Some("chatgpt.com"));
    let input = |value: String, delete: bool, expires_at: Option<i64>| CookieInput {
        name: "__oailb".to_owned(),
        value,
        may_replay: true,
        delete,
        expires_at,
    };
    let good = jwt(POD, NOW, NOW + 600);
    let (received, deleted) = service.receive_cookies(
        &vec![input(good.clone(), false, Some(NOW + 60))],
        Some("model"),
        5,
        NOW,
    );
    let received = received.unwrap();
    assert!(!deleted);
    assert_eq!(received.pod, POD);
    assert_eq!(received.expires_at, NOW + 60);
    assert_eq!(received.origin, "https://chatgpt.com/codex");
    assert_eq!(received.observed_at, 5);
    let (_, deleted) =
        service.receive_cookies(&vec![input(good, true, None)], Some("model"), 5, NOW);
    assert!(deleted);
    let observation = service
        .cookie_observation(None, &Some(received.clone()), Some("model"), 5, false)
        .unwrap();
    assert_eq!(observation.origin, "https://chatgpt.com/codex");
    assert_eq!(observation.reported_model.as_deref(), Some("model"));
    let mut bucket = bucket();
    bucket.routing_cookies = vec![cookie(NOW + 1), received.clone()];
    let current = service.current(bucket);
    assert_eq!(current.routing_cookies.len(), 1);
    assert_eq!(
        observed_cookie(None, Some(received), false).unwrap().pod,
        POD
    );
}

#[test]
fn business_shows_what_its_cookie_is_worth() {
    let mut bucket = bucket();
    bucket.config.cookie_lock_enabled = true;
    bucket.config.cookie_gateway_ids = "7".to_owned();
    let seen = observe_business_cookie(
        &bucket,
        &account(),
        &Some(cookie(NOW + 60)),
        false,
        "model",
        "model",
        "direct",
        NOW * 1000,
        NOW,
    )
    .unwrap();
    assert_eq!(seen.outcome, "cookie_ready");
    assert_eq!(seen.source, "passive");
}

#[test]
fn a_probe_renews_the_cookie_that_expires_first() {
    let mut bucket = bucket();
    bucket.config.cookie_lock_enabled = true;
    bucket.config.cookie_gateway_ids = "7".to_owned();
    bucket.config.cookie_refresh_before_seconds = 300;
    bucket.routing_cookies = vec![cookie(NOW + 200), cookie(NOW + 100), cookie(NOW + 900)];
    assert!(bucket.cookie_renewal_due(NOW));
    assert_eq!(bucket.renewal_cookie(NOW).unwrap().expires_at, NOW + 100);
    assert_eq!(
        probe_cookie(&bucket, "endpoint", NOW).unwrap().expires_at,
        NOW + 100
    );
    assert!(probe_cookie(&bucket, "elsewhere", NOW).is_none());
}

#[test]
fn a_cycle_begins_with_what_was_asked_for() {
    let mut bucket = bucket();
    bucket.config.enabled = false;
    assert!(!wants_attention(&bucket));
    bucket.manual_probe_requested_at = Some(NOW);
    assert!(wants_attention(&bucket));
    assert!(matches!(first_step(&bucket, NOW), FirstStep::ClaimManual));
    bucket.manual_probe_requested_at = None;
    bucket.config.enabled = true;
    assert!(matches!(first_step(&bucket, NOW), FirstStep::TryInstall));
    bucket.current = Some(TurnStateToken::parse(&encoded(NOW, 217)).unwrap());
    bucket.current_issued_at = Some(NOW);
    assert!(matches!(first_step(&bucket, NOW), FirstStep::Done));
    bucket.config.cookie_lock_enabled = true;
    assert!(matches!(first_step(&bucket, NOW), FirstStep::ConsiderProbe));
}

#[test]
fn hunts_are_paced() {
    let mut bucket = bucket();
    bucket.config.retry_seconds = 10;
    bucket.config.idle_seconds = 500;
    bucket.config.budget = 3;
    bucket.config.jitter_seconds = 4;
    assert_eq!(jitter_range(&bucket.config), 5);
    assert_eq!(delay_after(&bucket, ProbeOutcome::Miss, 2), 12);
    assert_eq!(delay_after(&bucket, ProbeOutcome::Skipped, 2), 500);
    bucket.hunt_attempts = 2;
    assert_eq!(delay_after(&bucket, ProbeOutcome::Miss, 2), 500);
    assert!(ends_hunt(&bucket.config, ProbeOutcome::Installed));
    assert!(!ends_hunt(&bucket.config, ProbeOutcome::Miss));
    bucket.next_probe_at = Some(NOW + 1);
    assert!(!probes_now(&bucket, NOW));
    assert!(probes_now(&bucket, NOW + 1));
    let cookies = vec![cookie(NOW + 400), cookie(NOW + 350)];
    assert_eq!(expiry_of_first(&cookies, "model", NOW), Some(NOW + 350));
    bucket.config.cookie_refresh_before_seconds = 300;
    assert_eq!(cap_delay(500, &cookies, "model", &bucket.config, NOW), 50);
    assert_eq!(
        cap_delay(500, &cookies, "model", &bucket.config, NOW + 100),
        125
    );
    assert_eq!(cap_delay(7, &cookies, "model", &bucket.config, NOW), 7);
    assert_eq!(next_probe_time(NOW, 50), NOW + 50);
}

#[test]
fn an_account_that_pauses_waits_for_a_ticket() {
    let mut bucket = bucket();
    bucket.config.missing_state_policy = MissingTurnStatePolicy::Pause;
    assert!(!bucket
        .checked_scheduling_availability(&account(), "model", NOW)
        .unwrap()
        .allows(NOW));
    bucket.current = Some(TurnStateToken::parse(&encoded(NOW, 217)).unwrap());
    bucket.current_issued_at = Some(NOW);
    assert!(bucket
        .checked_scheduling_availability(&account(), "model", NOW)
        .unwrap()
        .allows(NOW));
}

#[test]
fn notices_tell_how_a_ticket_was_obtained() {
    let mut notice = TurnStateNotification {
        account_id: "acct".to_owned(),
        account_name: "name".to_owned(),
        model: "model".to_owned(),
        webhook_url: String::new(),
        token: TurnStateToken {
            value: "ticket".to_owned(),
            issued_at: NOW,
        },
        installation: TurnStateInstallation {
            installed_at: NOW + 5,
            issued_at: NOW,
            token_length: 292,
            source: "probe".to_owned(),
            acquired_at: NOW,
            attempts: 3,
            hunt_seconds: 61,
        },
        previous_installed_at: None,
        manual: false,
    };
    let text = |notice: &TurnStateNotification| {
        let payload = notification_payload(notice);
        assert_eq!(payload.text_at("msg_type"), "text");
        payload.object_at("content").unwrap().text_at("text")
    };
    assert_eq!(
        text(&notice),
        "state 安装成功\n账号：name (acct)\n模型：model\n安装方式：自动安装\n获取来源：主动探测\n距上次安装：首次安装\n本次获取耗时：0小时1分1秒\n尝试次数：3\n签发时间：2027-01-15T08:00:00+00:00\n长度：292\n完整 state：\nticket"
    );
    notice.previous_installed_at = Some(NOW - 3595);
    notice.manual = true;
    notice.installation.source = "passive".to_owned();
    notice.installation.attempts = 0;
    let shown = text(&notice);
    assert!(shown.contains("安装方式：手动应用\n获取来源：被动采集\n距上次安装：1小时0分0秒"));
    assert!(shown.contains("本次获取耗时：历史未记录\n尝试次数：历史未记录"));
    assert_eq!(duration(3725), "1小时2分5秒");
    assert_eq!(
        render(&parse_object("{\"code\":0}").unwrap().value_or_null("code")),
        "0"
    );
    assert!(is_delivered(200, Some(0)));
    assert!(!is_delivered(200, Some(19001)));
    assert!(!is_delivered(200, None));
    assert!(!is_delivered(500, Some(0)));
    assert_eq!(extend_reply(vec![1], &vec![2, 3]), Some(vec![1, 2, 3]));
    assert_eq!(extend_reply(vec![0; 8192], &vec![1]), None);
}

#[test]
fn notification_sends_installation_details_and_checks_feishu_business_status() {
    let issued = NOW - 5;
    let value = encoded(issued, 217);
    for (status, code, delivered, attempts) in [
        (200, 0, true, 12),
        (200, 19024, false, 12),
        (503, 0, false, 12),
        (200, 0, true, 0),
    ] {
        let payload = notification_payload(&TurnStateNotification {
            account_id: "acct_notice".to_owned(),
            account_name: "test account".to_owned(),
            model: "gpt-5.4".to_owned(),
            webhook_url: "https://open.feishu.cn/open-apis/bot/v2/hook/test".to_owned(),
            token: TurnStateToken::parse(&value).unwrap(),
            installation: TurnStateInstallation {
                installed_at: issued + 5,
                issued_at: issued,
                token_length: 292,
                source: "probe".to_owned(),
                acquired_at: issued + 4,
                attempts,
                hunt_seconds: 125,
            },
            previous_installed_at: Some(issued + 5 - 2100),
            manual: true,
        });
        assert_eq!(payload.text_at("msg_type"), "text");
        let text = payload.object_at("content").unwrap().text_at("text");
        for expected in [
            value.as_str(),
            "acct_notice",
            "gpt-5.4",
            "手动应用",
            "0小时35分0秒",
        ] {
            assert!(text.contains(expected));
        }
        if attempts == 0 {
            assert!(text.contains("本次获取耗时：历史未记录"));
            assert!(text.contains("尝试次数：历史未记录"));
        } else {
            assert!(text.contains("0小时2分5秒"));
            assert!(text.contains("尝试次数：12"));
        }
        assert_eq!(is_delivered(status, Some(code)), delivered);
    }
}
