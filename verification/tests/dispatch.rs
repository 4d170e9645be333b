use base64::engine::general_purpose::STANDARD;
use base64::Engine;
use hmac::{Hmac, Mac};
use rite::action::{http_post_request, HttpRequest, RequestBody};
use rite::config::{IrisConfig, RiteConfig, UptimeKumaConfig};
use rite::dispatch::{
    acknowledge, check_raw_operation, configured_state, execute_operation, read_input,
    status_snapshot, subscribed_state, AppState, Metrics, OperationInput, OperationOutput, PlannedAction,
    RawOperationInput, Reception,
};
use rite::event::RiteEvent;
use rite::iris::IrisSource;
use rite::json::{parse_json, Json};
use rite::matching::{MatchValue, RiteAction, RiteHandler};
use rite::table::Table;
use sha2::Sha256;

fn tag(secret: &str, body: &[u8]) -> Vec<u8> {
    let mut mac = Hmac::<Sha256>::new_from_slice(secret.as_bytes()).expect("valid key");
    mac.update(body);
    mac.finalize().into_bytes().to_vec()
}

fn signature(secret: &str, body: &[u8]) -> String {
    format!("sha256={}", hex::encode(tag(secret, body)))
}

fn strings(entries: &[(&str, &str)]) -> Table<String> {
    let mut table = Table::new();
    for (key, value) in entries {
        table.insert((*key).to_owned(), (*value).to_owned());
    }
    table
}

fn post(source: &str, headers: &[(&str, String)], body: &[u8]) -> RawOperationInput {
    RawOperationInput {
        path: strings(&[("source", source)]),
        headers: headers
            .iter()
            .map(|(name, value)| ((*name).to_owned(), value.clone()))
            .collect(),
        raw_body: body.to_vec(),
    }
}

fn handler(
    name: &str,
    source: &str,
    event_type: &str,
    url: &str,
    headers: &[(&str, &str)],
    body_template: Option<&str>,
) -> RiteHandler {
    let mut matcher = Table::new();
    matcher.insert(
        "event_type".to_owned(),
        MatchValue::String(event_type.to_owned()),
    );
    RiteHandler {
        name: name.to_owned(),
        source: source.to_owned(),
        matcher,
        action: RiteAction::HttpPost {
            url: url.to_owned(),
            headers: strings(headers),
            body_template: body_template.map(ToOwned::to_owned),
        },
    }
}

fn refused(reception: Reception) -> (u16, String) {
    match reception {
        Reception::Refused(error) => (error.status, error.message),
        Reception::Accepted { .. } => panic!("refused"),
    }
}

fn accepted(reception: Reception) -> (RiteEvent, Vec<PlannedAction>) {
    match reception {
        Reception::Refused(error) => panic!("accepted: {}", error.message),
        Reception::Accepted { event, planned } => (event, planned),
    }
}

fn state(secret: &str) -> AppState {
    match configured_state(secret, RiteConfig::default()) {
        Ok(state) => state,
        Err(error) => panic!("valid state: {}", error.message()),
    }
}

fn with_handlers(rites: Vec<RiteHandler>) -> AppState {
    let mut config = RiteConfig::default();
    config.rites = rites;
    match configured_state("secret", config) {
        Ok(state) => state,
        Err(error) => panic!("valid state: {}", error.message()),
    }
}

const PUSH: &[u8] = br#"{"ref":"refs/heads/main","repository":{"name":"rite"}}"#;

#[test]
fn health_and_github_ingress_work() {
    let mut state = state("secret");
    let before = status_snapshot(&state, 0);
    assert_eq!(before.events_received, 0);
    assert_eq!(before.events_matched, 0);
    assert_eq!(before.actions_succeeded, 0);
    assert_eq!(before.actions_failed, 0);
    assert_eq!(before.handlers_loaded, 0);

    let input = post(
        "github",
        &[
            ("content-type", "application/json".to_owned()),
            ("X-GitHub-Event", "push".to_owned()),
            ("X-Hub-Signature-256", signature("secret", PUSH)),
        ],
        PUSH,
    );
    let (event, planned) = accepted(state.receive_event(&input, None));
    assert_eq!(event.title, "GitHub push to rite");
    assert_eq!(planned, vec![]);

    let status = status_snapshot(&state, 3);
    assert_eq!(status.events_received, 1);
    assert_eq!(status.events_matched, 0);
    assert_eq!(status.actions_succeeded, 0);
    assert_eq!(status.actions_failed, 0);
    assert_eq!(status.handlers_loaded, 0);
}

#[test]
fn generated_status_route_and_shared_dispatch_report_same_live_metrics() {
    let mut state = with_handlers(vec![handler(
        "status-handler",
        "github",
        "push",
        "http://127.0.0.1:9",
        &[],
        None,
    )]);
    state.metrics = Metrics {
        events_received: 7,
        events_matched: 5,
        actions_succeeded: 3,
        actions_failed: 2,
    };
    let dispatched =
        match execute_operation(&state, "get_status", &OperationInput::default(), 11) {
            Ok(OperationOutput::Status(snapshot)) => snapshot,
            _ => panic!("operation succeeds"),
        };
    assert_eq!(dispatched, status_snapshot(&state, 11));
    assert_eq!(dispatched.events_received, 7);
    assert_eq!(dispatched.events_matched, 5);
    assert_eq!(dispatched.actions_succeeded, 3);
    assert_eq!(dispatched.actions_failed, 2);
    assert_eq!(dispatched.handlers_loaded, 1);
    assert_eq!(dispatched.uptime_seconds, 11);
}

#[test]
fn uptime_kuma_ingress_requires_signature_and_acks_valid_heartbeats() {
    let mut config = RiteConfig::default();
    config.sources.uptime_kuma = Some(UptimeKumaConfig {
        enabled: true,
        secret: "kuma-secret".to_owned(),
    });
    let Ok(mut state) = configured_state("github-secret", config) else {
        panic!("valid state");
    };
    let body = br#"{"monitor":{"id":7,"name":"API"},"heartbeat":{"status":0,"msg":"connection refused"}}"#;
    let signed = post(
        "uptime_kuma",
        &[("Signature", STANDARD.encode(tag("kuma-secret", body)))],
        body,
    );
    let (event, _) = accepted(state.receive_event(&signed, None));
    assert_eq!(event.source, "uptime_kuma");

    let unsigned = post("uptime_kuma", &[], body);
    assert_eq!(refused(state.receive_event(&unsigned, None)).0, 401);
}

#[test]
fn invalid_signature_is_unauthorized() {
    let mut state = state("secret");
    let input = post(
        "github",
        &[
            ("X-GitHub-Event", "push".to_owned()),
            ("X-Hub-Signature-256", signature("wrong", PUSH)),
        ],
        PUSH,
    );
    assert_eq!(
        refused(state.receive_event(&input, None)),
        (
            401,
            "event authentication failed: GitHub signature mismatch".to_owned()
        )
    );
    assert_eq!(state.metrics, Metrics::default());
}

#[test]
fn unknown_source_is_not_found() {
    let mut state = state("secret");
    let input = post(
        "gitlab",
        &[
            ("X-GitHub-Event", "push".to_owned()),
            ("X-Hub-Signature-256", signature("secret", PUSH)),
        ],
        PUSH,
    );
    assert_eq!(
        refused(state.receive_event(&input, None)),
        (404, "unknown event source".to_owned())
    );
    let nowhere = RawOperationInput {
        path: Table::new(),
        headers: Vec::new(),
        raw_body: Vec::new(),
    };
    assert_eq!(refused(state.receive_event(&nowhere, None)).0, 404);
}

#[test]
fn malformed_event_is_bad_request() {
    let mut state = state("secret");
    let body = b"not json at all";
    let input = post(
        "github",
        &[
            ("X-GitHub-Event", "push".to_owned()),
            ("X-Hub-Signature-256", signature("secret", body)),
        ],
        body,
    );
    let (status, message) = refused(state.receive_event(&input, None));
    assert_eq!(status, 400);
    assert!(message.starts_with("event parsing failed: "));
    assert_eq!(state.metrics, Metrics::default());
}

#[test]
fn webhook_actions_send_headers_template_content_types_and_legacy_json() {
    let url = "http://127.0.0.1:9/capture";
    let mut state = with_handlers(vec![
        handler(
            "plain",
            "github",
            "push",
            url,
            &[("x_action", "webhook")],
            Some("{{source}}:{{event_type}}"),
        ),
        handler(
            "explicit",
            "github",
            "push",
            url,
            &[("content-type", "application/custom")],
            Some("explicit"),
        ),
        handler("other", "github", "pull_request", url, &[], None),
        handler("legacy", "github", "push", url, &[], None),
    ]);
    let input = post(
        "github",
        &[
            ("X-GitHub-Event", "push".to_owned()),
            ("X-Hub-Signature-256", signature("secret", PUSH)),
        ],
        PUSH,
    );
    let (event, planned) = accepted(state.receive_event(&input, None));
    assert_eq!(event.source, "github");
    let pair = |name: &str, value: &str| (name.to_owned(), value.to_owned());
    assert_eq!(
        planned,
        vec![
            PlannedAction {
                handler: "plain".to_owned(),
                request: HttpRequest {
                    url: url.to_owned(),
                    headers: vec![pair("x_action", "webhook"), pair("content-type", "text/plain")],
                    body: RequestBody::Text("github:push".to_owned()),
                },
            },
            PlannedAction {
                handler: "explicit".to_owned(),
                request: HttpRequest {
                    url: url.to_owned(),
                    headers: vec![pair("content-type", "application/custom")],
                    body: RequestBody::Text("explicit".to_owned()),
                },
            },
            PlannedAction {
                handler: "legacy".to_owned(),
                request: HttpRequest {
                    url: url.to_owned(),
                    headers: vec![],
                    body: RequestBody::EventJson,
                },
            },
        ]
    );
    assert_eq!(state.metrics.events_received, 1);
    assert_eq!(state.metrics.events_matched, 1);
    for succeeded in [true, false, true] {
        state.metrics.count_action(succeeded);
    }
    assert_eq!(state.metrics.actions_succeeded, 2);
    assert_eq!(state.metrics.actions_failed, 1);
    let answer = acknowledge(&planned, &vec![true, false, true]);
    assert_eq!(answer.matched_handlers, ["plain", "explicit", "legacy"]);
    assert_eq!(answer.actions_executed, 2);
}

#[test]
fn iris_actions_send_the_same_generic_template_request() {
    let mut config = RiteConfig::default();
    config.sources.iris = Some(IrisConfig {
        enabled: true,
        base_url: "http://127.0.0.1:3000".to_owned(),
        api_token: None,
    });
    config.rites.push(handler(
        "iris-template",
        "iris",
        "text",
        "http://127.0.0.1:9/capture",
        &[("x_action", "iris")],
        Some("{{source}}:{{body}}"),
    ));
    let Ok(mut state) = configured_state("secret", config) else {
        panic!("state configures");
    };
    assert!(state.iris.is_some());
    let event = IrisSource::parse_message("{\"id\":\"00000000-0000-0000-0000-000000000001\",\"thread_id\":\"00000000-0000-0000-0000-000000000002\",\"source\":\"telegram\",\"source_id\":\"42\",\"sender\":{\"source_id\":\"shiv\",\"display_name\":\"Shiv\"},\"kind\":\"text\",\"body\":\"hello\",\"timestamp\":\"2026-08-15T00:00:00Z\",\"metadata\":{}}")
        .expect("message parses");
    let planned = state.take_event(&event);
    assert_eq!(planned.len(), 1);
    assert_eq!(
        planned[0].request.headers,
        vec![
            ("x_action".to_owned(), "iris".to_owned()),
            ("content-type".to_owned(), "text/plain".to_owned())
        ]
    );
    assert_eq!(
        planned[0].request.body,
        RequestBody::Text("iris:hello".to_owned())
    );
    assert_eq!(state.metrics.events_received, 1);
    assert_eq!(state.metrics.events_matched, 1);
}

#[test]
fn a_content_type_in_any_case_is_kept() {
    let event =
        IrisSource::parse_message(r#"["s","1",["x",null],"k","b","2026-08-15T00:00:00Z"]"#)
            .expect("parses");
    let headers = strings(&[("Content-TYPE", "a/b"), ("x", "y")]);
    let request = http_post_request("u", &headers, Some("t"), &event);
    assert_eq!(request.headers.len(), 2);
    let request = http_post_request("u", &strings(&[("x", "y")]), None, &event);
    assert_eq!(request.headers.len(), 1);
    assert_eq!(request.body, RequestBody::EventJson);
}

#[test]
fn durations_come_from_authentic_heartbeats_only() {
    let mut config = RiteConfig::default();
    config.sources.uptime_kuma = Some(UptimeKumaConfig {
        enabled: true,
        secret: "kuma-secret".to_owned(),
    });
    let Ok(mut state) = configured_state("secret", config) else {
        panic!("valid state");
    };
    let body = br#"{"monitor":{"name":"API"},"heartbeat":{"status":1,"duration":2.5}}"#;
    let signed = post(
        "uptime_kuma",
        &[("signature", STANDARD.encode(tag("kuma-secret", body)))],
        body,
    );
    let seconds = state.duration_seconds(&signed).expect("a number");
    assert_eq!(seconds.plain_text(), "2.5");
    assert!(state
        .duration_seconds(&post("uptime_kuma", &[], body))
        .is_none());
    assert!(state
        .duration_seconds(&post("github", &[], body))
        .is_none());
    let (event, _) = accepted(state.receive_event(&signed, Some(Json::integer(2500))));
    assert_eq!(
        event.metadata.get("duration_ms").expect("kept").as_i64(),
        Some(2500)
    );
}

#[test]
fn states_are_configured_from_sources() {
    let refused = |secret: &str, config: RiteConfig| match configured_state(secret, config) {
        Ok(_) => panic!("refused"),
        Err(error) => error.message(),
    };
    assert_eq!(
        refused(" ", RiteConfig::default()),
        "configuration error: github webhook secret is required"
    );
    let mut config = RiteConfig::default();
    config.sources.iris = Some(IrisConfig {
        enabled: true,
        base_url: "ftp://x".to_owned(),
        api_token: None,
    });
    assert_eq!(
        refused(" ", config),
        "configuration error: Iris base URL must use http or https"
    );
    let mut config = RiteConfig::default();
    config.sources.uptime_kuma = Some(UptimeKumaConfig {
        enabled: true,
        secret: String::new(),
    });
    assert_eq!(
        refused("s", config),
        "configuration error: uptime_kuma webhook secret is required"
    );
    let mut config = RiteConfig::default();
    config.sources.uptime_kuma = Some(UptimeKumaConfig {
        enabled: false,
        secret: String::new(),
    });
    let Ok(state) = configured_state("s", config) else {
        panic!("a disabled source needs no secret");
    };
    assert!(state.sources.get("github").is_some());
    assert!(state.sources.get("uptime_kuma").is_none());
}

#[test]
fn operations_list_sources_and_handlers() {
    let mut config = RiteConfig::default();
    config.sources.iris = Some(IrisConfig {
        enabled: true,
        base_url: "http://iris.test".to_owned(),
        api_token: None,
    });
    config.sources.uptime_kuma = Some(UptimeKumaConfig {
        enabled: true,
        secret: "k".to_owned(),
    });
    config
        .rites
        .push(handler("one", "github", "push", "u1", &[], None));
    config
        .rites
        .push(handler("one", "iris", "text", "u2", &[], None));
    let Ok(state) = configured_state("s", config) else {
        panic!("state configures");
    };
    let none = OperationInput::default();
    match execute_operation(&state, "list_sources", &none, 0) {
        Ok(OperationOutput::Sources(entries)) => {
            let ids: Vec<(&str, &str)> = entries
                .iter()
                .map(|entry| (entry.id, entry.name))
                .collect();
            assert_eq!(
                ids,
                [
                    ("github", "GitHub"),
                    ("iris", "Iris"),
                    ("uptime_kuma", "Uptime Kuma")
                ]
            );
        }
        _ => panic!("sources"),
    }
    match execute_operation(&state, "list_handlers", &none, 0) {
        Ok(OperationOutput::Handlers(handlers)) => assert_eq!(handlers.len(), 2),
        _ => panic!("handlers"),
    }
    let parameters = parse_json(br#"{"handler_id":"one","limit":3}"#).expect("parses");
    let input = read_input(&parameters);
    assert_eq!(input.path.get("limit").map(String::as_str), Some(""));
    assert!(input.query.is_empty());
    assert!(input.body.is_null());
    match execute_operation(&state, "get_handler", &input, 0) {
        Ok(OperationOutput::Handler(handler)) => assert_eq!(handler.source, "github"),
        _ => panic!("handler"),
    }
    let failed = |operation: &str, input: &OperationInput| match execute_operation(
        &state, operation, input, 0,
    ) {
        Ok(_) => panic!("refused"),
        Err(error) => (error.status, error.message),
    };
    assert_eq!(
        failed("get_handler", &none),
        (400, "missing path parameter: handler_id".to_owned())
    );
    let absent = read_input(&parse_json(br#"{"handler_id":"two"}"#).expect("parses"));
    assert_eq!(
        failed("get_handler", &absent),
        (404, "handler not found: two".to_owned())
    );
    assert_eq!(
        failed("drop_everything", &none),
        (404, "unknown operation: drop_everything".to_owned())
    );
    assert!(read_input(&Json::Null).path.is_empty());
}

#[test]
fn raw_operations() {
    assert_eq!(check_raw_operation("receive_event"), Ok(()));
    let error = check_raw_operation("other").expect_err("unknown");
    assert_eq!(
        (error.status, error.message.as_str()),
        (404, "unknown operation: other")
    );
}

#[test]
fn counters_start_over_past_the_largest_number() {
    let mut metrics = Metrics {
        events_received: u64::MAX,
        events_matched: 1,
        actions_succeeded: 0,
        actions_failed: u64::MAX,
    };
    metrics.count_event(false);
    metrics.count_action(false);
    assert_eq!(metrics.events_received, 0);
    assert_eq!(metrics.events_matched, 1);
    assert_eq!(metrics.actions_failed, 0);
}

#[test]
fn a_subscription_is_kept_in_the_state() {
    let Ok(source) = IrisSource::new("http://iris.test") else {
        panic!("source configures");
    };
    let Ok(state) = subscribed_state("s", RiteConfig::default(), Some(source)) else {
        panic!("state configures");
    };
    assert_eq!(
        state.iris.expect("kept").events_url(),
        "http://iris.test/v1/events"
    );
    assert!(subscribed_state("", RiteConfig::default(), None).is_err());
}

#[test]
fn inputs_copy_deeply() {
    let raw = post("github", &[("a", "b".to_owned())], b"body");
    let copy = raw.clone();
    assert_eq!(copy.path, raw.path);
    assert_eq!(copy.headers, raw.headers);
    assert_eq!(copy.raw_body, raw.raw_body);
    let input = OperationInput {
        path: strings(&[("x", "y")]),
        query: strings(&[("q", "1")]),
        body: Json::integer(3),
    };
    let copy = input.clone();
    assert_eq!(copy.path, input.path);
    assert_eq!(copy.query, input.query);
    assert_eq!(copy.body, input.body);
}
