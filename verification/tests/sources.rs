use base64::engine::general_purpose::STANDARD;
use base64::Engine;
use hmac::{Hmac, Mac};
use rite::error::RiteError;
use rite::event::Severity;
use rite::github::GitHubSource;
use rite::json::{Json, JsonNumber};
use rite::source::EventSource;
use rite::time::Timestamp;
use rite::uptime_kuma::UptimeKumaSource;
use sha2::Sha256;

fn tag(secret: &str, body: &[u8]) -> Vec<u8> {
    let mut mac = Hmac::<Sha256>::new_from_slice(secret.as_bytes()).expect("valid key");
    mac.update(body);
    mac.finalize().into_bytes().to_vec()
}

fn github_headers(secret: &str, body: &[u8], event: &str) -> Vec<(String, String)> {
    vec![
        (
            "X-Hub-Signature-256".into(),
            format!("sha256={}", hex::encode(tag(secret, body))),
        ),
        ("X-GitHub-Event".into(), event.into()),
    ]
}

fn kuma_headers(secret: &str, body: &[u8]) -> Vec<(String, String)> {
    vec![("Signature".into(), STANDARD.encode(tag(secret, body)))]
}

fn text(value: Option<&Json>) -> Option<&str> {
    value.and_then(|value| value.as_str())
}

/// The heartbeat's duration in milliseconds.
fn milliseconds(body: &[u8]) -> Option<Json> {
    match UptimeKumaSource::duration_seconds(body) {
        Some(Json::Number(seconds)) => {
            let product = seconds.text.parse::<f64>().expect("a number") * 1_000.0;
            Some(Json::Number(JsonNumber {
                integer: None,
                float: true,
                text: format!("{product:?}"),
            }))
        }
        _ => None,
    }
}

#[test]
fn verifies_and_parses_pull_request() {
    let source = GitHubSource::new("secret").expect("source");
    let body = br#"{"action":"opened","number":4,"repository":{"name":"rite"},"pull_request":{"title":"bootstrap"}}"#;
    let headers = github_headers("secret", body, "pull_request");
    source.verify(&headers, body).expect("signature accepted");
    let event = source.parse(&headers, body, None).expect("payload parses");
    assert_eq!(event.event_type, "pull_request");
    assert_eq!(event.action.as_deref(), Some("opened"));
    assert_eq!(text(event.metadata.get("repository")), Some("rite"));
}

#[test]
fn rejects_invalid_signature() {
    let source = GitHubSource::new("secret").expect("source");
    assert!(source
        .verify(&github_headers("wrong", b"{}", "push"), b"{}")
        .is_err());
}

#[test]
fn rejects_unsupported_or_invalid_deliveries() {
    let source = GitHubSource::new("secret").expect("source");
    let body = br#"{"repository":{"name":"rite"}}"#;
    let ping_headers = github_headers("secret", body, "ping");
    assert!(source.parse(&ping_headers, body, None).is_err());

    let push_headers = github_headers("secret", body, "push");
    assert!(source.parse(&push_headers, body, None).is_err());
}

#[test]
fn github_events_keep_title_reference_and_number() {
    let source = GitHubSource::new(" secret\n").expect("source");
    let now = Timestamp {
        seconds: 1_000,
        nanos: 5,
    };
    let body = br#"{"ref":"refs/heads/main","number":null,"repository":{"name":"rite"}}"#;
    let headers = github_headers("secret", body, "push");
    source.verify(&headers, body).expect("trimmed secret");
    let event = source.parse_at(&headers, body, now, None).expect("parses");
    assert_eq!(event.source, "github");
    assert_eq!(event.title, "GitHub push to rite");
    assert_eq!(event.timestamp, now);
    assert_eq!(event.severity, Severity::Info);
    assert_eq!(event.body, None);
    assert_eq!(event.action, None);
    assert_eq!(text(event.metadata.get("ref")), Some("refs/heads/main"));
    assert!(event.metadata.get("number").expect("kept").is_null());
    assert_eq!(event.metadata.len(), 3);

    let body = br#"{"repository":{"name":"rite"},"pull_request":1}"#;
    let headers = github_headers("secret", body, "pull_request");
    let event = source.parse_at(&headers, body, now, None).expect("parses");
    assert_eq!(event.title, "GitHub pull request event");
    assert_eq!(event.metadata.len(), 1);
}

#[test]
fn github_refusals_give_their_reasons() {
    let source = GitHubSource::new("secret").expect("source");
    let parse = |event: &str, body: &[u8]| {
        let headers = github_headers("secret", body, event);
        match source.parse(&headers, body, None) {
            Err(error) => error.message(),
            Ok(_) => panic!("refused"),
        }
    };
    let cases: [(&str, &[u8], &str); 6] = [
        ("push", b"[]", "GitHub payload must be a JSON object"),
        ("ping", b"{}", "unsupported GitHub event: ping"),
        ("push", b"{}", "GitHub payload missing repository.name"),
        (
            "push",
            br#"{"repository":{"name":1}}"#,
            "GitHub payload missing repository.name",
        ),
        (
            "push",
            br#"{"repository":{"name":"r"},"ref":1}"#,
            "GitHub push payload missing ref",
        ),
        (
            "pull_request",
            br#"{"repository":{"name":"r"}}"#,
            "GitHub pull_request payload missing pull_request",
        ),
    ];
    for (event, body, reason) in cases {
        assert_eq!(parse(event, body), format!("event parsing failed: {reason}"));
    }
    assert_eq!(
        source
            .parse(&[], b"{}", None)
            .expect_err("no header")
            .message(),
        "event parsing failed: missing X-GitHub-Event"
    );
    assert_eq!(
        source
            .parse(&[], b"not json", None)
            .expect_err("no JSON")
            .message(),
        "event parsing failed: expected ident at line 1 column 2"
    );
}

#[test]
fn github_signatures_give_their_reasons() {
    let source = GitHubSource::new("secret").expect("source");
    let verify = |value: &str| {
        source
            .verify(&[("x-hub-signature-256".to_owned(), value.to_owned())], b"{}")
            .map_err(|error| error.message())
    };
    let good = hex::encode(tag("secret", b"{}"));
    assert_eq!(verify(&format!("sha256={good}")), Ok(()));
    assert_eq!(verify(&format!("sha256={}", good.to_uppercase())), Ok(()));
    let refused = |reason: &str| Err(format!("event authentication failed: {reason}"));
    assert_eq!(verify(&good), refused("signature must use sha256"));
    assert_eq!(
        verify(&format!("SHA256={good}")),
        refused("signature must use sha256")
    );
    assert_eq!(
        verify("sha256=xyz"),
        refused("signature is not hexadecimal")
    );
    assert_eq!(verify("sha256=abc"), refused("signature is not hexadecimal"));
    assert_eq!(verify("sha256="), refused("GitHub signature mismatch"));
    assert_eq!(
        verify(&format!("sha256={}", &good[2..])),
        refused("GitHub signature mismatch")
    );
    assert_eq!(
        source
            .verify(&[], b"{}")
            .expect_err("missing")
            .message(),
        "event authentication failed: missing X-Hub-Signature-256"
    );
}

#[test]
fn headers_are_found_in_any_case_and_the_first_counts() {
    let headers = vec![
        ("Other".to_owned(), "0".to_owned()),
        ("X-GITHUB-event".to_owned(), "push".to_owned()),
        ("x-github-event".to_owned(), "ping".to_owned()),
    ];
    assert_eq!(GitHubSource::header(&headers, "x-github-event"), Some("push"));
    assert_eq!(UptimeKumaSource::header(&headers, "OTHER"), Some("0"));
    assert_eq!(UptimeKumaSource::header(&headers, "absent"), None);
    assert_eq!(GitHubSource::event_type(&headers), Ok("push"));
}

#[test]
fn github_requires_a_secret() {
    assert_eq!(
        GitHubSource::new(" \t\n").expect_err("blank"),
        RiteError::Config("github webhook secret is required".to_owned())
    );
}

#[test]
fn verifies_and_normalizes_every_supported_heartbeat_status() {
    let source = UptimeKumaSource::new("secret").expect("source");
    let cases = [
        (0, "down", Severity::Critical),
        (1, "up", Severity::Info),
        (2, "pending", Severity::Warning),
        (3, "maintenance", Severity::Info),
    ];

    for (status, action, severity) in cases {
        let body = format!(
            r#"{{"monitor":{{"id":4,"name":"API","url":"https://api.test"}},"heartbeat":{{"status":{status},"msg":"connection refused","ping":12,"duration":5,"time":"2026-09-06 12:00:00"}}}}"#
        );
        let headers = kuma_headers("secret", body.as_bytes());
        source
            .verify(&headers, body.as_bytes())
            .expect("signature accepted");
        let event = source
            .parse(&headers, body.as_bytes(), milliseconds(body.as_bytes()))
            .expect("payload parses");

        assert_eq!(event.source, "uptime_kuma");
        assert_eq!(event.event_type, "heartbeat");
        assert_eq!(event.action.as_deref(), Some(action));
        assert_eq!(event.severity, severity);
        assert_eq!(text(event.metadata.get("monitor_name")), Some("API"));
        assert_eq!(text(event.metadata.get("status")), Some(action));
        assert_eq!(
            event.metadata.get("ping_ms").expect("ping").as_i64(),
            Some(12)
        );
        assert_eq!(
            event
                .metadata
                .get("duration_ms")
                .expect("duration")
                .plain_text()
                .parse::<f64>(),
            Ok(5_000.0)
        );
    }
}

#[test]
fn rejects_bad_or_missing_signature() {
    let source = UptimeKumaSource::new("secret").expect("source");
    assert!(source.verify(&kuma_headers("wrong", b"{}"), b"{}").is_err());
    assert!(source.verify(&[], b"{}").is_err());
}

#[test]
fn rejects_malformed_or_unknown_heartbeat() {
    let source = UptimeKumaSource::new("secret").expect("source");
    assert!(source.parse(&[], b"not json", None).is_err());
    assert!(source
        .parse(
            &[],
            br#"{"monitor":{"name":"API"},"heartbeat":{"status":99}}"#,
            None
        )
        .is_err());
}

#[test]
fn requires_a_secret() {
    assert!(UptimeKumaSource::new(" ").is_err());
}

#[test]
fn kuma_signatures_give_their_reasons() {
    let source = UptimeKumaSource::new("secret").expect("source");
    let verify = |value: &str| {
        source
            .verify(&[("signature".to_owned(), value.to_owned())], b"{}")
            .map_err(|error| error.message())
    };
    let good = STANDARD.encode(tag("secret", b"{}"));
    assert_eq!(verify(&good), Ok(()));
    let refused = |reason: &str| Err(format!("event authentication failed: {reason}"));
    assert_eq!(
        verify(good.trim_end_matches('=')),
        refused("Signature is not base64")
    );
    assert_eq!(verify("Zh=="), refused("Signature is not base64"));
    assert_eq!(verify("Zg==\n"), refused("Signature is not base64"));
    assert_eq!(verify("Zg=="), refused("Uptime Kuma signature mismatch"));
    assert_eq!(verify(""), refused("Uptime Kuma signature mismatch"));
    assert_eq!(
        source
            .verify(&[], b"{}")
            .expect_err("missing")
            .message(),
        "event authentication failed: missing Signature"
    );
}

#[test]
fn kuma_refusals_give_their_reasons() {
    let source = UptimeKumaSource::new("secret").expect("source");
    let cases: [(&[u8], &str); 9] = [
        (b"[]", "Uptime Kuma payload missing monitor"),
        (br#"{"monitor":1}"#, "Uptime Kuma payload missing monitor"),
        (
            br#"{"monitor":{}}"#,
            "Uptime Kuma payload missing heartbeat",
        ),
        (
            br#"{"monitor":{},"heartbeat":{}}"#,
            "Uptime Kuma payload missing monitor.name",
        ),
        (
            br#"{"monitor":{"name":"  "},"heartbeat":{}}"#,
            "Uptime Kuma payload missing monitor.name",
        ),
        (
            br#"{"monitor":{"name":"a"},"heartbeat":{}}"#,
            "Uptime Kuma payload missing heartbeat.status",
        ),
        (
            br#"{"monitor":{"name":"a"},"heartbeat":{"status":1.0}}"#,
            "Uptime Kuma payload missing heartbeat.status",
        ),
        (
            br#"{"monitor":{"name":"a"},"heartbeat":{"status":-9223372036854775808}}"#,
            "Uptime Kuma heartbeat has unknown status: -9223372036854775808",
        ),
        (
            br#"{"monitor":{"name":"a"},"heartbeat":{"status":4}}"#,
            "Uptime Kuma heartbeat has unknown status: 4",
        ),
    ];
    for (body, reason) in cases {
        assert_eq!(
            source.parse(&[], body, None).expect_err("refused").message(),
            format!("event parsing failed: {reason}")
        );
    }
}

#[test]
fn kuma_keeps_what_is_present() {
    let source = UptimeKumaSource::new("secret").expect("source");
    let body = br#"{"monitor":{"id":null,"name":" API ","url":"u"},"heartbeat":{"status":1,"msg":"","duration":"5","time":null}}"#;
    assert!(UptimeKumaSource::duration_seconds(body).is_none());
    let event = source
        .parse(&[], body, Some(Json::integer(1)))
        .expect("parses");
    assert_eq!(event.title, " API ");
    assert_eq!(event.body, None);
    assert_eq!(event.metadata.len(), 3);
    assert_eq!(text(event.metadata.get("monitor_url")), Some("u"));
    assert!(event.metadata.get("monitor_id").is_none());
    assert!(event.metadata.get("duration_ms").is_none());
}

#[test]
fn status_numbers_have_their_meanings() {
    assert_eq!(
        UptimeKumaSource::action_and_severity(2),
        Ok(("pending", Severity::Warning))
    );
    assert!(UptimeKumaSource::action_and_severity(-1).is_err());
}

#[test]
fn sources_describe_themselves() {
    let github = GitHubSource::new("s").expect("source").metadata();
    assert_eq!((github.id, github.name), ("github", "GitHub"));
    assert_eq!(
        github.capabilities,
        ["webhook", "hmac-sha256", "push", "pull_request"]
    );
    let kuma = UptimeKumaSource::new("s").expect("source").clone().metadata();
    assert_eq!((kuma.id, kuma.name), ("uptime_kuma", "Uptime Kuma"));
    assert_eq!(kuma.capabilities, ["webhook", "hmac-sha256", "heartbeat"]);
}

#[test]
fn provided_signatures_are_decoded() {
    let header = |name: &str, value: &str| vec![(name.to_owned(), value.to_owned())];
    assert_eq!(
        GitHubSource::provided_signature(&header("X-Hub-Signature-256", "sha256=00Ff7a")),
        Ok(vec![0, 255, 122])
    );
    assert!(GitHubSource::provided_signature(&header("X-Hub-Signature-256", "sha256=0é")).is_err());
    assert_eq!(
        UptimeKumaSource::provided_signature(&header("SIGNATURE", "AP96")),
        Ok(vec![0, 255, 122])
    );
    assert_eq!(
        UptimeKumaSource::provided_signature(&header("SIGNATURE", "+/+/AA==")),
        Ok(vec![251, 255, 191, 0])
    );
    assert!(UptimeKumaSource::provided_signature(&header("SIGNATURE", "AP9")).is_err());
}
