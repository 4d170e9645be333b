use rite::codegen::{codegen_command, rite_generate_config, CodegenCommand};
use rite::config::{
    has_errors, startup_summary, validate, validated_matcher, ConfigLoadError, DiagnosticLevel,
    IrisConfig, RiteConfig, SourcesConfig, UptimeKumaConfig, MATCH_VALIDATION_ERROR_PREFIX,
};
use rite::matching::{MatchValue, RiteAction, RiteHandler};
use rite::table::Table;

fn match_value(value: &toml::Value) -> Result<MatchValue, String> {
    match value {
        toml::Value::String(s) => Ok(MatchValue::String(s.clone())),
        toml::Value::Integer(n) => Ok(MatchValue::Integer(*n)),
        toml::Value::Boolean(b) => Ok(MatchValue::Boolean(*b)),
        toml::Value::Table(entries) => Ok(MatchValue::Table(match_table(entries)?)),
        toml::Value::Array(children) => {
            let mut tables = Vec::new();
            for child in children {
                match child {
                    toml::Value::Table(entries) => tables.push(match_table(entries)?),
                    _ => return Err("no variant fits".to_owned()),
                }
            }
            Ok(MatchValue::Array(tables))
        }
        _ => Err("no variant fits".to_owned()),
    }
}

fn match_table(entries: &toml::Table) -> Result<Table<MatchValue>, String> {
    let mut table = Table::new();
    for (key, value) in entries {
        table.insert(key.clone(), match_value(value)?);
    }
    Ok(table)
}

fn text_at(value: &toml::Table, key: &str) -> Result<String, String> {
    match value.get(key) {
        Some(toml::Value::String(s)) => Ok(s.clone()),
        Some(other) => Err(format!("invalid type: {other}, expected a string")),
        None => Err(format!("missing field `{key}`")),
    }
}

fn flag_at(value: &toml::Table, key: &str) -> bool {
    matches!(value.get(key), Some(toml::Value::Boolean(true)))
}

fn handler(value: &toml::Table) -> Result<RiteHandler, String> {
    let matcher = match value.get("match") {
        Some(toml::Value::Table(entries)) => validated_matcher(match_table(entries)?)?,
        _ => Table::new(),
    };
    let action = match value.get("action") {
        Some(toml::Value::Table(given)) => RiteAction::HttpPost {
            url: text_at(given, "url")?,
            headers: Table::new(),
            body_template: text_at(given, "body_template").ok(),
        },
        _ => return Err("missing field `action`".to_owned()),
    };
    Ok(RiteHandler {
        name: text_at(value, "name")?,
        source: text_at(value, "source")?,
        matcher,
        action,
    })
}

fn config(input: &str) -> Result<RiteConfig, String> {
    let value: toml::Table = toml::from_str(input).map_err(|error| error.to_string())?;
    let mut rites = Vec::new();
    if let Some(toml::Value::Array(handlers)) = value.get("rites") {
        for given in handlers {
            match given {
                toml::Value::Table(given) => rites.push(handler(given)?),
                _ => return Err("a handler must be a table".to_owned()),
            }
        }
    }
    let mut sources = SourcesConfig::default();
    if let Some(toml::Value::Table(given)) = value.get("sources") {
        if let Some(toml::Value::Table(iris)) = given.get("iris") {
            sources.iris = Some(IrisConfig {
                enabled: flag_at(iris, "enabled"),
                base_url: text_at(iris, "base_url")?,
                api_token: text_at(iris, "api_token").ok(),
            });
        }
        if let Some(toml::Value::Table(kuma)) = given.get("uptime_kuma") {
            sources.uptime_kuma = Some(UptimeKumaConfig {
                enabled: flag_at(kuma, "enabled"),
                secret: text_at(kuma, "secret")?,
            });
        }
    }
    Ok(RiteConfig { rites, sources })
}

fn load_config(input: &str) -> Result<RiteConfig, ConfigLoadError> {
    config(input).map_err(|message| ConfigLoadError::from_message(&message))
}

#[test]
fn validation_reports_invalid_configuration() {
    let config = load_config(
        "[[rites]]\nname = \"duplicate\"\nsource = \"missing\"\naction = { type = \"http_post\", url = \"http://example.test\" }\n\n[[rites]]\nname = \"duplicate\"\nsource = \"github\"\naction = { type = \"http_post\", url = \"http://example.test\" }\n\n[sources.iris]\nenabled = true\nbase_url = \"  \"\n",
    )
    .expect("config parses");
    let diagnostics = validate(&config);
    assert!(diagnostics
        .iter()
        .any(|diagnostic| diagnostic.message.contains("unknown source")));
    assert!(diagnostics
        .iter()
        .any(|diagnostic| diagnostic.message.contains("duplicate handler")));
    assert!(diagnostics
        .iter()
        .any(|diagnostic| diagnostic.message.contains("empty base_url")));
    assert!(diagnostics
        .iter()
        .all(|diagnostic| diagnostic.level == DiagnosticLevel::Error));
}

#[test]
fn validation_warns_when_no_handlers_are_configured() {
    let diagnostics = validate(&RiteConfig::default());
    assert_eq!(diagnostics.len(), 1);
    assert_eq!(diagnostics[0].level, DiagnosticLevel::Warning);
    assert!(diagnostics[0].message.contains("no handlers"));
    assert_eq!(
        startup_summary(&RiteConfig::default()),
        "rite: 1 sources (1 enabled), 0 handlers loaded"
    );
}

#[test]
fn load_config_redacts_source_values_but_keeps_match_diagnostics() {
    let malformed_match = r#"
[[rites]]
name = "unsafe-match"
source = "iris"
match = { labels = [{ category = "alerts" }] }
action = { type = "http_post", url = "https://example.test/hook", headers = { authorization = "synthetic-config-marker" } }
"#;
    let match_error = load_config(malformed_match).expect_err("bad match must not load");
    let match_message = match_error.message();
    assert!(
        match_message.contains("labels"),
        "safe matcher diagnostic must name the invalid key: {match_message}"
    );
    assert!(
        !match_message.contains("synthetic-config-marker"),
        "matcher load errors must never render raw config values"
    );

    let malformed_type = r#"
[[rites]]
name = "unsafe-type"
source = { token = "synthetic-config-marker" }
action = { type = "http_post", url = "https://example.test/hook" }
"#;
    assert!(config(malformed_type)
        .expect_err("bad source type must not load")
        .contains("synthetic-config-marker"));
    let type_error = load_config(malformed_type).expect_err("bad source type must not load");
    assert!(
        !type_error.message().contains("synthetic-config-marker"),
        "generic parser errors must never render raw config values"
    );
}

#[test]
fn validate_rejects_malformed_compound_match_tables() {
    // Malformed compound tables are rejected at load time, which is stronger
    // than a diagnostic afterwards.
    let base = "[sources.iris]\nenabled = true\nbase_url = \"http://iris.test\"\n\n";
    for (label, matcher) in [
        ("empty all_of", "match = { all_of = [] }"),
        ("empty any_of", "match = { any_of = [] }"),
        (
            "all_of table",
            "match = { all_of = { event_type = \"chat\" } }",
        ),
        (
            "any_of table",
            "match = { any_of = { event_type = \"chat\" } }",
        ),
        ("not array", "match = { not = [{ event_type = \"chat\" }] }"),
        (
            "ordinary structured leaf",
            "match = { metadata = { event_type = \"chat\" } }",
        ),
        (
            "nested ordinary structured leaf",
            "match = { any_of = [{ labels = [{ event_type = \"chat\" }] }] }",
        ),
        (
            "nested malformed negation",
            "match = { not = { all_of = { event_type = \"chat\" } } }",
        ),
        (
            "multi-child not",
            "match = { not = { severity = \"info\", event_type = \"chat\" } }",
        ),
        (
            "operator mixed with leaf",
            "match = { any_of = [{ severity = \"critical\" }], event_type = \"chat\" }",
        ),
    ] {
        let text = format!(
            "{base}[[rites]]\nname = \"bad-{label}\"\nsource = \"iris\"\n{matcher}\naction = {{ type = \"http_post\", url = \"https://example.test/hook\" }}"
        );
        let err = match load_config(&text) {
            Ok(_) => panic!("{label} must be rejected at load"),
            Err(err) => err.message(),
        };
        assert!(
            err.contains("match"),
            "{label} error must name the match table: {err}"
        );
    }
}

fn quick_start() -> RiteConfig {
    config(
        r#"
[[rites]]
name = "github-pr-opened"
source = "github"
match = { event_type = "pull_request", action = "opened" }
action = { type = "http_post", url = "https://example.test/hooks/pr" }

[sources.iris]
enabled = true
base_url = "http://127.0.0.1:3000"

# Required when this ingress source is enabled.
[sources.uptime_kuma]
enabled = true
secret = "change-me"
"#,
    )
    .expect("loads")
}

#[test]
fn the_quick_start_configuration_validates() {
    let config = quick_start();
    let diagnostics = validate(&config);
    assert_eq!(diagnostics.len(), 1);
    assert_eq!(
        diagnostics[0].message,
        "enabled source 'iris' has no api_token; this only works with unauthenticated Iris"
    );
    assert!(!has_errors(&diagnostics));
    assert_eq!(
        startup_summary(&config),
        "rite: 3 sources (3 enabled), 1 handlers loaded"
    );
}

#[test]
fn diagnostics_tell_nothing_of_secrets() {
    let mut one = quick_start();
    let mut other = quick_start();
    one.sources.iris.as_mut().expect("iris").api_token = Some("token-one".to_owned());
    other.sources.iris.as_mut().expect("iris").api_token = Some("token-two".to_owned());
    one.sources.uptime_kuma.as_mut().expect("kuma").secret = "alpha".to_owned();
    other.sources.uptime_kuma.as_mut().expect("kuma").secret = "beta".to_owned();
    assert_eq!(validate(&one), validate(&other));
    assert_eq!(validate(&one), vec![]);
    assert_eq!(startup_summary(&one), startup_summary(&other));
}

#[test]
fn blank_secrets_are_errors_of_enabled_sources() {
    let mut config = quick_start();
    config.sources.iris.as_mut().expect("iris").api_token = Some(" ".to_owned());
    config.sources.uptime_kuma.as_mut().expect("kuma").secret = "\t".to_owned();
    let messages: Vec<String> = validate(&config)
        .into_iter()
        .map(|diagnostic| diagnostic.message)
        .collect();
    assert_eq!(
        messages,
        [
            "enabled source 'iris' has a blank api_token",
            "enabled source 'uptime_kuma' has an empty secret"
        ]
    );
    assert!(has_errors(&validate(&config)));
    config.sources.iris.as_mut().expect("iris").enabled = false;
    config.sources.uptime_kuma.as_mut().expect("kuma").enabled = false;
    assert_eq!(validate(&config), vec![]);
    assert_eq!(
        startup_summary(&config),
        "rite: 3 sources (1 enabled), 1 handlers loaded"
    );
}

#[test]
fn handlers_are_checked_in_order() {
    let mut config = quick_start();
    config.sources = SourcesConfig::default();
    let mut matcher = Table::new();
    matcher.insert("not".to_owned(), MatchValue::Table(Table::new()));
    config.rites.push(RiteHandler {
        name: "github-pr-opened".to_owned(),
        source: "uptime_kuma".to_owned(),
        matcher,
        action: RiteAction::HttpPost {
            url: "u".to_owned(),
            headers: Table::new(),
            body_template: None,
        },
    });
    let messages: Vec<String> = validate(&config)
        .into_iter()
        .map(|diagnostic| diagnostic.message)
        .collect();
    assert_eq!(
        messages,
        [
            "handler 'github-pr-opened' has an invalid match table: configuration error: match operator 'not' requires exactly one child condition, found 0",
            "handler 'github-pr-opened' references unknown source 'uptime_kuma'",
            "duplicate handler name 'github-pr-opened'"
        ]
    );
}

#[test]
fn load_errors_keep_match_diagnostics_only() {
    let kept = ConfigLoadError::from_message(&format!("{MATCH_VALIDATION_ERROR_PREFIX}bad key"));
    assert_eq!(kept.message(), "invalid Rite configuration: bad key");
    let dropped = ConfigLoadError::from_message("TOML parse error: token = \"x\"");
    assert_eq!(
        dropped.message(),
        "invalid Rite configuration: configuration syntax or value type is invalid"
    );
}

#[test]
fn valid_matchers_are_kept() {
    let mut matcher = Table::new();
    matcher.insert("event_type".to_owned(), MatchValue::String("push".to_owned()));
    let kept = validated_matcher(matcher).expect("valid");
    assert_eq!(kept.len(), 1);
}

#[test]
fn generation_settings() {
    let config = rite_generate_config();
    assert_eq!(
        config.http_dispatch_fn,
        "crate::dispatch::execute_operation_http"
    );
    assert_eq!(config.http_state_type, "crate::AppState");
    assert_eq!(config.sse_binding_prefix, "super::");
    assert_eq!(config.generator_name, "hydra (rite)");
    assert_eq!(codegen_command(None), Some(CodegenCommand::Check));
    assert_eq!(codegen_command(Some("check")), Some(CodegenCommand::Check));
    assert_eq!(codegen_command(Some("write")), Some(CodegenCommand::Write));
    assert_eq!(codegen_command(Some("Write")), None);
}

#[test]
fn configurations_copy_deeply() {
    let config = quick_start();
    let copy = config.clone();
    assert_eq!(copy.rites, config.rites);
    assert_eq!(startup_summary(&copy), startup_summary(&config));
    assert_eq!(validate(&copy), validate(&config).clone());
}

#[test]
fn sources_and_load_errors_copy_deeply() {
    let sources = SourcesConfig {
        iris: Some(IrisConfig {
            enabled: true,
            base_url: "http://iris.test".to_owned(),
            api_token: Some("t".to_owned()),
        }),
        uptime_kuma: Some(UptimeKumaConfig {
            enabled: false,
            secret: "s".to_owned(),
        }),
    };
    assert_eq!(format!("{:?}", sources.clone()), format!("{sources:?}"));
    let error = ConfigLoadError::from_message("bad");
    assert_eq!(error.clone(), error);
}
