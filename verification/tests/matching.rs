use rite::config::validated_matcher;
use rite::event::{RiteEvent, Severity};
use rite::json::Json;
use rite::matching::{
    leaf_matches, MatchCondition, MatchValue, RiteAction, RiteHandler,
};
use rite::table::Table;
use rite::template::render_template;
use rite::time::Timestamp;

fn match_value(value: &toml::Value) -> Result<MatchValue, String> {
    match value {
        toml::Value::String(s) => Ok(MatchValue::String(s.clone())),
        toml::Value::Integer(n) => Ok(MatchValue::Integer(*n)),
        toml::Value::Boolean(b) => Ok(MatchValue::Boolean(*b)),
        toml::Value::Table(entries) => Ok(MatchValue::Table(match_table(entries)?)),
        toml::Value::Array(children) => {
            let mut tables = Vec::new();
            for child in children {
                match child {
                    toml::Value::Table(entries) => tables.push(match_table(entries)?),
                    _ => return Err("no variant fits".to_owned()),
                }
            }
            Ok(MatchValue::Array(tables))
        }
        _ => Err("no variant fits".to_owned()),
    }
}

fn match_table(entries: &toml::Table) -> Result<Table<MatchValue>, String> {
    let mut table = Table::new();
    for (key, value) in entries {
        table.insert(key.clone(), match_value(value)?);
    }
    Ok(table)
}

fn text_at(value: &toml::Table, key: &str) -> Result<String, String> {
    match value.get(key) {
        Some(toml::Value::String(s)) => Ok(s.clone()),
        _ => Err(format!("missing {key}")),
    }
}

fn action(value: &toml::Table) -> Result<RiteAction, String> {
    if text_at(value, "type")? != "http_post" {
        return Err("unknown action".to_owned());
    }
    let mut headers = Table::new();
    if let Some(toml::Value::Table(given)) = value.get("headers") {
        for (name, _) in given {
            headers.insert(name.clone(), text_at(given, name)?);
        }
    }
    Ok(RiteAction::HttpPost {
        url: text_at(value, "url")?,
        headers,
        body_template: text_at(value, "body_template").ok(),
    })
}

fn handler(input: &str) -> Result<RiteHandler, String> {
    let value: toml::Table = toml::from_str(input).map_err(|error| error.to_string())?;
    let matcher = match value.get("match") {
        Some(toml::Value::Table(entries)) => validated_matcher(match_table(entries)?)?,
        Some(_) => return Err("match must be a table".to_owned()),
        None => Table::new(),
    };
    let action = match value.get("action") {
        Some(toml::Value::Table(given)) => action(given)?,
        _ => return Err("missing action".to_owned()),
    };
    Ok(RiteHandler {
        name: text_at(&value, "name")?,
        source: text_at(&value, "source")?,
        matcher,
        action,
    })
}

fn metadata(entries: Vec<(&str, Json)>) -> Table<Json> {
    let mut table = Table::new();
    for (key, value) in entries {
        table.insert(key.to_owned(), value);
    }
    table
}

fn event(
    source: &str,
    event_type: &str,
    severity: Severity,
    body: Option<&str>,
    metadata: Table<Json>,
) -> RiteEvent {
    RiteEvent {
        source: source.into(),
        event_type: event_type.into(),
        action: None,
        timestamp: Timestamp::now(),
        severity,
        title: event_type.into(),
        body: body.map(Into::into),
        metadata,
    }
}

const ACTION: &str = "action = { type = \"http_post\", url = \"https://example.test/hook\" }";

#[test]
fn handler_matches_string_and_scalar_metadata() {
    let handler = handler(
        r#"name = "opened"
source = "github"
match = { event_type = "pull_request", action = "opened", repository = "rite", number = 4, draft = false }
action = { type = "http_post", url = "https://example.test/hook" }"#,
    )
    .expect("handler parses");
    let event = RiteEvent {
        source: "github".into(),
        event_type: "pull_request".into(),
        action: Some("opened".into()),
        timestamp: Timestamp::now(),
        severity: Severity::Info,
        title: "PR opened".into(),
        body: None,
        metadata: metadata(vec![
            ("repository", Json::string("rite")),
            ("number", Json::integer(4)),
            ("draft", Json::Bool(false)),
        ]),
    };
    assert!(handler.matches(&event));
}

#[test]
fn handler_matches_body_substring() {
    let handler = handler(
        r#"name = "urgent"
source = "iris"
match = { body_contains = "URGENT" }
action = { type = "http_post", url = "https://example.test/hook" }"#,
    )
    .expect("handler parses");
    let event = RiteEvent {
        source: "iris".into(),
        event_type: "text".into(),
        action: None,
        timestamp: Timestamp::now(),
        severity: Severity::Info,
        title: "message".into(),
        body: Some("URGENT: deploy".into()),
        metadata: Table::new(),
    };
    assert!(handler.matches(&event));
}

#[test]
fn templates_render_event_and_nested_metadata_fields() {
    let provider =
        rite::json::parse_json(br#"{"name":"telegram","id":42}"#).expect("provider parses");
    let event = RiteEvent {
        source: "iris".into(),
        event_type: "text".into(),
        action: None,
        timestamp: Timestamp::now(),
        severity: Severity::Warning,
        title: "Attention".into(),
        body: Some("Deploy paused".into()),
        metadata: metadata(vec![("provider", provider)]),
    };

    assert_eq!(
        render_template(
            "{{event_type}}/{{action}} {{title}}: {{body}} {{metadata.provider.name}} #{{metadata.provider.id}} {{metadata.missing}}",
            &event,
        ),
        "text/ Attention: Deploy paused telegram #42 "
    );
}

#[test]
fn http_post_defaults_preserve_existing_toml() {
    let handler = handler(
        r#"name = "legacy"
source = "github"
action = { type = "http_post", url = "https://example.test/hook" }"#,
    )
    .expect("legacy handler parses");

    assert!(matches!(
        handler.action,
        RiteAction::HttpPost {
            headers,
            body_template: None,
            ..
        } if headers.is_empty()
    ));
}

#[test]
fn compound_any_of_matches_exactly_critical_or_urgent() {
    let handler = handler(&format!(
        "name = \"page\"\nsource = \"iris\"\nmatch = {{ any_of = [{{ severity = \"critical\" }}, {{ body_contains = \"URGENT\" }}] }}\n{ACTION}"
    ))
    .expect("compound handler parses");

    let critical = event("iris", "alert", Severity::Critical, None, Table::new());
    let urgent = event(
        "iris",
        "alert",
        Severity::Info,
        Some("URGENT: deploy"),
        Table::new(),
    );
    let quiet = event(
        "iris",
        "alert",
        Severity::Info,
        Some("all fine"),
        Table::new(),
    );

    assert!(handler.matches(&critical));
    assert!(handler.matches(&urgent));
    assert!(!handler.matches(&quiet));
}

#[test]
fn compound_not_inside_all_of_excludes() {
    let handler = handler(&format!(
        "name = \"real-prs\"\nsource = \"github\"\nmatch = {{ all_of = [{{ event_type = \"pull_request\" }}, {{ not = {{ draft = true }} }}] }}\n{ACTION}"
    ))
    .expect("compound handler parses");

    let draft = event(
        "github",
        "pull_request",
        Severity::Info,
        None,
        metadata(vec![("draft", Json::Bool(true))]),
    );
    let ready = event(
        "github",
        "pull_request",
        Severity::Info,
        None,
        metadata(vec![("draft", Json::Bool(false))]),
    );
    let ready_push = event("github", "push", Severity::Info, None, Table::new());

    assert!(!handler.matches(&draft)); // not(draft) excludes drafts
    assert!(handler.matches(&ready));
    assert!(!handler.matches(&ready_push)); // event_type guard fails
}

#[test]
fn compound_nesting_arbitrary_depth() {
    // all_of( any_of( not(severity=info), severity=critical ), event_type=alert )
    let handler = handler(&format!(
        "name = \"deep\"\nsource = \"iris\"\nmatch = {{ all_of = [{{ any_of = [{{ not = {{ severity = \"info\" }} }}, {{ severity = \"critical\" }}] }}, {{ event_type = \"alert\" }}] }}\n{ACTION}"
    ))
    .expect("nested handler parses");

    let critical_alert = event("iris", "alert", Severity::Critical, None, Table::new());
    let warning_alert = event("iris", "alert", Severity::Warning, None, Table::new());
    let info_alert = event("iris", "alert", Severity::Info, None, Table::new());
    let warning_chat = event("iris", "chat", Severity::Warning, None, Table::new());

    assert!(handler.matches(&critical_alert));
    assert!(handler.matches(&warning_alert)); // not(info) holds under any_of
    assert!(!handler.matches(&info_alert));
    assert!(!handler.matches(&warning_chat)); // event_type=alert fails
}

#[test]
fn compound_flat_form_parses_to_all_of_leaves() {
    let handler = handler(&format!(
        "name = \"flat\"\nsource = \"github\"\nmatch = {{ event_type = \"push\", draft = false }}\n{ACTION}"
    ))
    .expect("flat handler parses");

    let tree = handler.condition_tree().expect("flat table is valid");
    let MatchCondition::All(children) = tree else {
        panic!("flat table must parse to All");
    };
    assert_eq!(children.len(), 2);
}

#[test]
fn scalar_operator_named_keys_stay_legacy_leaves() {
    // A scalar under an operator-named key is a metadata lookup, not an
    // operator.
    let handler = handler(&format!(
        "name = \"legacy-named\"\nsource = \"iris\"\nmatch = {{ not = \"a-value\", all_of = \"another\", event_type = \"text\" }}\n{ACTION}"
    ))
    .expect("legacy scalar handler parses");

    let tree = handler.condition_tree().expect("scalars are leaves");
    let MatchCondition::All(children) = tree else {
        panic!("scalar operator-named keys must parse to All");
    };
    assert_eq!(children.len(), 3);

    let matching = event(
        "iris",
        "text",
        Severity::Info,
        None,
        metadata(vec![
            ("not", Json::string("a-value")),
            ("all_of", Json::string("another")),
        ]),
    );
    assert!(handler.matches(&matching));
}

#[test]
fn compound_rejects_empty_children_and_misshapen_not() {
    // Malformed compound tables are rejected at load time.
    let empty_all = handler(&format!(
        "name = \"bad\"\nsource = \"iris\"\nmatch = {{ all_of = [] }}\n{ACTION}"
    ))
    .expect_err("empty all_of rejected at load");
    assert!(empty_all.contains("at least one child"));

    let empty_any = handler(&format!(
        "name = \"bad\"\nsource = \"iris\"\nmatch = {{ any_of = [] }}\n{ACTION}"
    ))
    .expect_err("empty any_of rejected at load");
    assert!(empty_any.contains("at least one child"));

    let fat_not = handler(&format!(
        "name = \"bad\"\nsource = \"iris\"\nmatch = {{ not = {{ severity = \"info\", event_type = \"chat\" }} }}\n{ACTION}"
    ))
    .expect_err("multi-child not rejected at load");
    assert!(fat_not.contains("exactly one child"));

    let empty_not = handler(&format!(
        "name = \"bad\"\nsource = \"iris\"\nmatch = {{ not = {{}} }}\n{ACTION}"
    ))
    .expect_err("empty not rejected at load");
    assert!(empty_not.contains("exactly one child"));
}

#[test]
fn compound_rejects_mixed_operators_and_leaves() {
    let mixed = handler(&format!(
        "name = \"bad\"\nsource = \"iris\"\nmatch = {{ any_of = [{{ severity = \"critical\" }}], event_type = \"chat\" }}\n{ACTION}"
    ))
    .expect_err("mixed operator+leaf rejected at load");
    assert!(mixed.contains("mixes operators"));

    let siblings = handler(&format!(
        "name = \"bad\"\nsource = \"iris\"\nmatch = {{ all_of = [{{ event_type = \"a\" }}], any_of = [{{ event_type = \"b\" }}] }}\n{ACTION}"
    ))
    .expect_err("sibling operators rejected at load");
    assert!(siblings.contains("multiple operators"));
}

#[test]
fn programmatic_matcher_corruption_is_still_rejected() {
    // condition_tree() still rejects handlers mutated after construction.
    let mut handler = handler(&format!(
        "name = \"prog\"\nsource = \"iris\"\nmatch = {{ event_type = \"text\" }}\n{ACTION}"
    ))
    .expect("valid handler parses");
    handler
        .matcher
        .insert("all_of".into(), MatchValue::Array(Vec::new()));
    assert!(handler.condition_tree().is_err());
}

fn refusal(matcher: &str) -> String {
    handler(&format!(
        "name = \"bad\"\nsource = \"iris\"\nmatch = {matcher}\n{ACTION}"
    ))
    .expect_err("the table is refused")
}

#[test]
fn refused_tables_give_their_reasons() {
    let prefix = "invalid match table: configuration error: ";
    let cases = [
        (
            "{ all_of = [{ a = 1 }], any_of = [{ a = 1 }], not = { a = 1 }, b = 1 }",
            "match table mixes operators (all_of, any_of, not) with ordinary leaf keys; move leaves inside the compound form",
        ),
        (
            "{ all_of = [{ a = 1 }], not = { a = 1 } }",
            "match table uses multiple operators (all_of, not) at the same level; nest them instead",
        ),
        (
            "{ not = [{ a = 1 }] }",
            "match operator 'not' requires an inline table holding exactly one child condition",
        ),
        (
            "{ not = {} }",
            "match operator 'not' requires exactly one child condition, found 0",
        ),
        (
            "{ not = { a = 1, b = 2, c = 3 } }",
            "match operator 'not' requires exactly one child condition, found 3",
        ),
        (
            "{ all_of = { a = 1 } }",
            "match operator 'all_of' requires an array of condition tables",
        ),
        (
            "{ all_of = { a = 1 }, not = { a = 1 } }",
            "match table mixes operators (not) with ordinary leaf keys; move leaves inside the compound form",
        ),
        (
            "{ any_of = { a = 1 }, b = 1 }",
            "match operator 'any_of' requires an array of condition tables",
        ),
        (
            "{ any_of = [] }",
            "match operator 'any_of' requires at least one child condition",
        ),
        (
            "{ any_of = [{ a = 1 }, { labels = [{ a = 1 }] }, { all_of = [] }] }",
            "match key 'labels' must hold a string, an integer or a boolean; tables and arrays belong under all_of, any_of or not",
        ),
        (
            "{ not = { all_of = [], a = 1 } }",
            "match table mixes operators (all_of) with ordinary leaf keys; move leaves inside the compound form",
        ),
    ];
    for (matcher, reason) in cases {
        assert_eq!(refusal(matcher), format!("{prefix}{reason}"));
    }
}

#[test]
fn refusals_do_not_depend_on_scalar_values() {
    assert_eq!(
        refusal("{ not = { a = \"secret\", b = 2 } }"),
        refusal("{ not = { a = true, b = \"other\" } }")
    );
}

#[test]
fn a_handler_of_another_source_never_matches() {
    let handler = handler(&format!("name = \"all\"\nsource = \"iris\"\n{ACTION}")).expect("loads");
    assert!(handler.matches(&event("iris", "x", Severity::Info, None, Table::new())));
    assert!(!handler.matches(&event("github", "x", Severity::Info, None, Table::new())));
}

#[test]
fn a_corrupted_handler_matches_nothing() {
    let mut handler =
        handler(&format!("name = \"all\"\nsource = \"iris\"\n{ACTION}")).expect("loads");
    handler
        .matcher
        .insert("not".into(), MatchValue::Table(Table::new()));
    assert!(!handler.matches(&event("iris", "x", Severity::Info, None, Table::new())));
}

#[test]
fn double_negation_restores_the_condition() {
    let handler = handler(&format!(
        "name = \"n\"\nsource = \"iris\"\nmatch = {{ not = {{ not = {{ severity = \"error\" }} }} }}\n{ACTION}"
    ))
    .expect("loads");
    assert!(handler.matches(&event("iris", "x", Severity::Error, None, Table::new())));
    assert!(!handler.matches(&event("iris", "x", Severity::Info, None, Table::new())));
}

#[test]
fn leaves_compare_scalars_of_their_own_type() {
    let event = RiteEvent {
        source: "s".into(),
        event_type: "push".into(),
        action: None,
        timestamp: Timestamp::now(),
        severity: Severity::Critical,
        title: "t".into(),
        body: None,
        metadata: metadata(vec![
            ("number", Json::integer(-4)),
            ("flag", Json::Bool(true)),
            ("name", Json::string("4")),
            ("none", Json::Null),
        ]),
    };
    let text = |s: &str| MatchValue::String(s.to_owned());
    assert!(leaf_matches("event_type", &text("push"), &event));
    assert!(leaf_matches("action", &text(""), &event));
    assert!(leaf_matches("severity", &text("critical"), &event));
    assert!(!leaf_matches("severity", &text("info"), &event));
    assert!(!leaf_matches("body_contains", &text(""), &event));
    assert!(!leaf_matches("body_contains", &MatchValue::Integer(1), &event));
    assert!(leaf_matches("number", &MatchValue::Integer(-4), &event));
    assert!(!leaf_matches("number", &text("-4"), &event));
    assert!(leaf_matches("flag", &MatchValue::Boolean(true), &event));
    assert!(!leaf_matches("flag", &MatchValue::Boolean(false), &event));
    assert!(leaf_matches("name", &text("4"), &event));
    assert!(!leaf_matches("name", &MatchValue::Integer(4), &event));
    assert!(!leaf_matches("none", &text(""), &event));
    assert!(!leaf_matches("absent", &text(""), &event));
    assert!(!leaf_matches("name", &MatchValue::Table(Table::new()), &event));
}

#[test]
fn operator_shapes() {
    let table = MatchValue::Table(Table::new());
    let array = MatchValue::Array(Vec::new());
    assert!(table.is_operator_shaped("not"));
    assert!(!table.is_operator_shaped("all_of"));
    assert!(array.is_operator_shaped("any_of"));
    assert!(!array.is_operator_shaped("not"));
    assert!(!MatchValue::Boolean(true).is_operator_shaped("not"));
}

#[test]
fn match_values_copy_deeply() {
    let mut inner = Table::new();
    inner.insert("a".to_owned(), MatchValue::Integer(1));
    let mut outer = Table::new();
    outer.insert("all_of".to_owned(), MatchValue::Array(vec![inner]));
    let value = MatchValue::Table(outer);
    assert_eq!(value.clone(), value);
}

#[test]
fn events_and_conditions_copy_deeply() {
    let event = event(
        "iris",
        "text",
        Severity::Error,
        Some("body"),
        metadata(vec![("a", Json::integer(1))]),
    );
    assert_eq!(event.clone(), event);
    let condition = MatchCondition::All(vec![
        MatchCondition::Not(Box::new(MatchCondition::Any(vec![MatchCondition::Leaf(
            "a".to_owned(),
            MatchValue::Integer(2),
        )]))),
        MatchCondition::Leaf("severity".to_owned(), MatchValue::String("error".to_owned())),
    ]);
    assert_eq!(condition.clone(), condition);
    assert!(condition.matches(&event));
    assert!(!MatchCondition::Any(Vec::new()).matches(&event));
    assert!(MatchCondition::All(Vec::new()).matches(&event));
}
