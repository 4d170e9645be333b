use rite::event::{RiteEvent, Severity};
use rite::json::{parse_json, Json};
use rite::table::Table;
use rite::template::{render_template, template_metadata_value, template_value};
use rite::time::Timestamp;

fn event() -> RiteEvent {
    let mut metadata = Table::new();
    metadata.insert(
        "message".to_owned(),
        parse_json(br#"{"b":[1,2.5,"x"],"a":{"deep":{"er":true}},"n":null,"s":"t"}"#)
            .expect("parses"),
    );
    metadata.insert("plain".to_owned(), Json::string("value"));
    RiteEvent {
        source: "iris".into(),
        event_type: "text".into(),
        action: Some("sent".into()),
        timestamp: Timestamp::parse("2026-08-15T00:00:00Z").expect("parses"),
        severity: Severity::Critical,
        title: "Title".into(),
        body: None,
        metadata,
    }
}

#[test]
fn templates_without_fields_are_verbatim() {
    for template in ["", "plain", "{ single }", "}} closing", "a{b}c"] {
        assert_eq!(render_template(template, &event()), template);
    }
}

#[test]
fn unclosed_fields_stay_as_they_are() {
    assert_eq!(render_template("a {{title", &event()), "a {{title");
    assert_eq!(
        render_template("{{title}} b {{title} ", &event()),
        "Title b {{title} "
    );
}

#[test]
fn every_event_field_renders() {
    assert_eq!(
        render_template(
            "{{source}}|{{event_type}}|{{action}}|{{timestamp}}|{{severity}}|{{title}}|{{body}}|",
            &event()
        ),
        "iris|text|sent|2026-08-15T00:00:00+00:00|critical|Title||"
    );
}

#[test]
fn metadata_renders_as_text_or_compact_json() {
    let event = event();
    assert_eq!(template_value("metadata.plain", &event), "value");
    assert_eq!(template_value("metadata.message.s", &event), "t");
    assert_eq!(template_value("metadata.message.n", &event), "");
    assert_eq!(
        template_value("metadata.message.b", &event),
        r#"[1,2.5,"x"]"#
    );
    assert_eq!(
        template_value("metadata.message.a", &event),
        r#"{"deep":{"er":true}}"#
    );
    assert_eq!(template_value("metadata.message.a.deep.er", &event), "true");
}

#[test]
fn missing_fields_render_empty() {
    let event = event();
    for field in [
        "",
        "unknown",
        " title",
        "metadata",
        "metadata.",
        "metadata.absent",
        "metadata.plain.more",
        "metadata.message.b.0",
        "metadata.message..s",
    ] {
        assert_eq!(template_value(field, &event), "", "field {field}");
    }
}

#[test]
fn fields_render_one_by_one() {
    let event = event();
    assert_eq!(
        render_template("x{{title}}{{source}}y{{}}z", &event),
        "xTitleirisyz"
    );
    assert_eq!(render_template("{{{title}}}", &event), "}");
}

#[test]
fn paths_reach_into_metadata() {
    let event = event();
    let found = template_metadata_value("message.a.deep", &event.metadata).expect("found");
    assert!(found.is_object());
    assert!(template_metadata_value("message.x", &event.metadata).is_none());
}

#[test]
fn single_braces_are_kept() {
    let event = event();
    assert_eq!(render_template("a{b}c {{title}}", &event), "a{b}c Title");
    assert_eq!(render_template("end{ x{{title}}", &event), "end{ xTitle");
    assert_eq!(render_template("{{a}b}}{{title}}", &event), "Title");
    assert_eq!(render_template("{{ {{title", &event), "{{ {{title");
}
