use rite::error::RiteError;
use rite::iris::{Backoff, IrisSource, IrisStream, StreamInput, StreamStep};
use rite::json::Json;
use rite::sse::{frame_end, parse_frame, text_fields, FrameBuffer};

const MESSAGE: &str = r#"{"id":"00000000-0000-0000-0000-000000000001","thread_id":"00000000-0000-0000-0000-000000000002","source":"telegram","source_id":"42","sender":{"source_id":"shiv","display_name":"Shiv"},"kind":"text","body":"URGENT: deploy","timestamp":"2026-08-15T00:00:00Z","metadata":{"chat_id":9}}"#;

fn text(value: Option<&Json>) -> Option<&str> {
    value.and_then(|value| value.as_str())
}

#[test]
fn preserves_the_full_iris_message_for_matching() {
    let event = IrisSource::parse_message(MESSAGE).expect("message parses");
    assert_eq!(event.source, "iris");
    assert_eq!(event.event_type, "text");
    assert_eq!(event.title, "Shiv");
    assert_eq!(text(event.metadata.get("provider")), Some("telegram"));
    assert_eq!(
        event
            .metadata
            .get("message")
            .and_then(|message| message.text_at("thread_id")),
        Some("00000000-0000-0000-0000-000000000002")
    );
}

#[test]
fn messages_become_events() {
    let event = IrisSource::parse_message(MESSAGE).expect("message parses");
    assert_eq!(event.action, None);
    assert_eq!(event.body.as_deref(), Some("URGENT: deploy"));
    assert_eq!(event.timestamp.seconds, 1_786_752_000);
    assert_eq!(event.timestamp.nanos, 0);
    assert_eq!(text(event.metadata.get("source_id")), Some("42"));
    assert_eq!(text(event.metadata.get("sender")), Some("shiv"));
    assert_eq!(text(event.metadata.get("kind")), Some("text"));
    assert_eq!(
        event
            .metadata
            .get("iris_metadata")
            .expect("kept")
            .plain_text(),
        r#"{"chat_id":9}"#
    );
    assert_eq!(event.metadata.len(), 6);

    let nameless = r#"{"source":"s","source_id":"1","sender":{"source_id":"x","display_name":null},"kind":"k","body":"","timestamp":"2026-08-15T01:00:00.5+01:00"}"#;
    let event = IrisSource::parse_message(nameless).expect("message parses");
    assert_eq!(event.title, "x");
    assert_eq!(event.timestamp.seconds, 1_786_752_000);
    assert_eq!(event.timestamp.nanos, 500_000_000);
    assert!(event.metadata.get("iris_metadata").expect("kept").is_null());
}

#[test]
fn messages_may_be_lists() {
    let list = r#"["s","1",["x","X"],"k","b","2026-08-15T00:00:00Z",{"a":1}]"#;
    let event = IrisSource::parse_message(list).expect("message parses");
    assert_eq!(event.title, "X");
    assert_eq!(event.event_type, "k");
    assert_eq!(
        event
            .metadata
            .get("iris_metadata")
            .expect("kept")
            .plain_text(),
        r#"{"a":1}"#
    );
}

#[test]
fn refused_messages_give_their_reasons() {
    let whole = |change: (&str, &str)| MESSAGE.replacen(change.0, change.1, 1);
    let cases: Vec<(String, &str)> = vec![
        (
            "null".to_owned(),
            "invalid type: null, expected struct IrisMessage",
        ),
        (
            "\"a\\nb\"".to_owned(),
            r#"invalid type: string "a\nb", expected struct IrisMessage"#,
        ),
        (
            "true".to_owned(),
            "invalid type: boolean `true`, expected struct IrisMessage",
        ),
        (
            "1.5".to_owned(),
            "invalid type: floating point `1.5`, expected struct IrisMessage",
        ),
        ("{}".to_owned(), "missing field `source`"),
        (
            whole(("\"source_id\":\"42\"", "\"x\":1")),
            "missing field `source_id`",
        ),
        (
            whole(("\"kind\":\"text\"", "\"kind\":7")),
            "invalid type: integer `7`, expected a string",
        ),
        (
            whole(("{\"source_id\":\"shiv\",\"display_name\":\"Shiv\"}", "{}")),
            "missing field `source_id`",
        ),
        (
            whole(("{\"source_id\":\"shiv\",\"display_name\":\"Shiv\"}", "3")),
            "invalid type: integer `3`, expected struct IrisSender",
        ),
        (
            whole(("\"display_name\":\"Shiv\"", "\"display_name\":[]")),
            "invalid type: sequence, expected a string",
        ),
        (
            whole(("\"2026-08-15T00:00:00Z\"", "{}")),
            "invalid type: map, expected an RFC 3339 formatted date and time string",
        ),
        (
            whole(("2026-08-15T00:00:00Z", "tomorrow")),
            "input contains invalid characters",
        ),
        (
            "[]".to_owned(),
            "invalid length 0, expected struct IrisMessage with 7 elements",
        ),
        (
            r#"["s","1",["x"],"k"]"#.to_owned(),
            "invalid length 1, expected struct IrisSender with 2 elements",
        ),
        (
            r#"["s","1",["x",null,1]]"#.to_owned(),
            "invalid length 3, expected fewer elements in array",
        ),
        (
            r#"["s","1",["x",null],"k","b"]"#.to_owned(),
            "invalid length 5, expected struct IrisMessage with 7 elements",
        ),
        (
            r#"["s","1",["x",null],"k","b","2026-08-15T00:00:00Z",1,2]"#.to_owned(),
            "invalid length 8, expected fewer elements in array",
        ),
    ];
    for (payload, reason) in cases {
        assert_eq!(
            IrisSource::parse_message(&payload)
                .expect_err("refused")
                .message(),
            format!("event parsing failed: invalid Iris message: {reason}"),
            "payload {payload}"
        );
    }
    assert_eq!(
        IrisSource::parse_message("{").expect_err("refused").message(),
        "event parsing failed: invalid Iris message JSON: EOF while parsing an object at line 1 column 1"
    );
}

#[test]
fn consumes_a_message_from_a_mock_sse_server() {
    let stream = "event:message\r\ndata:{\"id\":\"00000000-0000-0000-0000-000000000001\",\"thread_id\":\"00000000-0000-0000-0000-000000000002\",\"source\":\"telegram\",\"source_id\":\"42\",\"sender\":{\"source_id\":\"shiv\",\"display_name\":\"Shiv\"},\"kind\":\"text\",\"body\":\"héllo\",\"timestamp\":\"2026-08-15T00:00:00Z\",\"metadata\":{}}\r\n\r\n";
    let split = stream.find('é').expect("unicode present") + 1;
    let mut connection = IrisStream::new();
    let opened = connection.step(StreamInput::Opened {
        success: true,
        status: "200 OK",
    });
    assert!(matches!(opened, StreamStep::Read));
    let first = connection.step(StreamInput::Chunk(&stream.as_bytes()[..split]));
    assert!(matches!(first, StreamStep::Read));
    let second = connection.step(StreamInput::Chunk(&stream.as_bytes()[split..]));
    let StreamStep::Deliver(event) = second else {
        panic!("event delivered");
    };
    assert_eq!(event.source, "iris");
    assert_eq!(event.body.as_deref(), Some("héllo"));
    assert!(matches!(
        connection.step(StreamInput::Delivered),
        StreamStep::Read
    ));
    assert!(matches!(
        connection.step(StreamInput::Ended),
        StreamStep::Stop(Ok(()))
    ));
}

#[test]
fn sends_bearer_token_only_when_configured() {
    for token in [Some("test-token"), None] {
        let source =
            IrisSource::new_with_token("http://127.0.0.1:3000", token).expect("source configures");
        let authorization = source.authorization();
        assert_eq!(authorization.is_some(), token.is_some());
        if let Some(authorization) = authorization {
            assert_eq!(authorization.as_bytes(), b"Bearer test-token");
        }
    }
}

fn stopped(step: StreamStep) -> Option<RiteError> {
    match step {
        StreamStep::Stop(Err(error)) => Some(error),
        _ => None,
    }
}

#[test]
fn connections_stop_for_a_reason() {
    let mut connection = IrisStream::new();
    let action = |reason: &str| Some(RiteError::Action(reason.to_owned()));
    assert_eq!(
        stopped(connection.step(StreamInput::RequestFailed("refused"))),
        action("Iris SSE request failed: refused")
    );
    assert_eq!(
        stopped(connection.step(StreamInput::Opened {
            success: false,
            status: "401 Unauthorized"
        })),
        action("Iris SSE returned 401 Unauthorized")
    );
    assert_eq!(
        stopped(connection.step(StreamInput::ReadFailed("reset"))),
        action("Iris SSE read failed: reset")
    );
    assert_eq!(
        stopped(connection.step(StreamInput::ReceiverStopped)),
        action("Iris event receiver stopped")
    );
    assert_eq!(
        stopped(connection.step(StreamInput::Chunk(b"event: message\ndata: {}\n\n"))),
        Some(RiteError::Parse(
            "invalid Iris message: missing field `source`".to_owned()
        ))
    );
    assert_eq!(
        stopped(connection.step(StreamInput::Chunk(b"data: \xff\n\n"))),
        Some(RiteError::Parse(
            "invalid UTF-8 in Iris SSE frame: invalid utf-8 sequence of 1 bytes from index 6"
                .to_owned()
        ))
    );
}

#[test]
fn other_frames_are_passed_over() {
    let mut connection = IrisStream::new();
    let stream = format!(
        ": comment\n\nevent: ping\ndata: x\n\nevent: message\n\nevent: message\ndata: {MESSAGE}\n\nevent: message\ndata: {MESSAGE}\n\nevent"
    );
    assert!(matches!(
        connection.step(StreamInput::Chunk(stream.as_bytes())),
        StreamStep::Deliver(_)
    ));
    assert!(matches!(
        connection.step(StreamInput::Delivered),
        StreamStep::Deliver(_)
    ));
    assert!(matches!(
        connection.step(StreamInput::Delivered),
        StreamStep::Read
    ));
}

fn frames_of(chunks: &[&[u8]]) -> Vec<Vec<u8>> {
    let mut buffer = FrameBuffer::new();
    let mut frames = Vec::new();
    for chunk in chunks {
        buffer.push(chunk);
        while let Some(frame) = buffer.next_frame() {
            frames.push(frame);
        }
    }
    frames
}

#[test]
fn frames_do_not_depend_on_chunks() {
    let stream: &[u8] = b"a: 1\r\nb: 2\r\n\r\n\r\n\r\nc: 3\r\n\r\nrest";
    let whole = frames_of(&[stream]);
    assert_eq!(
        whole,
        vec![b"a: 1\r\nb: 2".to_vec(), Vec::new(), b"c: 3".to_vec()]
    );
    for i in 0..stream.len() {
        for j in i..stream.len() {
            assert_eq!(frames_of(&[&stream[..i], &stream[i..j], &stream[j..]]), whole);
        }
    }
    let unix: &[u8] = b"a\n\n\nb\n\nc";
    for i in 0..unix.len() {
        assert_eq!(
            frames_of(&[&unix[..i], &unix[i..]]),
            vec![b"a".to_vec(), b"\nb".to_vec()]
        );
    }
}

#[test]
fn mixed_delimiters_depend_on_chunks() {
    assert_eq!(frames_of(&[b"x\n\ny\r\n\r\n"]), vec![b"x\n\ny".to_vec()]);
    assert_eq!(
        frames_of(&[b"x\n\n", b"y\r\n\r\n"]),
        vec![b"x".to_vec(), b"y".to_vec()]
    );
}

#[test]
fn frame_ends() {
    assert_eq!(frame_end(b""), None);
    assert_eq!(frame_end(b"a\r\n\r"), None);
    assert_eq!(frame_end(b"\n\n"), Some((0, 2)));
    assert_eq!(frame_end(b"ab\n\n\r\n\r\n"), Some((4, 4)));
}

#[test]
fn frames_have_fields() {
    let parsed = |frame: &[u8]| parse_frame(frame).expect("UTF-8");
    assert_eq!(parsed(b""), (None, String::new()));
    assert_eq!(
        parsed(b"event: message\r\ndata: a\r\ndata:b\ndata:  c\r\r\n"),
        (Some("message".to_owned()), "a\nb\n c".to_owned())
    );
    assert_eq!(
        parsed(b"event:one\nevent: two\nid: 7\n:data\nno colon\ndata"),
        (Some("two".to_owned()), String::new())
    );
    assert_eq!(
        parsed(b"data: a: b\r"),
        (None, "a: b".to_owned())
    );
    assert_eq!(parsed(b"data:\ndata:"), (None, "\n".to_owned()));
}

#[test]
fn settings_are_checked() {
    let source = IrisSource::new(" http://iris.test:9876/base// ").expect("configures");
    assert_eq!(source.events_url(), "http://iris.test:9876/base/v1/events");
    assert_eq!(source.clone().authorization(), None);
    let refused = |url: &str, token: Option<&str>| match IrisSource::new_with_token(url, token) {
        Ok(_) => panic!("refused"),
        Err(error) => error.message(),
    };
    assert_eq!(
        refused("", None),
        "configuration error: invalid Iris base URL: relative URL without a base"
    );
    assert_eq!(
        refused("ftp://iris.test", None),
        "configuration error: Iris base URL must use http or https"
    );
    assert_eq!(
        refused("https://iris.test", Some("two\nlines")),
        "configuration error: Iris API token contains invalid header characters"
    );
    for token in ["tab\there", "é", "", "~"] {
        assert!(IrisSource::new_with_token("https://iris.test", Some(token)).is_ok());
    }
    for token in ["\u{7f}", "\u{0}", "\r"] {
        assert!(IrisSource::new_with_token("https://iris.test", Some(token)).is_err());
    }
}

#[test]
fn the_source_describes_itself() {
    let metadata = IrisSource::new("http://iris.test").expect("configures").metadata();
    assert_eq!((metadata.id, metadata.name), ("iris", "Iris"));
    assert_eq!(
        metadata.capabilities,
        ["sse", "reconnect", "message-subscription"]
    );
}

#[test]
fn waits_double_to_a_minute() {
    let mut backoff = Backoff::new();
    let waits: Vec<u64> = (0..9).map(|_| backoff.next_delay()).collect();
    assert_eq!(waits, [1, 2, 4, 8, 16, 32, 60, 60, 60]);
}

#[test]
fn schemes_decide_settings() {
    let base = || "x".to_owned();
    let Ok(source) = IrisSource::with_scheme(base(), Ok("https".to_owned()), Some("t")) else {
        panic!("settings");
    };
    assert_eq!(source.events_url(), "x/v1/events");
    assert_eq!(
        source.authorization().map(|header| header.as_bytes()),
        Some(b"Bearer t".as_slice())
    );
    assert!(IrisSource::with_scheme(base(), Ok("HTTP".to_owned()), None).is_err());
    assert!(IrisSource::with_scheme(base(), Err("why".to_owned()), None).is_err());
}

#[test]
fn texts_have_fields() {
    assert_eq!(
        text_fields("event: a\r\ndata: b\n"),
        (Some("a".to_owned()), "b".to_owned())
    );
}

#[test]
fn tokens_stay_out_of_debug_output() {
    let Ok(source) = IrisSource::new_with_token("http://iris.test", Some("hush-é")) else {
        panic!("source configures");
    };
    let copy = source.clone();
    for shown in [format!("{source:?}"), format!("{copy:?}")] {
        assert!(shown.contains("http://iris.test"));
        assert!(shown.contains("Sensitive"));
        assert!(!shown.contains("hush"));
    }
    assert_eq!(
        copy.authorization().map(|header| header.as_bytes()),
        Some("Bearer hush-é".as_bytes())
    );
}

#[test]
fn mixed_delimiters_depend_on_the_cut() {
    let stream: &[u8] = b"a: 1\n\nb: 2\r\n\r\n";
    assert_eq!(frames_of(&[stream]), vec![b"a: 1\n\nb: 2".to_vec()]);
    assert_eq!(
        frames_of(&[&stream[..6], &stream[6..]]),
        vec![b"a: 1".to_vec(), b"b: 2".to_vec()]
    );
}
