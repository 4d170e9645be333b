use rite::error::RiteError;
use rite::event::Severity;
use rite::json::{find, parse_json, parse_json_text, put, Json};
use rite::table::Table;
use rite::text;
use rite::time::Timestamp;

#[test]
fn tables_keep_keys_in_order_and_once() {
    let mut table = Table::new();
    for key in ["b", "a", "é", "ab", "", "a"] {
        table.insert(key.to_owned(), key.len());
    }
    let keys: Vec<&str> = table
        .entries
        .iter()
        .map(|(key, _)| key.as_str())
        .collect();
    assert_eq!(keys, ["", "a", "ab", "b", "é"]);
    assert_eq!(table.get("ab"), Some(&2));
    assert_eq!(table.get("c"), None);
    table.insert("ab".to_owned(), 9);
    assert_eq!(table.get("ab"), Some(&9));
    assert_eq!(table.len(), 5);
    assert!(!table.is_empty());
}

#[test]
fn json_is_read_with_its_text() {
    let json = parse_json(
        br#" {"z":null,"a":[1,-2,18446744073709551615,1e2,true,"A"],"m":{"k":"v"}} "#,
    )
    .expect("parses");
    assert!(json.is_object());
    assert_eq!(
        json.plain_text(),
        r#"{"a":[1,-2,18446744073709551615,100.0,true,"A"],"m":{"k":"v"},"z":null}"#
    );
    let Some(Json::Array { items, .. }) = json.get("a") else {
        panic!("an array");
    };
    assert_eq!(items[0].as_i64(), Some(1));
    assert_eq!(items[1].as_i64(), Some(-2));
    assert_eq!(items[2].as_i64(), None);
    assert_eq!(items[3].as_i64(), None);
    assert_eq!(items[3].plain_text(), "100.0");
    assert_eq!(items[4].as_bool(), Some(true));
    assert_eq!(items[5].as_str(), Some("A"));
    assert!(json.get("z").expect("a member").is_null());
    assert!(json.get("q").is_none());
    assert_eq!(json.get("m").and_then(|m| m.text_at("k")), Some("v"));
    assert_eq!(json.clone(), json);
}

#[test]
fn json_errors_are_told() {
    assert_eq!(
        parse_json(b"").expect_err("refused"),
        "EOF while parsing a value at line 1 column 0"
    );
    assert_eq!(
        parse_json_text("{\"a\" 1}").expect_err("refused"),
        "expected `:` at line 1 column 6"
    );
    assert!(parse_json(b"\"\xff\"").is_err());
}

#[test]
fn json_numbers_are_written() {
    assert_eq!(Json::integer(i64::MIN).plain_text(), "-9223372036854775808");
    assert_eq!(Json::integer(0).plain_text(), "0");
    assert_eq!(Json::integer(0), parse_json(b"0").expect("parses"));
    assert_eq!(Json::string("a\"b").plain_text(), "a\"b");
    assert_eq!(Json::Bool(false).plain_text(), "false");
    assert_eq!(Json::Null.plain_text(), "");
}

#[test]
fn tables_of_json() {
    let mut fields = Table::new();
    put(&mut fields, "a", Json::integer(1));
    put(&mut fields, "a", Json::integer(2));
    assert_eq!(find(&fields, "a").and_then(|a| a.as_i64()), Some(2));
    assert!(find(&fields, "b").is_none());
}

#[test]
fn times_are_read_and_written() {
    let time = Timestamp::parse("2026-08-15T02:00:00.25+02:00").expect("parses");
    assert_eq!((time.seconds, time.nanos), (1_786_752_000, 250_000_000));
    assert_eq!(time.to_rfc3339(), "2026-08-15T00:00:00.250+00:00");
    assert_eq!(
        Timestamp::parse("").expect_err("refused"),
        "premature end of input"
    );
    let far = Timestamp {
        seconds: i64::MAX,
        nanos: 0,
    };
    assert_eq!(far.to_rfc3339(), "");
    assert!(Timestamp::now().seconds > 1_700_000_000);
}

#[test]
fn leap_seconds_are_kept() {
    let time = Timestamp::parse("2016-12-31T23:59:60Z").expect("parses");
    assert_eq!((time.seconds, time.nanos), (1_483_228_799, 1_000_000_000));
    assert_eq!(time.to_rfc3339(), "2016-12-31T23:59:60+00:00");
}

#[test]
fn texts_are_trimmed_as_unicode_says() {
    for s in [
        "",
        "  ",
        "\u{85}\u{a0}x y\u{3000}",
        "\u{200b}x\u{200b}",
        "\tx\r\n",
        "\u{1680}\u{2000}\u{200a}\u{2028}\u{2029}\u{202f}\u{205f}x",
    ] {
        assert_eq!(text::trim(s), s.trim());
        assert_eq!(text::blank(s), s.trim().is_empty());
    }
    assert_eq!(text::trim_end_matches("a//b///", '/'), "a//b");
    assert_eq!(text::trim_end_matches("///", '/'), "");
}

#[test]
fn texts_are_searched() {
    for (s, pattern) in [
        ("", ""),
        ("abc", ""),
        ("abc", "c"),
        ("aab", "ab"),
        ("abc", "abcd"),
        ("héé", "éé"),
    ] {
        assert_eq!(text::contains(s, pattern), s.contains(pattern));
        assert_eq!(
            text::strip_prefix(s, pattern).as_deref(),
            s.strip_prefix(pattern)
        );
    }
    assert_eq!(text::split("a.b..c.", '.'), ["a", "b", "", "c", ""]);
    assert_eq!(text::split("", '.'), [""]);
}

#[test]
fn texts_are_compared() {
    for (a, b) in [("", ""), ("a", ""), ("a", "B"), ("é", "z"), ("ab", "abc"), ("b", "abc")] {
        assert_eq!(text::before(a, b), a < b);
        assert_eq!(text::before(b, a), b < a);
        assert_eq!(text::same(a, b), a == b);
        assert_eq!(text::eq_ignore_ascii_case(a, b), a.eq_ignore_ascii_case(b));
    }
    assert!(text::eq_ignore_ascii_case("X-Ü-Z", "x-Ü-z"));
    assert!(!text::eq_ignore_ascii_case("ü", "Ü"));
    assert!(!text::eq_ignore_ascii_case("[", "{"));
}

#[test]
fn numbers_are_written_in_decimal() {
    for n in [0, 9, 10, 987, u64::MAX] {
        assert_eq!(text::decimal(n), n.to_string());
    }
    for n in [0, -1, i64::MIN, i64::MAX] {
        assert_eq!(text::signed_decimal(n), n.to_string());
    }
    assert_eq!(
        text::join(&vec!["a".to_owned(), String::new(), "b".to_owned()], ", "),
        "a, , b"
    );
    assert_eq!(text::join(&vec![], ", "), "");
}

#[test]
fn errors_are_shown() {
    let reason = || "why".to_owned();
    assert_eq!(
        RiteError::Authentication(reason()).message(),
        "event authentication failed: why"
    );
    assert_eq!(
        RiteError::Parse(reason()).message(),
        "event parsing failed: why"
    );
    assert_eq!(
        RiteError::Config(reason()).message(),
        "configuration error: why"
    );
    assert_eq!(RiteError::Action(reason()).message(), "action failed: why");
}

#[test]
fn severities_have_names() {
    assert_eq!(Severity::default(), Severity::Info);
    let names: Vec<&str> = [
        Severity::Info,
        Severity::Warning,
        Severity::Error,
        Severity::Critical,
    ]
    .iter()
    .map(|severity| severity.as_str())
    .collect();
    assert_eq!(names, ["info", "warning", "error", "critical"]);
}
