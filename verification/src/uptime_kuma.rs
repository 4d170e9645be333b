//! Uptime Kuma webhook verification and normalization.

use crate::error;
use crate::error::{ErrorModel, RiteError};
use crate::event::{EventModel, MetadataModel, RiteEvent, Severity, SourceMetadata};
use crate::json;
use crate::json::{parse_json, Json, JsonModel};
use crate::signature;
use crate::source;
use crate::source::EventSource;
use crate::table;
use crate::table::Table;
use crate::text;
use crate::time::Timestamp;
use vstd::prelude::*;
use vstd::string::*;

verus! {

/// Uptime Kuma webhook source authenticated with its required signature secret.
#[derive(Debug)]
pub struct UptimeKumaSource {
    secret: Vec<u8>,
}

impl Clone for UptimeKumaSource {
    fn clone(&self) -> (r: UptimeKumaSource)
        ensures
            r.key() == self.key(),
    {
        let r = UptimeKumaSource { secret: self.secret.clone() };
        assert(r.key() =~= self.key());
        r
    }
}

/// Whether a request is signed with `secret`, or why it is refused.
pub open spec fn signature_verdict(
    secret: Seq<u8>,
    headers: Seq<(Seq<char>, Seq<char>)>,
    body: Seq<u8>,
) -> Result<(), ErrorModel> {
    match source::header_value(headers, "signature"@) {
        None => Err(ErrorModel::Authentication("missing Signature"@)),
        Some(value) => if value == signature::base64_encoded(
            signature::hmac_sha256(secret, body),
        ) {
            Ok(())
        } else if exists|bytes: Seq<u8>| #[trigger] signature::base64_encoded(bytes) == value {
            Err(ErrorModel::Authentication("Uptime Kuma signature mismatch"@))
        } else {
            Err(ErrorModel::Authentication("Signature is not base64"@))
        },
    }
}

/// The action and the severity of a heartbeat's status; nothing for a status
/// that is not known.
pub open spec fn status_meaning(status: int) -> Option<(Seq<char>, Severity)> {
    if status == 0 {
        Some(("down"@, Severity::Critical))
    } else if status == 1 {
        Some(("up"@, Severity::Info))
    } else if status == 2 {
        Some(("pending"@, Severity::Warning))
    } else if status == 3 {
        Some(("maintenance"@, Severity::Info))
    } else {
        None
    }
}

/// The member of a payload under `key`, where it is an object.
pub open spec fn section(payload: JsonModel, key: Seq<char>) -> Option<JsonModel> {
    match payload.get(key) {
        Some(member) => if member is Object {
            Some(member)
        } else {
            None
        },
        None => None,
    }
}

/// The entries with the member of `section` under `key`, where there is one that
/// is not `null`, put under `name`.
pub open spec fn with_member(
    metadata: Seq<(Seq<char>, JsonModel)>,
    section: JsonModel,
    key: Seq<char>,
    name: Seq<char>,
) -> Seq<(Seq<char>, JsonModel)> {
    match section.get(key) {
        Some(value) => if value is Null {
            metadata
        } else {
            table::with_entry(metadata, name, value)
        },
        None => metadata,
    }
}

/// What is kept of a heartbeat for matching.
pub open spec fn heartbeat_metadata(
    monitor: JsonModel,
    heartbeat: JsonModel,
    monitor_name: Seq<char>,
    action: Seq<char>,
    duration_ms: Option<JsonModel>,
) -> Seq<(Seq<char>, JsonModel)> {
    let named = table::with_entry(seq![], "monitor_name"@, JsonModel::String(monitor_name));
    let judged = table::with_entry(named, "status"@, JsonModel::String(action));
    let identified = with_member(judged, monitor, "id"@, "monitor_id"@);
    let located = with_member(identified, monitor, "url"@, "monitor_url"@);
    let pinged = with_member(located, heartbeat, "ping"@, "ping_ms"@);
    let timed = with_member(pinged, heartbeat, "time"@, "heartbeat_time"@);
    match (heartbeat.get("duration"@), duration_ms) {
        (Some(JsonModel::Number { .. }), Some(duration)) => table::with_entry(
            timed,
            "duration_ms"@,
            duration,
        ),
        _ => timed,
    }
}

/// The event that a payload received at `now` stands for, or why it is refused.
/// `duration_ms` is the heartbeat's numeric duration in milliseconds.
pub open spec fn event_of(
    payload: JsonModel,
    now: Timestamp,
    duration_ms: Option<JsonModel>,
) -> Result<EventModel, ErrorModel> {
    match section(payload, "monitor"@) {
        None => Err(ErrorModel::Parse("Uptime Kuma payload missing monitor"@)),
        Some(monitor) => match section(payload, "heartbeat"@) {
            None => Err(ErrorModel::Parse("Uptime Kuma payload missing heartbeat"@)),
            Some(heartbeat) => match monitor.text_at("name"@) {
                None => Err(ErrorModel::Parse("Uptime Kuma payload missing monitor.name"@)),
                Some(monitor_name) => if text::is_blank(monitor_name) {
                    Err(ErrorModel::Parse("Uptime Kuma payload missing monitor.name"@))
                } else {
                    match heartbeat.get("status"@) {
                        None => Err(
                            ErrorModel::Parse("Uptime Kuma payload missing heartbeat.status"@),
                        ),
                        Some(value) => match value.as_i64() {
                            None => Err(
                                ErrorModel::Parse("Uptime Kuma payload missing heartbeat.status"@),
                            ),
                            Some(status) => match status_meaning(status as int) {
                                None => Err(
                                    ErrorModel::Parse(
                                        "Uptime Kuma heartbeat has unknown status: "@
                                            + text::signed_numeral(status as int),
                                    ),
                                ),
                                Some((action, severity)) => Ok(
                                    EventModel {
                                        source: "uptime_kuma"@,
                                        event_type: "heartbeat"@,
                                        action: Some(action),
                                        timestamp: now,
                                        severity,
                                        title: monitor_name,
                                        body: match heartbeat.text_at("msg"@) {
                                            Some(message) => if message.len() == 0 {
                                                None
                                            } else {
                                                Some(message)
                                            },
                                            None => None,
                                        },
                                        metadata: heartbeat_metadata(
                                            monitor,
                                            heartbeat,
                                            monitor_name,
                                            action,
                                            duration_ms,
                                        ),
                                    },
                                ),
                            },
                        },
                    }
                },
            },
        },
    }
}

/// The heartbeat's duration in seconds, where the payload gives a number.
pub open spec fn duration_of(payload: JsonModel) -> Option<JsonModel> {
    match section(payload, "heartbeat"@) {
        Some(heartbeat) => match heartbeat.get("duration"@) {
            Some(duration) => if duration is Number {
                Some(duration)
            } else {
                None
            },
            None => None,
        },
        None => None,
    }
}

/// The member of a payload under `key`, where it is an object.
fn object_at<'a>(payload: &'a Json, key: &str) -> (r: Option<&'a Json>)
    ensures
        match r {
            Some(member) => section(payload@, key@) == Some(member@),
            None => section(payload@, key@) is None,
        },
{
    match payload.get(key) {
        Some(member) => if member.is_object() {
            Some(member)
        } else {
            None
        },
        None => None,
    }
}

/// Puts the member of `section` under `key`, where there is one that is not
/// `null`, under `name`.
fn keep_member(metadata: &mut Table<Json>, part: &Json, key: &str, name: &str)
    ensures
        json::table_model(*final(metadata)) == with_member(
            json::table_model(*old(metadata)),
            part@,
            key@,
            name@,
        ),
        old(metadata).well_formed() ==> final(metadata).well_formed(),
{
    if let Some(value) = part.get(key) {
        if !value.is_null() {
            json::put(metadata, name, value.clone());
        }
    }
}

impl UptimeKumaSource {
    /// The secret that requests are signed with.
    pub closed spec fn key(&self) -> Seq<u8> {
        self.secret@
    }

    /// Construct an Uptime Kuma source from its configured webhook secret.
    pub fn new(secret: &str) -> (r: Result<UptimeKumaSource, RiteError>)
        ensures
            match r {
                Ok(source) => !text::is_blank(secret@) && source.key() == vstd::utf8::encode_utf8(
                    text::trimmed(secret@),
                ),
                Err(error) => text::is_blank(secret@) && error@ == ErrorModel::Config(
                    "uptime_kuma webhook secret is required"@,
                ),
            },
    {
        let secret = text::trim(secret);
        if text::is_empty(secret.as_str()) {
            return Err(RiteError::Config("uptime_kuma webhook secret is required".to_owned()));
        }
        Ok(UptimeKumaSource { secret: secret.as_str().as_bytes_vec() })
    }

    /// The value of the first header of this name, the name's ASCII case aside.
    pub fn header<'a>(headers: &'a [(String, String)], name: &str) -> (r: Option<&'a str>)
        ensures
            match r {
                Some(value) => source::header_value(source::header_pairs(headers@), name@) == Some(
                    value@,
                ),
                None => source::header_value(source::header_pairs(headers@), name@) is None,
            },
    {
        source::header(headers, name)
    }

    /// The tag that the headers give, or why they are refused.
    pub fn provided_signature(headers: &[(String, String)]) -> (r: Result<Vec<u8>, RiteError>)
        ensures
            match source::header_value(source::header_pairs(headers@), "signature"@) {
                None => r matches Err(error) && error@ == ErrorModel::Authentication(
                    "missing Signature"@,
                ),
                Some(value) => match r {
                    Ok(tag) => signature::base64_encoded(tag@) == value,
                    Err(error) => (forall|bytes: Seq<u8>| #[trigger]
                        signature::base64_encoded(bytes) != value) && error@
                        == ErrorModel::Authentication("Signature is not base64"@),
                },
            },
    {
        match Self::header(headers, "signature") {
            Some(value) => match signature::decode_base64(value) {
                Some(tag) => Ok(tag),
                None => Err(RiteError::Authentication("Signature is not base64".to_owned())),
            },
            None => Err(RiteError::Authentication("missing Signature".to_owned())),
        }
    }

    /// The action and the severity of a heartbeat's status.
    pub fn action_and_severity(status: i64) -> (r: Result<(&'static str, Severity), RiteError>)
        ensures
            match r {
                Ok((action, severity)) => status_meaning(status as int) == Some(
                    (action@, severity),
                ),
                Err(error) => status_meaning(status as int) is None && error@ == ErrorModel::Parse(
                    "Uptime Kuma heartbeat has unknown status: "@ + text::signed_numeral(
                        status as int,
                    ),
                ),
            },
    {
        if status == 0 {
            Ok(("down", Severity::Critical))
        } else if status == 1 {
            Ok(("up", Severity::Info))
        } else if status == 2 {
            Ok(("pending", Severity::Warning))
        } else if status == 3 {
            Ok(("maintenance", Severity::Info))
        } else {
            Err(
                RiteError::Parse(
                    "Uptime Kuma heartbeat has unknown status: ".to_owned().concat(
                        text::signed_decimal(status).as_str(),
                    ),
                ),
            )
        }
    }

    /// The event that a payload received at `now` stands for. `duration_ms` is the
    /// heartbeat's numeric duration in milliseconds.
    pub fn event_from(payload: &Json, now: Timestamp, duration_ms: Option<Json>) -> (r: Result<
        RiteEvent,
        RiteError,
    >)
        ensures
            error::outcome(r) == event_of(payload@, now, source::optional_json(duration_ms)),
            r matches Ok(event) ==> event.metadata.well_formed(),
    {
        let monitor = match object_at(payload, "monitor") {
            Some(monitor) => monitor,
            None => return Err(RiteError::Parse("Uptime Kuma payload missing monitor".to_owned())),
        };
        let heartbeat = match object_at(payload, "heartbeat") {
            Some(heartbeat) => heartbeat,
            None => return Err(
                RiteError::Parse("Uptime Kuma payload missing heartbeat".to_owned()),
            ),
        };
        let monitor_name = match monitor.text_at("name") {
            Some(monitor_name) => monitor_name,
            None => return Err(
                RiteError::Parse("Uptime Kuma payload missing monitor.name".to_owned()),
            ),
        };
        if text::blank(monitor_name) {
            return Err(RiteError::Parse("Uptime Kuma payload missing monitor.name".to_owned()));
        }
        let status = match heartbeat.get("status") {
            Some(value) => value.as_i64(),
            None => None,
        };
        let status: i64 = match status {
            Some(status) => status,
            None => return Err(
                RiteError::Parse("Uptime Kuma payload missing heartbeat.status".to_owned()),
            ),
        };
        let (action, severity) = match Self::action_and_severity(status) {
            Ok(meaning) => meaning,
            Err(error) => return Err(error),
        };
        let mut metadata: Table<Json> = Table::new();
        assert(json::table_model(metadata) =~= seq![]);
        json::put(&mut metadata, "monitor_name", Json::string(monitor_name));
        json::put(&mut metadata, "status", Json::string(action));
        keep_member(&mut metadata, monitor, "id", "monitor_id");
        keep_member(&mut metadata, monitor, "url", "monitor_url");
        keep_member(&mut metadata, heartbeat, "ping", "ping_ms");
        keep_member(&mut metadata, heartbeat, "time", "heartbeat_time");
        if let Some(Json::Number(_)) = heartbeat.get("duration") {
            if let Some(duration) = duration_ms {
                json::put(&mut metadata, "duration_ms", duration);
            }
        }
        let body = match heartbeat.text_at("msg") {
            Some(message) => if text::is_empty(message) {
                None
            } else {
                Some(message.to_owned())
            },
            None => None,
        };
        Ok(
            RiteEvent {
                source: "uptime_kuma".to_owned(),
                event_type: "heartbeat".to_owned(),
                action: Some(action.to_owned()),
                timestamp: now,
                severity,
                title: monitor_name.to_owned(),
                body,
                metadata,
            },
        )
    }

    /// The heartbeat's duration in seconds, where the payload gives a number.
    pub fn duration_in(payload: &Json) -> (r: Option<Json>)
        ensures
            source::optional_json(r) == duration_of(payload@),
    {
        match object_at(payload, "heartbeat") {
            Some(heartbeat) => match heartbeat.get("duration") {
                Some(duration) => match duration {
                    Json::Number(_) => Some(duration.clone()),
                    _ => None,
                },
                None => None,
            },
            None => None,
        }
    }

    /// The heartbeat's duration in seconds, where the body is JSON that gives a
    /// number.
    pub fn duration_seconds(body: &[u8]) -> (r: Option<Json>)
        ensures
            source::optional_json(r) == match json::parsed(body@) {
                Ok(payload) => duration_of(payload),
                Err(_) => None,
            },
    {
        match parse_json(body) {
            Ok(payload) => Self::duration_in(&payload),
            Err(_) => None,
        }
    }
}

impl EventSource for UptimeKumaSource {
    open spec fn description(&self) -> MetadataModel {
        MetadataModel {
            id: "uptime_kuma"@,
            name: "Uptime Kuma"@,
            capabilities: seq!["webhook"@, "hmac-sha256"@, "heartbeat"@],
        }
    }

    open spec fn verdict(&self, headers: Seq<(Seq<char>, Seq<char>)>, body: Seq<u8>) -> Result<
        (),
        ErrorModel,
    > {
        signature_verdict(self.key(), headers, body)
    }

    open spec fn normalized(
        &self,
        headers: Seq<(Seq<char>, Seq<char>)>,
        body: Seq<u8>,
        now: Timestamp,
        duration_ms: Option<JsonModel>,
    ) -> Result<EventModel, ErrorModel> {
        match json::parsed(body) {
            Ok(payload) => event_of(payload, now, duration_ms),
            Err(error) => Err(ErrorModel::Parse(error)),
        }
    }

    fn metadata(&self) -> (r: SourceMetadata) {
        let r = SourceMetadata {
            id: "uptime_kuma",
            name: "Uptime Kuma",
            capabilities: &["webhook", "hmac-sha256", "heartbeat"],
        };
        assert(r@.capabilities =~= self.description().capabilities);
        r
    }

    fn verify(&self, headers: &[(String, String)], body: &[u8]) -> (r: Result<(), RiteError>) {
        let provided = match Self::provided_signature(headers) {
            Ok(provided) => provided,
            Err(error) => return Err(error),
        };
        proof {
            let tag = signature::hmac_sha256(self.key(), body@);
            if signature::base64_encoded(tag) == signature::base64_encoded(provided@) {
                signature::base64_is_injective(tag, provided@);
            }
        }
        match signature::tag_matches(self.secret.as_slice(), body, provided.as_slice()) {
            Some(matches) => if matches {
                Ok(())
            } else {
                Err(RiteError::Authentication("Uptime Kuma signature mismatch".to_owned()))
            },
            None => Err(RiteError::Authentication("invalid webhook secret".to_owned())),
        }
    }

    fn parse_at(
        &self,
        headers: &[(String, String)],
        body: &[u8],
        now: Timestamp,
        duration_ms: Option<Json>,
    ) -> (r: Result<RiteEvent, RiteError>) {
        assert(self.normalized(
            source::header_pairs(headers@),
            body@,
            now,
            source::optional_json(duration_ms),
        ) == match json::parsed(body@) {
            Ok(payload) => event_of(payload, now, source::optional_json(duration_ms)),
            Err(error) => Err(ErrorModel::Parse(error)),
        });
        match parse_json(body) {
            Ok(payload) => Self::event_from(&payload, now, duration_ms),
            Err(error) => Err(RiteError::Parse(error)),
        }
    }
}

/// A request is accepted exactly when its signature header is the padded base64
/// text of the tag of its body under the secret.
pub proof fn signature_decides(
    secret: Seq<u8>,
    headers: Seq<(Seq<char>, Seq<char>)>,
    body: Seq<u8>,
)
    ensures
        signature_verdict(secret, headers, body) is Ok <==> source::header_value(
            headers,
            "signature"@,
        ) == Some(signature::base64_encoded(signature::hmac_sha256(secret, body))),
{
}

/// The member of `section` under `key`, where there is one that is not `null`.
pub open spec fn present(section: JsonModel, key: Seq<char>) -> Option<JsonModel> {
    match section.get(key) {
        Some(value) => if value is Null {
            None
        } else {
            Some(value)
        },
        None => None,
    }
}

proof fn with_member_lookup(
    metadata: Seq<(Seq<char>, JsonModel)>,
    section: JsonModel,
    key: Seq<char>,
    name: Seq<char>,
)
    ensures
        forall|other: Seq<char>| #[trigger]
            table::lookup(with_member(metadata, section, key, name), other) == (if other == name
                && present(section, key) is Some {
                present(section, key)
            } else {
                table::lookup(metadata, other)
            }),
{
    if let Some(value) = present(section, key) {
        assert forall|other: Seq<char>| #[trigger]
            table::lookup(with_member(metadata, section, key, name), other) == (if other == name {
                Some(value)
            } else {
                table::lookup(metadata, other)
            }) by {
            table::insert_then_lookup(metadata, name, value, other);
        }
    }
}

/// A normalized heartbeat is Uptime Kuma's, has a known status with its action
/// and severity, and keeps what the payload gives of the monitor and the timing.
pub proof fn event_keeps_payload(
    payload: JsonModel,
    now: Timestamp,
    duration_ms: Option<JsonModel>,
)
    requires
        event_of(payload, now, duration_ms) is Ok,
    ensures
        ({
            let event = event_of(payload, now, duration_ms)->Ok_0;
            let monitor = section(payload, "monitor"@)->0;
            let heartbeat = section(payload, "heartbeat"@)->0;
            let status = heartbeat.get("status"@)->0.as_i64()->0;
            &&& event.source == "uptime_kuma"@
            &&& event.event_type == "heartbeat"@
            &&& 0 <= status <= 3
            &&& status_meaning(status as int) == Some((event.action->0, event.severity))
            &&& monitor.text_at("name"@) == Some(event.title)
            &&& table::lookup(event.metadata, "monitor_name"@) == Some(
                JsonModel::String(event.title),
            )
            &&& table::lookup(event.metadata, "status"@) == Some(
                JsonModel::String(event.action->0),
            )
            &&& table::lookup(event.metadata, "monitor_id"@) == present(monitor, "id"@)
            &&& table::lookup(event.metadata, "monitor_url"@) == present(monitor, "url"@)
            &&& table::lookup(event.metadata, "ping_ms"@) == present(heartbeat, "ping"@)
            &&& table::lookup(event.metadata, "heartbeat_time"@) == present(heartbeat, "time"@)
            &&& table::lookup(event.metadata, "duration_ms"@) == (if duration_of(payload) is Some {
                duration_ms
            } else {
                None
            })
        }),
{
    reveal_strlit("monitor_name");
    reveal_strlit("status");
    reveal_strlit("monitor_id");
    reveal_strlit("monitor_url");
    reveal_strlit("ping_ms");
    reveal_strlit("heartbeat_time");
    reveal_strlit("duration_ms");
    assert("monitor_name"@.len() == 12 && "status"@.len() == 6 && "monitor_id"@.len() == 10
        && "monitor_url"@.len() == 11 && "ping_ms"@.len() == 7 && "heartbeat_time"@.len() == 14
        && "duration_ms"@.len() == 11);
    assert("monitor_url"@[0] != "duration_ms"@[0]);
    let monitor = section(payload, "monitor"@)->0;
    let heartbeat = section(payload, "heartbeat"@)->0;
    let name = monitor.text_at("name"@)->0;
    let meaning = status_meaning(heartbeat.get("status"@)->0.as_i64()->0 as int)->0;
    let action = meaning.0;
    let named = table::with_entry(seq![], "monitor_name"@, JsonModel::String(name));
    let judged = table::with_entry(named, "status"@, JsonModel::String(action));
    assert forall|key: Seq<char>| #[trigger] table::lookup(judged, key) == (if key == "status"@ {
        Some(JsonModel::String(action))
    } else if key == "monitor_name"@ {
        Some(JsonModel::String(name))
    } else {
        None
    }) by {
        table::insert_then_lookup(seq![], "monitor_name"@, JsonModel::String(name), key);
        table::insert_then_lookup(named, "status"@, JsonModel::String(action), key);
    }
    let identified = with_member(judged, monitor, "id"@, "monitor_id"@);
    let located = with_member(identified, monitor, "url"@, "monitor_url"@);
    let pinged = with_member(located, heartbeat, "ping"@, "ping_ms"@);
    let timed = with_member(pinged, heartbeat, "time"@, "heartbeat_time"@);
    with_member_lookup(judged, monitor, "id"@, "monitor_id"@);
    with_member_lookup(identified, monitor, "url"@, "monitor_url"@);
    with_member_lookup(located, heartbeat, "ping"@, "ping_ms"@);
    with_member_lookup(pinged, heartbeat, "time"@, "heartbeat_time"@);
    if let Some(duration) = duration_ms {
        assert forall|key: Seq<char>| #[trigger]
            table::lookup(table::with_entry(timed, "duration_ms"@, duration), key) == (if key
                == "duration_ms"@ {
                Some(duration)
            } else {
                table::lookup(timed, key)
            }) by {
            table::insert_then_lookup(timed, "duration_ms"@, duration, key);
        }
    }
}

/// The statuses zero to three mean down, up, pending and maintenance: down is
/// critical, pending a warning, the others informational. No other status means
/// anything.
pub proof fn statuses_have_meanings(status: int)
    ensures
        status_meaning(0) == Some(("down"@, Severity::Critical)),
        status_meaning(1) == Some(("up"@, Severity::Info)),
        status_meaning(2) == Some(("pending"@, Severity::Warning)),
        status_meaning(3) == Some(("maintenance"@, Severity::Info)),
        status_meaning(status) is Some <==> 0 <= status <= 3,
{
}

/// The member of a payload under a key is a section exactly when it is an object.
pub proof fn sections_are_objects(payload: JsonModel, key: Seq<char>, member: JsonModel)
    ensures
        section(payload, key) == Some(member) <==> payload.get(key) == Some(member)
            && member is Object,
        section(payload, key) is None <==> payload.get(key) is None || payload.get(
            key,
        )->0 !is Object,
        present(payload, key) == Some(member) <==> payload.get(key) == Some(member)
            && member !is Null,
        present(payload, key) is None <==> payload.get(key) is None || payload.get(key) == Some(
            JsonModel::Null,
        ),
{
}

/// A payload has an object as its monitor, with a name that is not blank, and an
/// object as its heartbeat, with one of the four known statuses.
pub open spec fn is_heartbeat(payload: JsonModel) -> bool {
    let monitor = payload.get("monitor"@);
    let heartbeat = payload.get("heartbeat"@);
    &&& monitor is Some && monitor->0 is Object
    &&& heartbeat is Some && heartbeat->0 is Object
    &&& monitor->0.get("name"@) matches Some(name) && name is String && !text::all_space(
        name->String_0,
    )
    &&& heartbeat->0.get("status"@) matches Some(status) && status is Number && (
    status->Number_integer == Some(0i64) || status->Number_integer == Some(1i64)
        || status->Number_integer == Some(2i64) || status->Number_integer == Some(3i64))
}

/// A payload is normalized exactly when it is a heartbeat, into an event of Uptime
/// Kuma received now and titled with the monitor's name. The status gives action
/// and severity, and the heartbeat's message, where it is a string that is not
/// empty, is the body.
pub proof fn heartbeat_becomes_event(
    payload: JsonModel,
    now: Timestamp,
    duration_ms: Option<JsonModel>,
)
    ensures
        event_of(payload, now, duration_ms) is Ok <==> is_heartbeat(payload),
        is_heartbeat(payload) ==> {
            let event = event_of(payload, now, duration_ms)->Ok_0;
            let monitor = payload.get("monitor"@)->0;
            let heartbeat = payload.get("heartbeat"@)->0;
            let status = heartbeat.get("status"@)->0->Number_integer->0;
            &&& event.source == "uptime_kuma"@
            &&& event.event_type == "heartbeat"@
            &&& event.timestamp == now
            &&& Some(JsonModel::String(event.title)) == monitor.get("name"@)
            &&& status == 0 ==> event.action == Some("down"@) && event.severity
                == Severity::Critical
            &&& status == 1 ==> event.action == Some("up"@) && event.severity == Severity::Info
            &&& status == 2 ==> event.action == Some("pending"@) && event.severity
                == Severity::Warning
            &&& status == 3 ==> event.action == Some("maintenance"@) && event.severity
                == Severity::Info
            &&& match heartbeat.get("msg"@) {
                Some(JsonModel::String(message)) => if message.len() > 0 {
                    event.body == Some(message)
                } else {
                    event.body is None
                },
                _ => event.body is None,
            }
        },
{
    if let Some(monitor) = payload.get("monitor"@) {
        if let Some(JsonModel::String(name)) = monitor.get("name"@) {
            text::blank_is_all_space(name);
        }
    }
}

/// A payload that is no heartbeat is refused for the first thing that it lacks: the
/// monitor, the heartbeat, the monitor's name, the status, or a known status.
pub proof fn refused_heartbeats(
    payload: JsonModel,
    now: Timestamp,
    duration_ms: Option<JsonModel>,
)
    ensures
        ({
            let monitor = payload.get("monitor"@);
            let heartbeat = payload.get("heartbeat"@);
            let made = event_of(payload, now, duration_ms);
            if monitor is None || monitor->0 !is Object {
                made == Err::<EventModel, _>(
                    ErrorModel::Parse("Uptime Kuma payload missing monitor"@),
                )
            } else if heartbeat is None || heartbeat->0 !is Object {
                made == Err::<EventModel, _>(
                    ErrorModel::Parse("Uptime Kuma payload missing heartbeat"@),
                )
            } else {
                let name = monitor->0.get("name"@);
                let status = heartbeat->0.get("status"@);
                if name is None || name->0 !is String || text::all_space(name->0->String_0) {
                    made == Err::<EventModel, _>(
                        ErrorModel::Parse("Uptime Kuma payload missing monitor.name"@),
                    )
                } else if status is None || status->0 !is Number
                    || status->0->Number_integer is None {
                    made == Err::<EventModel, _>(
                        ErrorModel::Parse("Uptime Kuma payload missing heartbeat.status"@),
                    )
                } else if status->0->Number_integer->0 < 0 || status->0->Number_integer->0 > 3 {
                    made == Err::<EventModel, _>(
                        ErrorModel::Parse(
                            "Uptime Kuma heartbeat has unknown status: "@ + text::signed_numeral(
                                status->0->Number_integer->0 as int,
                            ),
                        ),
                    )
                } else {
                    made is Ok
                }
            }
        }),
{
    if let Some(monitor) = payload.get("monitor"@) {
        if let Some(JsonModel::String(name)) = monitor.get("name"@) {
            text::blank_is_all_space(name);
        }
    }
}

/// An event's metadata has the monitor's name and the status, and of the monitor's
/// ID and URL, the ping, the time and the duration those that the payload gives.
/// It has nothing else.
pub proof fn heartbeat_metadata_is_limited(
    payload: JsonModel,
    now: Timestamp,
    duration_ms: Option<JsonModel>,
    key: Seq<char>,
)
    requires
        event_of(payload, now, duration_ms) is Ok,
        table::lookup(event_of(payload, now, duration_ms)->Ok_0.metadata, key) is Some,
    ensures
        seq![
            "monitor_name"@,
            "status"@,
            "monitor_id"@,
            "monitor_url"@,
            "ping_ms"@,
            "heartbeat_time"@,
            "duration_ms"@,
        ].contains(key),
{
    let monitor = section(payload, "monitor"@)->0;
    let heartbeat = section(payload, "heartbeat"@)->0;
    let name = monitor.text_at("name"@)->0;
    let meaning = status_meaning(heartbeat.get("status"@)->0.as_i64()->0 as int)->0;
    let named = table::with_entry(seq![], "monitor_name"@, JsonModel::String(name));
    let judged = table::with_entry(named, "status"@, JsonModel::String(meaning.0));
    table::insert_then_lookup(seq![], "monitor_name"@, JsonModel::String(name), key);
    table::insert_then_lookup(named, "status"@, JsonModel::String(meaning.0), key);
    let identified = with_member(judged, monitor, "id"@, "monitor_id"@);
    let located = with_member(identified, monitor, "url"@, "monitor_url"@);
    let pinged = with_member(located, heartbeat, "ping"@, "ping_ms"@);
    let timed = with_member(pinged, heartbeat, "time"@, "heartbeat_time"@);
    with_member_lookup(judged, monitor, "id"@, "monitor_id"@);
    with_member_lookup(identified, monitor, "url"@, "monitor_url"@);
    with_member_lookup(located, heartbeat, "ping"@, "ping_ms"@);
    with_member_lookup(pinged, heartbeat, "time"@, "heartbeat_time"@);
    if let Some(duration) = duration_ms {
        table::insert_then_lookup(timed, "duration_ms"@, duration, key);
    }
    let listed = seq![
        "monitor_name"@,
        "status"@,
        "monitor_id"@,
        "monitor_url"@,
        "ping_ms"@,
        "heartbeat_time"@,
        "duration_ms"@,
    ];
    assert(listed[0] == "monitor_name"@ && listed[1] == "status"@ && listed[2] == "monitor_id"@
        && listed[3] == "monitor_url"@ && listed[4] == "ping_ms"@ && listed[5]
        == "heartbeat_time"@ && listed[6] == "duration_ms"@);
}

/// The duration of a payload is its heartbeat's, where that is a number.
pub proof fn durations_are_numbers(payload: JsonModel, duration: JsonModel)
    ensures
        duration_of(payload) == Some(duration) <==> duration is Number && (payload.get(
            "heartbeat"@,
        ) matches Some(heartbeat) && heartbeat is Object && heartbeat.get("duration"@) == Some(
            duration,
        )),
{
}

/// A request is refused for a missing signature, for one that is not base64, or for
/// one that is the base64 of something else than the tag.
pub proof fn refused_signatures(
    secret: Seq<u8>,
    headers: Seq<(Seq<char>, Seq<char>)>,
    body: Seq<u8>,
    provided: Seq<u8>,
)
    ensures
        source::header_value(headers, "signature"@) is None ==> signature_verdict(
            secret,
            headers,
            body,
        ) == Err::<(), _>(ErrorModel::Authentication("missing Signature"@)),
        source::header_value(headers, "signature"@) == Some(signature::base64_encoded(provided))
            && provided != signature::hmac_sha256(secret, body) ==> signature_verdict(
            secret,
            headers,
            body,
        ) == Err::<(), _>(ErrorModel::Authentication("Uptime Kuma signature mismatch"@)),
        (source::header_value(headers, "signature"@) matches Some(value) && forall|bytes: Seq<u8>|
         #[trigger]
            signature::base64_encoded(bytes) != value) ==> signature_verdict(
            secret,
            headers,
            body,
        ) == Err::<(), _>(ErrorModel::Authentication("Signature is not base64"@)),
{
    let tag = signature::hmac_sha256(secret, body);
    if signature::base64_encoded(provided) == signature::base64_encoded(tag) {
        signature::base64_is_injective(provided, tag);
    }
}

/// The source verifies by its secret, normalizes JSON payloads, and says what it
/// is.
pub proof fn source_behaves(
    source: UptimeKumaSource,
    headers: Seq<(Seq<char>, Seq<char>)>,
    body: Seq<u8>,
    now: Timestamp,
    duration_ms: Option<JsonModel>,
)
    ensures
        source.verdict(headers, body) is Ok <==> source::header_value(headers, "signature"@)
            == Some(signature::base64_encoded(signature::hmac_sha256(source.key(), body))),
        json::parsed(body) matches Ok(payload) ==> source.normalized(headers, body, now, duration_ms)
            == event_of(payload, now, duration_ms),
        json::parsed(body) matches Err(error) ==> source.normalized(headers, body, now, duration_ms)
            == Err::<EventModel, _>(ErrorModel::Parse(error)),
        source.description().id == "uptime_kuma"@,
        source.description().name == "Uptime Kuma"@,
        source.description().capabilities == seq!["webhook"@, "hmac-sha256"@, "heartbeat"@],
{
}

} // verus!
