//! Iris subscription source: settings, messages, and the stream's decisions.

use crate::error;
use crate::error::{ErrorModel, RiteError};
use crate::event::{EventModel, MetadataModel, RiteEvent, Severity, SourceMetadata};
use crate::json;
use crate::json::{parse_json_text, Json, JsonModel};
use crate::message;
use crate::message::MessageModel;
use crate::sse;
use crate::sse::FrameBuffer;
use crate::table;
use crate::table::Table;
use crate::text;
use crate::time;
use vstd::prelude::*;

verus! {

/// The scheme of the URL that `url::Url::parse` makes of this text, or the text
/// of its error.
pub uninterp spec fn url_scheme(text: Seq<char>) -> Result<Seq<char>, Seq<char>>;

/// `url::Url::parse`, and `scheme` of the URL. The result is a function of the
/// text alone, named `url_scheme`; an error is given by its text.
#[verifier::external_body]
fn scheme_of(text: &str) -> (r: Result<String, String>)
    ensures
        match r {
            Ok(scheme) => url_scheme(text@) == Ok::<Seq<char>, Seq<char>>(scheme@),
            Err(error) => url_scheme(text@) == Err::<Seq<char>, Seq<char>>(error@),
        },
{
    match url::Url::parse(text) {
        Ok(url) => Ok(url.scheme().to_owned()),
        Err(error) => Err(error.to_string()),
    }
}

/// The text can be a header's value: it holds no control character but tabs.
pub open spec fn fits_header(value: Seq<char>) -> bool {
    forall|i: int|
        0 <= i < value.len() ==> (#[trigger] value[i] == '\t' || (value[i] as u32 >= 32
            && value[i] as u32 != 127))
}

/// `reqwest::header::HeaderValue`, a header's value that can be marked sensitive.
#[verifier::external_type_specification]
#[verifier::external_body]
pub struct ExHeaderValue(reqwest::header::HeaderValue);

/// The bytes that a `reqwest::header::HeaderValue` holds, as its `as_bytes` gives
/// them.
pub uninterp spec fn header_bytes(value: reqwest::header::HeaderValue) -> Seq<u8>;

/// Whether a `reqwest::header::HeaderValue` is marked sensitive, as its
/// `is_sensitive` gives it. The debug output of a marked value shows none of its
/// bytes.
pub uninterp spec fn header_is_sensitive(value: reqwest::header::HeaderValue) -> bool;

/// `reqwest::header::HeaderValue::from_str`, which refuses the ASCII control
/// characters but for the tab and takes every other character. The value holds the
/// text's UTF-8 bytes.
#[verifier::external_body]
fn header_value(value: &str) -> (r: Option<reqwest::header::HeaderValue>)
    ensures
        match r {
            Some(header) => {
                &&& fits_header(value@)
                &&& header_bytes(header) == vstd::utf8::encode_utf8(value@)
                &&& !header_is_sensitive(header)
            },
            None => !fits_header(value@),
        },
{
    reqwest::header::HeaderValue::from_str(value).ok()
}

/// `reqwest::header::HeaderValue::set_sensitive` with `true`: marks the value and
/// leaves its bytes as they are.
#[verifier::external_body]
fn mark_sensitive(header: &mut reqwest::header::HeaderValue)
    ensures
        header_is_sensitive(*final(header)),
        header_bytes(*final(header)) == header_bytes(*old(header)),
{
    header.set_sensitive(true);
}

/// `Clone` of `reqwest::header::HeaderValue`: the copy holds the same bytes and the
/// same mark.
#[verifier::external_body]
fn copy_header(header: &reqwest::header::HeaderValue) -> (r: reqwest::header::HeaderValue)
    ensures
        header_bytes(r) == header_bytes(*header),
        header_is_sensitive(r) == header_is_sensitive(*header),
{
    header.clone()
}

/// A long-lived subscription to Iris's normalized message stream.
#[derive(Debug)]
pub struct IrisSource {
    base_url: String,
    authorization: Option<reqwest::header::HeaderValue>,
}

/// The settings of an Iris source.
pub struct IrisModel {
    /// The base URL, without trailing slashes.
    pub base_url: Seq<char>,
    /// The bytes of the authorization header, where a token is configured.
    pub authorization: Option<Seq<u8>>,
}

impl IrisSource {
    /// The authorization header is marked sensitive.
    #[verifier::type_invariant]
    spec fn token_is_marked(self) -> bool {
        self.authorization matches Some(header) ==> header_is_sensitive(header)
    }
}

impl View for IrisSource {
    type V = IrisModel;

    closed spec fn view(&self) -> IrisModel {
        IrisModel {
            base_url: self.base_url@,
            authorization: match self.authorization {
                Some(header) => Some(header_bytes(header)),
                None => None,
            },
        }
    }
}

impl Clone for IrisSource {
    fn clone(&self) -> (r: IrisSource)
        ensures
            r@ == self@,
    {
        proof {
            use_type_invariant(self);
        }
        IrisSource {
            base_url: self.base_url.clone(),
            authorization: match &self.authorization {
                Some(header) => Some(copy_header(header)),
                None => None,
            },
        }
    }
}

/// The bytes of the authorization header for a token.
pub open spec fn bearer(token: Seq<char>) -> Seq<u8> {
    vstd::utf8::encode_utf8("Bearer "@ + token)
}

/// A configured base URL without surrounding space and trailing slashes.
pub open spec fn bare_url(base_url: Seq<char>) -> Seq<char> {
    text::without_trailing(text::trimmed(base_url), '/')
}

/// The settings that a base URL and a token give, or why they are refused.
pub open spec fn settings(base_url: Seq<char>, api_token: Option<Seq<char>>) -> Result<
    IrisModel,
    ErrorModel,
> {
    settings_with_scheme(bare_url(base_url), url_scheme(bare_url(base_url)), api_token)
}

/// The settings that a bare base URL with this scheme and a token give, or why
/// they are refused.
pub open spec fn settings_with_scheme(
    base_url: Seq<char>,
    scheme: Result<Seq<char>, Seq<char>>,
    api_token: Option<Seq<char>>,
) -> Result<IrisModel, ErrorModel> {
    match scheme {
        Err(error) => Err(ErrorModel::Config("invalid Iris base URL: "@ + error)),
        Ok(scheme) => if scheme != "http"@ && scheme != "https"@ {
            Err(ErrorModel::Config("Iris base URL must use http or https"@))
        } else {
            match api_token {
                None => Ok(IrisModel { base_url, authorization: None }),
                Some(token) => if fits_header("Bearer "@ + token) {
                    Ok(IrisModel { base_url, authorization: Some(bearer(token)) })
                } else {
                    Err(
                        ErrorModel::Config("Iris API token contains invalid header characters"@),
                    )
                },
            }
        },
    }
}

/// What is kept of a message for matching.
pub open spec fn message_metadata(message: MessageModel, original: JsonModel) -> Seq<
    (Seq<char>, JsonModel),
> {
    let provided = table::with_entry(seq![], "provider"@, JsonModel::String(message.source));
    let identified = table::with_entry(
        provided,
        "source_id"@,
        JsonModel::String(message.source_id),
    );
    let sent = table::with_entry(
        identified,
        "sender"@,
        JsonModel::String(message.sender.source_id),
    );
    let classified = table::with_entry(sent, "kind"@, JsonModel::String(message.kind));
    let kept = table::with_entry(classified, "message"@, original);
    table::with_entry(kept, "iris_metadata"@, message.metadata)
}

/// The event that a message stands for.
pub open spec fn message_event(message: MessageModel, original: JsonModel) -> EventModel {
    EventModel {
        source: "iris"@,
        event_type: message.kind,
        action: None,
        timestamp: message.timestamp,
        severity: Severity::Info,
        title: match message.sender.display_name {
            Some(name) => name,
            None => message.sender.source_id,
        },
        body: Some(message.body),
        metadata: message_metadata(message, original),
    }
}

/// The event that a JSON value stands for, or why it is refused.
pub open spec fn event_of(original: JsonModel) -> Result<EventModel, ErrorModel> {
    match message::message_value(original) {
        Ok(read) => Ok(message_event(read, original)),
        Err(error) => Err(ErrorModel::Parse("invalid Iris message: "@ + error)),
    }
}

/// The event that a payload stands for, or why it is refused.
pub open spec fn payload_event(payload: Seq<char>) -> Result<EventModel, ErrorModel> {
    match json::parsed_text(payload) {
        Ok(original) => event_of(original),
        Err(error) => Err(ErrorModel::Parse("invalid Iris message JSON: "@ + error)),
    }
}

impl IrisSource {
    /// Creates an unauthenticated Iris source for an HTTP base URL.
    pub fn new(base_url: &str) -> (r: Result<IrisSource, RiteError>)
        ensures
            error::outcome(r) == settings(base_url@, None),
    {
        Self::new_with_token(base_url, None)
    }

    /// Creates an Iris source for an HTTP base URL and optional bearer token.
    pub fn new_with_token(base_url: &str, api_token: Option<&str>) -> (r: Result<
        IrisSource,
        RiteError,
    >)
        ensures
            error::outcome(r) == settings(
                base_url@,
                match api_token {
                    Some(token) => Some(token@),
                    None => None,
                },
            ),
    {
        let base_url = text::trim_end_matches(text::trim(base_url).as_str(), '/');
        let scheme = scheme_of(base_url.as_str());
        Self::with_scheme(base_url, scheme, api_token)
    }

    /// Creates an Iris source for a bare base URL whose scheme has been read, or
    /// could not be for the given reason.
    pub fn with_scheme(
        base_url: String,
        scheme: Result<String, String>,
        api_token: Option<&str>,
    ) -> (r: Result<IrisSource, RiteError>)
        ensures
            error::outcome(r) == settings_with_scheme(
                base_url@,
                match scheme {
                    Ok(scheme) => Ok(scheme@),
                    Err(reason) => Err(reason@),
                },
                match api_token {
                    Some(token) => Some(token@),
                    None => None,
                },
            ),
    {
        let scheme = match scheme {
            Ok(scheme) => scheme,
            Err(error) => return Err(
                RiteError::Config("invalid Iris base URL: ".to_owned().concat(error.as_str())),
            ),
        };
        if !text::same(scheme.as_str(), "http") && !text::same(scheme.as_str(), "https") {
            return Err(RiteError::Config("Iris base URL must use http or https".to_owned()));
        }
        let authorization = match api_token {
            Some(token) => {
                match header_value("Bearer ".to_owned().concat(token).as_str()) {
                    Some(header) => {
                        let mut marked = header;
                        mark_sensitive(&mut marked);
                        Some(marked)
                    },
                    None => return Err(
                        RiteError::Config(
                            "Iris API token contains invalid header characters".to_owned(),
                        ),
                    ),
                }
            },
            None => None,
        };
        Ok(IrisSource { base_url, authorization })
    }

    /// Static source description.
    pub fn metadata(&self) -> (r: SourceMetadata)
        ensures
            r@ == (MetadataModel {
                id: "iris"@,
                name: "Iris"@,
                capabilities: seq!["sse"@, "reconnect"@, "message-subscription"@],
            }),
    {
        let r = SourceMetadata {
            id: "iris",
            name: "Iris",
            capabilities: &["sse", "reconnect", "message-subscription"],
        };
        assert(r@.capabilities =~= seq!["sse"@, "reconnect"@, "message-subscription"@]);
        r
    }

    /// The URL of the message stream.
    pub fn events_url(&self) -> (r: String)
        ensures
            r@ == self@.base_url + "/v1/events"@,
    {
        self.base_url.clone().concat("/v1/events")
    }

    /// The value of the authorization header, where a token is configured.
    pub fn authorization(&self) -> (r: Option<&reqwest::header::HeaderValue>)
        ensures
            match r {
                Some(header) => self@.authorization == Some(header_bytes(*header))
                    && header_is_sensitive(*header),
                None => self@.authorization is None,
            },
    {
        proof {
            use_type_invariant(self);
        }
        match &self.authorization {
            Some(header) => Some(header),
            None => None,
        }
    }

    /// Converts a JSON value into a normalized event.
    pub fn event_from(original: Json) -> (r: Result<RiteEvent, RiteError>)
        ensures
            error::outcome(r) == event_of(original@),
            r matches Ok(event) ==> event.metadata.well_formed(),
    {
        let read = match message::read_message(&original) {
            Ok(read) => read,
            Err(error) => return Err(
                RiteError::Parse("invalid Iris message: ".to_owned().concat(error.as_str())),
            ),
        };
        let mut metadata: Table<Json> = Table::new();
        assert(json::table_model(metadata) =~= seq![]);
        json::put(&mut metadata, "provider", Json::string(read.source.as_str()));
        json::put(&mut metadata, "source_id", Json::string(read.source_id.as_str()));
        json::put(&mut metadata, "sender", Json::string(read.sender.source_id.as_str()));
        json::put(&mut metadata, "kind", Json::string(read.kind.as_str()));
        json::put(&mut metadata, "message", original);
        json::put(&mut metadata, "iris_metadata", read.metadata);
        let title = match read.sender.display_name {
            Some(name) => name,
            None => read.sender.source_id,
        };
        Ok(
            RiteEvent {
                source: "iris".to_owned(),
                event_type: read.kind,
                action: None,
                timestamp: read.timestamp,
                severity: Severity::Info,
                title,
                body: Some(read.body),
                metadata,
            },
        )
    }

    /// Converts one Iris SSE `message` payload into a normalized event.
    pub fn parse_message(payload: &str) -> (r: Result<RiteEvent, RiteError>)
        ensures
            error::outcome(r) == payload_event(payload@),
            r matches Ok(event) ==> event.metadata.well_formed(),
    {
        match parse_json_text(payload) {
            Ok(original) => Self::event_from(original),
            Err(error) => Err(
                RiteError::Parse("invalid Iris message JSON: ".to_owned().concat(error.as_str())),
            ),
        }
    }
}

/// What a frame of the stream delivers: an event or an error; nothing where it
/// is no message or has no data.
pub open spec fn frame_delivery(frame: Seq<u8>) -> Option<Result<EventModel, ErrorModel>> {
    match sse::frame_fields(frame) {
        Err(error) => Some(Err(error)),
        Ok((event, data)) => if event == Some("message"@) && data.len() > 0 {
            Some(payload_event(data))
        } else {
            None
        },
    }
}

/// What happens to a subscription's connection.
pub enum StreamInput<'a> {
    /// The request could not be made, for this reason.
    RequestFailed(&'a str),
    /// The server answered with this status.
    Opened {
        /// Whether the status is a success.
        success: bool,
        /// The status as text.
        status: &'a str,
    },
    /// A chunk of the stream arrived.
    Chunk(&'a [u8]),
    /// The event that was to be delivered has been.
    Delivered,
    /// Nobody takes the events any more.
    ReceiverStopped,
    /// The stream could not be read on, for this reason.
    ReadFailed(&'a str),
    /// The stream ended.
    Ended,
}

/// The mathematical value of a [`StreamInput`].
pub enum InputModel {
    /// The request could not be made.
    RequestFailed(Seq<char>),
    /// The server answered.
    Opened {
        /// Whether the status is a success.
        success: bool,
        /// The status as text.
        status: Seq<char>,
    },
    /// A chunk of the stream arrived.
    Chunk(Seq<u8>),
    /// The event that was to be delivered has been.
    Delivered,
    /// Nobody takes the events any more.
    ReceiverStopped,
    /// The stream could not be read on.
    ReadFailed(Seq<char>),
    /// The stream ended.
    Ended,
}

impl<'a> View for StreamInput<'a> {
    type V = InputModel;

    open spec fn view(&self) -> InputModel {
        match self {
            StreamInput::RequestFailed(error) => InputModel::RequestFailed(error@),
            StreamInput::Opened { success, status } => InputModel::Opened {
                success: *success,
                status: status@,
            },
            StreamInput::Chunk(bytes) => InputModel::Chunk(bytes@),
            StreamInput::Delivered => InputModel::Delivered,
            StreamInput::ReceiverStopped => InputModel::ReceiverStopped,
            StreamInput::ReadFailed(error) => InputModel::ReadFailed(error@),
            StreamInput::Ended => InputModel::Ended,
        }
    }
}

/// What a subscription does next.
#[derive(Debug)]
pub enum StreamStep {
    /// Read on.
    Read,
    /// Deliver this event.
    Deliver(RiteEvent),
    /// Give the connection up, in order or for this error.
    Stop(Result<(), RiteError>),
}

/// The mathematical value of a [`StreamStep`].
pub enum StepModel {
    /// Read on.
    Read,
    /// Deliver this event.
    Deliver(EventModel),
    /// Give the connection up.
    Stop(Result<(), ErrorModel>),
}

impl View for StreamStep {
    type V = StepModel;

    open spec fn view(&self) -> StepModel {
        match self {
            StreamStep::Read => StepModel::Read,
            StreamStep::Deliver(event) => StepModel::Deliver(event@),
            StreamStep::Stop(r) => StepModel::Stop(error::outcome(*r)),
        }
    }
}

/// The next step that the frames in `buffer` ask for, and what is then left of
/// the buffer.
pub open spec fn next_delivery(buffer: Seq<u8>) -> (StepModel, Seq<u8>)
    decreases buffer.len(),
{
    match sse::first_frame_end(buffer) {
        Some((end, gap)) => {
            proof {
                sse::first_frame_end_fits(buffer);
            }
            let rest = buffer.skip(end + gap);
            match frame_delivery(buffer.take(end)) {
                Some(Ok(event)) => (StepModel::Deliver(event), rest),
                Some(Err(error)) => (StepModel::Stop(Err(error)), rest),
                None => next_delivery(rest),
            }
        },
        None => (StepModel::Read, buffer),
    }
}

/// The step that an input asks for, and what is then in the buffer.
pub open spec fn next_step(buffer: Seq<u8>, input: InputModel) -> (StepModel, Seq<u8>) {
    match input {
        InputModel::RequestFailed(error) => (
            StepModel::Stop(Err(ErrorModel::Action("Iris SSE request failed: "@ + error))),
            buffer,
        ),
        InputModel::Opened { success, status } => if success {
            (StepModel::Read, buffer)
        } else {
            (StepModel::Stop(Err(ErrorModel::Action("Iris SSE returned "@ + status))), buffer)
        },
        InputModel::Chunk(bytes) => next_delivery(buffer + bytes),
        InputModel::Delivered => next_delivery(buffer),
        InputModel::ReceiverStopped => (
            StepModel::Stop(Err(ErrorModel::Action("Iris event receiver stopped"@))),
            buffer,
        ),
        InputModel::ReadFailed(error) => (
            StepModel::Stop(Err(ErrorModel::Action("Iris SSE read failed: "@ + error))),
            buffer,
        ),
        InputModel::Ended => (StepModel::Stop(Ok(())), buffer),
    }
}

/// One connection of a subscription: what has arrived and not been used.
#[derive(Debug)]
pub struct IrisStream {
    buffer: FrameBuffer,
}

impl View for IrisStream {
    type V = Seq<u8>;

    closed spec fn view(&self) -> Seq<u8> {
        self.buffer@
    }
}

impl IrisStream {
    /// A connection on which nothing has arrived.
    pub fn new() -> (r: IrisStream)
        ensures
            r@ == Seq::<u8>::empty(),
    {
        IrisStream { buffer: FrameBuffer::new() }
    }

    /// The next step that the frames in the buffer ask for.
    fn advance(&mut self) -> (step: StreamStep)
        ensures
            (step@, final(self)@) == next_delivery(old(self)@),
    {
        loop
            invariant
                next_delivery(self@) == next_delivery(old(self)@),
            decreases self@.len(),
        {
            proof {
                sse::first_frame_end_fits(self@);
            }
            let frame = match self.buffer.next_frame() {
                Some(frame) => frame,
                None => return StreamStep::Read,
            };
            match sse::parse_frame(frame.as_slice()) {
                Err(error) => return StreamStep::Stop(Err(error)),
                Ok((event, data)) => {
                    let is_message = match &event {
                        Some(event) => text::same(event.as_str(), "message"),
                        None => false,
                    };
                    if is_message && !text::is_empty(data.as_str()) {
                        return match IrisSource::parse_message(data.as_str()) {
                            Ok(event) => StreamStep::Deliver(event),
                            Err(error) => StreamStep::Stop(Err(error)),
                        };
                    }
                },
            }
        }
    }

    /// What to do next after this input.
    pub fn step(&mut self, input: StreamInput) -> (step: StreamStep)
        ensures
            (step@, final(self)@) == next_step(old(self)@, input@),
    {
        match input {
            StreamInput::RequestFailed(error) => StreamStep::Stop(
                Err(RiteError::Action("Iris SSE request failed: ".to_owned().concat(error))),
            ),
            StreamInput::Opened { success, status } => if success {
                StreamStep::Read
            } else {
                StreamStep::Stop(
                    Err(RiteError::Action("Iris SSE returned ".to_owned().concat(status))),
                )
            },
            StreamInput::Chunk(bytes) => {
                self.buffer.push(bytes);
                self.advance()
            },
            StreamInput::Delivered => self.advance(),
            StreamInput::ReceiverStopped => StreamStep::Stop(
                Err(RiteError::Action("Iris event receiver stopped".to_owned())),
            ),
            StreamInput::ReadFailed(error) => StreamStep::Stop(
                Err(RiteError::Action("Iris SSE read failed: ".to_owned().concat(error))),
            ),
            StreamInput::Ended => StreamStep::Stop(Ok(())),
        }
    }
}

/// The seconds to wait before reconnecting for the `k`-th time, counted from zero.
pub open spec fn delay_before(k: nat) -> nat
    decreases k,
{
    if k == 0 {
        1
    } else if 2 * delay_before((k - 1) as nat) < 60 {
        2 * delay_before((k - 1) as nat)
    } else {
        60
    }
}

/// The wait between connections: it doubles from one second to a minute.
#[derive(Debug)]
pub struct Backoff {
    seconds: u64,
}

impl Backoff {
    /// The seconds of the next wait.
    pub closed spec fn delay(&self) -> nat {
        self.seconds as nat
    }

    /// The wait before the first reconnection.
    pub fn new() -> (r: Backoff)
        ensures
            r.delay() == delay_before(0),
    {
        Backoff { seconds: 1 }
    }

    /// The seconds to wait now. The next wait is twice as long, a minute at most.
    pub fn next_delay(&mut self) -> (seconds: u64)
        ensures
            seconds == old(self).delay(),
            final(self).delay() == (if 2 * seconds < 60 {
                (2 * seconds) as nat
            } else {
                60
            }),
            forall|k: nat|
                old(self).delay() == #[trigger] delay_before(k) ==> final(self).delay()
                    == delay_before(k + 1),
    {
        let seconds: u64 = self.seconds;
        self.seconds = if seconds < 30 {
            2 * seconds
        } else {
            60
        };
        seconds
    }
}

/// A source authenticates with its bearer token exactly when one is configured.
pub proof fn token_goes_with_requests(base_url: Seq<char>, api_token: Option<Seq<char>>)
    requires
        settings(base_url, api_token) is Ok,
    ensures
        settings(base_url, api_token)->Ok_0.authorization == match api_token {
            Some(token) => Some(bearer(token)),
            None => None,
        },
{
}

/// The wait before the `k`-th reconnection is two to the `k` seconds, a minute at
/// most and a second at least.
pub proof fn delay_doubles_to_a_minute(k: nat)
    ensures
        delay_before(k) == (if vstd::arithmetic::power2::pow2(k) < 60 {
            vstd::arithmetic::power2::pow2(k)
        } else {
            60
        }),
        1 <= delay_before(k) <= 60,
        delay_before(k) <= delay_before(k + 1),
    decreases k,
{
    vstd::arithmetic::power2::lemma2_to64();
    if k > 0 {
        delay_doubles_to_a_minute((k - 1) as nat);
        vstd::arithmetic::power2::lemma_pow2_unfold(k);
    }
}

/// An event made of a message is Iris's, carries the message's kind, text and
/// time, and keeps the provider, the IDs, the kind, what the provider added and
/// the whole original message in its metadata.
pub proof fn event_keeps_message(original: JsonModel)
    requires
        event_of(original) is Ok,
    ensures
        ({
            let event = event_of(original)->Ok_0;
            let read = message::message_value(original)->Ok_0;
            &&& event.source == "iris"@
            &&& event.event_type == read.kind
            &&& event.body == Some(read.body)
            &&& event.timestamp == read.timestamp
            &&& table::lookup(event.metadata, "provider"@) == Some(JsonModel::String(read.source))
            &&& table::lookup(event.metadata, "source_id"@) == Some(
                JsonModel::String(read.source_id),
            )
            &&& table::lookup(event.metadata, "sender"@) == Some(
                JsonModel::String(read.sender.source_id),
            )
            &&& table::lookup(event.metadata, "kind"@) == Some(JsonModel::String(read.kind))
            &&& table::lookup(event.metadata, "message"@) == Some(original)
            &&& table::lookup(event.metadata, "iris_metadata"@) == Some(read.metadata)
        }),
{
    reveal_strlit("provider");
    reveal_strlit("source_id");
    reveal_strlit("sender");
    reveal_strlit("kind");
    reveal_strlit("message");
    reveal_strlit("iris_metadata");
    assert("provider"@.len() == 8 && "source_id"@.len() == 9 && "sender"@.len() == 6
        && "kind"@.len() == 4 && "message"@.len() == 7 && "iris_metadata"@.len() == 13);
    let read = message::message_value(original)->Ok_0;
    let provided = table::with_entry(seq![], "provider"@, JsonModel::String(read.source));
    let identified = table::with_entry(provided, "source_id"@, JsonModel::String(read.source_id));
    let sent = table::with_entry(identified, "sender"@, JsonModel::String(read.sender.source_id));
    let classified = table::with_entry(sent, "kind"@, JsonModel::String(read.kind));
    let kept = table::with_entry(classified, "message"@, original);
    assert forall|key: Seq<char>| #[trigger]
        table::lookup(message_metadata(read, original), key) == (if key == "iris_metadata"@ {
            Some(read.metadata)
        } else if key == "message"@ {
            Some(original)
        } else if key == "kind"@ {
            Some(JsonModel::String(read.kind))
        } else if key == "sender"@ {
            Some(JsonModel::String(read.sender.source_id))
        } else if key == "source_id"@ {
            Some(JsonModel::String(read.source_id))
        } else if key == "provider"@ {
            Some(JsonModel::String(read.source))
        } else {
            None
        }) by {
        table::insert_then_lookup(seq![], "provider"@, JsonModel::String(read.source), key);
        table::insert_then_lookup(provided, "source_id"@, JsonModel::String(read.source_id), key);
        table::insert_then_lookup(
            identified,
            "sender"@,
            JsonModel::String(read.sender.source_id),
            key,
        );
        table::insert_then_lookup(sent, "kind"@, JsonModel::String(read.kind), key);
        table::insert_then_lookup(classified, "message"@, original, key);
        table::insert_then_lookup(kept, "iris_metadata"@, read.metadata, key);
    }
}

/// What the frames deliver in their order, up to the first error.
pub open spec fn outcomes(frames: Seq<Seq<u8>>) -> Seq<Result<EventModel, ErrorModel>>
    decreases frames.len(),
{
    if frames.len() == 0 {
        seq![]
    } else {
        match frame_delivery(frames[0]) {
            None => outcomes(frames.skip(1)),
            Some(Ok(event)) => seq![Ok(event)] + outcomes(frames.skip(1)),
            Some(Err(error)) => seq![Err(error)],
        }
    }
}

/// The deliveries end in an error.
pub open spec fn fails(delivered: Seq<Result<EventModel, ErrorModel>>) -> bool {
    delivered.len() > 0 && delivered.last() is Err
}

/// What a buffer delivers, step by step until there is nothing more to deliver or
/// an error stops the connection, and what is then left of the buffer.
pub open spec fn drained(buffer: Seq<u8>) -> (Seq<Result<EventModel, ErrorModel>>, Seq<u8>)
    decreases buffer.len(),
{
    let (step, rest) = next_delivery(buffer);
    match step {
        StepModel::Deliver(event) => {
            proof {
                delivery_shortens(buffer);
            }
            let (later, left) = drained(rest);
            (seq![Ok(event)] + later, left)
        },
        StepModel::Stop(Err(error)) => (seq![Err(error)], rest),
        StepModel::Stop(Ok(())) => (seq![], rest),
        StepModel::Read => (seq![], rest),
    }
}

/// A step that delivers takes bytes out of the buffer.
pub proof fn delivery_shortens(buffer: Seq<u8>)
    ensures
        next_delivery(buffer).1.len() <= buffer.len(),
        next_delivery(buffer).0 !is Read ==> next_delivery(buffer).1.len() < buffer.len(),
        next_delivery(buffer).0 matches StepModel::Stop(r) ==> r is Err,
    decreases buffer.len(),
{
    if let Some((end, gap)) = sse::first_frame_end(buffer) {
        sse::first_frame_end_fits(buffer);
        delivery_shortens(buffer.skip(end + gap));
    }
}

/// A buffer delivers what its frames deliver, in their order, and leaves what is
/// behind them.
pub proof fn deliveries_follow_frames(buffer: Seq<u8>)
    ensures
        drained(buffer).0 == outcomes(sse::frames(buffer)),
        !fails(drained(buffer).0) ==> drained(buffer).1 == sse::unfinished(buffer),
    decreases buffer.len(),
{
    if let Some((end, gap)) = sse::first_frame_end(buffer) {
        sse::first_frame_end_fits(buffer);
        let rest = buffer.skip(end + gap);
        deliveries_follow_frames(rest);
        assert(sse::frames(buffer).skip(1) =~= sse::frames(rest));
        match frame_delivery(buffer.take(end)) {
            Some(Ok(event)) => {
                assert(drained(buffer).0 == seq![Ok::<_, ErrorModel>(event)] + drained(rest).0);
                if drained(rest).0.len() > 0 {
                    assert(drained(buffer).0.last() == drained(rest).0.last());
                }
            },
            Some(Err(_)) => {},
            None => {
                assert(next_delivery(buffer) == next_delivery(rest));
                assert(drained(buffer) == drained(rest));
            },
        }
    }
}

proof fn outcomes_of_more(first: Seq<Seq<u8>>, second: Seq<Seq<u8>>)
    ensures
        outcomes(first + second) == if fails(outcomes(first)) {
            outcomes(first)
        } else {
            outcomes(first) + outcomes(second)
        },
    decreases first.len(),
{
    if first.len() == 0 {
        assert(first + second =~= second);
        assert(outcomes(first) + outcomes(second) =~= outcomes(second));
    } else {
        assert((first + second).skip(1) =~= first.skip(1) + second);
        outcomes_of_more(first.skip(1), second);
        let later = outcomes(first.skip(1));
        match frame_delivery(first[0]) {
            Some(Ok(event)) => {
                assert(later.len() > 0 ==> outcomes(first).last() == later.last());
                assert(outcomes(first + second) =~= if fails(later) {
                    outcomes(first)
                } else {
                    outcomes(first) + outcomes(second)
                });
            },
            _ => {},
        }
    }
}

/// What a connection delivers as the chunks arrive one after the other, and what
/// is then in the buffer. After an error nothing more is read.
pub open spec fn delivered(chunks: Seq<Seq<u8>>) -> (
    Seq<Result<EventModel, ErrorModel>>,
    Seq<u8>,
)
    decreases chunks.len(),
{
    if chunks.len() == 0 {
        (seq![], seq![])
    } else {
        let (before, left) = delivered(chunks.drop_last());
        if fails(before) {
            (before, left)
        } else {
            let (now, rest) = drained(left + chunks.last());
            (before + now, rest)
        }
    }
}

/// What a steady stream delivers does not depend on the chunks in which it
/// arrives: it is what the stream's frames deliver, in their order.
pub proof fn delivery_ignores_chunks(chunks: Seq<Seq<u8>>)
    requires
        sse::is_steady(sse::assembled(chunks)),
    ensures
        delivered(chunks).0 == outcomes(sse::frames(sse::assembled(chunks))),
{
    sse::chunks_do_not_matter(chunks);
    delivery_follows_taken(chunks);
}

proof fn delivery_follows_taken(chunks: Seq<Seq<u8>>)
    ensures
        delivered(chunks).0 == outcomes(sse::taken(chunks).0),
        !fails(delivered(chunks).0) ==> delivered(chunks).1 == sse::taken(chunks).1,
    decreases chunks.len(),
{
    if chunks.len() > 0 {
        let earlier = chunks.drop_last();
        delivery_follows_taken(earlier);
        let (taken, left) = sse::taken(earlier);
        let buffer = left + chunks.last();
        outcomes_of_more(taken, sse::frames(buffer));
        if !fails(delivered(earlier).0) {
            deliveries_follow_frames(buffer);
            let now = drained(buffer).0;
            assert(delivered(chunks).0 == delivered(earlier).0 + now);
            if now.len() > 0 {
                assert(delivered(chunks).0.last() == now.last());
            } else {
                assert(delivered(chunks).0 =~= delivered(earlier).0);
            }
        }
    }
}

/// Every event made of a message is informational, has no action, and is titled
/// with the sender's display name where there is one and the sender's ID otherwise.
/// Its metadata holds the six documented entries and no other.
pub proof fn message_events_are_informational(original: JsonModel, key: Seq<char>)
    requires
        event_of(original) is Ok,
    ensures
        ({
            let event = event_of(original)->Ok_0;
            let sender = message::message_value(original)->Ok_0.sender;
            &&& event.severity == Severity::Info
            &&& event.action is None
            &&& sender.display_name matches Some(name) ==> event.title == name
            &&& sender.display_name is None ==> event.title == sender.source_id
            &&& event.body is Some
            &&& table::lookup(event.metadata, key) is Some <==> seq![
                "provider"@,
                "source_id"@,
                "sender"@,
                "kind"@,
                "message"@,
                "iris_metadata"@,
            ].contains(key)
        }),
{
    event_keeps_message(original);
    let read = message::message_value(original)->Ok_0;
    let provided = table::with_entry(seq![], "provider"@, JsonModel::String(read.source));
    let identified = table::with_entry(provided, "source_id"@, JsonModel::String(read.source_id));
    let sent = table::with_entry(identified, "sender"@, JsonModel::String(read.sender.source_id));
    let classified = table::with_entry(sent, "kind"@, JsonModel::String(read.kind));
    let kept = table::with_entry(classified, "message"@, original);
    table::insert_then_lookup(seq![], "provider"@, JsonModel::String(read.source), key);
    table::insert_then_lookup(provided, "source_id"@, JsonModel::String(read.source_id), key);
    table::insert_then_lookup(
        identified,
        "sender"@,
        JsonModel::String(read.sender.source_id),
        key,
    );
    table::insert_then_lookup(sent, "kind"@, JsonModel::String(read.kind), key);
    table::insert_then_lookup(classified, "message"@, original, key);
    table::insert_then_lookup(kept, "iris_metadata"@, read.metadata, key);
    let listed = seq![
        "provider"@,
        "source_id"@,
        "sender"@,
        "kind"@,
        "message"@,
        "iris_metadata"@,
    ];
    assert(listed[0] == "provider"@ && listed[1] == "source_id"@ && listed[2] == "sender"@
        && listed[3] == "kind"@ && listed[4] == "message"@ && listed[5] == "iris_metadata"@);
}

/// A message object of the documented form becomes the event that its members
/// describe.
pub proof fn message_object_becomes_event(
    fields: Seq<(Seq<char>, JsonModel)>,
    text: Seq<char>,
    sender_fields: Seq<(Seq<char>, JsonModel)>,
    sender_text: Seq<char>,
    message: MessageModel,
    time: Seq<char>,
)
    requires
        message::distinct_keys(fields),
        message::distinct_keys(sender_fields),
        table::lookup(fields, "source"@) == Some(JsonModel::String(message.source)),
        table::lookup(fields, "source_id"@) == Some(JsonModel::String(message.source_id)),
        table::lookup(fields, "sender"@) == Some(
            JsonModel::Object { fields: sender_fields, text: sender_text },
        ),
        table::lookup(fields, "kind"@) == Some(JsonModel::String(message.kind)),
        table::lookup(fields, "body"@) == Some(JsonModel::String(message.body)),
        table::lookup(fields, "timestamp"@) == Some(JsonModel::String(time)),
        time::timestamp_of(time) == Ok::<_, Seq<char>>(
            (message.timestamp.seconds, message.timestamp.nanos),
        ),
        table::lookup(sender_fields, "source_id"@) == Some(
            JsonModel::String(message.sender.source_id),
        ),
        match message.sender.display_name {
            Some(name) => table::lookup(sender_fields, "display_name"@) == Some(
                JsonModel::String(name),
            ),
            None => table::lookup(sender_fields, "display_name"@) is None || table::lookup(
                sender_fields,
                "display_name"@,
            ) == Some(JsonModel::Null),
        },
    ensures
        ({
            let original = JsonModel::Object { fields, text };
            let event = event_of(original)->Ok_0;
            &&& event_of(original) is Ok
            &&& event.source == "iris"@
            &&& event.event_type == message.kind
            &&& event.action is None
            &&& event.timestamp == message.timestamp
            &&& event.severity == Severity::Info
            &&& event.body == Some(message.body)
            &&& match message.sender.display_name {
                Some(name) => event.title == name,
                None => event.title == message.sender.source_id,
            }
            &&& table::lookup(event.metadata, "provider"@) == Some(
                JsonModel::String(message.source),
            )
            &&& table::lookup(event.metadata, "source_id"@) == Some(
                JsonModel::String(message.source_id),
            )
            &&& table::lookup(event.metadata, "sender"@) == Some(
                JsonModel::String(message.sender.source_id),
            )
            &&& table::lookup(event.metadata, "kind"@) == Some(JsonModel::String(message.kind))
            &&& table::lookup(event.metadata, "message"@) == Some(original)
            &&& table::lookup(event.metadata, "iris_metadata"@) == Some(
                match table::lookup(fields, "metadata"@) {
                    Some(metadata) => metadata,
                    None => JsonModel::Null,
                },
            )
        }),
{
    message::message_objects(fields, text);
    message::sender_objects(sender_fields, sender_text);
    event_keeps_message(JsonModel::Object { fields, text });
}

/// A payload becomes an event exactly when it is JSON and that JSON is a message;
/// otherwise the parse error says which of the two it is not, and why.
pub proof fn payloads_are_read(payload: Seq<char>)
    ensures
        json::parsed_text(payload) matches Err(error) ==> payload_event(payload) == Err::<
            EventModel,
            _,
        >(ErrorModel::Parse("invalid Iris message JSON: "@ + error)),
        json::parsed_text(payload) matches Ok(original) ==> {
            &&& payload_event(payload) == event_of(original)
            &&& payload_event(payload) is Ok <==> message::message_value(original) is Ok
            &&& message::message_value(original) matches Err(error) ==> payload_event(payload)
                == Err::<EventModel, _>(ErrorModel::Parse("invalid Iris message: "@ + error))
        },
{
}

/// A frame delivers exactly when it is not UTF-8 or is an event named `message`
/// with data: the error in the first case, what the data stands for in the second.
pub proof fn only_messages_are_delivered(frame: Seq<u8>)
    ensures
        !vstd::utf8::valid_utf8(frame) ==> frame_delivery(frame) == Some(
            Err::<EventModel, _>(
                ErrorModel::Parse("invalid UTF-8 in Iris SSE frame: "@ + sse::utf8_error(frame)),
            ),
        ),
        vstd::utf8::valid_utf8(frame) ==> {
            let (event, data) = sse::fields_of_text(vstd::utf8::decode_utf8(frame));
            &&& event == Some("message"@) && data.len() > 0 ==> frame_delivery(frame) == Some(
                payload_event(data),
            )
            &&& event != Some("message"@) || data.len() == 0 ==> frame_delivery(frame) is None
        },
{
}

/// A connection that fails or is refused stops with an action error that says why;
/// one that opens is read; one that ends stops in order. None of this touches what
/// has arrived.
pub proof fn connection_steps(buffer: Seq<u8>, reason: Seq<char>)
    ensures
        next_step(buffer, InputModel::RequestFailed(reason)) == (
            StepModel::Stop(
                Err::<(), _>(ErrorModel::Action("Iris SSE request failed: "@ + reason)),
            ),
            buffer,
        ),
        next_step(buffer, InputModel::Opened { success: true, status: reason }) == (
            StepModel::Read,
            buffer,
        ),
        next_step(buffer, InputModel::Opened { success: false, status: reason }) == (
            StepModel::Stop(Err::<(), _>(ErrorModel::Action("Iris SSE returned "@ + reason))),
            buffer,
        ),
        next_step(buffer, InputModel::ReadFailed(reason)) == (
            StepModel::Stop(Err::<(), _>(ErrorModel::Action("Iris SSE read failed: "@ + reason))),
            buffer,
        ),
        next_step(buffer, InputModel::ReceiverStopped) == (
            StepModel::Stop(Err::<(), _>(ErrorModel::Action("Iris event receiver stopped"@))),
            buffer,
        ),
        next_step(buffer, InputModel::Ended) == (
            StepModel::Stop(Ok::<(), ErrorModel>(())),
            buffer,
        ),
{
}

/// A chunk is put behind what has arrived, and what a complete frame in front of
/// the buffer delivers is the next step; frames that deliver nothing are passed
/// over, and without a complete frame more is read.
pub proof fn arriving_frames_are_stepped_through(buffer: Seq<u8>, chunk: Seq<u8>)
    ensures
        next_step(buffer, InputModel::Chunk(chunk)) == next_step(
            buffer + chunk,
            InputModel::Delivered,
        ),
        sse::first_frame_end(buffer) is None ==> next_step(buffer, InputModel::Delivered) == (
            StepModel::Read,
            buffer,
        ),
        sse::first_frame_end(buffer) matches Some((end, gap)) ==> {
            let rest = buffer.skip(end + gap);
            next_step(buffer, InputModel::Delivered) == match frame_delivery(buffer.take(end)) {
                Some(Ok(event)) => (StepModel::Deliver(event), rest),
                Some(Err(error)) => (StepModel::Stop(Err::<(), _>(error)), rest),
                None => next_step(rest, InputModel::Delivered),
            }
        },
{
    sse::first_frame_end_fits(buffer);
}

/// The token can stand in a header: it holds no control character but tabs.
pub open spec fn is_sendable(token: Seq<char>) -> bool {
    forall|i: int|
        0 <= i < token.len() ==> #[trigger] token[i] == '\t' || (token[i] as u32 >= 32
            && token[i] as u32 != 127)
}

/// A bare base URL whose scheme has been read and a token are accepted exactly when
/// the scheme is `http` or `https` and the token, if any, can stand in a header.
/// The source then has that URL, and the token as its bearer token.
pub proof fn schemes_and_tokens_are_accepted(
    base_url: Seq<char>,
    scheme: Result<Seq<char>, Seq<char>>,
    api_token: Option<Seq<char>>,
)
    ensures
        ({
            let made = settings_with_scheme(base_url, scheme, api_token);
            let web = scheme == Ok::<_, Seq<char>>("http"@) || scheme == Ok::<_, Seq<char>>(
                "https"@,
            );
            &&& made is Ok <==> web && (api_token matches Some(token) ==> is_sendable(token))
            &&& made is Ok ==> made->Ok_0.base_url == base_url
            &&& made matches Ok(source) ==> match api_token {
                Some(token) => source.authorization == Some(
                    vstd::utf8::encode_utf8("Bearer "@ + token),
                ),
                None => source.authorization is None,
            }
            &&& scheme matches Err(error) ==> made == Err::<IrisModel, _>(
                ErrorModel::Config("invalid Iris base URL: "@ + error),
            )
            &&& scheme is Ok && !web ==> made == Err::<IrisModel, _>(
                ErrorModel::Config("Iris base URL must use http or https"@),
            )
            &&& web && made is Err ==> made == Err::<IrisModel, _>(
                ErrorModel::Config("Iris API token contains invalid header characters"@),
            )
        }),
{
    if let Some(token) = api_token {
        let value = "Bearer "@ + token;
        reveal_strlit("Bearer ");
        assert("Bearer "@ =~= seq!['B', 'e', 'a', 'r', 'e', 'r', ' ']);
        if fits_header(value) {
            assert forall|i: int| 0 <= i < token.len() implies #[trigger] token[i] == '\t' || (
            token[i] as u32 >= 32 && token[i] as u32 != 127) by {
                assert(value[i + 7] == token[i]);
            }
        }
        if is_sendable(token) {
            assert forall|i: int| 0 <= i < value.len() implies (#[trigger] value[i] == '\t' || (
            value[i] as u32 >= 32 && value[i] as u32 != 127)) by {
                if i >= 7 {
                    assert(value[i] == token[i - 7]);
                }
            }
        }
    }
}

/// Of a base URL, surrounding white space and trailing slashes are taken off before
/// its scheme is read, and requests go to what is left.
pub proof fn settings_are_accepted(base_url: Seq<char>, api_token: Option<Seq<char>>)
    ensures
        ({
            let bare = text::without_trailing(text::trimmed(base_url), '/');
            let made = settings(base_url, api_token);
            &&& made is Ok <==> (url_scheme(bare) == Ok::<_, Seq<char>>("http"@) || url_scheme(bare)
                == Ok::<_, Seq<char>>("https"@)) && (api_token matches Some(token) ==> is_sendable(
                token,
            ))
            &&& made is Ok ==> made->Ok_0.base_url == bare
            &&& made == settings_with_scheme(bare, url_scheme(bare), api_token)
        }),
{
    schemes_and_tokens_are_accepted(bare_url(base_url), url_scheme(bare_url(base_url)), api_token);
}

/// A read step and an event to deliver are seen as what they are.
pub proof fn steps_are_seen_whole(step: StreamStep)
    ensures
        match step {
            StreamStep::Read => step@ == StepModel::Read,
            StreamStep::Deliver(event) => step@ == StepModel::Deliver(event@),
            StreamStep::Stop(Ok(())) => step@ == StepModel::Stop(Ok::<(), ErrorModel>(())),
            StreamStep::Stop(Err(error)) => step@ == StepModel::Stop(Err::<(), _>(error@)),
        },
{
}

/// What happens to a connection is seen whole.
pub proof fn inputs_are_seen_whole<'a>(input: StreamInput<'a>)
    ensures
        match input {
            StreamInput::RequestFailed(error) => input@ == InputModel::RequestFailed(error@),
            StreamInput::Opened { success, status } => input@ == (InputModel::Opened {
                success,
                status: status@,
            }),
            StreamInput::Chunk(bytes) => input@ == InputModel::Chunk(bytes@),
            StreamInput::Delivered => input@ == InputModel::Delivered,
            StreamInput::ReceiverStopped => input@ == InputModel::ReceiverStopped,
            StreamInput::ReadFailed(error) => input@ == InputModel::ReadFailed(error@),
            StreamInput::Ended => input@ == InputModel::Ended,
        },
{
}

} // verus!
