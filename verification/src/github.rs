//! GitHub webhook verification and normalization.

use crate::error;
use crate::error::{ErrorModel, RiteError};
use crate::event::{EventModel, MetadataModel, RiteEvent, Severity, SourceMetadata};
use crate::json;
use crate::json::{parse_json, Json, JsonModel};
use crate::signature;
use crate::source;
use crate::source::EventSource;
use crate::table;
use crate::table::Table;
use crate::text;
use crate::time::Timestamp;
use vstd::prelude::*;
use vstd::string::*;

verus! {

/// GitHub webhook source authenticated with a webhook secret.
#[derive(Debug)]
pub struct GitHubSource {
    secret: Vec<u8>,
}

impl Clone for GitHubSource {
    fn clone(&self) -> (r: GitHubSource)
        ensures
            r.key() == self.key(),
    {
        let r = GitHubSource { secret: self.secret.clone() };
        assert(r.key() =~= self.key());
        r
    }
}

/// The event category that the headers give, or why it is refused.
pub open spec fn category(headers: Seq<(Seq<char>, Seq<char>)>) -> Result<Seq<char>, ErrorModel> {
    match source::header_value(headers, "x-github-event"@) {
        Some(event) => if event == "push"@ || event == "pull_request"@ {
            Ok(event)
        } else {
            Err(ErrorModel::Parse("unsupported GitHub event: "@ + event))
        },
        None => Err(ErrorModel::Parse("missing X-GitHub-Event"@)),
    }
}

/// The tag that the headers give, or why they are refused.
pub open spec fn provided_tag(headers: Seq<(Seq<char>, Seq<char>)>) -> Result<
    Seq<u8>,
    ErrorModel,
> {
    match source::header_value(headers, "x-hub-signature-256"@) {
        None => Err(ErrorModel::Authentication("missing X-Hub-Signature-256"@)),
        Some(value) => match text::stripped_prefix(value, "sha256="@) {
            None => Err(ErrorModel::Authentication("signature must use sha256"@)),
            Some(encoded) => match signature::hex_decoded(encoded) {
                None => Err(ErrorModel::Authentication("signature is not hexadecimal"@)),
                Some(tag) => Ok(tag),
            },
        },
    }
}

/// Whether a request is signed with `secret`, or why it is refused.
pub open spec fn signature_verdict(
    secret: Seq<u8>,
    headers: Seq<(Seq<char>, Seq<char>)>,
    body: Seq<u8>,
) -> Result<(), ErrorModel> {
    match provided_tag(headers) {
        Err(error) => Err(error),
        Ok(tag) => if tag == signature::hmac_sha256(secret, body) {
            Ok(())
        } else {
            Err(ErrorModel::Authentication("GitHub signature mismatch"@))
        },
    }
}

/// The name of the payload's repository.
pub open spec fn repository_name(payload: JsonModel) -> Option<Seq<char>> {
    match payload.get("repository"@) {
        Some(repository) => repository.text_at("name"@),
        None => None,
    }
}

/// The title of an event.
pub open spec fn event_title(
    category: Seq<char>,
    action: Option<Seq<char>>,
    repository: Seq<char>,
) -> Seq<char> {
    if category == "pull_request"@ {
        "GitHub pull request "@ + match action {
            Some(action) => action,
            None => "event"@,
        }
    } else {
        "GitHub push to "@ + repository
    }
}

/// What is kept of a payload for matching: the repository's name, the reference
/// where there is one, and the number where there is one.
pub open spec fn event_metadata(payload: JsonModel, repository: Seq<char>) -> Seq<
    (Seq<char>, JsonModel),
> {
    let named = table::with_entry(seq![], "repository"@, JsonModel::String(repository));
    let referenced = match payload.text_at("ref"@) {
        Some(reference) => table::with_entry(named, "ref"@, JsonModel::String(reference)),
        None => named,
    };
    match payload.get("number"@) {
        Some(number) => table::with_entry(referenced, "number"@, number),
        None => referenced,
    }
}

/// The event that a payload received at `now` stands for, or why it is refused.
pub open spec fn event_of(
    headers: Seq<(Seq<char>, Seq<char>)>,
    payload: JsonModel,
    now: Timestamp,
) -> Result<EventModel, ErrorModel> {
    if payload !is Object {
        Err(ErrorModel::Parse("GitHub payload must be a JSON object"@))
    } else {
        match category(headers) {
            Err(error) => Err(error),
            Ok(category) => match repository_name(payload) {
                None => Err(ErrorModel::Parse("GitHub payload missing repository.name"@)),
                Some(repository) => if category == "push"@ && payload.text_at("ref"@) is None {
                    Err(ErrorModel::Parse("GitHub push payload missing ref"@))
                } else if category == "pull_request"@ && payload.get("pull_request"@) is None {
                    Err(ErrorModel::Parse("GitHub pull_request payload missing pull_request"@))
                } else {
                    Ok(
                        EventModel {
                            source: "github"@,
                            event_type: category,
                            action: payload.text_at("action"@),
                            timestamp: now,
                            severity: Severity::Info,
                            title: event_title(
                                category,
                                payload.text_at("action"@),
                                repository,
                            ),
                            body: None,
                            metadata: event_metadata(payload, repository),
                        },
                    )
                },
            },
        }
    }
}

impl GitHubSource {
    /// The secret that requests are signed with.
    pub closed spec fn key(&self) -> Seq<u8> {
        self.secret@
    }

    /// Construct a GitHub source from its configured webhook secret.
    pub fn new(secret: &str) -> (r: Result<GitHubSource, RiteError>)
        ensures
            match r {
                Ok(source) => !text::is_blank(secret@) && source.key() == vstd::utf8::encode_utf8(
                    text::trimmed(secret@),
                ),
                Err(error) => text::is_blank(secret@) && error@ == ErrorModel::Config(
                    "github webhook secret is required"@,
                ),
            },
    {
        let secret = text::trim(secret);
        if text::is_empty(secret.as_str()) {
            return Err(RiteError::Config("github webhook secret is required".to_owned()));
        }
        Ok(GitHubSource { secret: secret.as_str().as_bytes_vec() })
    }

    /// The value of the first header of this name, the name's ASCII case aside.
    pub fn header<'a>(headers: &'a [(String, String)], name: &str) -> (r: Option<&'a str>)
        ensures
            match r {
                Some(value) => source::header_value(source::header_pairs(headers@), name@) == Some(
                    value@,
                ),
                None => source::header_value(source::header_pairs(headers@), name@) is None,
            },
    {
        source::header(headers, name)
    }

    /// The event category that the headers give, or why it is refused.
    pub fn event_type<'a>(headers: &'a [(String, String)]) -> (r: Result<&'a str, RiteError>)
        ensures
            match r {
                Ok(event) => category(source::header_pairs(headers@)) == Ok::<_, ErrorModel>(
                    event@,
                ),
                Err(error) => category(source::header_pairs(headers@)) == Err::<Seq<char>, _>(
                    error@,
                ),
            },
    {
        match Self::header(headers, "x-github-event") {
            Some(event) => if text::same(event, "push") || text::same(event, "pull_request") {
                Ok(event)
            } else {
                Err(RiteError::Parse("unsupported GitHub event: ".to_owned().concat(event)))
            },
            None => Err(RiteError::Parse("missing X-GitHub-Event".to_owned())),
        }
    }

    /// The tag that the headers give, or why they are refused.
    pub fn provided_signature(headers: &[(String, String)]) -> (r: Result<Vec<u8>, RiteError>)
        ensures
            match r {
                Ok(tag) => provided_tag(source::header_pairs(headers@)) == Ok::<_, ErrorModel>(
                    tag@,
                ),
                Err(error) => provided_tag(source::header_pairs(headers@)) == Err::<Seq<u8>, _>(
                    error@,
                ),
            },
    {
        let value = match Self::header(headers, "x-hub-signature-256") {
            Some(value) => value,
            None => return Err(
                RiteError::Authentication("missing X-Hub-Signature-256".to_owned()),
            ),
        };
        let encoded = match text::strip_prefix(value, "sha256=") {
            Some(encoded) => encoded,
            None => return Err(RiteError::Authentication("signature must use sha256".to_owned())),
        };
        match signature::decode_hex(encoded.as_str()) {
            Some(tag) => Ok(tag),
            None => Err(RiteError::Authentication("signature is not hexadecimal".to_owned())),
        }
    }

    /// The event that a payload received at `now` stands for.
    pub fn event_from(headers: &[(String, String)], payload: &Json, now: Timestamp) -> (r: Result<
        RiteEvent,
        RiteError,
    >)
        ensures
            error::outcome(r) == event_of(source::header_pairs(headers@), payload@, now),
            r matches Ok(event) ==> event.metadata.well_formed(),
    {
        if !payload.is_object() {
            return Err(RiteError::Parse("GitHub payload must be a JSON object".to_owned()));
        }
        let event_type = match Self::event_type(headers) {
            Ok(event_type) => event_type,
            Err(error) => return Err(error),
        };
        let action = match payload.text_at("action") {
            Some(action) => Some(action.to_owned()),
            None => None,
        };
        let repository = match payload.get("repository") {
            Some(repository) => repository.text_at("name"),
            None => None,
        };
        let repository = match repository {
            Some(repository) => repository,
            None => return Err(
                RiteError::Parse("GitHub payload missing repository.name".to_owned()),
            ),
        };
        let reference = payload.text_at("ref");
        if text::same(event_type, "push") && reference.is_none() {
            return Err(RiteError::Parse("GitHub push payload missing ref".to_owned()));
        }
        if text::same(event_type, "pull_request") && payload.get("pull_request").is_none() {
            return Err(
                RiteError::Parse("GitHub pull_request payload missing pull_request".to_owned()),
            );
        }
        let title = if text::same(event_type, "pull_request") {
            match &action {
                Some(action) => "GitHub pull request ".to_owned().concat(action.as_str()),
                None => "GitHub pull request ".to_owned().concat("event"),
            }
        } else {
            "GitHub push to ".to_owned().concat(repository)
        };
        let mut metadata: Table<Json> = Table::new();
        assert(json::table_model(metadata) =~= seq![]);
        json::put(&mut metadata, "repository", Json::string(repository));
        if let Some(reference) = reference {
            json::put(&mut metadata, "ref", Json::string(reference));
        }
        if let Some(number) = payload.get("number") {
            json::put(&mut metadata, "number", number.clone());
        }
        Ok(
            RiteEvent {
                source: "github".to_owned(),
                event_type: event_type.to_owned(),
                action,
                timestamp: now,
                severity: Severity::Info,
                title,
                body: None,
                metadata,
            },
        )
    }
}

impl EventSource for GitHubSource {
    open spec fn description(&self) -> MetadataModel {
        MetadataModel {
            id: "github"@,
            name: "GitHub"@,
            capabilities: seq!["webhook"@, "hmac-sha256"@, "push"@, "pull_request"@],
        }
    }

    open spec fn verdict(&self, headers: Seq<(Seq<char>, Seq<char>)>, body: Seq<u8>) -> Result<
        (),
        ErrorModel,
    > {
        signature_verdict(self.key(), headers, body)
    }

    open spec fn normalized(
        &self,
        headers: Seq<(Seq<char>, Seq<char>)>,
        body: Seq<u8>,
        now: Timestamp,
        duration_ms: Option<JsonModel>,
    ) -> Result<EventModel, ErrorModel> {
        match json::parsed(body) {
            Ok(payload) => event_of(headers, payload, now),
            Err(error) => Err(ErrorModel::Parse(error)),
        }
    }

    fn metadata(&self) -> (r: SourceMetadata) {
        let r = SourceMetadata {
            id: "github",
            name: "GitHub",
            capabilities: &["webhook", "hmac-sha256", "push", "pull_request"],
        };
        assert(r@.capabilities =~= self.description().capabilities);
        r
    }

    fn verify(&self, headers: &[(String, String)], body: &[u8]) -> (r: Result<(), RiteError>) {
        let provided = match Self::provided_signature(headers) {
            Ok(provided) => provided,
            Err(error) => return Err(error),
        };
        match signature::tag_matches(self.secret.as_slice(), body, provided.as_slice()) {
            Some(matches) => if matches {
                Ok(())
            } else {
                Err(RiteError::Authentication("GitHub signature mismatch".to_owned()))
            },
            None => Err(RiteError::Authentication("invalid webhook secret".to_owned())),
        }
    }

    fn parse_at(
        &self,
        headers: &[(String, String)],
        body: &[u8],
        now: Timestamp,
        duration_ms: Option<Json>,
    ) -> (r: Result<RiteEvent, RiteError>) {
        assert(self.normalized(
            source::header_pairs(headers@),
            body@,
            now,
            source::optional_json(duration_ms),
        ) == match json::parsed(body@) {
            Ok(payload) => event_of(source::header_pairs(headers@), payload, now),
            Err(error) => Err(ErrorModel::Parse(error)),
        });
        match parse_json(body) {
            Ok(payload) => Self::event_from(headers, &payload, now),
            Err(error) => Err(RiteError::Parse(error)),
        }
    }
}

/// A request that carries the lower-case hexadecimal tag of its body under the
/// secret is accepted.
pub proof fn signed_request_is_accepted(
    secret: Seq<u8>,
    headers: Seq<(Seq<char>, Seq<char>)>,
    body: Seq<u8>,
)
    requires
        source::header_value(headers, "x-hub-signature-256"@) == Some(
            "sha256="@ + signature::hex_encoded(signature::hmac_sha256(secret, body)),
        ),
    ensures
        signature_verdict(secret, headers, body) is Ok,
{
    let tag = signature::hmac_sha256(secret, body);
    let value = "sha256="@ + signature::hex_encoded(tag);
    let n = "sha256="@.len() as int;
    assert(value.subrange(0, n) =~= "sha256="@);
    assert(value.subrange(n, value.len() as int) =~= signature::hex_encoded(tag));
    signature::hex_round_trip(tag);
}

/// A request is accepted only with the very tag of its body under the secret.
pub proof fn accepted_request_carries_tag(
    secret: Seq<u8>,
    headers: Seq<(Seq<char>, Seq<char>)>,
    body: Seq<u8>,
)
    requires
        signature_verdict(secret, headers, body) is Ok,
    ensures
        source::header_value(headers, "x-hub-signature-256"@) matches Some(value)
            && text::stripped_prefix(value, "sha256="@) matches Some(encoded)
            && signature::hex_decoded(encoded) == Some(signature::hmac_sha256(secret, body)),
{
}

/// A normalized event is GitHub's, of one of the two supported categories, and
/// keeps the repository's name, the reference and the number of the payload.
pub proof fn event_keeps_payload(
    headers: Seq<(Seq<char>, Seq<char>)>,
    payload: JsonModel,
    now: Timestamp,
)
    requires
        event_of(headers, payload, now) is Ok,
    ensures
        ({
            let event = event_of(headers, payload, now)->Ok_0;
            &&& event.source == "github"@
            &&& event.event_type == "push"@ || event.event_type == "pull_request"@
            &&& table::lookup(event.metadata, "repository"@) == Some(
                JsonModel::String(repository_name(payload)->0),
            )
            &&& table::lookup(event.metadata, "ref"@) == match payload.text_at("ref"@) {
                Some(reference) => Some(JsonModel::String(reference)),
                None => None,
            }
            &&& table::lookup(event.metadata, "number"@) == payload.get("number"@)
        }),
{
    reveal_strlit("repository");
    reveal_strlit("ref");
    reveal_strlit("number");
    assert("repository"@.len() == 10 && "ref"@.len() == 3 && "number"@.len() == 6);
    let repository = repository_name(payload)->0;
    let named = table::with_entry(seq![], "repository"@, JsonModel::String(repository));
    let referenced = match payload.text_at("ref"@) {
        Some(reference) => table::with_entry(named, "ref"@, JsonModel::String(reference)),
        None => named,
    };
    assert forall|key: Seq<char>| true implies #[trigger] table::lookup(named, key) == (if key
        == "repository"@ {
        Some(JsonModel::String(repository))
    } else {
        None
    }) by {
        table::insert_then_lookup(seq![], "repository"@, JsonModel::String(repository), key);
    }
    if let Some(reference) = payload.text_at("ref"@) {
        table::insert_then_lookup(named, "ref"@, JsonModel::String(reference), "repository"@);
        table::insert_then_lookup(named, "ref"@, JsonModel::String(reference), "ref"@);
        table::insert_then_lookup(named, "ref"@, JsonModel::String(reference), "number"@);
    }
    if let Some(number) = payload.get("number"@) {
        table::insert_then_lookup(referenced, "number"@, number, "repository"@);
        table::insert_then_lookup(referenced, "number"@, number, "ref"@);
        table::insert_then_lookup(referenced, "number"@, number, "number"@);
    }
}

/// The category of a request is that of its event header, and only the two
/// supported ones are accepted.
pub proof fn categories_are_two(headers: Seq<(Seq<char>, Seq<char>)>, event: Seq<char>)
    ensures
        category(headers) == Ok::<_, ErrorModel>(event) <==> source::header_value(
            headers,
            "x-github-event"@,
        ) == Some(event) && (event == "push"@ || event == "pull_request"@),
        source::header_value(headers, "x-github-event"@) is None ==> category(headers) == Err::<
            Seq<char>,
            _,
        >(ErrorModel::Parse("missing X-GitHub-Event"@)),
        source::header_value(headers, "x-github-event"@) == Some(event) && event != "push"@ && event
            != "pull_request"@ ==> category(headers) == Err::<Seq<char>, _>(
            ErrorModel::Parse("unsupported GitHub event: "@ + event),
        ),
{
}

/// A request is accepted exactly when its signature header is `sha256=` and the
/// hexadecimal tag of its body under the secret, in either case.
pub proof fn signature_decides(
    secret: Seq<u8>,
    headers: Seq<(Seq<char>, Seq<char>)>,
    body: Seq<u8>,
)
    ensures
        signature_verdict(secret, headers, body) is Ok <==> exists|encoded: Seq<char>|
            {
                &&& #[trigger] text::same_ignoring_ascii_case(
                    encoded,
                    signature::hex_encoded(signature::hmac_sha256(secret, body)),
                )
                &&& source::header_value(headers, "x-hub-signature-256"@) == Some(
                    "sha256="@ + encoded,
                )
            },
{
    let tag = signature::hmac_sha256(secret, body);
    if signature_verdict(secret, headers, body) is Ok {
        let value = source::header_value(headers, "x-hub-signature-256"@)->0;
        let encoded = text::stripped_prefix(value, "sha256="@)->0;
        text::prefix_and_rest(value, "sha256="@, encoded);
        signature::hex_is_read_in_either_case(encoded, tag);
        assert(text::same_ignoring_ascii_case(encoded, signature::hex_encoded(tag)));
    }
    if exists|encoded: Seq<char>|
        {
            &&& #[trigger] text::same_ignoring_ascii_case(encoded, signature::hex_encoded(tag))
            &&& source::header_value(headers, "x-hub-signature-256"@) == Some("sha256="@ + encoded)
        } {
        let encoded = choose|encoded: Seq<char>|
            {
                &&& #[trigger] text::same_ignoring_ascii_case(encoded, signature::hex_encoded(tag))
                &&& source::header_value(headers, "x-hub-signature-256"@) == Some(
                    "sha256="@ + encoded,
                )
            };
        text::prefix_and_rest("sha256="@ + encoded, "sha256="@, encoded);
        signature::hex_is_read_in_either_case(encoded, tag);
    }
}

/// A request is refused for a missing signature, for one that does not say
/// `sha256=`, for one that is not hexadecimal, or for the tag of something else.
pub proof fn refused_signatures(
    secret: Seq<u8>,
    headers: Seq<(Seq<char>, Seq<char>)>,
    body: Seq<u8>,
    encoded: Seq<char>,
)
    ensures
        ({
            let given = source::header_value(headers, "x-hub-signature-256"@);
            let verdict = signature_verdict(secret, headers, body);
            &&& given is None ==> verdict == Err::<(), _>(
                ErrorModel::Authentication("missing X-Hub-Signature-256"@),
            )
            &&& given is Some && !"sha256="@.is_prefix_of(given->0) ==> verdict == Err::<(), _>(
                ErrorModel::Authentication("signature must use sha256"@),
            )
            &&& given == Some("sha256="@ + encoded) && signature::hex_decoded(encoded) is None
                ==> verdict == Err::<(), _>(
                ErrorModel::Authentication("signature is not hexadecimal"@),
            )
            &&& given == Some("sha256="@ + encoded) && signature::hex_decoded(encoded) is Some
                && verdict is Err ==> verdict == Err::<(), _>(
                ErrorModel::Authentication("GitHub signature mismatch"@),
            )
        }),
{
    if let Some(value) = source::header_value(headers, "x-hub-signature-256"@) {
        text::prefix_and_rest(value, "sha256="@, encoded);
    }
}

/// A payload is an object with a repository that has a name, and for a push a
/// reference too, for a pull request the pull request.
pub open spec fn is_delivery(category: Seq<char>, payload: JsonModel) -> bool {
    &&& payload is Object
    &&& category == "push"@ || category == "pull_request"@
    &&& payload.get("repository"@) matches Some(repository) && repository.get(
        "name"@,
    ) matches Some(name) && name is String
    &&& category == "push"@ ==> (payload.get("ref"@) matches Some(reference) && reference is String)
    &&& category == "pull_request"@ ==> payload.get("pull_request"@) is Some
}

/// A payload is normalized exactly when it is a delivery of the category that the
/// headers give. The event is informational, received now, of that category, has
/// the payload's action where that is a string, and no body.
pub proof fn delivery_becomes_event(
    headers: Seq<(Seq<char>, Seq<char>)>,
    payload: JsonModel,
    now: Timestamp,
)
    ensures
        ({
            let named = source::header_value(headers, "x-github-event"@);
            let made = event_of(headers, payload, now);
            &&& made is Ok <==> named is Some && is_delivery(named->0, payload)
            &&& made is Ok ==> {
                let event = made->Ok_0;
                let repository = payload.get("repository"@)->0.get("name"@)->0->String_0;
                &&& event.source == "github"@
                &&& Some(event.event_type) == named
                &&& event.timestamp == now
                &&& event.severity == Severity::Info
                &&& event.body is None
                &&& match payload.get("action"@) {
                    Some(JsonModel::String(action)) => event.action == Some(action),
                    _ => event.action is None,
                }
                &&& event.event_type == "push"@ ==> event.title == "GitHub push to "@ + repository
                &&& event.event_type == "pull_request"@ ==> event.title == "GitHub pull request "@
                    + match event.action {
                    Some(action) => action,
                    None => "event"@,
                }
            }
        }),
{
    reveal_strlit("push");
    reveal_strlit("pull_request");
    assert("push"@.len() == 4 && "pull_request"@.len() == 12);
}

/// A payload that is no delivery is refused for the first thing that is wrong: not
/// an object, the category, no repository name, no reference, no pull request.
pub proof fn refused_deliveries(
    headers: Seq<(Seq<char>, Seq<char>)>,
    payload: JsonModel,
    now: Timestamp,
)
    ensures
        ({
            let made = event_of(headers, payload, now);
            let repository = payload.get("repository"@);
            if payload !is Object {
                made == Err::<EventModel, _>(
                    ErrorModel::Parse("GitHub payload must be a JSON object"@),
                )
            } else if category(headers) is Err {
                made == Err::<EventModel, _>(category(headers)->Err_0)
            } else if !(repository is Some && repository->0.get("name"@) is Some
                && repository->0.get("name"@)->0 is String) {
                made == Err::<EventModel, _>(
                    ErrorModel::Parse("GitHub payload missing repository.name"@),
                )
            } else if category(headers)->Ok_0 == "push"@ && !(payload.get("ref"@) is Some
                && payload.get("ref"@)->0 is String) {
                made == Err::<EventModel, _>(ErrorModel::Parse("GitHub push payload missing ref"@))
            } else if category(headers)->Ok_0 == "pull_request"@ && payload.get(
                "pull_request"@,
            ) is None {
                made == Err::<EventModel, _>(
                    ErrorModel::Parse("GitHub pull_request payload missing pull_request"@),
                )
            } else {
                made is Ok
            }
        }),
{
}

/// An event's metadata has the repository's name, the reference where it is a
/// string, the number where there is one, and nothing else.
pub proof fn delivery_metadata(
    headers: Seq<(Seq<char>, Seq<char>)>,
    payload: JsonModel,
    now: Timestamp,
    key: Seq<char>,
)
    requires
        event_of(headers, payload, now) is Ok,
    ensures
        ({
            let found = table::lookup(event_of(headers, payload, now)->Ok_0.metadata, key);
            &&& key == "repository"@ ==> found == payload.get("repository"@)->0.get("name"@)
            &&& key == "ref"@ ==> found == match payload.get("ref"@) {
                Some(JsonModel::String(reference)) => Some(JsonModel::String(reference)),
                _ => None,
            }
            &&& key == "number"@ ==> found == payload.get("number"@)
            &&& key != "repository"@ && key != "ref"@ && key != "number"@ ==> found is None
        }),
{
    event_keeps_payload(headers, payload, now);
    let repository = repository_name(payload)->0;
    let named = table::with_entry(seq![], "repository"@, JsonModel::String(repository));
    let referenced = match payload.text_at("ref"@) {
        Some(reference) => table::with_entry(named, "ref"@, JsonModel::String(reference)),
        None => named,
    };
    table::insert_then_lookup(seq![], "repository"@, JsonModel::String(repository), key);
    if let Some(reference) = payload.text_at("ref"@) {
        table::insert_then_lookup(named, "ref"@, JsonModel::String(reference), key);
    }
    if let Some(number) = payload.get("number"@) {
        table::insert_then_lookup(referenced, "number"@, number, key);
    }
}

/// The source verifies by its secret, normalizes JSON payloads, and says what it
/// is.
pub proof fn source_behaves(
    source: GitHubSource,
    headers: Seq<(Seq<char>, Seq<char>)>,
    body: Seq<u8>,
    now: Timestamp,
    duration_ms: Option<JsonModel>,
)
    ensures
        source.verdict(headers, body) == signature_verdict(source.key(), headers, body),
        json::parsed(body) matches Ok(payload) ==> source.normalized(headers, body, now, duration_ms)
            == event_of(headers, payload, now),
        json::parsed(body) matches Err(error) ==> source.normalized(headers, body, now, duration_ms)
            == Err::<EventModel, _>(ErrorModel::Parse(error)),
        source.description().id == "github"@,
        source.description().name == "GitHub"@,
        source.description().capabilities == seq![
            "webhook"@,
            "hmac-sha256"@,
            "push"@,
            "pull_request"@,
        ],
{
}

/// A tag is provided exactly by a signature header of `sha256=` and hexadecimal
/// digits, as the bytes that these spell.
pub proof fn tags_are_provided(headers: Seq<(Seq<char>, Seq<char>)>, tag: Seq<u8>)
    ensures
        provided_tag(headers) == Ok::<_, ErrorModel>(tag) <==> exists|encoded: Seq<char>|
            {
                &&& #[trigger] text::same_ignoring_ascii_case(encoded, signature::hex_encoded(tag))
                &&& source::header_value(headers, "x-hub-signature-256"@) == Some(
                    "sha256="@ + encoded,
                )
            },
{
    if provided_tag(headers) == Ok::<_, ErrorModel>(tag) {
        let value = source::header_value(headers, "x-hub-signature-256"@)->0;
        let encoded = text::stripped_prefix(value, "sha256="@)->0;
        text::prefix_and_rest(value, "sha256="@, encoded);
        signature::hex_is_read_in_either_case(encoded, tag);
        assert(text::same_ignoring_ascii_case(encoded, signature::hex_encoded(tag)));
    }
    if exists|encoded: Seq<char>|
        {
            &&& #[trigger] text::same_ignoring_ascii_case(encoded, signature::hex_encoded(tag))
            &&& source::header_value(headers, "x-hub-signature-256"@) == Some("sha256="@ + encoded)
        } {
        let encoded = choose|encoded: Seq<char>|
            {
                &&& #[trigger] text::same_ignoring_ascii_case(encoded, signature::hex_encoded(tag))
                &&& source::header_value(headers, "x-hub-signature-256"@) == Some(
                    "sha256="@ + encoded,
                )
            };
        text::prefix_and_rest("sha256="@ + encoded, "sha256="@, encoded);
        signature::hex_is_read_in_either_case(encoded, tag);
    }
}

} // verus!
