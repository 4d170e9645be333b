//! The HTTP requests of handler actions.

use crate::event::{EventModel, RiteEvent};
use crate::matching;
use crate::matching::{ActionModel, RiteAction};
use crate::source;
use crate::table::Table;
use crate::template;
use crate::template::render_template;
use crate::text;
use vstd::prelude::*;

verus! {

/// The body of an action's request.
#[derive(Debug, PartialEq, Eq)]
pub enum RequestBody {
    /// This text.
    Text(String),
    /// The normalized event as JSON.
    EventJson,
}

/// The POST request of an action.
#[derive(Debug, PartialEq, Eq)]
pub struct HttpRequest {
    /// Destination URL.
    pub url: String,
    /// Request headers, in order.
    pub headers: Vec<(String, String)>,
    /// Request body.
    pub body: RequestBody,
}

/// The mathematical value of a [`RequestBody`].
pub enum BodyModel {
    /// This text.
    Text(Seq<char>),
    /// The normalized event as JSON.
    EventJson,
}

/// The mathematical value of an [`HttpRequest`].
pub struct RequestModel {
    /// Destination URL.
    pub url: Seq<char>,
    /// Request headers, in order.
    pub headers: Seq<(Seq<char>, Seq<char>)>,
    /// Request body.
    pub body: BodyModel,
}

impl View for HttpRequest {
    type V = RequestModel;

    open spec fn view(&self) -> RequestModel {
        RequestModel {
            url: self.url@,
            headers: source::header_pairs(self.headers@),
            body: match self.body {
                RequestBody::Text(s) => BodyModel::Text(s@),
                RequestBody::EventJson => BodyModel::EventJson,
            },
        }
    }
}

/// The request of an action for an event.
///
/// The configured headers are forwarded as they are. A template is rendered into
/// the body, as plain text unless the headers say otherwise; without a template
/// the body is the event as JSON.
pub open spec fn request_of(action: ActionModel, event: EventModel) -> RequestModel {
    match action {
        ActionModel::HttpPost { url, headers, body_template } => match body_template {
            None => RequestModel { url, headers, body: BodyModel::EventJson },
            Some(template) => RequestModel {
                url,
                headers: if source::header_value(headers, "content-type"@) is Some {
                    headers
                } else {
                    headers.push(("content-type"@, "text/plain"@))
                },
                body: BodyModel::Text(template::rendered(template, event)),
            },
        },
    }
}

/// Builds the generic HTTP action request shared by webhook and subscription dispatch.
///
/// Template actions default to plain text unless the handler explicitly provides
/// a content type; actions without a template send the event as JSON.
pub fn http_post_request(
    url: &str,
    headers: &Table<String>,
    body_template: Option<&str>,
    event: &RiteEvent,
) -> (r: HttpRequest)
    ensures
        r@ == request_of(
            ActionModel::HttpPost {
                url: url@,
                headers: matching::headers_model(*headers),
                body_template: match body_template {
                    Some(template) => Some(template@),
                    None => None,
                },
            },
            event@,
        ),
{
    let mut sent: Vec<(String, String)> = Vec::new();
    let ghost given = matching::headers_model(*headers);
    let mut i: usize = 0;
    assert(source::header_pairs(sent@) =~= given.take(0));
    while i < headers.entries.len()
        invariant
            given == matching::headers_model(*headers),
            i <= headers.entries@.len(),
            source::header_pairs(sent@) == given.take(i as int),
        decreases headers.entries@.len() - i,
    {
        let ghost before = sent@;
        sent.push((headers.entries[i].0.clone(), headers.entries[i].1.clone()));
        assert(source::header_pairs(sent@) =~= source::header_pairs(before).push(given[i as int]));
        assert(given.take(i + 1) =~= given.take(i as int).push(given[i as int]));
        i += 1;
    }
    assert(given.take(i as int) =~= given);
    let body = match body_template {
        Some(template) => {
            if source::header(sent.as_slice(), "content-type").is_none() {
                sent.push(("content-type".to_owned(), "text/plain".to_owned()));
                assert(source::header_pairs(sent@) =~= given.push(
                    ("content-type"@, "text/plain"@),
                ));
            }
            RequestBody::Text(render_template(template, event))
        },
        None => RequestBody::EventJson,
    };
    HttpRequest { url: url.to_owned(), headers: sent, body }
}

/// The request of an action for an event.
pub fn action_request(action: &RiteAction, event: &RiteEvent) -> (r: HttpRequest)
    ensures
        r@ == request_of(action@, event@),
{
    match action {
        RiteAction::HttpPost { url, headers, body_template } => {
            let template = match body_template {
                Some(template) => Some(template.as_str()),
                None => None,
            };
            http_post_request(url.as_str(), headers, template, event)
        },
    }
}

/// Configured headers are forwarded as they are and in their order; at most a
/// content type is added behind them.
pub proof fn headers_are_forwarded(
    url: Seq<char>,
    headers: Seq<(Seq<char>, Seq<char>)>,
    body_template: Option<Seq<char>>,
    event: EventModel,
)
    ensures
        ({
            let request = request_of(ActionModel::HttpPost { url, headers, body_template }, event);
            &&& request.url == url
            &&& headers.is_prefix_of(request.headers)
            &&& request.headers.len() <= headers.len() + 1
            &&& body_template is None ==> request.headers == headers
        }),
{
}

/// A templated request has the content type that the handler configures, and
/// `text/plain` where it configures none.
pub proof fn template_content_type(
    url: Seq<char>,
    headers: Seq<(Seq<char>, Seq<char>)>,
    template: Seq<char>,
    event: EventModel,
)
    ensures
        source::header_value(
            request_of(
                ActionModel::HttpPost { url, headers, body_template: Some(template) },
                event,
            ).headers,
            "content-type"@,
        ) == Some(
            match source::header_value(headers, "content-type"@) {
                Some(configured) => configured,
                None => "text/plain"@,
            },
        ),
{
    if source::header_value(headers, "content-type"@) is None {
        absent_header_then_pushed(headers, "content-type"@, "text/plain"@);
    }
}

proof fn absent_header_then_pushed(
    headers: Seq<(Seq<char>, Seq<char>)>,
    name: Seq<char>,
    value: Seq<char>,
)
    requires
        source::header_value(headers, name) is None,
    ensures
        source::header_value(headers.push((name, value)), name) == Some(value),
    decreases headers.len(),
{
    if headers.len() > 0 {
        assert(headers.push((name, value)).drop_first() =~= headers.drop_first().push(
            (name, value),
        ));
        absent_header_then_pushed(headers.drop_first(), name, value);
    }
}

/// With a template the request's body is the template rendered for the event,
/// whatever the headers are; without one it is the event as JSON. The URL is the
/// configured one.
pub proof fn body_follows_the_template(
    url: Seq<char>,
    headers: Seq<(Seq<char>, Seq<char>)>,
    body_template: Option<Seq<char>>,
    event: EventModel,
)
    ensures
        ({
            let request = request_of(ActionModel::HttpPost { url, headers, body_template }, event);
            &&& request.url == url
            &&& match body_template {
                Some(template) => request.body == BodyModel::Text(
                    template::rendered(template, event),
                ),
                None => request.body == BodyModel::EventJson,
            }
        }),
{
}

/// The headers decide nothing of the body, and the event decides nothing of the
/// headers.
pub proof fn headers_and_body_are_independent(
    url: Seq<char>,
    headers: Seq<(Seq<char>, Seq<char>)>,
    other_headers: Seq<(Seq<char>, Seq<char>)>,
    body_template: Option<Seq<char>>,
    event: EventModel,
    other_event: EventModel,
)
    ensures
        request_of(ActionModel::HttpPost { url, headers, body_template }, event).body
            == request_of(
            ActionModel::HttpPost { url, headers: other_headers, body_template },
            event,
        ).body,
        request_of(ActionModel::HttpPost { url, headers, body_template }, event).headers
            == request_of(
            ActionModel::HttpPost { url, headers, body_template },
            other_event,
        ).headers,
{
}

/// A request has the configured headers and no other, but for the content type
/// `text/plain` behind them where a template is configured and none of the headers
/// is named `content-type` in any case.
pub proof fn headers_by_configuration(
    url: Seq<char>,
    headers: Seq<(Seq<char>, Seq<char>)>,
    body_template: Option<Seq<char>>,
    event: EventModel,
)
    ensures
        request_of(ActionModel::HttpPost { url, headers, body_template }, event).headers == if (
        body_template is Some && forall|i: int|
            0 <= i < headers.len() ==> !source::is_header_of(
                (#[trigger] headers[i]).0,
                "content-type"@,
            )) {
            headers.push(("content-type"@, "text/plain"@))
        } else {
            headers
        },
{
    source::header_by_position(headers, "content-type"@);
}

/// A literal template is sent as it is written, and a template that is a title
/// between two texts without marks is sent with the event's title between them.
pub proof fn title_is_put_into_the_body(
    url: Seq<char>,
    headers: Seq<(Seq<char>, Seq<char>)>,
    front: Seq<char>,
    back: Seq<char>,
    event: EventModel,
)
    requires
        !front.contains('{'),
        !back.contains('{'),
    ensures
        request_of(ActionModel::HttpPost { url, headers, body_template: Some(front) }, event).body
            == BodyModel::Text(front),
        request_of(
            ActionModel::HttpPost {
                url,
                headers,
                body_template: Some(front + (seq!['{', '{'] + "title"@ + seq!['}', '}'] + back)),
            },
            event,
        ).body == BodyModel::Text(front + (event.title + back)),
{
    assert forall|s: Seq<char>| !s.contains('{') implies !#[trigger] text::occurs(
        s,
        template::opening(),
    ) by {
        if text::occurs(s, template::opening()) {
            let i = choose|i: int| text::occurs_at(s, template::opening(), i);
            assert(s.subrange(i, i + 2)[0] == s[i]);
        }
    }
    assert(!text::occurs(front, template::opening()) && !text::occurs(back, template::opening()));
    template::plain_template_is_verbatim(front, event);
    template::plain_template_is_verbatim(back, event);
    reveal_strlit("title");
    let field = "title"@;
    assert(field.last() == 'e');
    if text::occurs(field, template::closing()) {
        let i = choose|i: int| text::occurs_at(field, template::closing(), i);
        assert(field.subrange(i, i + 2)[0] == field[i]);
    }
    template::field_is_replaced(field, back, event);
    template::own_fields_render(event);
    let rest = seq!['{', '{'] + field + seq!['}', '}'] + back;
    if front.len() > 0 {
        assert(front[front.len() - 1] != '{');
    }
    template::leading_text_is_verbatim(front, rest, event);
}

/// A request is seen whole.
pub proof fn requests_are_seen_whole(request: HttpRequest)
    ensures
        request@.url == request.url@,
        request@.headers.len() == request.headers@.len(),
        forall|i: int|
            0 <= i < request.headers@.len() ==> #[trigger] request@.headers[i] == (
                request.headers@[i].0@,
                request.headers@[i].1@,
            ),
        request@.body == match request.body {
            RequestBody::Text(s) => BodyModel::Text(s@),
            RequestBody::EventJson => BodyModel::EventJson,
        },
{
}

} // verus!
