//! Templates for the bodies of HTTP actions.

use crate::event::{EventModel, RiteEvent};
use crate::json;
use crate::json::{Json, JsonModel};
use crate::table;
use crate::table::Table;
use crate::text;
use vstd::prelude::*;

verus! {

/// What opens a field in a template.
pub open spec fn opening() -> Seq<char> {
    seq!['{', '{']
}

/// What closes a field in a template.
pub open spec fn closing() -> Seq<char> {
    seq!['}', '}']
}

/// The value reached from `start` by taking one member after the other.
pub open spec fn reached(start: Option<JsonModel>, names: Seq<Seq<char>>) -> Option<JsonModel>
    decreases names.len(),
{
    if names.len() == 0 {
        start
    } else {
        match reached(start, names.drop_last()) {
            Some(value) => value.get(names.last()),
            None => None,
        }
    }
}

/// The metadata value under a dotted path.
pub open spec fn metadata_at(path: Seq<char>, metadata: Seq<(Seq<char>, JsonModel)>) -> Option<
    JsonModel,
> {
    let names = text::parts(path, '.');
    reached(table::lookup(metadata, names[0]), names.skip(1))
}

/// The text that stands for a field.
pub open spec fn field_text(field: Seq<char>, event: EventModel) -> Seq<char> {
    if field == "source"@ {
        event.source
    } else if field == "event_type"@ {
        event.event_type
    } else if field == "action"@ {
        text::or_empty(event.action)
    } else if field == "timestamp"@ {
        event.timestamp.rfc3339()
    } else if field == "severity"@ {
        event.severity.name()
    } else if field == "title"@ {
        event.title
    } else if field == "body"@ {
        text::or_empty(event.body)
    } else {
        match text::stripped_prefix(field, "metadata."@) {
            Some(path) => match metadata_at(path, event.metadata) {
                Some(value) => value.plain_text(),
                None => seq![],
            },
            None => seq![],
        }
    }
}

/// The template with each field replaced by its text. A field that is never
/// closed stands as it is.
pub open spec fn rendered(template: Seq<char>, event: EventModel) -> Seq<char>
    decreases template.len(),
{
    match text::position(template, opening()) {
        Some(open) => match text::position_from(template, closing(), open + 2) {
            Some(close) => {
                proof {
                    text::position_is_first(template, opening(), 0);
                    text::position_is_first(template, closing(), open + 2);
                }
                template.take(open) + field_text(template.subrange(open + 2, close), event)
                    + rendered(template.skip(close + 2), event)
            },
            None => template,
        },
        None => template,
    }
}

/// Render a deterministic HTTP action template against a normalized event.
///
/// Supported fields are `source`, `event_type`, `action`, `timestamp`,
/// `severity`, `title`, `body`, and `metadata.<key>[.<nested-key>...]`.
/// Missing fields intentionally render as an empty string so a handler cannot
/// fail merely because an optional source field was absent.
pub fn render_template(template: &str, event: &RiteEvent) -> (r: String)
    ensures
        r@ == rendered(template@, event@),
{
    let chars = text::char_vec(template);
    let mut open_mark: Vec<char> = Vec::new();
    open_mark.push('{');
    open_mark.push('{');
    let mut close_mark: Vec<char> = Vec::new();
    close_mark.push('}');
    close_mark.push('}');
    assert(open_mark@ =~= opening());
    assert(close_mark@ =~= closing());
    let mut r = String::new();
    let mut from: usize = 0;
    assert(chars@.skip(0) =~= chars@);
    assert(r@ + rendered(chars@, event@) =~= rendered(template@, event@));
    loop
        invariant
            chars@ == template@,
            open_mark@ == opening(),
            close_mark@ == closing(),
            from <= chars@.len() == chars.len(),
            r@ + rendered(chars@.skip(from as int), event@) == rendered(template@, event@),
        decreases chars@.len() - from,
    {
        let ghost rest = chars@.skip(from as int);
        let ghost before = r@;
        proof {
            text::position_in_rest(chars@, opening(), from as int, 0);
            text::position_is_first(rest, opening(), 0);
            assert(rest =~= chars@.subrange(from as int, chars@.len() as int));
        }
        let open = match text::find_from(&chars, &open_mark, from) {
            Some(open) => open,
            None => {
                r.append(text::string_from(&chars, from, chars.len()).as_str());
                return r;
            },
        };
        proof {
            text::position_in_rest(chars@, closing(), from as int, open - from + 2);
            text::position_is_first(rest, closing(), open - from + 2);
        }
        let close = match text::find_from(&chars, &close_mark, open + 2) {
            Some(close) => close,
            None => {
                r.append(text::string_from(&chars, from, chars.len()).as_str());
                return r;
            },
        };
        r.append(text::string_from(&chars, from, open).as_str());
        let field = text::string_from(&chars, open + 2, close);
        r.append(template_value(field.as_str(), event).as_str());
        proof {
            assert(rest.take(open - from) =~= chars@.subrange(from as int, open as int));
            assert(rest.subrange(open - from + 2, close - from) =~= field@);
            assert(rest.skip(close - from + 2) =~= chars@.skip(close + 2));
            assert(r@ + rendered(chars@.skip(close + 2), event@) =~= before + rendered(
                rest,
                event@,
            ));
        }
        from = close + 2;
    }
}

/// The text that stands for a field.
pub fn template_value(field: &str, event: &RiteEvent) -> (r: String)
    ensures
        r@ == field_text(field@, event@),
{
    if text::same(field, "source") {
        event.source.clone()
    } else if text::same(field, "event_type") {
        event.event_type.clone()
    } else if text::same(field, "action") {
        text_or_empty(&event.action)
    } else if text::same(field, "timestamp") {
        event.timestamp.to_rfc3339()
    } else if text::same(field, "severity") {
        event.severity.as_str().to_owned()
    } else if text::same(field, "title") {
        event.title.clone()
    } else if text::same(field, "body") {
        text_or_empty(&event.body)
    } else {
        match text::strip_prefix(field, "metadata.") {
            Some(path) => match template_metadata_value(path.as_str(), &event.metadata) {
                Some(value) => value.plain_text(),
                None => String::new(),
            },
            None => String::new(),
        }
    }
}

/// The text, or the empty text where there is none.
fn text_or_empty(s: &Option<String>) -> (r: String)
    ensures
        r@ == text::or_empty(text::optional(*s)),
{
    match s {
        Some(s) => s.clone(),
        None => String::new(),
    }
}

/// The metadata value under a dotted path.
pub fn template_metadata_value<'a>(path: &str, metadata: &'a Table<Json>) -> (r: Option<&'a Json>)
    ensures
        match r {
            Some(value) => metadata_at(path@, json::table_model(*metadata)) == Some(value@),
            None => metadata_at(path@, json::table_model(*metadata)) is None,
        },
{
    let names = text::split(path, '.');
    let ghost all = text::views(names@);
    let mut value = json::find(metadata, names[0].as_str());
    let ghost start = table::lookup(json::table_model(*metadata), all[0]);
    let mut i: usize = 1;
    assert(all.skip(1).take(0) =~= seq![]);
    while i < names.len()
        invariant
            all == text::views(names@),
            1 <= i <= names@.len(),
            match value {
                Some(value) => reached(start, all.skip(1).take(i - 1)) == Some(value@),
                None => reached(start, all.skip(1).take(i - 1)) is None,
            },
        decreases names@.len() - i,
    {
        proof {
            let next = all.skip(1).take(i as int);
            assert(next.drop_last() =~= all.skip(1).take(i - 1));
            assert(next.last() == names@[i as int]@);
        }
        value =
        match value {
            Some(value) => value.get(names[i].as_str()),
            None => None,
        };
        i += 1;
    }
    assert(all.skip(1).take(i - 1) =~= all.skip(1));
    value
}

/// A template without an opening mark renders as itself.
pub proof fn plain_template_is_verbatim(template: Seq<char>, event: EventModel)
    requires
        !text::occurs(template, opening()),
    ensures
        rendered(template, event) == template,
{
    text::position_is_first(template, opening(), 0);
}

/// A template in which no field is closed renders as itself.
pub proof fn unclosed_template_is_verbatim(template: Seq<char>, event: EventModel)
    requires
        text::position(template, opening()) matches Some(open) ==> !text::occurs(
            template.skip(open + 2),
            closing(),
        ),
    ensures
        rendered(template, event) == template,
{
    text::position_is_first(template, opening(), 0);
    if let Some(open) = text::position(template, opening()) {
        text::position_in_rest(template, closing(), open + 2, 0);
        text::position_is_first(template.skip(open + 2), closing(), 0);
    }
}

/// Text in front of a template is kept, whatever the event is, where no opening
/// mark begins in it: neither within the text nor across its end.
pub proof fn leading_text_is_verbatim(leading: Seq<char>, template: Seq<char>, event: EventModel)
    requires
        !text::occurs(leading, opening()),
        !(leading.len() > 0 && leading.last() == '{' && template.len() > 0 && template[0] == '{'),
    ensures
        rendered(leading + template, event) == leading + rendered(template, event),
{
    let whole = leading + template;
    let n = leading.len() as int;
    assert(whole.skip(n) =~= template);
    assert forall|j: int| 0 <= j < n implies !text::occurs_at(whole, opening(), j) by {
        if text::occurs_at(whole, opening(), j) {
            assert(whole.subrange(j, j + 2)[0] == leading[j]);
            if j + 2 <= n {
                assert(leading.subrange(j, j + 2) =~= whole.subrange(j, j + 2));
                assert(text::occurs_at(leading, opening(), j));
            } else {
                assert(whole.subrange(j, j + 2)[1] == template[0]);
            }
        }
    }
    text::position_is_first(whole, opening(), 0);
    text::position_is_first(template, opening(), 0);
    text::position_in_rest(whole, opening(), n, 0);
    if template.len() >= 1 {
        text::position_passes(whole, opening(), 0, n);
        match text::position(template, opening()) {
            Some(open) => {
                text::position_in_rest(whole, closing(), n, open + 2);
                text::position_is_first(template, closing(), open + 2);
                match text::position_from(template, closing(), open + 2) {
                    Some(close) => {
                        assert(whole.take(n + open) =~= leading + template.take(open));
                        assert(whole.subrange(n + open + 2, n + close) =~= template.subrange(
                            open + 2,
                            close,
                        ));
                        assert(whole.skip(n + close + 2) =~= template.skip(close + 2));
                        assert(rendered(whole, event) =~= leading + rendered(template, event));
                    },
                    None => {},
                }
            },
            None => {},
        }
    } else {
        assert(whole =~= leading);
        assert(leading + rendered(template, event) =~= leading);
    }
}

/// A field between its marks is replaced by its text, and what follows renders
/// on its own. The field is one that its closing mark closes: no such mark begins
/// in it.
pub proof fn field_is_replaced(field: Seq<char>, template: Seq<char>, event: EventModel)
    requires
        !text::occurs(field, closing()),
        field.len() > 0 ==> field.last() != '}',
    ensures
        rendered(opening() + field + closing() + template, event) == field_text(field, event)
            + rendered(template, event),
{
    let whole = opening() + field + closing() + template;
    let close = 2 + field.len() as int;
    assert(whole.subrange(0, 2) =~= opening());
    assert(text::occurs_at(whole, opening(), 0));
    assert(whole.subrange(close, close + 2) =~= closing());
    assert(text::occurs_at(whole, closing(), close));
    assert forall|j: int| 2 <= j < close implies !text::occurs_at(whole, closing(), j) by {
        if text::occurs_at(whole, closing(), j) {
            assert(whole.subrange(j, j + 2)[0] == field[j - 2]);
            if j + 2 <= close {
                assert(field.subrange(j - 2, j) =~= whole.subrange(j, j + 2));
                assert(text::occurs_at(field, closing(), j - 2));
            }
        }
    }
    text::position_passes(whole, closing(), 2, close);
    assert(whole.take(0) =~= seq![]);
    assert(whole.subrange(2, close) =~= field);
    assert(whole.skip(close + 2) =~= template);
    assert(seq![] + field_text(field, event) =~= field_text(field, event));
}

/// A field that is not one of the event's own and has no metadata value renders
/// as nothing.
pub proof fn missing_field_renders_empty(field: Seq<char>, event: EventModel)
    requires
        field != "source"@,
        field != "event_type"@,
        field != "action"@,
        field != "timestamp"@,
        field != "severity"@,
        field != "title"@,
        field != "body"@,
        text::stripped_prefix(field, "metadata."@) matches Some(path) ==> metadata_at(
            path,
            event.metadata,
        ) is None,
    ensures
        field_text(field, event).len() == 0,
{
}

proof fn field_names_differ()
    ensures
        "source"@ != "event_type"@,
        "source"@ != "action"@,
        "source"@ != "timestamp"@,
        "source"@ != "severity"@,
        "source"@ != "title"@,
        "source"@ != "body"@,
        "event_type"@ != "action"@,
        "event_type"@ != "timestamp"@,
        "event_type"@ != "severity"@,
        "event_type"@ != "title"@,
        "event_type"@ != "body"@,
        "action"@ != "timestamp"@,
        "action"@ != "severity"@,
        "action"@ != "title"@,
        "action"@ != "body"@,
        "timestamp"@ != "severity"@,
        "timestamp"@ != "title"@,
        "timestamp"@ != "body"@,
        "severity"@ != "title"@,
        "severity"@ != "body"@,
        "title"@ != "body"@,
{
    reveal_strlit("source");
    reveal_strlit("event_type");
    reveal_strlit("action");
    reveal_strlit("timestamp");
    reveal_strlit("severity");
    reveal_strlit("title");
    reveal_strlit("body");
    assert("source"@.len() == 6 && "event_type"@.len() == 10 && "action"@.len() == 6
        && "timestamp"@.len() == 9 && "severity"@.len() == 8 && "title"@.len() == 5 && "body"@.len()
        == 4);
    assert("source"@[0] == 's' && "action"@[0] == 'a');
}

/// The event's own fields render as what the event holds; an absent action or body
/// renders as nothing.
pub proof fn own_fields_render(event: EventModel)
    ensures
        field_text("source"@, event) == event.source,
        field_text("event_type"@, event) == event.event_type,
        event.action matches Some(action) ==> field_text("action"@, event) == action,
        event.action is None ==> field_text("action"@, event).len() == 0,
        field_text("timestamp"@, event) == event.timestamp.rfc3339(),
        field_text("severity"@, event) == event.severity.name(),
        field_text("title"@, event) == event.title,
        event.body matches Some(body) ==> field_text("body"@, event) == body,
        event.body is None ==> field_text("body"@, event).len() == 0,
{
    field_names_differ();
}

/// A field behind `metadata.` renders as the plain text of the metadata value under
/// the path, and as nothing where there is none.
pub proof fn metadata_fields_render(path: Seq<char>, event: EventModel)
    ensures
        field_text("metadata."@ + path, event) == match metadata_at(path, event.metadata) {
            Some(value) => value.plain_text(),
            None => Seq::empty(),
        },
{
    reveal_strlit("metadata.");
    reveal_strlit("source");
    reveal_strlit("event_type");
    reveal_strlit("action");
    reveal_strlit("timestamp");
    reveal_strlit("severity");
    reveal_strlit("title");
    reveal_strlit("body");
    let field = "metadata."@ + path;
    assert(field[0] == 'm');
    assert("source"@[0] == 's' && "event_type"@[0] == 'e' && "action"@[0] == 'a'
        && "timestamp"@[0] == 't' && "severity"@[0] == 's' && "title"@[0] == 't' && "body"@[0]
        == 'b');
    text::prefix_and_rest(field, "metadata."@, path);
}

proof fn parts_of_more(path: Seq<char>, name: Seq<char>)
    requires
        !name.contains('.'),
    ensures
        text::parts(name, '.') == seq![name],
        text::parts(path + seq!['.'] + name, '.') == text::parts(path, '.').push(name),
    decreases path.len(),
{
    let mark = seq!['.'];
    let whole = path + mark + name;
    text::position_is_first(name, mark, 0);
    text::position_is_first(path, mark, 0);
    text::position_is_first(whole, mark, 0);
    assert(text::position(name, mark) is None) by {
        if let Some(p) = text::position(name, mark) {
            assert(name[p] == name.subrange(p, p + 1)[0]);
        }
    }
    let q = text::position(whole, mark);
    assert(whole.subrange(path.len() as int, path.len() as int + 1) =~= mark);
    assert(text::occurs_at(whole, mark, path.len() as int));
    match text::position(path, mark) {
        Some(p) => {
            assert(whole.subrange(p, p + 1) =~= path.subrange(p, p + 1));
            assert(text::occurs_at(whole, mark, p));
            assert(path.subrange(q->0, q->0 + 1) =~= whole.subrange(q->0, q->0 + 1));
            assert(text::occurs_at(path, mark, q->0));
            assert(q == Some(p));
            assert(whole.take(p) =~= path.take(p));
            assert(whole.skip(p + 1) =~= path.skip(p + 1) + mark + name);
            parts_of_more(path.skip(p + 1), name);
            assert(text::parts(whole, '.') =~= text::parts(path, '.').push(name));
        },
        None => {
            if q->0 < path.len() {
                assert(path.subrange(q->0, q->0 + 1) =~= whole.subrange(q->0, q->0 + 1));
                assert(text::occurs_at(path, mark, q->0));
            }
            assert(q == Some(path.len() as int));
            assert(whole.take(path.len() as int) =~= path);
            assert(whole.skip(path.len() as int + 1) =~= name);
            assert(text::parts(name, '.') =~= seq![name]);
            assert(text::parts(whole, '.') =~= seq![path, name]);
            assert(text::parts(path, '.').push(name) =~= seq![path, name]);
        },
    }
}

/// A path of one name gives the metadata value of that name, and each further name
/// behind a dot gives the member of that name of what the path so far gives.
pub proof fn metadata_path_goes_member_by_member(
    path: Seq<char>,
    name: Seq<char>,
    metadata: Seq<(Seq<char>, JsonModel)>,
)
    requires
        !name.contains('.'),
    ensures
        metadata_at(name, metadata) == table::lookup(metadata, name),
        metadata_at(path + seq!['.'] + name, metadata) == match metadata_at(path, metadata) {
            Some(value) => value.get(name),
            None => None,
        },
{
    parts_of_more(path, name);
    text::parts_make_up_text(path, '.');
    let names = text::parts(path, '.');
    let more = names.push(name);
    assert(more[0] == names[0]);
    assert(more.skip(1) =~= names.skip(1).push(name));
    assert(more.skip(1).drop_last() =~= names.skip(1));
    assert(seq![name].skip(1) =~= seq![]);
}

/// A field renders whatever stands around it: the text before it and the template
/// behind it render on their own.
pub proof fn field_renders_in_its_place(
    front: Seq<char>,
    field: Seq<char>,
    back: Seq<char>,
    event: EventModel,
)
    requires
        !front.contains('{'),
        !field.contains('}'),
    ensures
        rendered(front + (seq!['{', '{'] + field + seq!['}', '}'] + back), event) == front + (
        field_text(field, event) + rendered(back, event)),
{
    if text::occurs(front, opening()) {
        let i = choose|i: int| text::occurs_at(front, opening(), i);
        assert(front.subrange(i, i + 2)[0] == front[i]);
    }
    if text::occurs(field, closing()) {
        let i = choose|i: int| text::occurs_at(field, closing(), i);
        assert(field.subrange(i, i + 2)[0] == field[i]);
    }
    if field.len() > 0 {
        assert(field[field.len() - 1] != '}');
    }
    if front.len() > 0 {
        assert(front[front.len() - 1] != '{');
    }
    field_is_replaced(field, back, event);
    leading_text_is_verbatim(front, seq!['{', '{'] + field + seq!['}', '}'] + back, event);
}

/// Fields are opened by two opening braces and closed by two closing ones.
pub proof fn marks_are_double_braces()
    ensures
        opening() == "{{"@,
        closing() == "}}"@,
{
    reveal_strlit("{{");
    reveal_strlit("}}");
    assert(opening() =~= "{{"@);
    assert(closing() =~= "}}"@);
}

} // verus!
