//! Iris messages: their JSON form and what is refused.

use crate::json;
use crate::json::{Json, JsonModel};
use crate::table;
use crate::text;
use crate::time;
use crate::time::Timestamp;
use vstd::prelude::*;

verus! {

/// The sender of an Iris message.
#[derive(Debug)]
pub struct IrisSender {
    /// The sender's ID at the provider.
    pub source_id: String,
    /// The sender's name, where the provider gives one.
    pub display_name: Option<String>,
}

/// A message of Iris's normalized stream.
#[derive(Debug)]
pub struct IrisMessage {
    /// The provider.
    pub source: String,
    /// The message's ID at the provider.
    pub source_id: String,
    /// Who sent it.
    pub sender: IrisSender,
    /// The kind of message.
    pub kind: String,
    /// The text.
    pub body: String,
    /// When it was sent.
    pub timestamp: Timestamp,
    /// What the provider adds; `null` where it adds nothing.
    pub metadata: Json,
}

/// The mathematical value of an [`IrisSender`].
pub struct SenderModel {
    /// The sender's ID at the provider.
    pub source_id: Seq<char>,
    /// The sender's name, where the provider gives one.
    pub display_name: Option<Seq<char>>,
}

/// The mathematical value of an [`IrisMessage`].
pub struct MessageModel {
    /// The provider.
    pub source: Seq<char>,
    /// The message's ID at the provider.
    pub source_id: Seq<char>,
    /// Who sent it.
    pub sender: SenderModel,
    /// The kind of message.
    pub kind: Seq<char>,
    /// The text.
    pub body: Seq<char>,
    /// When it was sent.
    pub timestamp: Timestamp,
    /// What the provider adds.
    pub metadata: JsonModel,
}

impl View for IrisSender {
    type V = SenderModel;

    open spec fn view(&self) -> SenderModel {
        SenderModel {
            source_id: self.source_id@,
            display_name: text::optional(self.display_name),
        }
    }
}

impl View for IrisMessage {
    type V = MessageModel;

    open spec fn view(&self) -> MessageModel {
        MessageModel {
            source: self.source@,
            source_id: self.source_id@,
            sender: self.sender@,
            kind: self.kind@,
            body: self.body@,
            timestamp: self.timestamp,
            metadata: self.metadata@,
        }
    }
}

/// What the `Debug` formatting of `str` writes for this text: quoted, with
/// escapes.
pub uninterp spec fn debug_text(s: Seq<char>) -> Seq<char>;

/// Formats a text by the `Debug` of `str`. The result is a function of the text
/// alone, named `debug_text`.
#[verifier::external_body]
fn debug_string(s: &str) -> (r: String)
    ensures
        r@ == debug_text(s@),
{
    format!("{:?}", s)
}

/// What an error says of a value of the wrong type.
pub open spec fn unexpected(value: JsonModel) -> Seq<char> {
    match value {
        JsonModel::Null => "null"@,
        JsonModel::Bool(b) => if b {
            "boolean `true`"@
        } else {
            "boolean `false`"@
        },
        JsonModel::Number { float, text, .. } => if float {
            "floating point `"@ + text + "`"@
        } else {
            "integer `"@ + text + "`"@
        },
        JsonModel::String(s) => "string "@ + debug_text(s),
        JsonModel::Array { .. } => "sequence"@,
        JsonModel::Object { .. } => "map"@,
    }
}

/// Why a value is refused where something else was expected.
pub open spec fn mismatch(value: JsonModel, expected: Seq<char>) -> Seq<char> {
    "invalid type: "@ + unexpected(value) + ", expected "@ + expected
}

/// Why a list of `n` elements is refused.
pub open spec fn wrong_length(n: nat, expected: Seq<char>) -> Seq<char> {
    "invalid length "@ + text::numeral(n) + ", expected "@ + expected
}

/// Why an object without the field `name` is refused.
pub open spec fn missing(name: Seq<char>) -> Seq<char> {
    "missing field `"@ + name + "`"@
}

/// A value read as a text.
pub open spec fn text_value(value: JsonModel) -> Result<Seq<char>, Seq<char>> {
    match value {
        JsonModel::String(s) => Ok(s),
        _ => Err(mismatch(value, "a string"@)),
    }
}

/// A value read as a text that may be `null`.
pub open spec fn optional_text_value(value: JsonModel) -> Result<Option<Seq<char>>, Seq<char>> {
    match value {
        JsonModel::Null => Ok(None),
        JsonModel::String(s) => Ok(Some(s)),
        _ => Err(mismatch(value, "a string"@)),
    }
}

/// A value read as a point in time.
pub open spec fn time_value(value: JsonModel) -> Result<Timestamp, Seq<char>> {
    match value {
        JsonModel::String(s) => match time::timestamp_of(s) {
            Ok((seconds, nanos)) => Ok(Timestamp { seconds, nanos }),
            Err(error) => Err(error),
        },
        _ => Err(mismatch(value, "an RFC 3339 formatted date and time string"@)),
    }
}

/// Why the member `value` of a sender under `key` is refused.
pub open spec fn sender_field_refusal(key: Seq<char>, value: JsonModel) -> Option<Seq<char>> {
    if key == "source_id"@ {
        match text_value(value) {
            Ok(_) => None,
            Err(reason) => Some(reason),
        }
    } else if key == "display_name"@ {
        match optional_text_value(value) {
            Ok(_) => None,
            Err(reason) => Some(reason),
        }
    } else {
        None
    }
}

/// Why the members of a sender are refused: the first one that is.
pub open spec fn sender_refusal(fields: Seq<(Seq<char>, JsonModel)>) -> Option<Seq<char>>
    decreases fields.len(),
{
    if fields.len() == 0 {
        None
    } else {
        match sender_refusal(fields.drop_last()) {
            Some(reason) => Some(reason),
            None => sender_field_refusal(fields.last().0, fields.last().1),
        }
    }
}

/// A value read as a sender: an object, or a list of the ID and the name.
pub open spec fn sender_value(value: JsonModel) -> Result<SenderModel, Seq<char>> {
    match value {
        JsonModel::Object { fields, .. } => match sender_refusal(fields) {
            Some(reason) => Err(reason),
            None => match table::lookup(fields, "source_id"@) {
                None => Err(missing("source_id"@)),
                Some(source_id) => Ok(
                    SenderModel {
                        source_id: text_value(source_id)->Ok_0,
                        display_name: match table::lookup(fields, "display_name"@) {
                            Some(name) => optional_text_value(name)->Ok_0,
                            None => None,
                        },
                    },
                ),
            },
        },
        JsonModel::Array { items, .. } => if items.len() < 1 {
            Err(wrong_length(0, "struct IrisSender with 2 elements"@))
        } else {
            match text_value(items[0]) {
                Err(reason) => Err(reason),
                Ok(source_id) => if items.len() < 2 {
                    Err(wrong_length(1, "struct IrisSender with 2 elements"@))
                } else {
                    match optional_text_value(items[1]) {
                        Err(reason) => Err(reason),
                        Ok(display_name) => if items.len() > 2 {
                            Err(wrong_length(items.len(), "fewer elements in array"@))
                        } else {
                            Ok(SenderModel { source_id, display_name })
                        },
                    }
                },
            }
        },
        _ => Err(mismatch(value, "struct IrisSender"@)),
    }
}

/// Why the member `value` of a message under `key` is refused.
pub open spec fn message_field_refusal(key: Seq<char>, value: JsonModel) -> Option<Seq<char>> {
    if key == "source"@ || key == "source_id"@ || key == "kind"@ || key == "body"@ {
        match text_value(value) {
            Ok(_) => None,
            Err(reason) => Some(reason),
        }
    } else if key == "sender"@ {
        match sender_value(value) {
            Ok(_) => None,
            Err(reason) => Some(reason),
        }
    } else if key == "timestamp"@ {
        match time_value(value) {
            Ok(_) => None,
            Err(reason) => Some(reason),
        }
    } else {
        None
    }
}

/// Why the members of a message are refused: the first one that is.
pub open spec fn message_refusal(fields: Seq<(Seq<char>, JsonModel)>) -> Option<Seq<char>>
    decreases fields.len(),
{
    if fields.len() == 0 {
        None
    } else {
        match message_refusal(fields.drop_last()) {
            Some(reason) => Some(reason),
            None => message_field_refusal(fields.last().0, fields.last().1),
        }
    }
}

/// The first of the fields that every message has which these members lack.
pub open spec fn first_missing(fields: Seq<(Seq<char>, JsonModel)>) -> Option<Seq<char>> {
    if table::lookup(fields, "source"@) is None {
        Some("source"@)
    } else if table::lookup(fields, "source_id"@) is None {
        Some("source_id"@)
    } else if table::lookup(fields, "sender"@) is None {
        Some("sender"@)
    } else if table::lookup(fields, "kind"@) is None {
        Some("kind"@)
    } else if table::lookup(fields, "body"@) is None {
        Some("body"@)
    } else if table::lookup(fields, "timestamp"@) is None {
        Some("timestamp"@)
    } else {
        None
    }
}

/// Why the list `items` is refused as a message: the first element that is
/// refused or missing, or one too many.
pub open spec fn list_refusal(items: Seq<JsonModel>) -> Option<Seq<char>> {
    let short = "struct IrisMessage with 7 elements"@;
    if items.len() < 1 {
        Some(wrong_length(0, short))
    } else if text_value(items[0]) is Err {
        Some(text_value(items[0])->Err_0)
    } else if items.len() < 2 {
        Some(wrong_length(1, short))
    } else if text_value(items[1]) is Err {
        Some(text_value(items[1])->Err_0)
    } else if items.len() < 3 {
        Some(wrong_length(2, short))
    } else if sender_value(items[2]) is Err {
        Some(sender_value(items[2])->Err_0)
    } else if items.len() < 4 {
        Some(wrong_length(3, short))
    } else if text_value(items[3]) is Err {
        Some(text_value(items[3])->Err_0)
    } else if items.len() < 5 {
        Some(wrong_length(4, short))
    } else if text_value(items[4]) is Err {
        Some(text_value(items[4])->Err_0)
    } else if items.len() < 6 {
        Some(wrong_length(5, short))
    } else if time_value(items[5]) is Err {
        Some(time_value(items[5])->Err_0)
    } else if items.len() > 7 {
        Some(wrong_length(items.len(), "fewer elements in array"@))
    } else {
        None
    }
}

/// A value read as a message: an object, or a list of the fields in their order.
pub open spec fn message_value(value: JsonModel) -> Result<MessageModel, Seq<char>> {
    match value {
        JsonModel::Object { fields, .. } => match message_refusal(fields) {
            Some(reason) => Err(reason),
            None => match first_missing(fields) {
                Some(name) => Err(missing(name)),
                None => Ok(
                    MessageModel {
                        source: text_value(table::lookup(fields, "source"@)->0)->Ok_0,
                        source_id: text_value(table::lookup(fields, "source_id"@)->0)->Ok_0,
                        sender: sender_value(table::lookup(fields, "sender"@)->0)->Ok_0,
                        kind: text_value(table::lookup(fields, "kind"@)->0)->Ok_0,
                        body: text_value(table::lookup(fields, "body"@)->0)->Ok_0,
                        timestamp: time_value(table::lookup(fields, "timestamp"@)->0)->Ok_0,
                        metadata: match table::lookup(fields, "metadata"@) {
                            Some(metadata) => metadata,
                            None => JsonModel::Null,
                        },
                    },
                ),
            },
        },
        JsonModel::Array { items, .. } => match list_refusal(items) {
            Some(reason) => Err(reason),
            None => Ok(
                MessageModel {
                    source: text_value(items[0])->Ok_0,
                    source_id: text_value(items[1])->Ok_0,
                    sender: sender_value(items[2])->Ok_0,
                    kind: text_value(items[3])->Ok_0,
                    body: text_value(items[4])->Ok_0,
                    timestamp: time_value(items[5])->Ok_0,
                    metadata: if items.len() == 7 {
                        items[6]
                    } else {
                        JsonModel::Null
                    },
                },
            ),
        },
        _ => Err(mismatch(value, "struct IrisMessage"@)),
    }
}

/// The outcome of reading a value, by views.
pub open spec fn reading<T: View>(r: Result<T, String>) -> Result<T::V, Seq<char>> {
    match r {
        Ok(value) => Ok(value@),
        Err(reason) => Err(reason@),
    }
}

/// Why a value is refused where something else was expected.
fn mismatch_text(value: &Json, expected: &str) -> (r: String)
    ensures
        r@ == mismatch(value@, expected@),
{
    let found = match value {
        Json::Null => "null".to_owned(),
        Json::Bool(b) => if *b {
            "boolean `true`".to_owned()
        } else {
            "boolean `false`".to_owned()
        },
        Json::Number(n) => if n.float {
            "floating point `".to_owned().concat(n.text.as_str()).concat("`")
        } else {
            "integer `".to_owned().concat(n.text.as_str()).concat("`")
        },
        Json::String(s) => "string ".to_owned().concat(debug_string(s.as_str()).as_str()),
        Json::Array { .. } => "sequence".to_owned(),
        Json::Object { .. } => "map".to_owned(),
    };
    "invalid type: ".to_owned().concat(found.as_str()).concat(", expected ").concat(expected)
}

/// Why a list of `n` elements is refused.
fn length_text(n: usize, expected: &str) -> (r: String)
    ensures
        r@ == wrong_length(n as nat, expected@),
{
    "invalid length ".to_owned().concat(text::decimal(n as u64).as_str()).concat(
        ", expected ",
    ).concat(expected)
}

/// Why an object without the field `name` is refused.
fn missing_text(name: &str) -> (r: String)
    ensures
        r@ == missing(name@),
{
    "missing field `".to_owned().concat(name).concat("`")
}

/// A value read as a text.
fn read_text(value: &Json) -> (r: Result<String, String>)
    ensures
        reading(r) == text_value(value@),
{
    match value {
        Json::String(s) => Ok(s.clone()),
        _ => Err(mismatch_text(value, "a string")),
    }
}

/// A value read as a text that may be `null`.
fn read_optional_text(value: &Json) -> (r: Result<Option<String>, String>)
    ensures
        match r {
            Ok(s) => optional_text_value(value@) == Ok::<_, Seq<char>>(text::optional(s)),
            Err(reason) => optional_text_value(value@) == Err::<Option<Seq<char>>, _>(reason@),
        },
{
    match value {
        Json::Null => Ok(None),
        Json::String(s) => Ok(Some(s.clone())),
        _ => Err(mismatch_text(value, "a string")),
    }
}

/// A value read as a point in time.
fn read_time(value: &Json) -> (r: Result<Timestamp, String>)
    ensures
        match r {
            Ok(timestamp) => time_value(value@) == Ok::<_, Seq<char>>(timestamp)
                && timestamp.valid(),
            Err(reason) => time_value(value@) == Err::<Timestamp, _>(reason@),
        },
{
    match value {
        Json::String(s) => Timestamp::parse(s.as_str()),
        _ => Err(mismatch_text(value, "an RFC 3339 formatted date and time string")),
    }
}

/// A member that is refused early is why the whole is refused.
proof fn sender_refusal_stands(fields: Seq<(Seq<char>, JsonModel)>, k: int)
    requires
        0 <= k <= fields.len(),
        sender_refusal(fields.take(k)) is Some,
    ensures
        sender_refusal(fields) == sender_refusal(fields.take(k)),
    decreases fields.len() - k,
{
    if k < fields.len() {
        assert(fields.take(k + 1).drop_last() =~= fields.take(k));
        sender_refusal_stands(fields, k + 1);
    } else {
        assert(fields.take(k) =~= fields);
    }
}

/// Where no member is refused, what a key gives is not refused.
proof fn sender_lookup_unrefused(fields: Seq<(Seq<char>, JsonModel)>, key: Seq<char>)
    requires
        sender_refusal(fields) is None,
    ensures
        table::lookup(fields, key) matches Some(value) ==> sender_field_refusal(key, value) is None,
{
    sender_unrefused(fields);
    table::lookup_by_position(fields, key);
}

proof fn sender_unrefused(fields: Seq<(Seq<char>, JsonModel)>)
    requires
        sender_refusal(fields) is None,
    ensures
        forall|i: int|
            0 <= i < fields.len() ==> sender_field_refusal(
                (#[trigger] fields[i]).0,
                fields[i].1,
            ) is None,
    decreases fields.len(),
{
    if fields.len() > 0 {
        sender_unrefused(fields.drop_last());
        assert forall|i: int| 0 <= i < fields.len() implies sender_field_refusal(
            (#[trigger] fields[i]).0,
            fields[i].1,
        ) is None by {
            if i < fields.len() - 1 {
                assert(fields.drop_last()[i] == fields[i]);
            }
        }
    }
}

/// Why the members of a sender are refused: the first one that is.
fn sender_fields_refused(fields: &Vec<(String, Json)>) -> (r: Option<String>)
    ensures
        text::optional(r) == sender_refusal(json::field_models(fields@)),
{
    let ghost all = json::field_models(fields@);
    let mut i: usize = 0;
    assert(all.take(0) =~= seq![]);
    while i < fields.len()
        invariant
            all == json::field_models(fields@),
            i <= fields@.len(),
            sender_refusal(all.take(i as int)) is None,
        decreases fields@.len() - i,
    {
        assert(all.take(i + 1).drop_last() =~= all.take(i as int));
        assert(all.take(i + 1).last() == (fields@[i as int].0@, fields@[i as int].1@));
        if let Some(reason) = sender_field_refused(fields[i].0.as_str(), &fields[i].1) {
            proof {
                sender_refusal_stands(all, i + 1);
            }
            return Some(reason);
        }
        i += 1;
    }
    assert(all.take(i as int) =~= all);
    None
}

/// Why the member `value` of a sender under `key` is refused.
fn sender_field_refused(key: &str, value: &Json) -> (r: Option<String>)
    ensures
        text::optional(r) == sender_field_refusal(key@, value@),
{
    if text::same(key, "source_id") {
        match read_text(value) {
            Ok(_) => None,
            Err(reason) => Some(reason),
        }
    } else if text::same(key, "display_name") {
        match read_optional_text(value) {
            Ok(_) => None,
            Err(reason) => Some(reason),
        }
    } else {
        None
    }
}

/// A value read as a sender: an object, or a list of the ID and the name.
fn read_sender(value: &Json) -> (r: Result<IrisSender, String>)
    ensures
        reading(r) == sender_value(value@),
{
    match value {
        Json::Object { fields, .. } => {
            let ghost all = json::field_models(fields@);
            assert(value@->Object_fields =~= all);
            if let Some(reason) = sender_fields_refused(fields) {
                return Err(reason);
            }
            proof {
                sender_lookup_unrefused(all, "source_id"@);
                sender_lookup_unrefused(all, "display_name"@);
                reveal_strlit("source_id");
                reveal_strlit("display_name");
                assert("source_id"@.len() != "display_name"@.len());
            }
            let source_id = match value.get("source_id") {
                Some(source_id) => read_text(source_id)?,
                None => return Err(missing_text("source_id")),
            };
            let display_name = match value.get("display_name") {
                Some(name) => read_optional_text(name)?,
                None => None,
            };
            Ok(IrisSender { source_id, display_name })
        },
        Json::Array { items, .. } => {
            assert forall|i: int| 0 <= i < items@.len() implies #[trigger] items@[i]@
                == value@->Array_items[i] by {}
            if items.len() < 1 {
                return Err(length_text(0, "struct IrisSender with 2 elements"));
            }
            let source_id = read_text(&items[0])?;
            if items.len() < 2 {
                return Err(length_text(1, "struct IrisSender with 2 elements"));
            }
            let display_name = read_optional_text(&items[1])?;
            if items.len() > 2 {
                return Err(length_text(items.len(), "fewer elements in array"));
            }
            Ok(IrisSender { source_id, display_name })
        },
        _ => Err(mismatch_text(value, "struct IrisSender")),
    }
}

/// A member that is refused early is why the whole is refused.
proof fn message_refusal_stands(fields: Seq<(Seq<char>, JsonModel)>, k: int)
    requires
        0 <= k <= fields.len(),
        message_refusal(fields.take(k)) is Some,
    ensures
        message_refusal(fields) == message_refusal(fields.take(k)),
    decreases fields.len() - k,
{
    if k < fields.len() {
        assert(fields.take(k + 1).drop_last() =~= fields.take(k));
        message_refusal_stands(fields, k + 1);
    } else {
        assert(fields.take(k) =~= fields);
    }
}

/// Where no member is refused, what a key gives is not refused.
proof fn message_lookup_unrefused(fields: Seq<(Seq<char>, JsonModel)>, key: Seq<char>)
    requires
        message_refusal(fields) is None,
    ensures
        table::lookup(fields, key) matches Some(value) ==> message_field_refusal(key, value) is None,
{
    message_unrefused(fields);
    table::lookup_by_position(fields, key);
}

proof fn message_unrefused(fields: Seq<(Seq<char>, JsonModel)>)
    requires
        message_refusal(fields) is None,
    ensures
        forall|i: int|
            0 <= i < fields.len() ==> message_field_refusal(
                (#[trigger] fields[i]).0,
                fields[i].1,
            ) is None,
    decreases fields.len(),
{
    if fields.len() > 0 {
        message_unrefused(fields.drop_last());
        assert forall|i: int| 0 <= i < fields.len() implies message_field_refusal(
            (#[trigger] fields[i]).0,
            fields[i].1,
        ) is None by {
            if i < fields.len() - 1 {
                assert(fields.drop_last()[i] == fields[i]);
            }
        }
    }
}

/// Why the members of a message are refused: the first one that is.
fn message_fields_refused(fields: &Vec<(String, Json)>) -> (r: Option<String>)
    ensures
        text::optional(r) == message_refusal(json::field_models(fields@)),
{
    let ghost all = json::field_models(fields@);
    let mut i: usize = 0;
    assert(all.take(0) =~= seq![]);
    while i < fields.len()
        invariant
            all == json::field_models(fields@),
            i <= fields@.len(),
            message_refusal(all.take(i as int)) is None,
        decreases fields@.len() - i,
    {
        assert(all.take(i + 1).drop_last() =~= all.take(i as int));
        assert(all.take(i + 1).last() == (fields@[i as int].0@, fields@[i as int].1@));
        if let Some(reason) = message_field_refused(fields[i].0.as_str(), &fields[i].1) {
            proof {
                message_refusal_stands(all, i + 1);
            }
            return Some(reason);
        }
        i += 1;
    }
    assert(all.take(i as int) =~= all);
    None
}

/// Why the member `value` of a message under `key` is refused.
fn message_field_refused(key: &str, value: &Json) -> (r: Option<String>)
    ensures
        text::optional(r) == message_field_refusal(key@, value@),
{
    if text::same(key, "source") || text::same(key, "source_id") || text::same(key, "kind")
        || text::same(key, "body") {
        match read_text(value) {
            Ok(_) => None,
            Err(reason) => Some(reason),
        }
    } else if text::same(key, "sender") {
        match read_sender(value) {
            Ok(_) => None,
            Err(reason) => Some(reason),
        }
    } else if text::same(key, "timestamp") {
        match read_time(value) {
            Ok(_) => None,
            Err(reason) => Some(reason),
        }
    } else {
        None
    }
}

/// An object whose members are not refused, read as a message.
fn read_object(value: &Json) -> (r: Result<IrisMessage, String>)
    requires
        value@ is Object,
        message_refusal(value@->Object_fields) is None,
    ensures
        reading(r) == message_value(value@),
        r matches Ok(message) ==> message.timestamp.valid(),
{
    let ghost all = value@->Object_fields;
    let (source, source_id, sender, kind, body, timestamp) = (
        value.get("source"),
        value.get("source_id"),
        value.get("sender"),
        value.get("kind"),
        value.get("body"),
        value.get("timestamp"),
    );
    proof {
        message_lookup_unrefused(all, "source"@);
        message_lookup_unrefused(all, "source_id"@);
        message_lookup_unrefused(all, "sender"@);
        message_lookup_unrefused(all, "kind"@);
        message_lookup_unrefused(all, "body"@);
        message_lookup_unrefused(all, "timestamp"@);
        reveal_strlit("source");
        reveal_strlit("source_id");
        reveal_strlit("sender");
        reveal_strlit("kind");
        reveal_strlit("body");
        reveal_strlit("timestamp");
        assert("source"@[1] == 'o' && "sender"@[1] == 'e' && "timestamp"@[0] == 't'
            && "source_id"@[0] == 's' && "kind"@.len() == 4 && "body"@.len() == 4
            && "source"@.len() == 6 && "source_id"@.len() == 9 && "sender"@.len() == 6
            && "timestamp"@.len() == 9);
    }
    let source = match source {
        Some(source) => source,
        None => return Err(missing_text("source")),
    };
    let source_id = match source_id {
        Some(source_id) => source_id,
        None => return Err(missing_text("source_id")),
    };
    let sender = match sender {
        Some(sender) => sender,
        None => return Err(missing_text("sender")),
    };
    let kind = match kind {
        Some(kind) => kind,
        None => return Err(missing_text("kind")),
    };
    let body = match body {
        Some(body) => body,
        None => return Err(missing_text("body")),
    };
    let timestamp = match timestamp {
        Some(timestamp) => timestamp,
        None => return Err(missing_text("timestamp")),
    };
    let metadata = match value.get("metadata") {
        Some(metadata) => metadata.clone(),
        None => Json::Null,
    };
    Ok(
        IrisMessage {
            source: read_text(source)?,
            source_id: read_text(source_id)?,
            sender: read_sender(sender)?,
            kind: read_text(kind)?,
            body: read_text(body)?,
            timestamp: read_time(timestamp)?,
            metadata,
        },
    )
}

/// A list read as a message.
fn read_list(items: &Vec<Json>, Ghost(models): Ghost<Seq<JsonModel>>) -> (r: Result<
    IrisMessage,
    String,
>)
    requires
        models.len() == items@.len(),
        forall|i: int| 0 <= i < items@.len() ==> #[trigger] models[i] == items@[i]@,
    ensures
        match list_refusal(models) {
            Some(reason) => reading(r) == Err::<MessageModel, _>(reason),
            None => reading(r) == Ok::<_, Seq<char>>(
                MessageModel {
                    source: text_value(models[0])->Ok_0,
                    source_id: text_value(models[1])->Ok_0,
                    sender: sender_value(models[2])->Ok_0,
                    kind: text_value(models[3])->Ok_0,
                    body: text_value(models[4])->Ok_0,
                    timestamp: time_value(models[5])->Ok_0,
                    metadata: if models.len() == 7 {
                        models[6]
                    } else {
                        JsonModel::Null
                    },
                },
            ),
        },
        r matches Ok(message) ==> message.timestamp.valid(),
{
    if items.len() < 1 {
        return Err(length_text(0, "struct IrisMessage with 7 elements"));
    }
    let source = read_text(&items[0])?;
    if items.len() < 2 {
        return Err(length_text(1, "struct IrisMessage with 7 elements"));
    }
    let source_id = read_text(&items[1])?;
    if items.len() < 3 {
        return Err(length_text(2, "struct IrisMessage with 7 elements"));
    }
    let sender = read_sender(&items[2])?;
    if items.len() < 4 {
        return Err(length_text(3, "struct IrisMessage with 7 elements"));
    }
    let kind = read_text(&items[3])?;
    if items.len() < 5 {
        return Err(length_text(4, "struct IrisMessage with 7 elements"));
    }
    let body = read_text(&items[4])?;
    if items.len() < 6 {
        return Err(length_text(5, "struct IrisMessage with 7 elements"));
    }
    let timestamp = read_time(&items[5])?;
    if items.len() > 7 {
        return Err(length_text(items.len(), "fewer elements in array"));
    }
    let metadata = if items.len() == 7 {
        items[6].clone()
    } else {
        Json::Null
    };
    Ok(IrisMessage { source, source_id, sender, kind, body, timestamp, metadata })
}

/// A value read as a message: an object, or a list of the fields in their order.
pub fn read_message(value: &Json) -> (r: Result<IrisMessage, String>)
    ensures
        reading(r) == message_value(value@),
        r matches Ok(message) ==> message.timestamp.valid(),
{
    match value {
        Json::Object { fields, .. } => {
            assert(value@->Object_fields =~= json::field_models(fields@));
            if let Some(reason) = message_fields_refused(fields) {
                return Err(reason);
            }
            read_object(value)
        },
        Json::Array { items, .. } => read_list(items, Ghost(value@->Array_items)),
        _ => Err(mismatch_text(value, "struct IrisMessage")),
    }
}

/// A text is read from a string alone, an optional one from `null` too, and a time
/// from a string that spells one.
pub proof fn scalars_are_read(value: JsonModel, s: Seq<char>, time: Timestamp)
    ensures
        text_value(value) == Ok::<_, Seq<char>>(s) <==> value == JsonModel::String(s),
        optional_text_value(value) == Ok::<_, Seq<char>>(Some(s)) <==> value == JsonModel::String(
            s,
        ),
        optional_text_value(value) == Ok::<Option<Seq<char>>, Seq<char>>(None) <==> value
            == JsonModel::Null,
        text_value(value) is Ok <==> value is String,
        optional_text_value(value) is Ok <==> value is String || value is Null,
        time_value(value) == Ok::<_, Seq<char>>(time) <==> value is String && time::timestamp_of(
            value->String_0,
        ) == Ok::<_, Seq<char>>((time.seconds, time.nanos)),
{
}

/// A value of the wrong type is refused for what it is and what was expected.
pub proof fn wrong_types_are_named(value: JsonModel, s: Seq<char>, b: bool)
    ensures
        value !is String ==> text_value(value) == Err::<Seq<char>, _>(
            "invalid type: "@ + unexpected(value) + ", expected "@ + "a string"@,
        ),
        unexpected(JsonModel::Null) == "null"@,
        unexpected(JsonModel::Bool(b)) == (if b {
            "boolean `true`"@
        } else {
            "boolean `false`"@
        }),
        unexpected(JsonModel::String(s)) == "string "@ + debug_text(s),
        value is Array ==> unexpected(value) == "sequence"@,
        value is Object ==> unexpected(value) == "map"@,
        value is Number && value->Number_float ==> unexpected(value) == "floating point `"@
            + value->Number_text + "`"@,
        value is Number && !value->Number_float ==> unexpected(value) == "integer `"@
            + value->Number_text + "`"@,
{
}

proof fn sender_unrefused_by_member(fields: Seq<(Seq<char>, JsonModel)>)
    requires
        forall|i: int|
            0 <= i < fields.len() ==> sender_field_refusal(
                (#[trigger] fields[i]).0,
                fields[i].1,
            ) is None,
    ensures
        sender_refusal(fields) is None,
    decreases fields.len(),
{
    if fields.len() > 0 {
        let rest = fields.drop_last();
        assert forall|i: int| 0 <= i < rest.len() implies sender_field_refusal(
            (#[trigger] rest[i]).0,
            rest[i].1,
        ) is None by {
            assert(rest[i] == fields[i]);
        }
        sender_unrefused_by_member(rest);
        assert(sender_field_refusal(fields[fields.len() - 1].0, fields[fields.len() - 1].1) is None);
    }
}

proof fn message_unrefused_by_member(fields: Seq<(Seq<char>, JsonModel)>)
    requires
        forall|i: int|
            0 <= i < fields.len() ==> message_field_refusal(
                (#[trigger] fields[i]).0,
                fields[i].1,
            ) is None,
    ensures
        message_refusal(fields) is None,
    decreases fields.len(),
{
    if fields.len() > 0 {
        let rest = fields.drop_last();
        assert forall|i: int| 0 <= i < rest.len() implies message_field_refusal(
            (#[trigger] rest[i]).0,
            rest[i].1,
        ) is None by {
            assert(rest[i] == fields[i]);
        }
        message_unrefused_by_member(rest);
        assert(message_field_refusal(fields[fields.len() - 1].0, fields[fields.len() - 1].1) is None);
    }
}

/// No key stands twice among the members.
pub open spec fn distinct_keys(fields: Seq<(Seq<char>, JsonModel)>) -> bool {
    forall|i: int, j: int|
        0 <= i < j < fields.len() ==> (#[trigger] fields[i]).0 != (#[trigger] fields[j]).0
}

proof fn sole_member(fields: Seq<(Seq<char>, JsonModel)>, i: int)
    requires
        distinct_keys(fields),
        0 <= i < fields.len(),
    ensures
        table::lookup(fields, fields[i].0) == Some(fields[i].1),
{
    let key = fields[i].0;
    table::lookup_by_position(fields, key);
    let v = table::lookup(fields, key)->0;
    let k = choose|k: int| 0 <= k < fields.len() && #[trigger] fields[k] == (key, v);
    assert(k < i ==> fields[k].0 != fields[i].0);
    assert(i < k ==> fields[i].0 != fields[k].0);
}

/// An object is read as a sender exactly when its ID is a string and its name, if
/// there is one, is a string or `null`.
pub proof fn sender_objects(fields: Seq<(Seq<char>, JsonModel)>, text: Seq<char>)
    requires
        distinct_keys(fields),
    ensures
        ({
            let id = table::lookup(fields, "source_id"@);
            let name = table::lookup(fields, "display_name"@);
            let read = sender_value(JsonModel::Object { fields, text });
            &&& read is Ok <==> id is Some && id->0 is String && (name is Some ==> name->0 is String
                || name->0 is Null)
            &&& read is Ok ==> id == Some(JsonModel::String(read->Ok_0.source_id))
            &&& read is Ok ==> match read->Ok_0.display_name {
                Some(shown) => name == Some(JsonModel::String(shown)),
                None => name is None || name == Some(JsonModel::Null),
            }
        }),
{
    reveal_strlit("source_id");
    reveal_strlit("display_name");
    assert("source_id"@.len() == 9 && "display_name"@.len() == 12);
    let id = table::lookup(fields, "source_id"@);
    let name = table::lookup(fields, "display_name"@);
    if sender_refusal(fields) is None {
        sender_lookup_unrefused(fields, "source_id"@);
        sender_lookup_unrefused(fields, "display_name"@);
    }
    if id is Some && id->0 is String && (name is Some ==> name->0 is String || name->0 is Null) {
        assert forall|i: int| 0 <= i < fields.len() implies sender_field_refusal(
            (#[trigger] fields[i]).0,
            fields[i].1,
        ) is None by {
            sole_member(fields, i);
        }
        sender_unrefused_by_member(fields);
    }
}

/// The value is a string that spells a time.
pub open spec fn spells_time(value: JsonModel) -> bool {
    value is String && time::timestamp_of(value->String_0) is Ok
}

/// An object is read as a message exactly when the provider, the ID, the kind and
/// the body are strings, the sender is a sender, and the timestamp spells a time.
/// The message holds what the members give, and `null` where no metadata is given.
pub proof fn message_objects(fields: Seq<(Seq<char>, JsonModel)>, text: Seq<char>)
    requires
        distinct_keys(fields),
    ensures
        ({
            let read = message_value(JsonModel::Object { fields, text });
            let source = table::lookup(fields, "source"@);
            let source_id = table::lookup(fields, "source_id"@);
            let sender = table::lookup(fields, "sender"@);
            let kind = table::lookup(fields, "kind"@);
            let body = table::lookup(fields, "body"@);
            let timestamp = table::lookup(fields, "timestamp"@);
            &&& read is Ok <==> source is Some && source->0 is String && source_id is Some
                && source_id->0 is String && sender is Some && sender_value(sender->0) is Ok
                && kind is Some && kind->0 is String && body is Some && body->0 is String
                && timestamp is Some && spells_time(timestamp->0)
            &&& read is Ok ==> {
                let message = read->Ok_0;
                &&& source == Some(JsonModel::String(message.source))
                &&& source_id == Some(JsonModel::String(message.source_id))
                &&& sender_value(sender->0) == Ok::<_, Seq<char>>(message.sender)
                &&& kind == Some(JsonModel::String(message.kind))
                &&& body == Some(JsonModel::String(message.body))
                &&& time::timestamp_of(timestamp->0->String_0) == Ok::<_, Seq<char>>(
                    (message.timestamp.seconds, message.timestamp.nanos),
                )
                &&& message.metadata == match table::lookup(fields, "metadata"@) {
                    Some(metadata) => metadata,
                    None => JsonModel::Null,
                }
            }
        }),
{
    reveal_strlit("source");
    reveal_strlit("source_id");
    reveal_strlit("sender");
    reveal_strlit("kind");
    reveal_strlit("body");
    reveal_strlit("timestamp");
    assert("source"@[1] == 'o' && "sender"@[1] == 'e' && "timestamp"@[0] == 't'
        && "source_id"@[0] == 's' && "kind"@[0] == 'k' && "body"@[0] == 'b' && "kind"@.len() == 4
        && "body"@.len() == 4 && "source"@.len() == 6 && "source_id"@.len() == 9 && "sender"@.len()
        == 6 && "timestamp"@.len() == 9);
    let source = table::lookup(fields, "source"@);
    let source_id = table::lookup(fields, "source_id"@);
    let sender = table::lookup(fields, "sender"@);
    let kind = table::lookup(fields, "kind"@);
    let body = table::lookup(fields, "body"@);
    let timestamp = table::lookup(fields, "timestamp"@);
    if message_refusal(fields) is None {
        message_lookup_unrefused(fields, "source"@);
        message_lookup_unrefused(fields, "source_id"@);
        message_lookup_unrefused(fields, "sender"@);
        message_lookup_unrefused(fields, "kind"@);
        message_lookup_unrefused(fields, "body"@);
        message_lookup_unrefused(fields, "timestamp"@);
    }
    if source is Some && source->0 is String && source_id is Some && source_id->0 is String
        && sender is Some && sender_value(sender->0) is Ok && kind is Some && kind->0 is String
        && body is Some && body->0 is String && timestamp is Some && spells_time(timestamp->0) {
        assert forall|i: int| 0 <= i < fields.len() implies message_field_refusal(
            (#[trigger] fields[i]).0,
            fields[i].1,
        ) is None by {
            sole_member(fields, i);
        }
        message_unrefused_by_member(fields);
    }
}

/// Of an object whose members are of the right types, the first field that it lacks
/// is named as missing, in the order of a message's fields.
pub proof fn missing_fields_are_named(
    fields: Seq<(Seq<char>, JsonModel)>,
    text: Seq<char>,
    names: Seq<Seq<char>>,
    k: int,
)
    requires
        names == seq!["source"@, "source_id"@, "sender"@, "kind"@, "body"@, "timestamp"@],
        0 <= k < 6,
        forall|j: int| 0 <= j < k ==> table::lookup(fields, #[trigger] names[j]) is Some,
        table::lookup(fields, names[k]) is None,
        message_refusal(fields) is None,
    ensures
        message_value(JsonModel::Object { fields, text }) == Err::<MessageModel, _>(
            "missing field `"@ + names[k] + "`"@,
        ),
{
    assert(names[0] == "source"@ && names[1] == "source_id"@ && names[2] == "sender"@ && names[3]
        == "kind"@ && names[4] == "body"@ && names[5] == "timestamp"@);
}

/// Which members an object is refused for: the texts for not being strings, the
/// sender and the timestamp for what they are refused for, and no other.
pub proof fn members_are_refused_for_their_type(key: Seq<char>, value: JsonModel)
    ensures
        key == "source"@ || key == "source_id"@ || key == "kind"@ || key == "body"@ ==> (
        message_field_refusal(key, value) is None <==> value is String) && (value !is String
            ==> message_field_refusal(key, value) == Some(
            "invalid type: "@ + unexpected(value) + ", expected "@ + "a string"@,
        )),
        key == "sender"@ ==> message_field_refusal(key, value) == match sender_value(value) {
            Ok(_) => None,
            Err(reason) => Some(reason),
        },
        key == "timestamp"@ ==> message_field_refusal(key, value) == match value {
            JsonModel::String(s) => match time::timestamp_of(s) {
                Ok(_) => None,
                Err(reason) => Some(reason),
            },
            _ => Some(
                "invalid type: "@ + unexpected(value) + ", expected "@
                    + "an RFC 3339 formatted date and time string"@,
            ),
        },
        key != "source"@ && key != "source_id"@ && key != "sender"@ && key != "kind"@ && key
            != "body"@ && key != "timestamp"@ ==> message_field_refusal(key, value) is None,
{
    reveal_strlit("source");
    reveal_strlit("source_id");
    reveal_strlit("sender");
    reveal_strlit("kind");
    reveal_strlit("body");
    reveal_strlit("timestamp");
    assert("source"@[1] == 'o' && "sender"@[1] == 'e' && "timestamp"@[0] == 't'
        && "source_id"@[0] == 's' && "kind"@.len() == 4 && "body"@.len() == 4 && "source"@.len()
        == 6 && "source_id"@.len() == 9 && "sender"@.len() == 6 && "timestamp"@.len() == 9);
}

/// The first member that is refused is why an object is.
pub proof fn first_wrong_member_refuses(
    fields: Seq<(Seq<char>, JsonModel)>,
    text: Seq<char>,
    k: int,
)
    requires
        0 <= k < fields.len(),
        forall|i: int|
            0 <= i < k ==> message_field_refusal((#[trigger] fields[i]).0, fields[i].1) is None,
        message_field_refusal(fields[k].0, fields[k].1) is Some,
    ensures
        message_value(JsonModel::Object { fields, text }) == Err::<MessageModel, _>(
            message_field_refusal(fields[k].0, fields[k].1)->0,
        ),
{
    let front = fields.take(k);
    assert forall|i: int| 0 <= i < front.len() implies message_field_refusal(
        (#[trigger] front[i]).0,
        front[i].1,
    ) is None by {
        assert(front[i] == fields[i]);
    }
    message_unrefused_by_member(front);
    assert(fields.take(k + 1).drop_last() =~= front);
    assert(fields.take(k + 1).last() == fields[k]);
    message_refusal_stands(fields, k + 1);
}

/// A list that is too short or too long is refused for its length, once its elements
/// so far are of the right types, and the first that is not is why it is refused.
pub proof fn lists_are_refused(items: Seq<JsonModel>, text: Seq<char>)
    ensures
        ({
            let read = message_value(JsonModel::Array { items, text });
            let n = items.len();
            let fits = |k: int|
                if k == 2 {
                    sender_value(items[k]) is Ok
                } else if k == 5 {
                    spells_time(items[k])
                } else {
                    items[k] is String
                };
            &&& n < 6 && (forall|k: int| 0 <= k < n ==> #[trigger] fits(k)) ==> read == Err::<
                MessageModel,
                _,
            >(
                "invalid length "@ + text::numeral(n) + ", expected "@
                    + "struct IrisMessage with 7 elements"@,
            )
            &&& n > 7 && (forall|k: int| 0 <= k < 6 ==> #[trigger] fits(k)) ==> read == Err::<
                MessageModel,
                _,
            >("invalid length "@ + text::numeral(n) + ", expected "@ + "fewer elements in array"@)
            &&& forall|k: int|
                0 <= k < n && k < 6 && !#[trigger] fits(k) && (forall|j: int|
                    0 <= j < k ==> #[trigger] fits(j)) ==> read == Err::<MessageModel, _>(
                    if k == 2 {
                        sender_value(items[k])->Err_0
                    } else if k == 5 {
                        time_value(items[k])->Err_0
                    } else {
                        "invalid type: "@ + unexpected(items[k]) + ", expected "@ + "a string"@
                    },
                )
        }),
{
    let fits = |k: int|
        if k == 2 {
            sender_value(items[k]) is Ok
        } else if k == 5 {
            spells_time(items[k])
        } else {
            items[k] is String
        };
    if items.len() > 0 {
        assert(fits(0) == (items[0] is String));
    }
    if items.len() > 1 {
        assert(fits(1) == (items[1] is String));
    }
    if items.len() > 2 {
        assert(fits(2) == (sender_value(items[2]) is Ok));
    }
    if items.len() > 3 {
        assert(fits(3) == (items[3] is String));
    }
    if items.len() > 4 {
        assert(fits(4) == (items[4] is String));
    }
    if items.len() > 5 {
        assert(fits(5) == spells_time(items[5]));
    }
}

/// A sender is refused for what it is, for its first member of the wrong type, or
/// for the ID that it lacks.
pub proof fn senders_are_refused(value: JsonModel, key: Seq<char>, member: JsonModel)
    ensures
        value !is Object && value !is Array ==> sender_value(value) == Err::<SenderModel, _>(
            "invalid type: "@ + unexpected(value) + ", expected "@ + "struct IrisSender"@,
        ),
        value !is Object && value !is Array ==> message_value(value) == Err::<MessageModel, _>(
            "invalid type: "@ + unexpected(value) + ", expected "@ + "struct IrisMessage"@,
        ),
        (value matches JsonModel::Object { fields, .. } && sender_refusal(fields) is None
            && table::lookup(fields, "source_id"@) is None) ==> sender_value(value) == Err::<
            SenderModel,
            _,
        >("missing field `"@ + "source_id"@ + "`"@),
        (value matches JsonModel::Object { fields, .. } && sender_refusal(fields) is Some)
            ==> sender_value(value) == Err::<SenderModel, _>(
            sender_refusal(value->Object_fields)->0,
        ),
        sender_field_refusal(key, member) is Some <==> (key == "source_id"@ && member !is String)
            || (key == "display_name"@ && member !is String && member !is Null),
        sender_field_refusal(key, member) matches Some(reason) ==> reason == "invalid type: "@
            + unexpected(member) + ", expected "@ + "a string"@,
{
    reveal_strlit("source_id");
    reveal_strlit("display_name");
    assert("source_id"@.len() == 9 && "display_name"@.len() == 12);
}

/// What is read is seen as the value or the reason that it is.
pub proof fn readings_are_seen_whole<T: View>(value: T, reason: String)
    ensures
        reading(Ok::<T, String>(value)) == Ok::<T::V, Seq<char>>(value@),
        reading(Err::<T, String>(reason)) == Err::<T::V, Seq<char>>(reason@),
{
}

/// A list is read as a message exactly when it has six or seven elements of the
/// right types, in the order of a message's fields, and as a sender when it has an
/// ID and a name. Anything that is neither object nor list is refused.
pub proof fn message_lists(items: Seq<JsonModel>, text: Seq<char>, other: JsonModel)
    requires
        other !is Object,
        other !is Array,
    ensures
        ({
            let read = message_value(JsonModel::Array { items, text });
            &&& read is Ok <==> 6 <= items.len() <= 7 && items[0] is String && items[1] is String
                && sender_value(items[2]) is Ok && items[3] is String && items[4] is String
                && spells_time(items[5])
            &&& read is Ok ==> {
                let message = read->Ok_0;
                &&& items[0] == JsonModel::String(message.source)
                &&& items[1] == JsonModel::String(message.source_id)
                &&& sender_value(items[2]) == Ok::<_, Seq<char>>(message.sender)
                &&& items[3] == JsonModel::String(message.kind)
                &&& items[4] == JsonModel::String(message.body)
                &&& time::timestamp_of(items[5]->String_0) == Ok::<_, Seq<char>>(
                    (message.timestamp.seconds, message.timestamp.nanos),
                )
                &&& items.len() == 7 ==> message.metadata == items[6]
                &&& items.len() == 6 ==> message.metadata == JsonModel::Null
            }
        }),
        ({
            let read = sender_value(JsonModel::Array { items, text });
            &&& read is Ok <==> items.len() == 2 && items[0] is String && (items[1] is String
                || items[1] is Null)
            &&& read is Ok ==> items[0] == JsonModel::String(read->Ok_0.source_id) && items[1]
                == match read->Ok_0.display_name {
                Some(name) => JsonModel::String(name),
                None => JsonModel::Null,
            }
        }),
        message_value(other) is Err,
        sender_value(other) is Err,
{
}

/// A message is seen whole.
pub proof fn messages_are_seen_whole(message: IrisMessage)
    ensures
        message@.source == message.source@,
        message@.source_id == message.source_id@,
        message@.sender.source_id == message.sender.source_id@,
        message@.sender.display_name == (match message.sender.display_name {
            Some(name) => Some(name@),
            None => None,
        }),
        message@.kind == message.kind@,
        message@.body == message.body@,
        message@.timestamp == message.timestamp,
        message@.metadata == message.metadata@,
{
}

} // verus!
