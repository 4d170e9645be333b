//! JSON values as the rules of this crate read them.

use crate::table;
use crate::table::Table;
use crate::text;
use vstd::prelude::*;

verus! {

/// A JSON number: its integer value where it has one in range, and its text.
#[derive(Debug, PartialEq, Eq)]
pub struct JsonNumber {
    /// The value, where the number is an integer between `i64::MIN` and `i64::MAX`.
    pub integer: Option<i64>,
    /// Whether the number is held in floating point.
    pub float: bool,
    /// The number as JSON text.
    pub text: String,
}

/// A JSON value.
///
/// Arrays and objects carry their compact JSON text beside their members, since
/// templates render them as that text.
#[derive(Debug, PartialEq, Eq)]
pub enum Json {
    /// `null`.
    Null,
    /// `true` or `false`.
    Bool(bool),
    /// A number.
    Number(JsonNumber),
    /// A string.
    String(String),
    /// An array.
    Array {
        /// The elements, in order.
        items: Vec<Json>,
        /// The array as compact JSON text.
        text: String,
    },
    /// An object.
    Object {
        /// The members, in order.
        fields: Vec<(String, Json)>,
        /// The object as compact JSON text.
        text: String,
    },
}

/// The mathematical value of a [`Json`].
pub enum JsonModel {
    /// `null`.
    Null,
    /// `true` or `false`.
    Bool(bool),
    /// A number.
    Number {
        /// The value, where it is an integer in the range of `i64`.
        integer: Option<i64>,
        /// Whether the number is held in floating point.
        float: bool,
        /// The number as JSON text.
        text: Seq<char>,
    },
    /// A string.
    String(Seq<char>),
    /// An array.
    Array {
        /// The elements, in order.
        items: Seq<JsonModel>,
        /// The array as compact JSON text.
        text: Seq<char>,
    },
    /// An object.
    Object {
        /// The members, in order.
        fields: Seq<(Seq<char>, JsonModel)>,
        /// The object as compact JSON text.
        text: Seq<char>,
    },
}

/// The mathematical value of `json`.
pub open spec fn model(json: Json) -> JsonModel
    decreases json,
{
    match json {
        Json::Null => JsonModel::Null,
        Json::Bool(b) => JsonModel::Bool(b),
        Json::Number(n) => JsonModel::Number {
            integer: n.integer,
            float: n.float,
            text: n.text@,
        },
        Json::String(s) => JsonModel::String(s@),
        Json::Array { items, text } => JsonModel::Array {
            items: Seq::new(
                items@.len(),
                |i: int|
                    if 0 <= i < items@.len() {
                        model(items@[i])
                    } else {
                        JsonModel::Null
                    },
            ),
            text: text@,
        },
        Json::Object { fields, text } => JsonModel::Object {
            fields: Seq::new(
                fields@.len(),
                |i: int|
                    if 0 <= i < fields@.len() {
                        (fields@[i].0@, model(fields@[i].1))
                    } else {
                        (seq![], JsonModel::Null)
                    },
            ),
            text: text@,
        },
    }
}

impl View for Json {
    type V = JsonModel;

    open spec fn view(&self) -> JsonModel {
        model(*self)
    }
}

impl JsonModel {
    /// The text of a string; nothing for any other value.
    pub open spec fn as_str(self) -> Option<Seq<char>> {
        match self {
            JsonModel::String(s) => Some(s),
            _ => None,
        }
    }

    /// The value of an integer in the range of `i64`; nothing for any other value.
    pub open spec fn as_i64(self) -> Option<i64> {
        match self {
            JsonModel::Number { integer, .. } => integer,
            _ => None,
        }
    }

    /// The value of a boolean; nothing for any other value.
    pub open spec fn as_bool(self) -> Option<bool> {
        match self {
            JsonModel::Bool(b) => Some(b),
            _ => None,
        }
    }

    /// The member of an object under `key`; nothing for any other value.
    pub open spec fn get(self, key: Seq<char>) -> Option<JsonModel> {
        match self {
            JsonModel::Object { fields, .. } => table::lookup(fields, key),
            _ => None,
        }
    }

    /// The text of the member of an object under `key`.
    pub open spec fn text_at(self, key: Seq<char>) -> Option<Seq<char>> {
        match self.get(key) {
            Some(member) => member.as_str(),
            None => None,
        }
    }

    /// The value as plain text: a string without its quotes, nothing for `null`,
    /// and JSON text for everything else.
    pub open spec fn plain_text(self) -> Seq<char> {
        match self {
            JsonModel::Null => seq![],
            JsonModel::Bool(b) => if b {
                "true"@
            } else {
                "false"@
            },
            JsonModel::Number { text, .. } => text,
            JsonModel::String(s) => s,
            JsonModel::Array { text, .. } => text,
            JsonModel::Object { text, .. } => text,
        }
    }

    /// The JSON number `n`.
    pub open spec fn from_integer(n: i64) -> JsonModel {
        JsonModel::Number { integer: Some(n), float: false, text: text::signed_numeral(n as int) }
    }
}

impl Clone for JsonNumber {
    fn clone(&self) -> (r: JsonNumber)
        ensures
            r == *self,
    {
        JsonNumber { integer: self.integer, float: self.float, text: self.text.clone() }
    }
}

impl Clone for Json {
    fn clone(&self) -> (r: Json)
        ensures
            r@ == self@,
        decreases self,
    {
        match self {
            Json::Null => Json::Null,
            Json::Bool(b) => Json::Bool(*b),
            Json::Number(n) => Json::Number(n.clone()),
            Json::String(s) => Json::String(s.clone()),
            Json::Array { items, text } => {
                let mut copies: Vec<Json> = Vec::new();
                let mut i: usize = 0;
                while i < items.len()
                    invariant
                        *self == (Json::Array { items: *items, text: *text }),
                        i <= items@.len(),
                        copies@.len() == i,
                        forall|j: int|
                            0 <= j < i ==> model(#[trigger] copies@[j]) == model(items@[j]),
                    decreases items@.len() - i,
                {
                    assert(decreases_to!(*self => self->Array_items@[i as int]));
                    copies.push(items[i].clone());
                    i += 1;
                }
                let copy = Json::Array { items: copies, text: text.clone() };
                assert(copy@->Array_items =~= self@->Array_items);
                copy
            },
            Json::Object { fields, text } => {
                let mut copies: Vec<(String, Json)> = Vec::new();
                let mut i: usize = 0;
                while i < fields.len()
                    invariant
                        *self == (Json::Object { fields: *fields, text: *text }),
                        i <= fields@.len(),
                        copies@.len() == i,
                        forall|j: int|
                            0 <= j < i ==> (#[trigger] copies@[j]).0@ == fields@[j].0@ && model(
                                copies@[j].1,
                            ) == model(fields@[j].1),
                    decreases fields@.len() - i,
                {
                    assert(decreases_to!(*self => self->Object_fields@[i as int].1));
                    copies.push((fields[i].0.clone(), fields[i].1.clone()));
                    i += 1;
                }
                let copy = Json::Object { fields: copies, text: text.clone() };
                assert(copy@->Object_fields =~= self@->Object_fields);
                copy
            },
        }
    }
}

impl Json {
    /// The JSON string of this text.
    pub fn string(s: &str) -> (json: Json)
        ensures
            json@ == JsonModel::String(s@),
    {
        Json::String(s.to_owned())
    }

    /// The JSON number `n`.
    pub fn integer(n: i64) -> (json: Json)
        ensures
            json@ == JsonModel::from_integer(n),
    {
        Json::Number(JsonNumber { integer: Some(n), float: false, text: text::signed_decimal(n) })
    }

    /// The text of a string; nothing for any other value.
    pub fn as_str(&self) -> (r: Option<&str>)
        ensures
            match r {
                Some(s) => self@.as_str() == Some(s@),
                None => self@.as_str() is None,
            },
    {
        match self {
            Json::String(s) => Some(s.as_str()),
            _ => None,
        }
    }

    /// The value of an integer in the range of `i64`; nothing for any other value.
    pub fn as_i64(&self) -> (r: Option<i64>)
        ensures
            r == self@.as_i64(),
    {
        match self {
            Json::Number(n) => n.integer,
            _ => None,
        }
    }

    /// The value of a boolean; nothing for any other value.
    pub fn as_bool(&self) -> (r: Option<bool>)
        ensures
            r == self@.as_bool(),
    {
        match self {
            Json::Bool(b) => Some(*b),
            _ => None,
        }
    }

    /// Whether the value is `null`.
    pub fn is_null(&self) -> (yes: bool)
        ensures
            yes == (self@ is Null),
    {
        match self {
            Json::Null => true,
            _ => false,
        }
    }

    /// Whether the value is an object.
    pub fn is_object(&self) -> (yes: bool)
        ensures
            yes == (self@ is Object),
    {
        match self {
            Json::Object { .. } => true,
            _ => false,
        }
    }

    /// The member of an object under `key`; nothing for any other value.
    pub fn get(&self, key: &str) -> (r: Option<&Json>)
        ensures
            match r {
                Some(member) => self@.get(key@) == Some(member@),
                None => self@.get(key@) is None,
            },
    {
        match self {
            Json::Object { fields, .. } => {
                assert(self@->Object_fields =~= field_models(fields@));
                member_of(fields, key)
            },
            _ => None,
        }
    }

    /// The text of the member of an object under `key`.
    pub fn text_at(&self, key: &str) -> (r: Option<&str>)
        ensures
            match r {
                Some(s) => self@.text_at(key@) == Some(s@),
                None => self@.text_at(key@) is None,
            },
    {
        match self.get(key) {
            Some(member) => member.as_str(),
            None => None,
        }
    }

    /// The value as plain text: a string without its quotes, nothing for `null`,
    /// and JSON text for everything else.
    pub fn plain_text(&self) -> (s: String)
        ensures
            s@ == self@.plain_text(),
    {
        match self {
            Json::Null => String::new(),
            Json::Bool(b) => if *b {
                "true".to_owned()
            } else {
                "false".to_owned()
            },
            Json::Number(n) => n.text.clone(),
            Json::String(s) => s.clone(),
            Json::Array { text, .. } => text.clone(),
            Json::Object { text, .. } => text.clone(),
        }
    }
}

/// The function from a JSON value to its mathematical value.
pub open spec fn modelling() -> spec_fn(Json) -> JsonModel {
    |json: Json| json@
}

/// The mathematical value of a table of JSON values.
pub open spec fn table_model(fields: Table<Json>) -> Seq<(Seq<char>, JsonModel)> {
    table::mapped(fields.pairs(), modelling())
}

/// The value under `key` in a table of JSON values.
pub fn find<'a>(fields: &'a Table<Json>, key: &str) -> (r: Option<&'a Json>)
    ensures
        match r {
            Some(value) => table::lookup(table_model(*fields), key@) == Some(value@),
            None => table::lookup(table_model(*fields), key@) is None,
        },
{
    proof {
        table::lookup_mapped(fields.pairs(), modelling(), key@);
    }
    fields.get(key)
}

/// Puts `value` under `key` in a table of JSON values.
pub fn put(fields: &mut Table<Json>, key: &str, value: Json)
    ensures
        table_model(*final(fields)) == table::with_entry(
            table_model(*old(fields)),
            key@,
            value@,
        ),
        old(fields).well_formed() ==> final(fields).well_formed(),
{
    proof {
        table::with_entry_mapped(fields.pairs(), modelling(), key@, value);
    }
    fields.insert(key.to_owned(), value);
}

/// The mathematical value of an object's members.
pub open spec fn field_models(fields: Seq<(String, Json)>) -> Seq<(Seq<char>, JsonModel)> {
    fields.map_values(|field: (String, Json)| (field.0@, model(field.1)))
}

/// The first member under `key`.
fn member_of<'a>(fields: &'a Vec<(String, Json)>, key: &str) -> (r: Option<&'a Json>)
    ensures
        match r {
            Some(member) => table::lookup(field_models(fields@), key@) == Some(member@),
            None => table::lookup(field_models(fields@), key@) is None,
        },
{
    let ghost all = field_models(fields@);
    let mut i: usize = 0;
    assert(all.skip(0) =~= all);
    while i < fields.len()
        invariant
            all == field_models(fields@),
            i <= fields@.len(),
            table::lookup(all, key@) == table::lookup(all.skip(i as int), key@),
        decreases fields@.len() - i,
    {
        assert(all.skip(i as int)[0] == all[i as int]);
        if text::same(fields[i].0.as_str(), key) {
            return Some(&fields[i].1);
        }
        assert(all.skip(i as int).drop_first() =~= all.skip(i + 1));
        i += 1;
    }
    None
}

/// `serde_json::Value`, carried from the parser to [`Json`].
#[verifier::external_type_specification]
#[verifier::external_body]
pub struct ExValue(serde_json::Value);

/// The JSON tree that a `serde_json::Value` holds: its variant and what is in
/// it, a number by `as_i64`, `is_f64` and its `Display` text, an array or an
/// object with its `Display` text.
pub uninterp spec fn held(value: serde_json::Value) -> JsonModel;

/// What `serde_json::from_slice` makes of these bytes: the tree of the value, or
/// the text of the error.
pub uninterp spec fn parsed(bytes: Seq<u8>) -> Result<JsonModel, Seq<char>>;

/// What `serde_json::from_str` makes of this text: the tree of the value, or the
/// text of the error.
pub uninterp spec fn parsed_text(text: Seq<char>) -> Result<JsonModel, Seq<char>>;

/// One level of a JSON value, with members not yet taken apart.
enum Parts {
    Null,
    Bool(bool),
    Number(JsonNumber),
    String(String),
    Array(Vec<serde_json::Value>, String),
    Object(Vec<(String, serde_json::Value)>, String),
}

/// Calls `serde_json::from_slice` for a `serde_json::Value`. Its result is a
/// function of the bytes alone, named `parsed`; an error is given by its text.
#[verifier::external_body]
fn value_from_slice(bytes: &[u8]) -> (r: Result<serde_json::Value, String>)
    ensures
        match r {
            Ok(value) => parsed(bytes@) == Ok::<JsonModel, Seq<char>>(held(value)),
            Err(error) => parsed(bytes@) == Err::<JsonModel, Seq<char>>(error@),
        },
{
    serde_json::from_slice(bytes).map_err(|error| error.to_string())
}

/// Calls `serde_json::from_str` for a `serde_json::Value`. Its result is a
/// function of the text alone, named `parsed_text`; an error is given by its text.
#[verifier::external_body]
fn value_from_str(text: &str) -> (r: Result<serde_json::Value, String>)
    ensures
        match r {
            Ok(value) => parsed_text(text@) == Ok::<JsonModel, Seq<char>>(held(value)),
            Err(error) => parsed_text(text@) == Err::<JsonModel, Seq<char>>(error@),
        },
{
    serde_json::from_str(text).map_err(|error| error.to_string())
}

/// Tells the variants of a `serde_json::Value` apart and takes out what is in
/// it: `Number::as_i64`, `Number::is_f64` and the `Display` text of a number,
/// the elements or the members in their order and the `Display` text of an array
/// or an object. The contract says that this is one level of the tree `held`.
#[verifier::external_body]
fn value_parts(value: serde_json::Value) -> (parts: Parts)
    ensures
        match parts {
            Parts::Null => held(value) == JsonModel::Null,
            Parts::Bool(b) => held(value) == JsonModel::Bool(b),
            Parts::Number(n) => held(value) == (JsonModel::Number {
                integer: n.integer,
                float: n.float,
                text: n.text@,
            }),
            Parts::String(s) => held(value) == JsonModel::String(s@),
            Parts::Array(items, text) => held(value) == (JsonModel::Array {
                items: items@.map_values(|item: serde_json::Value| held(item)),
                text: text@,
            }),
            Parts::Object(fields, text) => held(value) == (JsonModel::Object {
                fields: fields@.map_values(
                    |field: (String, serde_json::Value)| (field.0@, held(field.1)),
                ),
                text: text@,
            }),
        },
{
    let text = value.to_string();
    match value {
        serde_json::Value::Null => Parts::Null,
        serde_json::Value::Bool(b) => Parts::Bool(b),
        serde_json::Value::Number(n) => Parts::Number(
            JsonNumber { integer: n.as_i64(), float: n.is_f64(), text },
        ),
        serde_json::Value::String(s) => Parts::String(s),
        serde_json::Value::Array(items) => Parts::Array(items, text),
        serde_json::Value::Object(fields) => Parts::Object(fields.into_iter().collect(), text),
    }
}

/// The whole of a parsed value as [`Json`].
fn take_apart(value: serde_json::Value) -> (json: Json)
    ensures
        json@ == held(value),
    decreases held(value),
{
    let ghost whole = held(value);
    match value_parts(value) {
        Parts::Null => Json::Null,
        Parts::Bool(b) => Json::Bool(b),
        Parts::Number(n) => Json::Number(n),
        Parts::String(s) => Json::String(s),
        Parts::Array(values, text) => {
            let ghost all = values@;
            let ghost members = whole->Array_items;
            let mut items: Vec<Json> = Vec::new();
            for next in it: values
                invariant
                    it.seq() == all,
                    whole == held(value),
                    whole is Array,
                    members == whole->Array_items,
                    members.len() == all.len(),
                    forall|i: int| 0 <= i < all.len() ==> #[trigger] members[i] == held(all[i]),
                    items@.len() == it.index(),
                    forall|i: int| 0 <= i < items@.len() ==> model(#[trigger] items@[i]) == members[i],
            {
                assert(next == all[items@.len() as int]);
                assert(held(next) == members[items@.len() as int]);
                assert(decreases_to!(whole => members[items@.len() as int]));
                let item = take_apart(next);
                items.push(item);
            }
            let json = Json::Array { items, text };
            assert(json@->Array_items =~= members);
            json
        },
        Parts::Object(values, text) => {
            let ghost all = values@;
            let ghost members = whole->Object_fields;
            let mut fields: Vec<(String, Json)> = Vec::new();
            for (key, next) in it: values
                invariant
                    it.seq() == all,
                    whole == held(value),
                    whole is Object,
                    members == whole->Object_fields,
                    members.len() == all.len(),
                    forall|i: int|
                        0 <= i < all.len() ==> #[trigger] members[i] == (
                            all[i].0@,
                            held(all[i].1),
                        ),
                    fields@.len() == it.index(),
                    forall|i: int|
                        0 <= i < fields@.len() ==> ((#[trigger] fields@[i]).0@, model(fields@[i].1))
                            == members[i],
            {
                assert((key, next) == all[fields@.len() as int]);
                assert(members[fields@.len() as int] == (key@, held(next)));
                assert(decreases_to!(whole => members[fields@.len() as int].1));
                let member = take_apart(next);
                fields.push((key, member));
            }
            let json = Json::Object { fields, text };
            assert(json@->Object_fields =~= members);
            json
        },
    }
}

/// The JSON value that these bytes spell, or the parser's error text.
pub fn parse_json(bytes: &[u8]) -> (r: Result<Json, String>)
    ensures
        match r {
            Ok(json) => parsed(bytes@) == Ok::<JsonModel, Seq<char>>(json@),
            Err(error) => parsed(bytes@) == Err::<JsonModel, Seq<char>>(error@),
        },
{
    match value_from_slice(bytes) {
        Ok(value) => Ok(take_apart(value)),
        Err(error) => Err(error),
    }
}

/// The JSON value that this text spells, or the parser's error text.
pub fn parse_json_text(text: &str) -> (r: Result<Json, String>)
    ensures
        match r {
            Ok(json) => parsed_text(text@) == Ok::<JsonModel, Seq<char>>(json@),
            Err(error) => parsed_text(text@) == Err::<JsonModel, Seq<char>>(error@),
        },
{
    match value_from_str(text) {
        Ok(value) => Ok(take_apart(value)),
        Err(error) => Err(error),
    }
}

/// A value gives its text only as a string, its number only as an integer in range,
/// its truth only as a boolean, and members only as an object.
pub proof fn values_give_what_they_are(s: Seq<char>, n: i64, b: bool, value: JsonModel)
    ensures
        value.as_str() == Some(s) <==> value == JsonModel::String(s),
        value.as_bool() == Some(b) <==> value == JsonModel::Bool(b),
        value.as_i64() == Some(n) <==> value is Number && value->Number_integer == Some(n),
        value !is Object ==> value.get(s) is None,
{
}

/// The member of an object under a key is the value of its first member of that
/// name.
pub proof fn member_by_position(
    fields: Seq<(Seq<char>, JsonModel)>,
    text: Seq<char>,
    key: Seq<char>,
)
    ensures
        match (JsonModel::Object { fields, text }).get(key) {
            Some(value) => exists|i: int|
                0 <= i < fields.len() && #[trigger] fields[i] == (key, value) && forall|j: int|
                    0 <= j < i ==> (#[trigger] fields[j]).0 != key,
            None => forall|i: int| 0 <= i < fields.len() ==> (#[trigger] fields[i]).0 != key,
        },
{
    table::lookup_by_position(fields, key);
}

/// The text of a member is given exactly where the member is a string.
pub proof fn member_text(object: JsonModel, key: Seq<char>, s: Seq<char>)
    ensures
        object.text_at(key) == Some(s) <==> object.get(key) == Some(JsonModel::String(s)),
        object.text_at(key) is Some <==> object.get(key) is Some && object.get(key)->0 is String,
{
}

/// As plain text a string is itself, `null` is nothing, and an integer is its
/// decimal numeral.
pub proof fn plain_text_of_scalars(s: Seq<char>, n: i64)
    ensures
        JsonModel::String(s).plain_text() == s,
        JsonModel::Null.plain_text().len() == 0,
        JsonModel::Bool(true).plain_text() == "true"@,
        JsonModel::Bool(false).plain_text() == "false"@,
        JsonModel::from_integer(n).plain_text() == text::signed_numeral(n as int),
        JsonModel::from_integer(n).as_i64() == Some(n),
        !JsonModel::from_integer(n)->Number_float,
{
}

/// As plain text a number, an array or an object is its own JSON text.
pub proof fn plain_text_of_the_rest(value: JsonModel)
    ensures
        match value {
            JsonModel::Number { text, .. } => value.plain_text() == text,
            JsonModel::Array { text, .. } => value.plain_text() == text,
            JsonModel::Object { text, .. } => value.plain_text() == text,
            _ => true,
        },
{
}

/// A value is seen with all that is in it: members under their names, elements in
/// their order, and the text of each number, array and object.
pub proof fn values_are_seen_whole(json: Json)
    ensures
        match json {
            Json::Null => json@ == JsonModel::Null,
            Json::Bool(b) => json@ == JsonModel::Bool(b),
            Json::Number(n) => json@ == (JsonModel::Number {
                integer: n.integer,
                float: n.float,
                text: n.text@,
            }),
            Json::String(s) => json@ == JsonModel::String(s@),
            Json::Array { items, text } => {
                &&& json@ is Array
                &&& json@->Array_text == text@
                &&& json@->Array_items.len() == items@.len()
                &&& forall|i: int|
                    0 <= i < items@.len() ==> #[trigger] json@->Array_items[i] == items@[i]@
            },
            Json::Object { fields, text } => {
                &&& json@ is Object
                &&& json@->Object_text == text@
                &&& json@->Object_fields.len() == fields@.len()
                &&& forall|i: int|
                    0 <= i < fields@.len() ==> #[trigger] json@->Object_fields[i] == (
                        fields@[i].0@,
                        fields@[i].1@,
                    )
            },
        },
{
}

/// A table of values is seen as its keys and the values under them, in order.
pub proof fn tables_are_seen_whole(table: Table<Json>)
    ensures
        table_model(table).len() == table.entries@.len(),
        forall|i: int|
            0 <= i < table.entries@.len() ==> #[trigger] table_model(table)[i] == (
                table.entries@[i].0@,
                table.entries@[i].1@,
            ),
{
}

} // verus!
