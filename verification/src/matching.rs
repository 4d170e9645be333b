//! Handlers, their match tables, and when they match an event.

use crate::error;
use crate::error::{ErrorModel, RiteError};
use crate::event::{EventModel, RiteEvent, Severity};
use crate::json;
use crate::json::{Json, JsonModel};
use crate::table;
use crate::table::Table;
use crate::text;
use vstd::prelude::*;

verus! {

/// A value used to match an event field or metadata item.
///
/// The `Table` and `Array` variants only appear inside compound
/// (`all_of`/`any_of`/`not`) match tables; flat matchers hold scalars.
#[derive(Debug, PartialEq, Eq)]
pub enum MatchValue {
    /// Textual value.
    String(String),
    /// Signed integer value.
    Integer(i64),
    /// Boolean value.
    Boolean(bool),
    /// Inline table value (nested compound condition).
    Table(Table<MatchValue>),
    /// Array of inline tables (children of `all_of`/`any_of`).
    Array(Vec<Table<MatchValue>>),
}

/// The mathematical value of a [`MatchValue`].
pub enum MatchModel {
    /// Textual value.
    String(Seq<char>),
    /// Signed integer value.
    Integer(i64),
    /// Boolean value.
    Boolean(bool),
    /// Inline table value.
    Table(Seq<(Seq<char>, MatchModel)>),
    /// Array of inline tables.
    Array(Seq<Seq<(Seq<char>, MatchModel)>>),
}

/// The mathematical value of `value`.
pub open spec fn value_model(value: MatchValue) -> MatchModel
    decreases value,
{
    match value {
        MatchValue::String(s) => MatchModel::String(s@),
        MatchValue::Integer(n) => MatchModel::Integer(n),
        MatchValue::Boolean(b) => MatchModel::Boolean(b),
        MatchValue::Table(entries) => MatchModel::Table(entries_model(entries)),
        MatchValue::Array(children) => MatchModel::Array(
            Seq::new(
                children@.len(),
                |i: int|
                    if 0 <= i < children@.len() {
                        entries_model(children@[i])
                    } else {
                        seq![]
                    },
            ),
        ),
    }
}

/// The mathematical value of a match table.
pub open spec fn entries_model(map: Table<MatchValue>) -> Seq<(Seq<char>, MatchModel)>
    decreases map,
{
    Seq::new(
        map.entries@.len(),
        |i: int|
            if 0 <= i < map.entries@.len() {
                (map.entries@[i].0@, value_model(map.entries@[i].1))
            } else {
                (seq![], MatchModel::Boolean(false))
            },
    )
}

impl View for MatchValue {
    type V = MatchModel;

    open spec fn view(&self) -> MatchModel {
        value_model(*self)
    }
}

impl MatchModel {
    /// The value is a table or an array of tables.
    pub open spec fn is_structured(self) -> bool {
        self is Table || self is Array
    }

    /// The value has the shape that the operator `op` requires: a table under
    /// `not`, an array of tables under the others.
    pub open spec fn is_operator_shaped(self, op: Seq<char>) -> bool {
        if op == "not"@ {
            self is Table
        } else {
            self is Array
        }
    }

    /// The value is a scalar equal to the JSON scalar `json`.
    pub open spec fn equals_json(self, json: JsonModel) -> bool {
        match self {
            MatchModel::String(expected) => json.as_str() == Some(expected),
            MatchModel::Integer(expected) => json.as_i64() == Some(expected),
            MatchModel::Boolean(expected) => json.as_bool() == Some(expected),
            MatchModel::Table(_) => false,
            MatchModel::Array(_) => false,
        }
    }
}

/// A node in a handler's match condition tree.
#[derive(Debug, PartialEq, Eq)]
pub enum MatchCondition {
    /// Every child condition must hold (operator `all_of`, or a flat table).
    All(Vec<MatchCondition>),
    /// At least one child condition must hold (operator `any_of`).
    Any(Vec<MatchCondition>),
    /// The sole child condition must not hold (operator `not`).
    Not(Box<MatchCondition>),
    /// A single field-or-metadata equality/substring leaf.
    Leaf(String, MatchValue),
}

/// The mathematical value of a [`MatchCondition`].
pub enum ConditionModel {
    /// Every child condition must hold.
    All(Seq<ConditionModel>),
    /// At least one child condition must hold.
    Any(Seq<ConditionModel>),
    /// The sole child condition must not hold.
    Not(Box<ConditionModel>),
    /// A single field-or-metadata leaf.
    Leaf(Seq<char>, MatchModel),
}

/// The mathematical value of `condition`.
pub open spec fn condition_model(condition: MatchCondition) -> ConditionModel
    decreases condition,
{
    match condition {
        MatchCondition::All(children) => ConditionModel::All(
            Seq::new(
                children@.len(),
                |i: int|
                    if 0 <= i < children@.len() {
                        condition_model(children@[i])
                    } else {
                        ConditionModel::All(seq![])
                    },
            ),
        ),
        MatchCondition::Any(children) => ConditionModel::Any(
            Seq::new(
                children@.len(),
                |i: int|
                    if 0 <= i < children@.len() {
                        condition_model(children@[i])
                    } else {
                        ConditionModel::All(seq![])
                    },
            ),
        ),
        MatchCondition::Not(inner) => ConditionModel::Not(Box::new(condition_model(*inner))),
        MatchCondition::Leaf(field, expected) => ConditionModel::Leaf(field@, expected@),
    }
}

impl View for MatchCondition {
    type V = ConditionModel;

    open spec fn view(&self) -> ConditionModel {
        condition_model(*self)
    }
}

/// A single leaf holds of an event.
///
/// `event_type`, `action` and `severity` are equalities with the event's own
/// fields, an absent action counting as the empty text. `body_contains` asks for
/// a substring of the body. Every other field is looked up in the metadata.
pub open spec fn leaf_holds(field: Seq<char>, expected: MatchModel, event: EventModel) -> bool {
    if field == "event_type"@ {
        expected.equals_json(JsonModel::String(event.event_type))
    } else if field == "action"@ {
        expected.equals_json(JsonModel::String(text::or_empty(event.action)))
    } else if field == "severity"@ {
        expected.equals_json(JsonModel::String(event.severity.name()))
    } else if field == "body_contains"@ {
        match (expected, event.body) {
            (MatchModel::String(needle), Some(body)) => text::occurs(body, needle),
            _ => false,
        }
    } else {
        match table::lookup(event.metadata, field) {
            Some(value) => expected.equals_json(value),
            None => false,
        }
    }
}

/// A condition holds of an event.
pub open spec fn holds(condition: ConditionModel, event: EventModel) -> bool
    decreases condition,
{
    match condition {
        ConditionModel::All(children) => forall|i: int|
            0 <= i < children.len() ==> holds(#[trigger] children[i], event),
        ConditionModel::Any(children) => exists|i: int|
            0 <= i < children.len() && holds(#[trigger] children[i], event),
        ConditionModel::Not(inner) => !holds(*inner, event),
        ConditionModel::Leaf(field, expected) => leaf_holds(field, expected, event),
    }
}

/// `key` names an operator.
pub open spec fn is_operator_name(key: Seq<char>) -> bool {
    key == "all_of"@ || key == "any_of"@ || key == "not"@
}

/// `op` stands in the table with the shape that it requires under it.
pub open spec fn has_operator(entries: Seq<(Seq<char>, MatchModel)>, op: Seq<char>) -> bool {
    match table::lookup(entries, op) {
        Some(value) => value.is_operator_shaped(op),
        None => false,
    }
}

/// `op` stands in the table with a table or an array under it that is not of the
/// shape that it requires.
pub open spec fn has_misshapen(entries: Seq<(Seq<char>, MatchModel)>, op: Seq<char>) -> bool {
    match table::lookup(entries, op) {
        Some(value) => value.is_structured() && !value.is_operator_shaped(op),
        None => false,
    }
}

/// The first operator that stands in the table in the wrong shape.
pub open spec fn first_misshapen(entries: Seq<(Seq<char>, MatchModel)>) -> Option<Seq<char>> {
    if has_misshapen(entries, "all_of"@) {
        Some("all_of"@)
    } else if has_misshapen(entries, "any_of"@) {
        Some("any_of"@)
    } else if has_misshapen(entries, "not"@) {
        Some("not"@)
    } else {
        None
    }
}

/// The operators of a match table. A scalar under an operator's name is an
/// ordinary leaf.
pub open spec fn operators(entries: Seq<(Seq<char>, MatchModel)>) -> Seq<Seq<char>> {
    (if has_operator(entries, "all_of"@) {
        seq!["all_of"@]
    } else {
        seq![]
    }) + (if has_operator(entries, "any_of"@) {
        seq!["any_of"@]
    } else {
        seq![]
    }) + (if has_operator(entries, "not"@) {
        seq!["not"@]
    } else {
        seq![]
    })
}

/// Some entry has an operator's name and the shape that the operator requires.
pub open spec fn has_shaped_operator(entries: Seq<(Seq<char>, MatchModel)>) -> bool {
    exists|i: int|
        0 <= i < entries.len() && is_operator_name((#[trigger] entries[i]).0)
            && entries[i].1.is_operator_shaped(entries[i].0)
}

/// The first entry with a table or an array under it.
pub open spec fn first_structured(entries: Seq<(Seq<char>, MatchModel)>) -> Option<Seq<char>>
    decreases entries.len(),
{
    if entries.len() == 0 {
        None
    } else {
        match first_structured(entries.drop_last()) {
            Some(key) => Some(key),
            None => if entries.last().1.is_structured() {
                Some(entries.last().0)
            } else {
                None
            },
        }
    }
}

/// The entries of a flat table as leaves.
pub open spec fn leaves(entries: Seq<(Seq<char>, MatchModel)>) -> Seq<ConditionModel> {
    entries.map_values(|entry: (Seq<char>, MatchModel)| ConditionModel::Leaf(entry.0, entry.1))
}

/// Why a flat table with a table or an array under `key` is refused.
pub open spec fn structured_leaf_reason(key: Seq<char>) -> Seq<char> {
    "match key '"@ + key
        + "' must hold a string, an integer or a boolean; tables and arrays belong under all_of, any_of or not"@
}

/// Why a table that mixes the operators `ops` with other keys is refused.
pub open spec fn mixed_reason(ops: Seq<Seq<char>>) -> Seq<char> {
    "match table mixes operators ("@ + text::joined(ops, ", "@)
        + ") with ordinary leaf keys; move leaves inside the compound form"@
}

/// Why a table with the operators `ops` side by side is refused.
pub open spec fn multiple_reason(ops: Seq<Seq<char>>) -> Seq<char> {
    "match table uses multiple operators ("@ + text::joined(ops, ", "@)
        + ") at the same level; nest them instead"@
}

/// Why `op` with the wrong shape under it is refused.
pub open spec fn misshapen_reason(op: Seq<char>) -> Seq<char> {
    if op == "not"@ {
        "match operator 'not' requires an inline table holding exactly one child condition"@
    } else {
        "match operator '"@ + op + "' requires an array of condition tables"@
    }
}

/// Why `op` with an empty array under it is refused.
pub open spec fn no_child_reason(op: Seq<char>) -> Seq<char> {
    "match operator '"@ + op + "' requires at least one child condition"@
}

/// Why `not` with `n` children under it is refused.
pub open spec fn child_count_reason(n: nat) -> Seq<char> {
    "match operator 'not' requires exactly one child condition, found "@ + text::numeral(n)
}

/// The condition tree that a match table stands for, or why it is refused.
pub open spec fn tree(entries: Seq<(Seq<char>, MatchModel)>) -> Result<ConditionModel, Seq<char>>
    decreases entries, 0nat,
{
    let ops = operators(entries);
    if ops.len() == 0 {
        match first_misshapen(entries) {
            Some(op) => Err(misshapen_reason(op)),
            None => match first_structured(entries) {
                Some(key) => Err(structured_leaf_reason(key)),
                None => Ok(ConditionModel::All(leaves(entries))),
            },
        }
    } else if entries.len() != ops.len() {
        Err(mixed_reason(ops))
    } else if ops.len() > 1 {
        Err(multiple_reason(ops))
    } else {
        proof {
            lookup_decreases(entries, ops[0]);
        }
        match table::lookup(entries, ops[0]) {
            Some(value) => operand(ops[0], value),
            None => Err(seq![]),
        }
    }
}

/// The condition of the operator `op` applied to `value`, or why it is refused.
pub open spec fn operand(op: Seq<char>, value: MatchModel) -> Result<ConditionModel, Seq<char>>
    decreases value, 1nat,
{
    if op == "not"@ {
        match value {
            MatchModel::Table(child) => if child.len() == 0 || (child.len() > 1
                && !has_shaped_operator(child)) {
                Err(child_count_reason(child.len()))
            } else {
                match tree(child) {
                    Ok(inner) => Ok(ConditionModel::Not(Box::new(inner))),
                    Err(reason) => Err(reason),
                }
            },
            _ => Err(misshapen_reason(op)),
        }
    } else {
        match value {
            MatchModel::Array(children) => if children.len() == 0 {
                Err(no_child_reason(op))
            } else {
                match trees(children) {
                    Ok(parts) => if op == "all_of"@ {
                        Ok(ConditionModel::All(parts))
                    } else {
                        Ok(ConditionModel::Any(parts))
                    },
                    Err(reason) => Err(reason),
                }
            },
            _ => Err(misshapen_reason(op)),
        }
    }
}

/// The condition trees of several match tables, or why the first bad one is refused.
pub open spec fn trees(children: Seq<Seq<(Seq<char>, MatchModel)>>) -> Result<
    Seq<ConditionModel>,
    Seq<char>,
>
    decreases children, 0nat,
{
    if children.len() == 0 {
        Ok(seq![])
    } else {
        match trees(children.drop_last()) {
            Ok(parts) => match tree(children.last()) {
                Ok(part) => Ok(parts.push(part)),
                Err(reason) => Err(reason),
            },
            Err(reason) => Err(reason),
        }
    }
}

/// A value in a table is smaller than the table.
pub proof fn lookup_decreases(entries: Seq<(Seq<char>, MatchModel)>, key: Seq<char>)
    ensures
        table::lookup(entries, key) matches Some(value) ==> decreases_to!(entries => value),
{
    table::lookup_by_position(entries, key);
    if let Some(value) = table::lookup(entries, key) {
        let i = choose|i: int|
            0 <= i < entries.len() && #[trigger] entries[i] == (key, value) && (forall|j: int|
                0 <= j < i ==> (#[trigger] entries[j]).0 != key);
        assert(decreases_to!(entries => entries[i].1));
    }
}

/// A table that one child refuses is refused for that reason, whatever follows.
proof fn trees_keep_error(children: Seq<Seq<(Seq<char>, MatchModel)>>, k: int)
    requires
        0 <= k <= children.len(),
        trees(children.take(k)) is Err,
    ensures
        trees(children) == trees(children.take(k)),
    decreases children.len() - k,
{
    if k < children.len() {
        assert(children.take(k + 1).drop_last() =~= children.take(k));
        trees_keep_error(children, k + 1);
    } else {
        assert(children.take(k) =~= children);
    }
}

/// The first structured entry of a prefix is that of the whole.
proof fn first_structured_stands(entries: Seq<(Seq<char>, MatchModel)>, k: int)
    requires
        0 <= k <= entries.len(),
        first_structured(entries.take(k)) is Some,
    ensures
        first_structured(entries) == first_structured(entries.take(k)),
    decreases entries.len() - k,
{
    if k < entries.len() {
        assert(entries.take(k + 1).drop_last() =~= entries.take(k));
        first_structured_stands(entries, k + 1);
    } else {
        assert(entries.take(k) =~= entries);
    }
}

/// The function from a match value to its mathematical value.
pub open spec fn value_modelling() -> spec_fn(MatchValue) -> MatchModel {
    |value: MatchValue| value@
}

/// The mathematical value of several match tables.
pub open spec fn children_model(children: Seq<Table<MatchValue>>) -> Seq<
    Seq<(Seq<char>, MatchModel)>,
> {
    children.map_values(|child: Table<MatchValue>| entries_model(child))
}

/// The mathematical value of several conditions.
pub open spec fn condition_models(conditions: Seq<MatchCondition>) -> Seq<ConditionModel> {
    conditions.map_values(|condition: MatchCondition| condition@)
}

/// The mathematical value of a match table is that of its entries.
pub proof fn entries_by_pairs(map: Table<MatchValue>)
    ensures
        entries_model(map) == table::mapped(map.pairs(), value_modelling()),
{
    assert(entries_model(map) =~= table::mapped(map.pairs(), value_modelling()));
}

/// Looking up in a match table and taking the mathematical value commute.
proof fn lookup_in_entries(map: Table<MatchValue>, key: Seq<char>)
    ensures
        table::lookup(entries_model(map), key) == match table::lookup(map.pairs(), key) {
            Some(value) => Some(value@),
            None => None,
        },
{
    entries_by_pairs(map);
    table::lookup_mapped(map.pairs(), value_modelling(), key);
}

impl Clone for MatchValue {
    fn clone(&self) -> (r: MatchValue)
        ensures
            r@ == self@,
        decreases self,
    {
        match self {
            MatchValue::String(s) => MatchValue::String(s.clone()),
            MatchValue::Integer(n) => MatchValue::Integer(*n),
            MatchValue::Boolean(b) => MatchValue::Boolean(*b),
            MatchValue::Table(entries) => {
                assert(decreases_to!(*self => self->Table_0));
                MatchValue::Table(copy_entries(entries))
            },
            MatchValue::Array(children) => {
                let mut copies: Vec<Table<MatchValue>> = Vec::new();
                let mut i: usize = 0;
                while i < children.len()
                    invariant
                        *self == MatchValue::Array(*children),
                        i <= children@.len(),
                        copies@.len() == i,
                        forall|j: int|
                            0 <= j < i ==> entries_model(#[trigger] copies@[j]) == entries_model(
                                children@[j],
                            ),
                    decreases children@.len() - i,
                {
                    assert(decreases_to!(*self => self->Array_0@[i as int]));
                    copies.push(copy_entries(&children[i]));
                    i += 1;
                }
                let copy = MatchValue::Array(copies);
                assert(copy@->Array_0 =~= self@->Array_0);
                copy
            },
        }
    }
}

/// A copy of a match table.
fn copy_entries(map: &Table<MatchValue>) -> (copy: Table<MatchValue>)
    ensures
        entries_model(copy) == entries_model(*map),
    decreases map,
{
    let mut entries: Vec<(String, MatchValue)> = Vec::new();
    let mut i: usize = 0;
    while i < map.entries.len()
        invariant
            i <= map.entries@.len(),
            entries@.len() == i,
            forall|j: int|
                0 <= j < i ==> (#[trigger] entries@[j]).0@ == map.entries@[j].0@ && entries@[j].1@
                    == map.entries@[j].1@,
        decreases map.entries@.len() - i,
    {
        assert(decreases_to!(*map => map.entries@[i as int].1));
        entries.push((map.entries[i].0.clone(), map.entries[i].1.clone()));
        i += 1;
    }
    let copy = Table { entries };
    assert(entries_model(copy) =~= entries_model(*map));
    copy
}

impl MatchValue {
    /// Whether the value is a table or an array of tables.
    fn is_structured(&self) -> (yes: bool)
        ensures
            yes == self@.is_structured(),
    {
        match self {
            MatchValue::Table(_) => true,
            MatchValue::Array(_) => true,
            _ => false,
        }
    }

    /// Whether the value is a scalar equal to the JSON scalar `value`.
    pub fn matches_json(&self, value: &Json) -> (yes: bool)
        ensures
            yes == self@.equals_json(value@),
    {
        match self {
            MatchValue::String(expected) => match value.as_str() {
                Some(found) => text::same(found, expected.as_str()),
                None => false,
            },
            MatchValue::Integer(expected) => match value.as_i64() {
                Some(found) => found == *expected,
                None => false,
            },
            MatchValue::Boolean(expected) => match value.as_bool() {
                Some(found) => found == *expected,
                None => false,
            },
            MatchValue::Table(_) => false,
            MatchValue::Array(_) => false,
        }
    }

    /// Whether this value has the shape the operator `op` requires.
    pub fn is_operator_shaped(&self, op: &str) -> (yes: bool)
        ensures
            yes == self@.is_operator_shaped(op@),
    {
        if text::same(op, "not") {
            match self {
                MatchValue::Table(_) => true,
                _ => false,
            }
        } else {
            match self {
                MatchValue::Array(_) => true,
                _ => false,
            }
        }
    }
}

/// Whether a single leaf (field or metadata) holds of an event.
pub fn leaf_matches(field: &str, expected: &MatchValue, event: &RiteEvent) -> (yes: bool)
    ensures
        yes == leaf_holds(field@, expected@, event@),
{
    if text::same(field, "event_type") {
        expected.matches_json(&Json::string(event.event_type.as_str()))
    } else if text::same(field, "action") {
        match &event.action {
            Some(action) => expected.matches_json(&Json::string(action.as_str())),
            None => {
                let nothing = String::new();
                assert(nothing@ =~= seq![]);
                expected.matches_json(&Json::string(nothing.as_str()))
            },
        }
    } else if text::same(field, "severity") {
        expected.matches_json(&Json::string(event.severity.as_str()))
    } else if text::same(field, "body_contains") {
        match (expected, &event.body) {
            (MatchValue::String(needle), Some(body)) => text::contains(
                body.as_str(),
                needle.as_str(),
            ),
            _ => false,
        }
    } else {
        match json::find(&event.metadata, field) {
            Some(value) => expected.matches_json(value),
            None => false,
        }
    }
}

impl MatchCondition {
    /// Whether this condition holds of an event.
    pub fn matches(&self, event: &RiteEvent) -> (yes: bool)
        ensures
            yes == holds(self@, event@),
        decreases self,
    {
        match self {
            MatchCondition::All(children) => {
                let mut i: usize = 0;
                while i < children.len()
                    invariant
                        *self == MatchCondition::All(*children),
                        i <= children@.len(),
                        forall|j: int|
                            0 <= j < i ==> holds(condition_model(#[trigger] children@[j]), event@),
                    decreases children@.len() - i,
                {
                    assert(decreases_to!(*self => self->All_0@[i as int]));
                    if !children[i].matches(event) {
                        assert(self@->All_0[i as int] == condition_model(children@[i as int]));
                        return false;
                    }
                    i += 1;
                }
                true
            },
            MatchCondition::Any(children) => {
                let mut i: usize = 0;
                while i < children.len()
                    invariant
                        *self == MatchCondition::Any(*children),
                        i <= children@.len(),
                        forall|j: int|
                            0 <= j < i ==> !holds(condition_model(#[trigger] children@[j]), event@),
                    decreases children@.len() - i,
                {
                    assert(decreases_to!(*self => self->Any_0@[i as int]));
                    if children[i].matches(event) {
                        assert(self@->Any_0[i as int] == condition_model(children@[i as int]));
                        return true;
                    }
                    i += 1;
                }
                false
            },
            MatchCondition::Not(inner) => !inner.matches(event),
            MatchCondition::Leaf(field, expected) => leaf_matches(field.as_str(), expected, event),
        }
    }
}

impl Clone for MatchCondition {
    fn clone(&self) -> (r: MatchCondition)
        ensures
            r@ == self@,
        decreases self,
    {
        match self {
            MatchCondition::All(children) => {
                let mut copies: Vec<MatchCondition> = Vec::new();
                let mut i: usize = 0;
                while i < children.len()
                    invariant
                        *self == MatchCondition::All(*children),
                        i <= children@.len(),
                        copies@.len() == i,
                        forall|j: int|
                            0 <= j < i ==> condition_model(#[trigger] copies@[j])
                                == condition_model(children@[j]),
                    decreases children@.len() - i,
                {
                    assert(decreases_to!(*self => self->All_0@[i as int]));
                    copies.push(children[i].clone());
                    i += 1;
                }
                let copy = MatchCondition::All(copies);
                assert(copy@->All_0 =~= self@->All_0);
                copy
            },
            MatchCondition::Any(children) => {
                let mut copies: Vec<MatchCondition> = Vec::new();
                let mut i: usize = 0;
                while i < children.len()
                    invariant
                        *self == MatchCondition::Any(*children),
                        i <= children@.len(),
                        copies@.len() == i,
                        forall|j: int|
                            0 <= j < i ==> condition_model(#[trigger] copies@[j])
                                == condition_model(children@[j]),
                    decreases children@.len() - i,
                {
                    assert(decreases_to!(*self => self->Any_0@[i as int]));
                    copies.push(children[i].clone());
                    i += 1;
                }
                let copy = MatchCondition::Any(copies);
                assert(copy@->Any_0 =~= self@->Any_0);
                copy
            },
            MatchCondition::Not(inner) => MatchCondition::Not(Box::new((&**inner).clone())),
            MatchCondition::Leaf(field, expected) => MatchCondition::Leaf(
                field.clone(),
                expected.clone(),
            ),
        }
    }
}

/// A supported handler action.
#[derive(Debug, PartialEq, Eq)]
pub enum RiteAction {
    /// Forward the normalized event as JSON, or a configured template, to an HTTP endpoint.
    HttpPost {
        /// Destination URL.
        url: String,
        /// Additional request headers.
        headers: Table<String>,
        /// Optional `{{field}}` template for the request body.
        body_template: Option<String>,
    },
}

impl Clone for RiteAction {
    fn clone(&self) -> (r: RiteAction)
        ensures
            r@ == self@,
    {
        match self {
            RiteAction::HttpPost { url, headers, body_template } => {
                let copied = headers.clone();
                assert(headers_model(copied) =~= headers_model(*headers));
                RiteAction::HttpPost {
                    url: url.clone(),
                    headers: copied,
                    body_template: text::copy_optional(body_template),
                }
            },
        }
    }
}

/// The mathematical value of a [`RiteAction`].
pub enum ActionModel {
    /// Forward the event to an HTTP endpoint.
    HttpPost {
        /// Destination URL.
        url: Seq<char>,
        /// Additional request headers.
        headers: Seq<(Seq<char>, Seq<char>)>,
        /// Optional template for the request body.
        body_template: Option<Seq<char>>,
    },
}

/// The mathematical value of a table of header values.
pub open spec fn headers_model(headers: Table<String>) -> Seq<(Seq<char>, Seq<char>)> {
    headers.entries@.map_values(|entry: (String, String)| (entry.0@, entry.1@))
}

impl View for RiteAction {
    type V = ActionModel;

    open spec fn view(&self) -> ActionModel {
        match self {
            RiteAction::HttpPost { url, headers, body_template } => ActionModel::HttpPost {
                url: url@,
                headers: headers_model(*headers),
                body_template: text::optional(*body_template),
            },
        }
    }
}

/// A configured handler that conditionally dispatches an action.
#[derive(Debug, PartialEq, Eq)]
pub struct RiteHandler {
    /// Human-readable unique handler name.
    pub name: String,
    /// Source ID this handler accepts.
    pub source: String,
    /// Fields to match against event attributes or metadata.
    pub matcher: Table<MatchValue>,
    /// Action performed after a match.
    pub action: RiteAction,
}

impl Clone for RiteHandler {
    fn clone(&self) -> (r: RiteHandler)
        ensures
            r@ == self@,
    {
        RiteHandler {
            name: self.name.clone(),
            source: self.source.clone(),
            matcher: copy_entries(&self.matcher),
            action: self.action.clone(),
        }
    }
}

/// The mathematical value of a [`RiteHandler`].
pub struct HandlerModel {
    /// Human-readable unique handler name.
    pub name: Seq<char>,
    /// Source ID this handler accepts.
    pub source: Seq<char>,
    /// Fields to match against event attributes or metadata.
    pub matcher: Seq<(Seq<char>, MatchModel)>,
    /// Action performed after a match.
    pub action: ActionModel,
}

impl View for RiteHandler {
    type V = HandlerModel;

    open spec fn view(&self) -> HandlerModel {
        HandlerModel {
            name: self.name@,
            source: self.source@,
            matcher: entries_model(self.matcher),
            action: self.action@,
        }
    }
}

impl HandlerModel {
    /// The handler matches an event: the event is of the handler's own source,
    /// and the condition tree of the match table holds. A match table that is
    /// refused matches nothing.
    pub open spec fn matches(self, event: EventModel) -> bool {
        self.source == event.source && match tree(self.matcher) {
            Ok(condition) => holds(condition, event),
            Err(_) => false,
        }
    }
}

/// A refusal as a configuration error.
pub open spec fn refused<T>(r: Result<T, Seq<char>>) -> Result<T, ErrorModel> {
    match r {
        Ok(value) => Ok(value),
        Err(reason) => Err(ErrorModel::Config(reason)),
    }
}

impl RiteHandler {
    /// Convert the match table into a match condition tree.
    ///
    /// The operator keys `all_of` and `any_of` are recognized with an array of
    /// tables under them, `not` with a table; any other table or array is refused.
    /// A scalar under an operator's name is an ordinary metadata-lookup leaf.
    pub fn condition_tree(&self) -> (r: Result<MatchCondition, RiteError>)
        ensures
            error::outcome(r) == refused(tree(self@.matcher)),
    {
        Self::tree_from_map(&self.matcher)
    }

    /// The condition tree of a match table, or why it is refused.
    pub fn tree_from_map(map: &Table<MatchValue>) -> (r: Result<MatchCondition, RiteError>)
        ensures
            error::outcome(r) == refused(tree(entries_model(*map))),
        decreases map, 1nat,
    {
        let ghost entries = entries_model(*map);
        let ops = Self::operators_of(map);
        if ops.len() == 0 {
            return Self::flat_tree(map);
        }
        if map.len() != ops.len() {
            return Err(
                RiteError::Config(
                    "match table mixes operators (".to_owned().concat(
                        text::join(&ops, ", ").as_str(),
                    ).concat(
                        ") with ordinary leaf keys; move leaves inside the compound form",
                    ),
                ),
            );
        }
        if ops.len() > 1 {
            return Err(
                RiteError::Config(
                    "match table uses multiple operators (".to_owned().concat(
                        text::join(&ops, ", ").as_str(),
                    ).concat(") at the same level; nest them instead"),
                ),
            );
        }
        proof {
            lookup_in_entries(*map, ops@[0]@);
            assert(operators(entries)[0] == ops@[0]@);
        }
        Self::children_of(map, ops[0].as_str())
    }

    /// The operators that stand in a match table.
    fn operators_of(map: &Table<MatchValue>) -> (ops: Vec<String>)
        ensures
            text::views(ops@) == operators(entries_model(*map)),
            ops@.len() > 0 ==> has_operator(entries_model(*map), ops@[0]@),
    {
        let mut ops: Vec<String> = Vec::new();
        if Self::holds_operator(map, "all_of") {
            ops.push("all_of".to_owned());
        }
        if Self::holds_operator(map, "any_of") {
            ops.push("any_of".to_owned());
        }
        if Self::holds_operator(map, "not") {
            ops.push("not".to_owned());
        }
        assert(text::views(ops@) =~= operators(entries_model(*map)));
        ops
    }

    /// Whether the operator `op` stands in a match table.
    fn holds_operator(map: &Table<MatchValue>, op: &str) -> (yes: bool)
        ensures
            yes == has_operator(entries_model(*map), op@),
    {
        proof {
            lookup_in_entries(*map, op@);
        }
        match map.get(op) {
            Some(value) => value.is_operator_shaped(op),
            None => false,
        }
    }

    /// Whether `op` stands in a match table in the wrong shape.
    fn holds_misshapen(map: &Table<MatchValue>, op: &str) -> (yes: bool)
        ensures
            yes == has_misshapen(entries_model(*map), op@),
    {
        proof {
            lookup_in_entries(*map, op@);
        }
        match map.get(op) {
            Some(value) => value.is_structured() && !value.is_operator_shaped(op),
            None => false,
        }
    }

    /// Why the first operator that stands in a match table in the wrong shape is
    /// refused.
    fn misshapen_error(map: &Table<MatchValue>) -> (r: Option<RiteError>)
        ensures
            match first_misshapen(entries_model(*map)) {
                Some(op) => r matches Some(error) && error@ == ErrorModel::Config(
                    misshapen_reason(op),
                ),
                None => r is None,
            },
    {
        if Self::holds_misshapen(map, "all_of") {
            Some(Self::shape_error("all_of"))
        } else if Self::holds_misshapen(map, "any_of") {
            Some(Self::shape_error("any_of"))
        } else if Self::holds_misshapen(map, "not") {
            Some(Self::shape_error("not"))
        } else {
            None
        }
    }

    /// Why `op` with the wrong shape under it is refused.
    fn shape_error(op: &str) -> (error: RiteError)
        ensures
            error@ == ErrorModel::Config(misshapen_reason(op@)),
    {
        if text::same(op, "not") {
            RiteError::Config(
                "match operator 'not' requires an inline table holding exactly one child condition".to_owned(),
            )
        } else {
            RiteError::Config(
                "match operator '".to_owned().concat(op).concat(
                    "' requires an array of condition tables",
                ),
            )
        }
    }

    /// The condition of a table without operators: every entry is a leaf.
    fn flat_tree(map: &Table<MatchValue>) -> (r: Result<MatchCondition, RiteError>)
        requires
            operators(entries_model(*map)).len() == 0,
        ensures
            error::outcome(r) == refused(tree(entries_model(*map))),
    {
        let ghost entries = entries_model(*map);
        if let Some(error) = Self::misshapen_error(map) {
            return Err(error);
        }
        let mut children: Vec<MatchCondition> = Vec::new();
        let mut i: usize = 0;
        while i < map.entries.len()
            invariant
                operators(entries).len() == 0,
                first_misshapen(entries) is None,
                entries == entries_model(*map),
                i <= map.entries@.len(),
                first_structured(entries.take(i as int)) is None,
                children@.len() == i,
                forall|j: int|
                    0 <= j < i ==> condition_model(#[trigger] children@[j]) == ConditionModel::Leaf(
                        entries[j].0,
                        entries[j].1,
                    ),
            decreases map.entries@.len() - i,
        {
            assert(entries.take(i + 1).drop_last() =~= entries.take(i as int));
            let value = &map.entries[i].1;
            if value.is_structured() {
                proof {
                    first_structured_stands(entries, i + 1);
                }
                return Err(
                    RiteError::Config(
                        "match key '".to_owned().concat(map.entries[i].0.as_str()).concat(
                            "' must hold a string, an integer or a boolean; tables and arrays belong under all_of, any_of or not",
                        ),
                    ),
                );
            }
            children.push(MatchCondition::Leaf(map.entries[i].0.clone(), value.clone()));
            i += 1;
        }
        let condition = MatchCondition::All(children);
        assert(entries.take(i as int) =~= entries);
        assert(condition@->All_0 =~= leaves(entries));
        Ok(condition)
    }

    /// The condition of the operator `op` that stands in a match table.
    fn children_of(map: &Table<MatchValue>, op: &str) -> (r: Result<MatchCondition, RiteError>)
        requires
            has_operator(entries_model(*map), op@),
            is_operator_name(op@),
        ensures
            error::outcome(r) == refused(
                operand(op@, table::lookup(entries_model(*map), op@)->0),
            ),
        decreases map, 0nat,
    {
        proof {
            lookup_in_entries(*map, op@);
            table::lookup_by_position(map.pairs(), op@);
        }
        let value = match map.get(op) {
            Some(value) => value,
            None => return Err(RiteError::Config(String::new())),
        };
        if text::same(op, "not") {
            match value {
                MatchValue::Table(child) => {
                    if child.len() == 0 || (child.len() > 1 && !Self::has_shaped(child)) {
                        return Err(
                            RiteError::Config(
                                "match operator 'not' requires exactly one child condition, found ".to_owned().concat(
                                    text::decimal(child.len() as u64).as_str(),
                                ),
                            ),
                        );
                    }
                    match Self::tree_from_map(child) {
                        Ok(inner) => Ok(MatchCondition::Not(Box::new(inner))),
                        Err(error) => Err(error),
                    }
                },
                _ => Err(Self::shape_error(op)),
            }
        } else {
            match value {
                MatchValue::Array(children) => {
                    if children.len() == 0 {
                        return Err(
                            RiteError::Config(
                                "match operator '".to_owned().concat(op).concat(
                                    "' requires at least one child condition",
                                ),
                            ),
                        );
                    }
                    assert(value@->Array_0 =~= children_model(children@));
                    let parts = match Self::child_trees(children) {
                        Ok(parts) => parts,
                        Err(error) => return Err(error),
                    };
                    if text::same(op, "all_of") {
                        let ghost models = condition_models(parts@);
                        let condition = MatchCondition::All(parts);
                        assert(condition@->All_0 =~= models);
                        Ok(condition)
                    } else {
                        let ghost models = condition_models(parts@);
                        let condition = MatchCondition::Any(parts);
                        assert(condition@->Any_0 =~= models);
                        Ok(condition)
                    }
                },
                _ => Err(Self::shape_error(op)),
            }
        }
    }

    /// The condition trees of several match tables, or why the first bad one is
    /// refused.
    fn child_trees(children: &Vec<Table<MatchValue>>) -> (r: Result<Vec<MatchCondition>, RiteError>)
        ensures
            match r {
                Ok(parts) => trees(children_model(children@)) == Ok::<_, Seq<char>>(
                    condition_models(parts@),
                ),
                Err(error) => refused(trees(children_model(children@))) == Err::<
                    Seq<ConditionModel>,
                    _,
                >(error@),
            },
        decreases children, 0nat,
    {
        let ghost models = children_model(children@);
        let mut parts: Vec<MatchCondition> = Vec::new();
        let mut i: usize = 0;
        assert(models.take(0) =~= seq![]);
        assert(condition_models(parts@) =~= seq![]);
        while i < children.len()
            invariant
                models == children_model(children@),
                i <= children@.len(),
                trees(models.take(i as int)) == Ok::<_, Seq<char>>(condition_models(parts@)),
            decreases children@.len() - i,
        {
            assert(models.take(i + 1).drop_last() =~= models.take(i as int));
            assert(decreases_to!(children => children@[i as int]));
            match Self::tree_from_map(&children[i]) {
                Ok(part) => {
                    let ghost before = parts@;
                    parts.push(part);
                    assert(condition_models(parts@) =~= condition_models(before).push(part@));
                },
                Err(error) => {
                    proof {
                        trees_keep_error(models, i + 1);
                    }
                    return Err(error);
                },
            }
            i += 1;
        }
        assert(models.take(i as int) =~= models);
        Ok(parts)
    }

    /// Whether some entry has an operator's name and the shape it requires.
    fn has_shaped(map: &Table<MatchValue>) -> (yes: bool)
        ensures
            yes == has_shaped_operator(entries_model(*map)),
    {
        let ghost entries = entries_model(*map);
        let mut i: usize = 0;
        while i < map.entries.len()
            invariant
                entries == entries_model(*map),
                i <= map.entries@.len(),
                forall|j: int|
                    0 <= j < i ==> !(is_operator_name((#[trigger] entries[j]).0)
                        && entries[j].1.is_operator_shaped(entries[j].0)),
            decreases map.entries@.len() - i,
        {
            let key = map.entries[i].0.as_str();
            assert(entries[i as int].0 == key@);
            if Self::is_operator_key(key) && map.entries[i].1.is_operator_shaped(key) {
                return true;
            }
            i += 1;
        }
        false
    }

    /// Whether `key` names an operator.
    fn is_operator_key(key: &str) -> (yes: bool)
        ensures
            yes == is_operator_name(key@),
    {
        text::same(key, "all_of") || text::same(key, "any_of") || text::same(key, "not")
    }

    /// Returns whether this handler matches an event.
    ///
    /// The source guard is deliberately outside the condition tree: a match
    /// is only ever considered within the handler's own source.
    pub fn matches(&self, event: &RiteEvent) -> (yes: bool)
        ensures
            yes == self@.matches(event@),
    {
        text::same(self.source.as_str(), event.source.as_str()) && match self.condition_tree() {
            Ok(condition) => condition.matches(event),
            Err(_) => false,
        }
    }
}

/// A handler only ever matches events of its own source.
pub proof fn match_stays_within_source(handler: HandlerModel, event: EventModel)
    requires
        handler.source != event.source,
    ensures
        !handler.matches(event),
{
}

/// A handler whose match table is refused matches no event.
pub proof fn refused_table_matches_nothing(handler: HandlerModel, event: EventModel)
    requires
        tree(handler.matcher) is Err,
    ensures
        !handler.matches(event),
{
}

/// When a conjunction and a disjunction hold.
proof fn holds_by_child(children: Seq<ConditionModel>, event: EventModel)
    ensures
        holds(ConditionModel::All(children), event) == (forall|i: int|
            0 <= i < children.len() ==> holds(#[trigger] children[i], event)),
        holds(ConditionModel::Any(children), event) == (exists|i: int|
            0 <= i < children.len() && holds(#[trigger] children[i], event)),
{
    let all = ConditionModel::All(children);
    let any = ConditionModel::Any(children);
    assert forall|i: int| 0 <= i < children.len() implies #[trigger] children[i] == all->All_0[i]
        && children[i] == any->Any_0[i] by {}
    if holds(all, event) {
        assert forall|i: int| 0 <= i < children.len() implies holds(
            #[trigger] children[i],
            event,
        ) by {
            assert(holds(all->All_0[i], event));
        }
    }
    if exists|i: int| 0 <= i < children.len() && holds(#[trigger] children[i], event) {
        let i = choose|i: int| 0 <= i < children.len() && holds(#[trigger] children[i], event);
        assert(holds(any->Any_0[i], event));
    }
}

/// A flat table of scalars, whatever its keys are named, holds exactly when each
/// of its entries holds as a leaf. The empty table holds of every event.
pub proof fn flat_table_is_conjunction(entries: Seq<(Seq<char>, MatchModel)>, event: EventModel)
    requires
        forall|i: int| 0 <= i < entries.len() ==> !(#[trigger] entries[i]).1.is_structured(),
    ensures
        tree(entries) == Ok::<_, Seq<char>>(ConditionModel::All(leaves(entries))),
        holds(ConditionModel::All(leaves(entries)), event) <==> forall|i: int|
            0 <= i < entries.len() ==> leaf_holds(
                (#[trigger] entries[i]).0,
                entries[i].1,
                event,
            ),
{
    assert forall|op: Seq<char>|
        !(#[trigger] has_operator(entries, op)) && !has_misshapen(entries, op) by {
        table::lookup_by_position(entries, op);
    }
    assert(!has_operator(entries, "all_of"@) && !has_operator(entries, "any_of"@)
        && !has_operator(entries, "not"@));
    assert(operators(entries) =~= seq![]);
    scalars_have_no_structured(entries);
    let parts = leaves(entries);
    holds_by_child(parts, event);
    assert forall|i: int| 0 <= i < entries.len() implies holds(#[trigger] parts[i], event)
        == leaf_holds(entries[i].0, entries[i].1, event) by {}
    if holds(ConditionModel::All(parts), event) {
        assert forall|i: int| 0 <= i < entries.len() implies leaf_holds(
            (#[trigger] entries[i]).0,
            entries[i].1,
            event,
        ) by {
            assert(holds(parts[i], event));
        }
    }
}

proof fn scalars_have_no_structured(entries: Seq<(Seq<char>, MatchModel)>)
    requires
        forall|i: int| 0 <= i < entries.len() ==> !(#[trigger] entries[i]).1.is_structured(),
    ensures
        first_structured(entries) is None,
    decreases entries.len(),
{
    if entries.len() > 0 {
        assert(!entries[entries.len() - 1].1.is_structured());
        assert forall|i: int| 0 <= i < entries.drop_last().len() implies !(
        #[trigger] entries.drop_last()[i]).1.is_structured() by {
            assert(entries.drop_last()[i] == entries[i]);
        }
        scalars_have_no_structured(entries.drop_last());
    }
}

/// An operator that stands alone in a table decides the table.
pub proof fn sole_operator_decides(op: Seq<char>, value: MatchModel)
    requires
        is_operator_name(op),
        value.is_structured(),
    ensures
        tree(seq![(op, value)]) == operand(op, value),
{
    reveal_strlit("all_of");
    reveal_strlit("any_of");
    reveal_strlit("not");
    let entries = seq![(op, value)];
    assert("all_of"@.len() != "not"@.len() && "any_of"@.len() != "not"@.len());
    assert("all_of"@[1] != "any_of"@[1]);
    assert(table::lookup(entries.drop_first(), op) is None);
    assert forall|name: Seq<char>| name != op implies !(#[trigger] has_operator(entries, name))
        && !has_misshapen(entries, name) by {
        assert(table::lookup(entries.drop_first(), name) is None);
        assert(table::lookup(entries, name) is None);
    }
    assert(table::lookup(entries, op) == Some(value));
    assert(has_operator(entries, "all_of"@) == (op == "all_of"@ && value.is_operator_shaped(op)));
    assert(has_operator(entries, "any_of"@) == (op == "any_of"@ && value.is_operator_shaped(op)));
    assert(has_operator(entries, "not"@) == (op == "not"@ && value.is_operator_shaped(op)));
    if value.is_operator_shaped(op) {
        assert(operators(entries) =~= seq![op]);
    } else {
        assert(operators(entries) =~= seq![]);
        assert(first_misshapen(entries) == Some(op));
    }
}

/// `not` holds exactly when its child does not.
pub proof fn not_negates(child: Seq<(Seq<char>, MatchModel)>, event: EventModel)
    requires
        tree(child) is Ok,
        child.len() == 1 || has_shaped_operator(child),
    ensures
        tree(seq![("not"@, MatchModel::Table(child))]) matches Ok(condition) && (holds(
            condition,
            event,
        ) <==> !holds(tree(child)->Ok_0, event)),
{
    sole_operator_decides("not"@, MatchModel::Table(child));
}

/// `all_of` holds exactly when every child does.
pub proof fn all_of_is_conjunction(
    children: Seq<Seq<(Seq<char>, MatchModel)>>,
    event: EventModel,
)
    requires
        children.len() > 0,
        forall|i: int| 0 <= i < children.len() ==> tree(#[trigger] children[i]) is Ok,
    ensures
        tree(seq![("all_of"@, MatchModel::Array(children))]) matches Ok(condition) && (holds(
            condition,
            event,
        ) <==> forall|i: int|
            0 <= i < children.len() ==> holds(tree(#[trigger] children[i])->Ok_0, event)),
{
    reveal_strlit("all_of");
    reveal_strlit("not");
    assert("all_of"@.len() != "not"@.len());
    sole_operator_decides("all_of"@, MatchModel::Array(children));
    trees_by_position(children);
    let parts = trees(children)->Ok_0;
    holds_by_child(parts, event);
    if holds(ConditionModel::All(parts), event) {
        assert forall|i: int| 0 <= i < children.len() implies holds(
            tree(#[trigger] children[i])->Ok_0,
            event,
        ) by {
            assert(holds(parts[i], event));
        }
    }
}

/// `any_of` holds exactly when some child does.
pub proof fn any_of_is_disjunction(
    children: Seq<Seq<(Seq<char>, MatchModel)>>,
    event: EventModel,
)
    requires
        children.len() > 0,
        forall|i: int| 0 <= i < children.len() ==> tree(#[trigger] children[i]) is Ok,
    ensures
        tree(seq![("any_of"@, MatchModel::Array(children))]) matches Ok(condition) && (holds(
            condition,
            event,
        ) <==> exists|i: int|
            0 <= i < children.len() && holds(tree(#[trigger] children[i])->Ok_0, event)),
{
    reveal_strlit("all_of");
    reveal_strlit("any_of");
    reveal_strlit("not");
    assert("any_of"@.len() != "not"@.len());
    assert("all_of"@[1] != "any_of"@[1]);
    sole_operator_decides("any_of"@, MatchModel::Array(children));
    trees_by_position(children);
    let parts = trees(children)->Ok_0;
    holds_by_child(parts, event);
    if exists|i: int| 0 <= i < children.len() && holds(tree(#[trigger] children[i])->Ok_0, event) {
        let i = choose|i: int|
            0 <= i < children.len() && holds(tree(#[trigger] children[i])->Ok_0, event);
        assert(holds(parts[i], event));
    }
}

proof fn trees_by_position(children: Seq<Seq<(Seq<char>, MatchModel)>>)
    requires
        forall|i: int| 0 <= i < children.len() ==> tree(#[trigger] children[i]) is Ok,
    ensures
        trees(children) is Ok,
        trees(children)->Ok_0.len() == children.len(),
        forall|i: int|
            0 <= i < children.len() ==> #[trigger] trees(children)->Ok_0[i] == tree(
                children[i],
            )->Ok_0,
    decreases children.len(),
{
    if children.len() > 0 {
        let rest = children.drop_last();
        assert forall|i: int| 0 <= i < rest.len() implies tree(#[trigger] rest[i]) is Ok by {
            assert(rest[i] == children[i]);
        }
        assert(tree(children[children.len() - 1]) is Ok);
        trees_by_position(rest);
    }
}

/// The condition has scalars at its leaves and no empty alternative.
pub open spec fn is_sound(condition: ConditionModel) -> bool
    decreases condition,
{
    match condition {
        ConditionModel::All(children) => forall|i: int|
            0 <= i < children.len() ==> is_sound(#[trigger] children[i]),
        ConditionModel::Any(children) => children.len() > 0 && forall|i: int|
            0 <= i < children.len() ==> is_sound(#[trigger] children[i]),
        ConditionModel::Not(inner) => is_sound(*inner),
        ConditionModel::Leaf(_, expected) => !expected.is_structured(),
    }
}

/// A match table that is accepted gives a tree with scalars at its leaves and
/// without empty alternatives, however deep the operators nest.
pub proof fn accepted_tree_is_sound(entries: Seq<(Seq<char>, MatchModel)>)
    requires
        tree(entries) is Ok,
    ensures
        is_sound(tree(entries)->Ok_0),
    decreases entries, 0nat,
{
    let ops = operators(entries);
    if ops.len() == 0 {
        unstructured_by_position(entries);
        assert forall|i: int| 0 <= i < leaves(entries).len() implies is_sound(
            #[trigger] leaves(entries)[i],
        ) by {
            assert(!entries[i].1.is_structured());
        }
    } else {
        lookup_decreases(entries, ops[0]);
        accepted_operand_is_sound(ops[0], table::lookup(entries, ops[0])->0);
    }
}

proof fn accepted_operand_is_sound(op: Seq<char>, value: MatchModel)
    requires
        operand(op, value) is Ok,
    ensures
        is_sound(operand(op, value)->Ok_0),
    decreases value, 1nat,
{
    match value {
        MatchModel::Table(child) => {
            accepted_tree_is_sound(child);
        },
        MatchModel::Array(children) => {
            accepted_trees_are_sound(children);
        },
        _ => {},
    }
}

proof fn accepted_trees_are_sound(children: Seq<Seq<(Seq<char>, MatchModel)>>)
    requires
        trees(children) is Ok,
    ensures
        trees(children)->Ok_0.len() == children.len(),
        forall|i: int| 0 <= i < children.len() ==> is_sound(#[trigger] trees(children)->Ok_0[i]),
    decreases children, 0nat,
{
    if children.len() > 0 {
        accepted_trees_are_sound(children.drop_last());
        accepted_tree_is_sound(children.last());
    }
}

proof fn unstructured_by_position(entries: Seq<(Seq<char>, MatchModel)>)
    requires
        first_structured(entries) is None,
    ensures
        forall|i: int| 0 <= i < entries.len() ==> !(#[trigger] entries[i]).1.is_structured(),
    decreases entries.len(),
{
    if entries.len() > 0 {
        unstructured_by_position(entries.drop_last());
        assert forall|i: int| 0 <= i < entries.len() implies !(
        #[trigger] entries[i]).1.is_structured() by {
            if i < entries.len() - 1 {
                assert(entries.drop_last()[i] == entries[i]);
            }
        }
    }
}

/// The value with every scalar in it made the same.
pub open spec fn blanked(value: MatchModel) -> MatchModel
    decreases value,
{
    match value {
        MatchModel::Table(entries) => MatchModel::Table(blanked_entries(entries)),
        MatchModel::Array(children) => MatchModel::Array(
            Seq::new(
                children.len(),
                |i: int|
                    if 0 <= i < children.len() {
                        blanked_entries(children[i])
                    } else {
                        seq![]
                    },
            ),
        ),
        _ => MatchModel::Boolean(false),
    }
}

/// The match table with every scalar in it made the same.
pub open spec fn blanked_entries(entries: Seq<(Seq<char>, MatchModel)>) -> Seq<
    (Seq<char>, MatchModel),
>
    decreases entries,
{
    Seq::new(
        entries.len(),
        |i: int|
            if 0 <= i < entries.len() {
                (entries[i].0, blanked(entries[i].1))
            } else {
                (seq![], MatchModel::Boolean(false))
            },
    )
}

/// Why something is refused, where it is.
pub open spec fn refusal<T>(r: Result<T, Seq<char>>) -> Option<Seq<char>> {
    match r {
        Ok(_) => None,
        Err(reason) => Some(reason),
    }
}

proof fn blanked_lookup(entries: Seq<(Seq<char>, MatchModel)>, key: Seq<char>)
    ensures
        table::lookup(blanked_entries(entries), key) == match table::lookup(entries, key) {
            Some(value) => Some(blanked(value)),
            None => None,
        },
{
    let blanking = |value: MatchModel| blanked(value);
    assert(blanked_entries(entries) =~= table::mapped(entries, blanking));
    table::lookup_mapped(entries, blanking, key);
}

proof fn blanked_first_structured(entries: Seq<(Seq<char>, MatchModel)>)
    ensures
        first_structured(blanked_entries(entries)) == first_structured(entries),
    decreases entries.len(),
{
    if entries.len() > 0 {
        assert(blanked_entries(entries).drop_last() =~= blanked_entries(entries.drop_last()));
        blanked_first_structured(entries.drop_last());
    }
}

proof fn blanked_has_shaped(entries: Seq<(Seq<char>, MatchModel)>)
    ensures
        has_shaped_operator(blanked_entries(entries)) == has_shaped_operator(entries),
{
    let blank = blanked_entries(entries);
    assert forall|i: int| 0 <= i < entries.len() implies (#[trigger] blank[i]).0 == entries[i].0
        && blank[i].1.is_operator_shaped(blank[i].0) == entries[i].1.is_operator_shaped(
        entries[i].0,
    ) by {}
    if has_shaped_operator(entries) {
        let i = choose|i: int|
            0 <= i < entries.len() && is_operator_name((#[trigger] entries[i]).0)
                && entries[i].1.is_operator_shaped(entries[i].0);
        assert(is_operator_name(blank[i].0) && blank[i].1.is_operator_shaped(blank[i].0));
    }
    if has_shaped_operator(blank) {
        let i = choose|i: int|
            0 <= i < blank.len() && is_operator_name((#[trigger] blank[i]).0)
                && blank[i].1.is_operator_shaped(blank[i].0);
        assert(is_operator_name(entries[i].0));
    }
}

/// Whether a match table is refused, and the reason that is given, tell nothing
/// of the scalars in it: only keys, operators and counts are spoken of.
pub proof fn refusal_hides_values(entries: Seq<(Seq<char>, MatchModel)>)
    ensures
        refusal(tree(blanked_entries(entries))) == refusal(tree(entries)),
    decreases entries, 0nat,
{
    let blank = blanked_entries(entries);
    assert forall|op: Seq<char>|
        has_operator(blank, op) == #[trigger] has_operator(entries, op) && has_misshapen(blank, op)
            == has_misshapen(entries, op) by {
        blanked_lookup(entries, op);
    }
    assert(has_operator(blank, "all_of"@) == has_operator(entries, "all_of"@));
    assert(has_operator(blank, "any_of"@) == has_operator(entries, "any_of"@));
    assert(has_operator(blank, "not"@) == has_operator(entries, "not"@));
    assert(operators(blank) == operators(entries));
    assert(first_misshapen(blank) == first_misshapen(entries));
    blanked_first_structured(entries);
    let ops = operators(entries);
    if ops.len() == 1 && entries.len() == 1 {
        lookup_decreases(entries, ops[0]);
        blanked_lookup(entries, ops[0]);
        operand_refusal_hides_values(ops[0], table::lookup(entries, ops[0])->0);
    }
}

proof fn operand_refusal_hides_values(op: Seq<char>, value: MatchModel)
    ensures
        refusal(operand(op, blanked(value))) == refusal(operand(op, value)),
    decreases value, 1nat,
{
    match value {
        MatchModel::Table(child) => {
            blanked_has_shaped(child);
            refusal_hides_values(child);
        },
        MatchModel::Array(children) => {
            let blank = Seq::new(
                children.len(),
                |i: int|
                    if 0 <= i < children.len() {
                        blanked_entries(children[i])
                    } else {
                        seq![]
                    },
            );
            assert(blanked(value)->Array_0 =~= blank);
            trees_refusal_hides_values(children, blank);
        },
        _ => {},
    }
}

proof fn trees_refusal_hides_values(
    children: Seq<Seq<(Seq<char>, MatchModel)>>,
    blank: Seq<Seq<(Seq<char>, MatchModel)>>,
)
    requires
        blank.len() == children.len(),
        forall|i: int| 0 <= i < children.len() ==> #[trigger] blank[i] == blanked_entries(
            children[i],
        ),
    ensures
        refusal(trees(blank)) == refusal(trees(children)),
    decreases children, 0nat,
{
    if children.len() > 0 {
        trees_refusal_hides_values(children.drop_last(), blank.drop_last());
        refusal_hides_values(children.last());
    }
}

proof fn field_names_differ()
    ensures
        "event_type"@ != "action"@,
        "event_type"@ != "severity"@,
        "event_type"@ != "body_contains"@,
        "action"@ != "severity"@,
        "action"@ != "body_contains"@,
        "severity"@ != "body_contains"@,
{
    reveal_strlit("event_type");
    reveal_strlit("action");
    reveal_strlit("severity");
    reveal_strlit("body_contains");
    assert("event_type"@.len() == 10 && "action"@.len() == 6 && "severity"@.len() == 8
        && "body_contains"@.len() == 13);
}

proof fn operator_names_differ()
    ensures
        "all_of"@ != "any_of"@,
        "all_of"@ != "not"@,
        "any_of"@ != "not"@,
{
    reveal_strlit("all_of");
    reveal_strlit("any_of");
    reveal_strlit("not");
    assert("all_of"@.len() == 6 && "not"@.len() == 3 && "any_of"@.len() == 6);
    assert("all_of"@[1] == 'l' && "any_of"@[1] == 'n');
}

/// A matched value is equal to a JSON value only of its own kind: a text to the
/// string of the same characters, an integer to that number, a boolean to that
/// boolean. A table or an array is equal to nothing.
pub proof fn equality_is_within_kind(expected: MatchModel, json: JsonModel)
    ensures
        expected.equals_json(json) <==> match (expected, json) {
            (MatchModel::String(s), JsonModel::String(t)) => s == t,
            (MatchModel::Integer(n), JsonModel::Number { integer, .. }) => integer == Some(n),
            (MatchModel::Boolean(a), JsonModel::Bool(b)) => a == b,
            _ => false,
        },
{
}

/// A leaf on the event type holds exactly of events of that very type.
pub proof fn event_type_leaf(expected: MatchModel, event: EventModel)
    ensures
        leaf_holds("event_type"@, expected, event) <==> expected == MatchModel::String(
            event.event_type,
        ),
{
}

/// A leaf on the action holds exactly of events with that very action; only the
/// empty text holds of an event without one.
pub proof fn action_leaf(expected: MatchModel, event: EventModel)
    ensures
        event.action matches Some(action) ==> (leaf_holds("action"@, expected, event) <==> expected
            == MatchModel::String(action)),
        event.action is None ==> (leaf_holds("action"@, expected, event) <==> expected
            == MatchModel::String(Seq::empty())),
{
    field_names_differ();
}

/// A leaf on the severity holds exactly of events of the severity that it names.
pub proof fn severity_leaf(expected: MatchModel, event: EventModel)
    ensures
        leaf_holds("severity"@, expected, event) <==> match event.severity {
            Severity::Info => expected == MatchModel::String("info"@),
            Severity::Warning => expected == MatchModel::String("warning"@),
            Severity::Error => expected == MatchModel::String("error"@),
            Severity::Critical => expected == MatchModel::String("critical"@),
        },
{
    field_names_differ();
}

/// A leaf on the body's contents holds exactly of events with a body in which the
/// text stands, character by character.
pub proof fn body_leaf(expected: MatchModel, event: EventModel)
    ensures
        leaf_holds("body_contains"@, expected, event) <==> match (expected, event.body) {
            (MatchModel::String(needle), Some(body)) => exists|i: int|
                0 <= i <= body.len() - needle.len() && #[trigger] text::stands_in(body, needle, i),
            _ => false,
        },
        event.body matches Some(body) ==> leaf_holds(
            "body_contains"@,
            MatchModel::String(body),
            event,
        ),
{
    field_names_differ();
    if let (MatchModel::String(needle), Some(body)) = (expected, event.body) {
        text::occurrence_by_character(body, needle);
    }
    if let Some(body) = event.body {
        assert(body.subrange(0, body.len() as int) =~= body);
        assert(text::occurs_at(body, body, 0));
    }
}

/// A leaf on any other field holds exactly of events whose metadata has, as the
/// first entry of that name, a scalar equal to the expected one.
pub proof fn metadata_leaf(field: Seq<char>, expected: MatchModel, event: EventModel)
    requires
        field != "event_type"@,
        field != "action"@,
        field != "severity"@,
        field != "body_contains"@,
    ensures
        leaf_holds(field, expected, event) <==> exists|i: int|
            {
                &&& 0 <= i < event.metadata.len()
                &&& (#[trigger] event.metadata[i]).0 == field
                &&& forall|j: int| 0 <= j < i ==> (#[trigger] event.metadata[j]).0 != field
                &&& match (expected, event.metadata[i].1) {
                    (MatchModel::String(s), JsonModel::String(t)) => s == t,
                    (MatchModel::Integer(n), JsonModel::Number { integer, .. }) => integer == Some(
                        n,
                    ),
                    (MatchModel::Boolean(a), JsonModel::Bool(b)) => a == b,
                    _ => false,
                }
            },
{
    table::lookup_by_position(event.metadata, field);
    match table::lookup(event.metadata, field) {
        Some(value) => {
            let k = choose|k: int|
                0 <= k < event.metadata.len() && #[trigger] event.metadata[k] == (field, value)
                    && forall|j: int| 0 <= j < k ==> (#[trigger] event.metadata[j]).0 != field;
            assert(event.metadata[k].0 == field);
        },
        None => {},
    }
}

/// A conjunction holds exactly when all its children do, a disjunction when one
/// does, a negation when its child does not, and a leaf by its field.
pub proof fn condition_holds_by_its_parts(
    children: Seq<ConditionModel>,
    inner: ConditionModel,
    field: Seq<char>,
    expected: MatchModel,
    event: EventModel,
)
    ensures
        holds(ConditionModel::All(children), event) <==> forall|i: int|
            0 <= i < children.len() ==> holds(#[trigger] children[i], event),
        holds(ConditionModel::Any(children), event) <==> exists|i: int|
            0 <= i < children.len() && holds(#[trigger] children[i], event),
        holds(ConditionModel::Not(Box::new(inner)), event) <==> !holds(inner, event),
        holds(ConditionModel::Leaf(field, expected), event) <==> leaf_holds(
            field,
            expected,
            event,
        ),
{
    holds_by_child(children, event);
}

/// A handler with a flat table of scalars matches exactly the events of its own
/// source of which every entry holds as a leaf.
pub proof fn flat_handler_matches(handler: HandlerModel, event: EventModel)
    requires
        forall|i: int|
            0 <= i < handler.matcher.len() ==> (#[trigger] handler.matcher[i]).1 is String
                || handler.matcher[i].1 is Integer || handler.matcher[i].1 is Boolean,
    ensures
        handler.matches(event) <==> handler.source == event.source && forall|i: int|
            0 <= i < handler.matcher.len() ==> leaf_holds(
                (#[trigger] handler.matcher[i]).0,
                handler.matcher[i].1,
                event,
            ),
{
    flat_table_is_conjunction(handler.matcher, event);
}

/// What a flat table asks of an event's own fields, every event that the handler
/// matches has.
pub proof fn flat_entry_is_needed(
    handler: HandlerModel,
    event: EventModel,
    i: int,
    expected: Seq<char>,
)
    requires
        forall|k: int|
            0 <= k < handler.matcher.len() ==> (#[trigger] handler.matcher[k]).1 is String
                || handler.matcher[k].1 is Integer || handler.matcher[k].1 is Boolean,
        0 <= i < handler.matcher.len(),
        handler.matcher[i].1 == MatchModel::String(expected),
        handler.matches(event),
    ensures
        event.source == handler.source,
        handler.matcher[i].0 == "event_type"@ ==> event.event_type == expected,
        handler.matcher[i].0 == "action"@ ==> event.action == Some(expected) || (
        event.action is None && expected.len() == 0),
        handler.matcher[i].0 == "severity"@ ==> event.severity.name() == expected,
        handler.matcher[i].0 == "body_contains"@ ==> event.body is Some && text::occurs(
            event.body->0,
            expected,
        ),
{
    flat_handler_matches(handler, event);
    assert(leaf_holds(handler.matcher[i].0, handler.matcher[i].1, event));
    event_type_leaf(MatchModel::String(expected), event);
    action_leaf(MatchModel::String(expected), event);
    field_names_differ();
}

/// A handler that asks for an event type and an action matches, of the events with
/// an action, exactly those of its source that have both.
pub proof fn type_and_action_decide(
    handler: HandlerModel,
    event: EventModel,
    event_type: Seq<char>,
    action: Seq<char>,
)
    requires
        handler.matcher == seq![
            ("action"@, MatchModel::String(action)),
            ("event_type"@, MatchModel::String(event_type)),
        ],
        event.action is Some,
    ensures
        handler.matches(event) <==> event.source == handler.source && event.event_type
            == event_type && event.action == Some(action),
{
    flat_handler_matches(handler, event);
    event_type_leaf(MatchModel::String(event_type), event);
    action_leaf(MatchModel::String(action), event);
    let entries = handler.matcher;
    assert(entries[0].0 == "action"@ && entries[1].0 == "event_type"@);
}

/// The handler with another match table.
pub open spec fn with_table(
    handler: HandlerModel,
    matcher: Seq<(Seq<char>, MatchModel)>,
) -> HandlerModel {
    HandlerModel {
        name: handler.name,
        source: handler.source,
        matcher,
        action: handler.action,
    }
}

/// A handler with `all_of` matches exactly what all the handlers with one of the
/// children each match, one with `any_of` what some of them matches.
pub proof fn compound_handler_matches(
    handler: HandlerModel,
    children: Seq<Seq<(Seq<char>, MatchModel)>>,
    event: EventModel,
)
    requires
        children.len() > 0,
        forall|i: int| 0 <= i < children.len() ==> tree(#[trigger] children[i]) is Ok,
    ensures
        with_table(handler, seq![("all_of"@, MatchModel::Array(children))]).matches(event)
            <==> forall|i: int|
            0 <= i < children.len() ==> with_table(handler, #[trigger] children[i]).matches(event),
        with_table(handler, seq![("any_of"@, MatchModel::Array(children))]).matches(event)
            <==> exists|i: int|
            0 <= i < children.len() && with_table(handler, #[trigger] children[i]).matches(event),
{
    all_of_is_conjunction(children, event);
    any_of_is_disjunction(children, event);
    let all = with_table(handler, seq![("all_of"@, MatchModel::Array(children))]);
    let any = with_table(handler, seq![("any_of"@, MatchModel::Array(children))]);
    if all.matches(event) {
        assert forall|i: int| 0 <= i < children.len() implies with_table(
            handler,
            #[trigger] children[i],
        ).matches(event) by {
            assert(holds(tree(children[i])->Ok_0, event));
        }
    } else if handler.source == event.source {
        let i = choose|i: int|
            0 <= i < children.len() && !holds(tree(#[trigger] children[i])->Ok_0, event);
        assert(!with_table(handler, children[i]).matches(event));
    } else {
        assert(!with_table(handler, children[0]).matches(event));
    }
    if any.matches(event) {
        let i = choose|i: int|
            0 <= i < children.len() && holds(tree(#[trigger] children[i])->Ok_0, event);
        assert(with_table(handler, children[i]).matches(event));
    }
}

/// A handler with `not` matches, of its source's events, exactly those that the
/// handler with the child does not.
pub proof fn negated_handler_matches(
    handler: HandlerModel,
    child: Seq<(Seq<char>, MatchModel)>,
    event: EventModel,
)
    requires
        child.len() == 1,
        tree(child) is Ok,
    ensures
        with_table(handler, seq![("not"@, MatchModel::Table(child))]).matches(event)
            <==> event.source == handler.source && !with_table(handler, child).matches(event),
{
    not_negates(child, event);
}

proof fn accepted_children(children: Seq<Seq<(Seq<char>, MatchModel)>>)
    requires
        trees(children) is Ok,
    ensures
        forall|i: int| 0 <= i < children.len() ==> tree(#[trigger] children[i]) is Ok,
    decreases children.len(),
{
    if children.len() > 0 {
        let rest = children.drop_last();
        accepted_children(rest);
        assert forall|i: int| 0 <= i < children.len() implies tree(#[trigger] children[i]) is Ok by {
            if i < rest.len() {
                assert(rest[i] == children[i]);
            }
        }
    }
}

/// The table is one entry: `all_of` or `any_of` over one or more accepted tables.
pub open spec fn is_list_operator(entries: Seq<(Seq<char>, MatchModel)>) -> bool {
    &&& entries.len() == 1
    &&& entries[0].0 == "all_of"@ || entries[0].0 == "any_of"@
    &&& entries[0].1 matches MatchModel::Array(children) && children.len() > 0 && forall|i: int|
        0 <= i < children.len() ==> tree(#[trigger] children[i]) is Ok
}

/// The table is one entry: `not` over an accepted table of one entry.
pub open spec fn is_negation(entries: Seq<(Seq<char>, MatchModel)>) -> bool {
    &&& entries.len() == 1
    &&& entries[0].0 == "not"@
    &&& entries[0].1 matches MatchModel::Table(child) && child.len() == 1 && tree(child) is Ok
}

proof fn sole_entry(entries: Seq<(Seq<char>, MatchModel)>)
    requires
        entries.len() == 1,
        operators(entries).len() == 1,
    ensures
        operators(entries)[0] == entries[0].0,
        is_operator_name(entries[0].0),
        entries[0].1.is_operator_shaped(entries[0].0),
        table::lookup(entries, entries[0].0) == Some(entries[0].1),
        entries == seq![(entries[0].0, entries[0].1)],
{
    operator_names_differ();
    assert forall|op: Seq<char>| #[trigger] has_operator(entries, op) implies entries[0].0 == op
        && entries[0].1.is_operator_shaped(op) by {
        table::lookup_by_position(entries, op);
    }
    assert(has_operator(entries, "all_of"@) || has_operator(entries, "any_of"@) || has_operator(
        entries,
        "not"@,
    ));
    assert(entries =~= seq![(entries[0].0, entries[0].1)]);
}

/// A match table is accepted exactly when it is flat, or a single operator over
/// accepted tables: `all_of` and `any_of` over at least one, `not` over a table of
/// one entry.
pub proof fn accepted_tables(entries: Seq<(Seq<char>, MatchModel)>)
    ensures
        tree(entries) is Ok <==> (forall|i: int|
            0 <= i < entries.len() ==> (#[trigger] entries[i]).1 is String
                || entries[i].1 is Integer || entries[i].1 is Boolean) || is_list_operator(entries)
            || is_negation(entries),
{
    operator_names_differ();
    let flat = forall|i: int|
        0 <= i < entries.len() ==> (#[trigger] entries[i]).1 is String || entries[i].1 is Integer
            || entries[i].1 is Boolean;
    if flat {
        flat_table_is_conjunction(entries, arbitrary());
    }
    if is_list_operator(entries) || is_negation(entries) {
        let (op, value) = entries[0];
        assert(entries =~= seq![(op, value)]);
        sole_operator_decides(op, value);
        if is_list_operator(entries) {
            trees_by_position(value->Array_0);
        }
    }
    if tree(entries) is Ok {
        let ops = operators(entries);
        if ops.len() == 0 {
            unstructured_by_position(entries);
            assert(flat);
        } else {
            sole_entry(entries);
            let (op, value) = entries[0];
            assert(operand(op, value) is Ok);
            match value {
                MatchModel::Table(child) => {
                    if child.len() > 1 {
                        if operators(child).len() == 0 {
                            unstructured_by_position(child);
                        }
                        assert(false);
                    }
                },
                MatchModel::Array(children) => {
                    accepted_children(children);
                },
                _ => {},
            }
        }
    }
}

/// The condition of an accepted table has the table's form: a flat table is the
/// conjunction of its entries as leaves, an operator stands over the conditions of
/// its children in their order.
pub proof fn accepted_tree_has_the_tables_form(entries: Seq<(Seq<char>, MatchModel)>)
    requires
        tree(entries) is Ok,
    ensures
        (forall|i: int| 0 <= i < entries.len() ==> !((#[trigger] entries[i]).1 is Table
            || entries[i].1 is Array)) ==> {
            &&& tree(entries)->Ok_0 is All
            &&& tree(entries)->Ok_0->All_0.len() == entries.len()
            &&& forall|i: int|
                0 <= i < entries.len() ==> #[trigger] tree(entries)->Ok_0->All_0[i]
                    == ConditionModel::Leaf(entries[i].0, entries[i].1)
        },
        is_list_operator(entries) && entries[0].0 == "all_of"@ ==> {
            &&& tree(entries)->Ok_0 is All
            &&& tree(entries)->Ok_0->All_0.len() == entries[0].1->Array_0.len()
            &&& forall|i: int|
                0 <= i < entries[0].1->Array_0.len() ==> #[trigger] tree(entries)->Ok_0->All_0[i]
                    == tree(entries[0].1->Array_0[i])->Ok_0
        },
        is_list_operator(entries) && entries[0].0 == "any_of"@ ==> {
            &&& tree(entries)->Ok_0 is Any
            &&& tree(entries)->Ok_0->Any_0.len() == entries[0].1->Array_0.len()
            &&& forall|i: int|
                0 <= i < entries[0].1->Array_0.len() ==> #[trigger] tree(entries)->Ok_0->Any_0[i]
                    == tree(entries[0].1->Array_0[i])->Ok_0
        },
        is_negation(entries) ==> tree(entries)->Ok_0 == ConditionModel::Not(
            Box::new(tree(entries[0].1->Table_0)->Ok_0),
        ),
{
    operator_names_differ();
    if forall|i: int|
        0 <= i < entries.len() ==> !((#[trigger] entries[i]).1 is Table || entries[i].1 is Array) {
        flat_table_is_conjunction(entries, arbitrary());
    }
    if is_list_operator(entries) || is_negation(entries) {
        let (op, value) = entries[0];
        assert(entries =~= seq![(op, value)]);
        sole_operator_decides(op, value);
        if is_list_operator(entries) {
            trees_by_position(value->Array_0);
        }
    }
}

/// The entry is an operator: it has an operator's name and a value of the shape
/// that the operator takes.
pub open spec fn is_operator_entry(entry: (Seq<char>, MatchModel)) -> bool {
    match entry.1 {
        MatchModel::Array(_) => entry.0 == "all_of"@ || entry.0 == "any_of"@,
        MatchModel::Table(_) => entry.0 == "not"@,
        _ => false,
    }
}

/// An operator over no child is refused, and `not` over none or several entries of
/// which none is an operator too, each with the reason that says so.
pub proof fn childless_operators_are_refused(
    op: Seq<char>,
    child: Seq<(Seq<char>, MatchModel)>,
)
    requires
        op == "all_of"@ || op == "any_of"@,
        child.len() != 1,
        forall|i: int| 0 <= i < child.len() ==> !is_operator_entry(#[trigger] child[i]),
    ensures
        tree(seq![(op, MatchModel::Array(seq![]))]) == Err::<ConditionModel, _>(
            "match operator '"@ + op + "' requires at least one child condition"@,
        ),
        tree(seq![("not"@, MatchModel::Table(child))]) == Err::<ConditionModel, _>(
            "match operator 'not' requires exactly one child condition, found "@ + text::numeral(
                child.len(),
            ),
        ),
{
    operator_names_differ();
    sole_operator_decides(op, MatchModel::Array(seq![]));
    sole_operator_decides("not"@, MatchModel::Table(child));
}

proof fn first_structured_by_position(entries: Seq<(Seq<char>, MatchModel)>, k: int)
    requires
        0 <= k < entries.len(),
        entries[k].1.is_structured(),
        forall|j: int| 0 <= j < k ==> !(#[trigger] entries[j]).1.is_structured(),
    ensures
        first_structured(entries) == Some(entries[k].0),
{
    let front = entries.take(k);
    assert forall|j: int| 0 <= j < front.len() implies !(
    #[trigger] front[j]).1.is_structured() by {
        assert(front[j] == entries[j]);
    }
    scalars_have_no_structured(front);
    assert(entries.take(k + 1).drop_last() =~= front);
    assert(entries.take(k + 1).last() == entries[k]);
    first_structured_stands(entries, k + 1);
}

/// The value under a key, where it is a table or an array.
pub open spec fn structure_under(
    entries: Seq<(Seq<char>, MatchModel)>,
    key: Seq<char>,
) -> Option<MatchModel> {
    match table::lookup(entries, key) {
        Some(MatchModel::Table(child)) => Some(MatchModel::Table(child)),
        Some(MatchModel::Array(children)) => Some(MatchModel::Array(children)),
        _ => None,
    }
}

/// A table without an operator, in which some value is a table or an array, is
/// refused: for `all_of`, `any_of` or `not` over the wrong one of the two, in this
/// order, and otherwise for the first key with either.
pub proof fn misplaced_structure_is_refused(entries: Seq<(Seq<char>, MatchModel)>, k: int)
    requires
        forall|i: int| 0 <= i < entries.len() ==> !is_operator_entry(#[trigger] entries[i]),
        0 <= k < entries.len(),
        entries[k].1 is Table || entries[k].1 is Array,
        forall|j: int|
            0 <= j < k ==> !((#[trigger] entries[j]).1 is Table || entries[j].1 is Array),
    ensures
        tree(entries) == Err::<ConditionModel, _>(
            if structure_under(entries, "all_of"@) is Some {
                "match operator '"@ + "all_of"@ + "' requires an array of condition tables"@
            } else if structure_under(entries, "any_of"@) is Some {
                "match operator '"@ + "any_of"@ + "' requires an array of condition tables"@
            } else if structure_under(entries, "not"@) is Some {
                "match operator 'not' requires an inline table holding exactly one child condition"@
            } else {
                "match key '"@ + entries[k].0
                    + "' must hold a string, an integer or a boolean; tables and arrays belong under all_of, any_of or not"@
            },
        ),
{
    operator_names_differ();
    assert forall|op: Seq<char>| is_operator_name(op) implies !(
    #[trigger] has_operator(entries, op)) && has_misshapen(entries, op) == (structure_under(
        entries,
        op,
    ) is Some) by {
        table::lookup_by_position(entries, op);
        if let Some(value) = table::lookup(entries, op) {
            let i = choose|i: int| 0 <= i < entries.len() && #[trigger] entries[i] == (op, value);
            assert(!is_operator_entry(entries[i]));
        }
    }
    assert(!has_operator(entries, "all_of"@) && !has_operator(entries, "any_of"@) && !has_operator(
        entries,
        "not"@,
    ));
    assert(operators(entries) =~= seq![]);
    first_structured_by_position(entries, k);
}

/// The key stands in the table with a value of the shape that the operator of that
/// name takes.
pub open spec fn operates(entries: Seq<(Seq<char>, MatchModel)>, op: Seq<char>) -> bool {
    match table::lookup(entries, op) {
        Some(MatchModel::Array(_)) => op == "all_of"@ || op == "any_of"@,
        Some(MatchModel::Table(_)) => op == "not"@,
        _ => false,
    }
}

/// The operators of a table by name.
pub open spec fn operator_list(all_of: bool, any_of: bool, not: bool) -> Seq<char> {
    match (all_of, any_of, not) {
        (true, true, true) => "all_of, any_of, not"@,
        (true, true, false) => "all_of, any_of"@,
        (true, false, true) => "all_of, not"@,
        (false, true, true) => "any_of, not"@,
        (true, false, false) => "all_of"@,
        (false, true, false) => "any_of"@,
        (false, false, true) => "not"@,
        (false, false, false) => Seq::empty(),
    }
}

/// An operator stands alone: beside ordinary keys, or beside another operator, a
/// table is refused, and the reason names the operators.
pub proof fn operators_stand_alone(entries: Seq<(Seq<char>, MatchModel)>)
    requires
        entries.len() > 1,
        operates(entries, "all_of"@) || operates(entries, "any_of"@) || operates(entries, "not"@),
    ensures
        ({
            let (all_of, any_of, not) = (
                operates(entries, "all_of"@),
                operates(entries, "any_of"@),
                operates(entries, "not"@),
            );
            let named = operator_list(all_of, any_of, not);
            let count = (if all_of { 1int } else { 0 }) + (if any_of { 1int } else { 0 }) + (if not {
                1int
            } else {
                0
            });
            tree(entries) == if entries.len() == count {
                Err::<ConditionModel, _>(
                    "match table uses multiple operators ("@ + named
                        + ") at the same level; nest them instead"@,
                )
            } else {
                Err(
                    "match table mixes operators ("@ + named
                        + ") with ordinary leaf keys; move leaves inside the compound form"@,
                )
            }
        }),
{
    operator_names_differ();
    assert forall|op: Seq<char>| is_operator_name(op) implies #[trigger] has_operator(entries, op)
        == operates(entries, op) by {}
    let (all_of, any_of, not) = (
        operates(entries, "all_of"@),
        operates(entries, "any_of"@),
        operates(entries, "not"@),
    );
    assert(has_operator(entries, "all_of"@) == all_of && has_operator(entries, "any_of"@) == any_of
        && has_operator(entries, "not"@) == not);
    let ops = operators(entries);
    reveal_strlit(", ");
    reveal_strlit("all_of");
    reveal_strlit("any_of");
    reveal_strlit("not");
    reveal_strlit("all_of, any_of, not");
    reveal_strlit("all_of, any_of");
    reveal_strlit("all_of, not");
    reveal_strlit("any_of, not");
    let comma = ", "@;
    text::joining_separates_parts("all_of"@, "any_of"@, seq![], comma);
    text::joining_separates_parts("all_of"@, "not"@, seq![], comma);
    text::joining_separates_parts("any_of"@, "not"@, seq![], comma);
    text::joining_separates_parts("not"@, "not"@, seq![], comma);
    text::joining_separates_parts("all_of"@, "any_of"@, seq!["not"@], comma);
    let none = Seq::<Seq<char>>::empty();
    assert(seq!["any_of"@] + none =~= seq!["any_of"@]);
    assert(seq!["not"@] + none =~= seq!["not"@]);
    assert(seq!["any_of"@] + seq!["not"@] =~= seq!["any_of"@, "not"@] + none);
    let spelt: Seq<Seq<char>> = match (all_of, any_of, not) {
        (true, true, true) => seq!["all_of"@, "any_of"@] + seq!["not"@],
        (true, true, false) => seq!["all_of"@, "any_of"@] + none,
        (true, false, true) => seq!["all_of"@, "not"@] + none,
        (false, true, true) => seq!["any_of"@, "not"@] + none,
        (true, false, false) => seq!["all_of"@],
        (false, true, false) => seq!["any_of"@],
        (false, false, true) => seq!["not"@],
        (false, false, false) => none,
    };
    assert(ops =~= spelt);
    assert(text::joined(ops, comma) =~= operator_list(all_of, any_of, not));
}

/// A compound table with refused children is refused for the reason of the first of
/// them, and `not` for that of its child.
pub proof fn first_refused_child_gives_the_reason(
    op: Seq<char>,
    children: Seq<Seq<(Seq<char>, MatchModel)>>,
    k: int,
)
    requires
        op == "all_of"@ || op == "any_of"@,
        0 <= k < children.len(),
        forall|i: int| 0 <= i < k ==> tree(#[trigger] children[i]) is Ok,
        tree(children[k]) is Err,
    ensures
        tree(seq![(op, MatchModel::Array(children))]) == Err::<ConditionModel, _>(
            tree(children[k])->Err_0,
        ),
        children[k].len() == 1 || (children[k].len() > 1 && exists|i: int|
            0 <= i < children[k].len() && is_operator_entry(#[trigger] children[k][i])) ==> tree(
            seq![("not"@, MatchModel::Table(children[k]))],
        ) == Err::<ConditionModel, _>(tree(children[k])->Err_0),
{
    operator_names_differ();
    let child = children[k];
    if exists|i: int| 0 <= i < child.len() && is_operator_entry(#[trigger] child[i]) {
        let i = choose|i: int| 0 <= i < child.len() && is_operator_entry(#[trigger] child[i]);
        assert(is_operator_name(child[i].0) && child[i].1.is_operator_shaped(child[i].0));
    }
    sole_operator_decides(op, MatchModel::Array(children));
    sole_operator_decides("not"@, MatchModel::Table(children[k]));
    let front = children.take(k);
    assert forall|i: int| 0 <= i < front.len() implies tree(#[trigger] front[i]) is Ok by {
        assert(front[i] == children[i]);
    }
    trees_by_position(front);
    assert(children.take(k + 1).drop_last() =~= front);
    assert(children.take(k + 1).last() == children[k]);
    trees_keep_error(children, k + 1);
}

/// A handler, its action and a match value are seen whole.
pub proof fn handlers_are_seen_whole(handler: RiteHandler, value: MatchValue)
    ensures
        handler@.name == handler.name@,
        handler@.source == handler.source@,
        handler@.matcher.len() == handler.matcher.entries@.len(),
        forall|i: int|
            0 <= i < handler.matcher.entries@.len() ==> #[trigger] handler@.matcher[i] == (
                handler.matcher.entries@[i].0@,
                handler.matcher.entries@[i].1@,
            ),
        match handler.action {
            RiteAction::HttpPost { url, headers, body_template } => {
                &&& handler@.action->HttpPost_url == url@
                &&& handler@.action->HttpPost_headers.len() == headers.entries@.len()
                &&& forall|i: int|
                    0 <= i < headers.entries@.len()
                        ==> #[trigger] handler@.action->HttpPost_headers[i] == (
                        headers.entries@[i].0@,
                        headers.entries@[i].1@,
                    )
                &&& handler@.action->HttpPost_body_template == match body_template {
                    Some(template) => Some(template@),
                    None => None,
                }
            },
        },
        match value {
            MatchValue::String(s) => value@ == MatchModel::String(s@),
            MatchValue::Integer(n) => value@ == MatchModel::Integer(n),
            MatchValue::Boolean(b) => value@ == MatchModel::Boolean(b),
            MatchValue::Table(entries) => {
                &&& value@ is Table
                &&& value@->Table_0.len() == entries.entries@.len()
                &&& forall|i: int|
                    0 <= i < entries.entries@.len() ==> #[trigger] value@->Table_0[i] == (
                        entries.entries@[i].0@,
                        entries.entries@[i].1@,
                    )
            },
            MatchValue::Array(children) => {
                &&& value@ is Array
                &&& value@->Array_0.len() == children@.len()
                &&& forall|i: int|
                    0 <= i < children@.len() ==> #[trigger] value@->Array_0[i] == MatchValue::Table(
                        children@[i],
                    )@->Table_0
            },
        },
{
}

/// A condition is seen whole.
pub proof fn conditions_are_seen_whole(condition: MatchCondition)
    ensures
        match condition {
            MatchCondition::All(children) => {
                &&& condition@ is All
                &&& condition@->All_0.len() == children@.len()
                &&& forall|i: int|
                    0 <= i < children@.len() ==> #[trigger] condition@->All_0[i] == children@[i]@
            },
            MatchCondition::Any(children) => {
                &&& condition@ is Any
                &&& condition@->Any_0.len() == children@.len()
                &&& forall|i: int|
                    0 <= i < children@.len() ==> #[trigger] condition@->Any_0[i] == children@[i]@
            },
            MatchCondition::Not(inner) => condition@ == ConditionModel::Not(Box::new((*inner)@)),
            MatchCondition::Leaf(field, expected) => condition@ == ConditionModel::Leaf(
                field@,
                expected@,
            ),
        },
{
}

/// A refusal is a configuration error with its reason, and what is accepted stays
/// as it is.
pub proof fn refusals_are_configuration_errors<T>(value: T, reason: Seq<char>)
    ensures
        refused(Ok::<T, Seq<char>>(value)) == Ok::<T, ErrorModel>(value),
        refused(Err::<T, Seq<char>>(reason)) == Err::<T, ErrorModel>(ErrorModel::Config(reason)),
{
}

/// `not` takes a table, and the other operators take an array of tables.
pub proof fn operators_take_their_shapes(value: MatchModel)
    ensures
        value.is_operator_shaped("not"@) <==> value is Table,
        value.is_operator_shaped("all_of"@) <==> value is Array,
        value.is_operator_shaped("any_of"@) <==> value is Array,
{
    operator_names_differ();
}

} // verus!
