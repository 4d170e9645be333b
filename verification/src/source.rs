//! What event sources have in common.

use crate::error;
use crate::error::{ErrorModel, RiteError};
use crate::event::{EventModel, MetadataModel, RiteEvent, SourceMetadata};
use crate::json::{Json, JsonModel};
use crate::text;
use crate::time::Timestamp;
use vstd::prelude::*;

verus! {

/// Request headers as pairs of character sequences.
pub open spec fn header_pairs(headers: Seq<(String, String)>) -> Seq<(Seq<char>, Seq<char>)> {
    headers.map_values(|header: (String, String)| (header.0@, header.1@))
}

/// The value of the first header of this name, the name's ASCII case aside.
pub open spec fn header_value(headers: Seq<(Seq<char>, Seq<char>)>, name: Seq<char>) -> Option<
    Seq<char>,
>
    decreases headers.len(),
{
    if headers.len() == 0 {
        None
    } else if text::same_ignoring_ascii_case(headers[0].0, name) {
        Some(headers[0].1)
    } else {
        header_value(headers.drop_first(), name)
    }
}

/// The value of the first header of this name, the name's ASCII case aside.
pub fn header<'a>(headers: &'a [(String, String)], name: &str) -> (r: Option<&'a str>)
    ensures
        match r {
            Some(value) => header_value(header_pairs(headers@), name@) == Some(value@),
            None => header_value(header_pairs(headers@), name@) is None,
        },
{
    let ghost pairs = header_pairs(headers@);
    let mut i: usize = 0;
    assert(pairs.skip(0) =~= pairs);
    while i < headers.len()
        invariant
            pairs == header_pairs(headers@),
            i <= headers@.len(),
            header_value(pairs, name@) == header_value(pairs.skip(i as int), name@),
        decreases headers@.len() - i,
    {
        assert(pairs.skip(i as int)[0] == pairs[i as int]);
        if text::eq_ignore_ascii_case(headers[i].0.as_str(), name) {
            return Some(headers[i].1.as_str());
        }
        assert(pairs.skip(i as int).drop_first() =~= pairs.skip(i + 1));
        i += 1;
    }
    None
}

/// The view of a JSON value that may be absent.
pub open spec fn optional_json(json: Option<Json>) -> Option<JsonModel> {
    match json {
        Some(json) => Some(json@),
        None => None,
    }
}

/// Verifies and normalizes inbound source payloads.
///
/// A payload that gives a duration in seconds has it in the event in
/// milliseconds. That product is taken in floating point, so the caller computes
/// it and hands it in as `duration_ms`.
pub trait EventSource {
    /// What the source says of itself.
    spec fn description(&self) -> MetadataModel;

    /// Whether a request is authentic, or why it is refused.
    spec fn verdict(&self, headers: Seq<(Seq<char>, Seq<char>)>, body: Seq<u8>) -> Result<
        (),
        ErrorModel,
    >;

    /// The event that a payload received at `now` stands for, or why it is refused.
    spec fn normalized(
        &self,
        headers: Seq<(Seq<char>, Seq<char>)>,
        body: Seq<u8>,
        now: Timestamp,
        duration_ms: Option<JsonModel>,
    ) -> Result<EventModel, ErrorModel>;

    /// Static source description.
    fn metadata(&self) -> (r: SourceMetadata)
        ensures
            r@ == self.description(),
    ;

    /// Verify request authenticity before parsing it.
    fn verify(&self, headers: &[(String, String)], body: &[u8]) -> (r: Result<(), RiteError>)
        ensures
            error::outcome(r) == self.verdict(header_pairs(headers@), body@),
    ;

    /// Normalize a verified payload that was received at `now`.
    fn parse_at(
        &self,
        headers: &[(String, String)],
        body: &[u8],
        now: Timestamp,
        duration_ms: Option<Json>,
    ) -> (r: Result<RiteEvent, RiteError>)
        ensures
            error::outcome(r) == self.normalized(
                header_pairs(headers@),
                body@,
                now,
                optional_json(duration_ms),
            ),
            r matches Ok(event) ==> event.metadata.well_formed(),
    ;

    /// Normalize a verified payload that has just been received.
    fn parse(&self, headers: &[(String, String)], body: &[u8], duration_ms: Option<Json>) -> (r:
        Result<RiteEvent, RiteError>)
        ensures
            exists|now: Timestamp|
                now.valid() && error::outcome(r) == #[trigger] self.normalized(
                    header_pairs(headers@),
                    body@,
                    now,
                    optional_json(duration_ms),
                ),
            r matches Ok(event) ==> event.metadata.well_formed(),
    {
        let now = Timestamp::now();
        self.parse_at(headers, body, now, duration_ms)
    }
}

/// Headers are found whatever the case of their names, and the first one counts.
pub proof fn header_lookup_ignores_case(
    headers: Seq<(Seq<char>, Seq<char>)>,
    asked: Seq<char>,
    other: Seq<char>,
)
    requires
        text::same_ignoring_ascii_case(asked, other),
    ensures
        header_value(headers, asked) == header_value(headers, other),
    decreases headers.len(),
{
    if headers.len() > 0 {
        let name = headers[0].0;
        assert(text::same_ignoring_ascii_case(name, asked) == text::same_ignoring_ascii_case(
            name,
            other,
        )) by {
            if text::same_ignoring_ascii_case(name, asked) {
                assert forall|i: int| 0 <= i < name.len() implies text::ascii_lower(
                    #[trigger] name[i],
                ) == text::ascii_lower(other[i]) by {
                    assert(text::ascii_lower(asked[i]) == text::ascii_lower(other[i]));
                }
            }
            if text::same_ignoring_ascii_case(name, other) {
                assert forall|i: int| 0 <= i < name.len() implies text::ascii_lower(
                    #[trigger] name[i],
                ) == text::ascii_lower(asked[i]) by {
                    assert(text::ascii_lower(asked[i]) == text::ascii_lower(other[i]));
                }
            }
        }
        header_lookup_ignores_case(headers.drop_first(), asked, other);
    }
}

/// A header's value is that of the first pair whose name agrees with the asked one
/// up to the case of ASCII letters, and there is none where no name agrees.
pub proof fn header_by_position(headers: Seq<(Seq<char>, Seq<char>)>, name: Seq<char>)
    ensures
        match header_value(headers, name) {
            Some(value) => exists|i: int|
                {
                    &&& 0 <= i < headers.len()
                    &&& #[trigger] headers[i].1 == value
                    &&& is_header_of(headers[i].0, name)
                    &&& forall|j: int|
                        0 <= j < i ==> !is_header_of((#[trigger] headers[j]).0, name)
                },
            None => forall|i: int|
                0 <= i < headers.len() ==> !is_header_of((#[trigger] headers[i]).0, name),
        },
    decreases headers.len(),
{
    if headers.len() > 0 {
        let rest = headers.drop_first();
        header_by_position(rest, name);
        same_by_letter(headers[0].0, name);
        if is_header_of(headers[0].0, name) {
            assert(headers[0].1 == header_value(headers, name)->0);
        } else {
            assert forall|i: int| 0 < i < headers.len() implies #[trigger] headers[i] == rest[i
                - 1] by {}
            match header_value(headers, name) {
                Some(value) => {
                    let k = choose|k: int|
                        {
                            &&& 0 <= k < rest.len()
                            &&& #[trigger] rest[k].1 == value
                            &&& is_header_of(rest[k].0, name)
                            &&& forall|j: int|
                                0 <= j < k ==> !is_header_of((#[trigger] rest[j]).0, name)
                        };
                    assert(headers[k + 1].1 == value);
                    assert forall|j: int| 0 <= j < k + 1 implies !is_header_of(
                        (#[trigger] headers[j]).0,
                        name,
                    ) by {
                        if j > 0 {
                            assert(headers[j] == rest[j - 1]);
                        }
                    }
                },
                None => {
                    assert forall|i: int| 0 <= i < headers.len() implies !is_header_of(
                        (#[trigger] headers[i]).0,
                        name,
                    ) by {
                        if i > 0 {
                            assert(headers[i] == rest[i - 1]);
                        }
                    }
                },
            }
        }
    }
}

/// The names have the same letters, each in either case, and are otherwise the
/// same.
pub open spec fn is_header_of(given: Seq<char>, name: Seq<char>) -> bool {
    &&& given.len() == name.len()
    &&& forall|i: int|
        #![trigger given[i]]
        #![trigger name[i]]
        0 <= i < given.len() ==> given[i] == name[i] || ('A' <= given[i] <= 'Z' && name[i] as u32
            == given[i] as u32 + 32) || ('A' <= name[i] <= 'Z' && given[i] as u32 == name[i] as u32
            + 32)
}

proof fn same_by_letter(given: Seq<char>, name: Seq<char>)
    ensures
        text::same_ignoring_ascii_case(given, name) <==> is_header_of(given, name),
{
    if text::same_ignoring_ascii_case(given, name) {
        assert forall|i: int|
            #![trigger given[i]]
            #![trigger name[i]]
            0 <= i < given.len() implies given[i] == name[i] || ('A' <= given[i] <= 'Z'
            && name[i] as u32 == given[i] as u32 + 32) || ('A' <= name[i] <= 'Z' && given[i] as u32
            == name[i] as u32 + 32) by {
            text::case_is_all_that_differs(given[i], name[i]);
        }
    }
    if is_header_of(given, name) {
        assert forall|i: int| 0 <= i < given.len() implies text::ascii_lower(#[trigger] given[i])
            == text::ascii_lower(name[i]) by {
            text::case_is_all_that_differs(given[i], name[i]);
        }
    }
}

/// Headers are seen as their names and values, in their order.
pub proof fn headers_are_seen_one_by_one(headers: Seq<(String, String)>)
    ensures
        header_pairs(headers).len() == headers.len(),
        forall|i: int|
            0 <= i < headers.len() ==> #[trigger] header_pairs(headers)[i] == (
                headers[i].0@,
                headers[i].1@,
            ),
{
}

/// A value that may be absent is seen as absent or as itself.
pub proof fn optional_values_are_seen_whole(json: Option<Json>)
    ensures
        json is None ==> optional_json(json) is None,
        json matches Some(value) ==> optional_json(json) == Some(value@),
{
}

} // verus!
