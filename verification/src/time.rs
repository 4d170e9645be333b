//! Points in time.

use vstd::prelude::*;

verus! {

/// A point in time: whole seconds since the Unix epoch, and the nanoseconds
/// since the last whole second (above 999,999,999 inside a leap second).
#[derive(Debug, Clone, Copy, PartialEq, Eq, Structural)]
pub struct Timestamp {
    /// Seconds since 1970-01-01T00:00:00Z.
    pub seconds: i64,
    /// Nanoseconds since the last whole second.
    pub nanos: u32,
}

/// What `chrono::DateTime::<Utc>::to_rfc3339` prints for these seconds and
/// nanoseconds; nothing where `chrono::DateTime::from_timestamp` has no date.
pub uninterp spec fn rfc3339_of(seconds: i64, nanos: u32) -> Option<Seq<char>>;

/// What the text reads as by `chrono`'s `FromStr` of `DateTime<Utc>`: seconds and
/// nanoseconds, or the text of the error.
pub uninterp spec fn timestamp_of(text: Seq<char>) -> Result<(i64, u32), Seq<char>>;

/// The date of `chrono::DateTime::from_timestamp`, printed by `to_rfc3339`. The
/// result is a function of the two numbers alone, named `rfc3339_of`.
#[verifier::external_body]
fn rfc3339(seconds: i64, nanos: u32) -> (r: Option<String>)
    ensures
        match r {
            Some(s) => rfc3339_of(seconds, nanos) == Some(s@),
            None => rfc3339_of(seconds, nanos) is None,
        },
{
    chrono::DateTime::from_timestamp(seconds, nanos).map(|date| date.to_rfc3339())
}

/// Parses the text as a `chrono::DateTime<Utc>`. The result is a function of the
/// text alone, named `timestamp_of`. A date that was read is one that
/// `from_timestamp` has too: `chrono` documents that the two numbers of a date
/// give it back.
#[verifier::external_body]
fn read_timestamp(text: &str) -> (r: Result<(i64, u32), String>)
    ensures
        match r {
            Ok(read) => timestamp_of(text@) == Ok::<(i64, u32), Seq<char>>(read) && rfc3339_of(
                read.0,
                read.1,
            ) is Some,
            Err(error) => timestamp_of(text@) == Err::<(i64, u32), Seq<char>>(error@),
        },
{
    match text.parse::<chrono::DateTime<chrono::Utc>>() {
        Ok(date) => Ok((date.timestamp(), date.timestamp_subsec_nanos())),
        Err(error) => Err(error.to_string()),
    }
}

/// Reads the clock by `chrono::Utc::now`. Which time it is, nothing says; that
/// the date can be had again from its two numbers, `chrono` documents.
#[verifier::external_body]
fn read_clock() -> (r: (i64, u32))
    ensures
        rfc3339_of(r.0, r.1) is Some,
{
    let date = chrono::Utc::now();
    (date.timestamp(), date.timestamp_subsec_nanos())
}

impl Timestamp {
    /// The time is one that the calendar has.
    pub open spec fn valid(self) -> bool {
        rfc3339_of(self.seconds, self.nanos) is Some
    }

    /// The time as RFC 3339 text; empty where the calendar does not have it.
    pub open spec fn rfc3339(self) -> Seq<char> {
        match rfc3339_of(self.seconds, self.nanos) {
            Some(s) => s,
            None => seq![],
        }
    }

    /// The time as RFC 3339 text; empty where the calendar does not have it.
    pub fn to_rfc3339(&self) -> (s: String)
        ensures
            s@ == self.rfc3339(),
    {
        match rfc3339(self.seconds, self.nanos) {
            Some(s) => s,
            None => String::new(),
        }
    }

    /// The time that the text gives, or the reader's error text.
    pub fn parse(text: &str) -> (r: Result<Timestamp, String>)
        ensures
            match r {
                Ok(time) => timestamp_of(text@) == Ok::<(i64, u32), Seq<char>>(
                    (time.seconds, time.nanos),
                ) && time.valid(),
                Err(error) => timestamp_of(text@) == Err::<(i64, u32), Seq<char>>(error@),
            },
    {
        match read_timestamp(text) {
            Ok((seconds, nanos)) => Ok(Timestamp { seconds, nanos }),
            Err(error) => Err(error),
        }
    }

    /// The present time.
    pub fn now() -> (time: Timestamp)
        ensures
            time.valid(),
    {
        let (seconds, nanos) = read_clock();
        Timestamp { seconds, nanos }
    }
}

/// A time that the calendar has is printed as the calendar prints it.
pub proof fn times_are_printed(time: Timestamp)
    ensures
        time.valid() <==> rfc3339_of(time.seconds, time.nanos) is Some,
        time.valid() ==> rfc3339_of(time.seconds, time.nanos) == Some(time.rfc3339()),
        !time.valid() ==> time.rfc3339().len() == 0,
{
}

} // verus!
