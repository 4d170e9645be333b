//! Normalized events and descriptions of their sources.

use crate::json;
use crate::json::{Json, JsonModel};
use crate::table;
use crate::table::Table;
use crate::text;
use crate::time::Timestamp;
use vstd::prelude::*;

verus! {

/// Severity assigned to a normalized event.
#[derive(Debug, Clone, Copy, PartialEq, Eq, Structural)]
pub enum Severity {
    /// Informational event.
    Info,
    /// Warning event.
    Warning,
    /// Error event.
    Error,
    /// Critical event.
    Critical,
}

impl Default for Severity {
    fn default() -> (severity: Severity)
        ensures
            severity == Severity::Info,
    {
        Severity::Info
    }
}

impl Severity {
    /// The name by which handlers and templates know the severity.
    pub open spec fn name(self) -> Seq<char> {
        match self {
            Severity::Info => "info"@,
            Severity::Warning => "warning"@,
            Severity::Error => "error"@,
            Severity::Critical => "critical"@,
        }
    }

    /// The name by which handlers and templates know the severity.
    pub fn as_str(self) -> (s: &'static str)
        ensures
            s@ == self.name(),
    {
        match self {
            Severity::Info => "info",
            Severity::Warning => "warning",
            Severity::Error => "error",
            Severity::Critical => "critical",
        }
    }
}

/// A source-neutral event consumed by handlers.
#[derive(Debug, PartialEq, Eq)]
pub struct RiteEvent {
    /// Stable source ID, such as `github`.
    pub source: String,
    /// Source event category, such as `push` or `pull_request`.
    pub event_type: String,
    /// Source-specific action where applicable, such as `opened`.
    pub action: Option<String>,
    /// Time at which the event was received or originated.
    pub timestamp: Timestamp,
    /// Event importance.
    pub severity: Severity,
    /// Concise event summary.
    pub title: String,
    /// Optional human-readable detail.
    pub body: Option<String>,
    /// Structured source fields safe for matching and forwarding.
    pub metadata: Table<Json>,
}

impl Clone for RiteEvent {
    fn clone(&self) -> (r: RiteEvent)
        ensures
            r@ == self@,
            self.metadata.well_formed() ==> r.metadata.well_formed(),
    {
        let r = RiteEvent {
            source: self.source.clone(),
            event_type: self.event_type.clone(),
            action: text::copy_optional(&self.action),
            timestamp: self.timestamp,
            severity: self.severity,
            title: self.title.clone(),
            body: text::copy_optional(&self.body),
            metadata: self.metadata.clone(),
        };
        assert(r@.metadata =~= self@.metadata);
        r
    }
}

/// The mathematical value of a [`RiteEvent`].
pub struct EventModel {
    /// Stable source ID.
    pub source: Seq<char>,
    /// Source event category.
    pub event_type: Seq<char>,
    /// Source-specific action where applicable.
    pub action: Option<Seq<char>>,
    /// Time at which the event was received or originated.
    pub timestamp: Timestamp,
    /// Event importance.
    pub severity: Severity,
    /// Concise event summary.
    pub title: Seq<char>,
    /// Optional human-readable detail.
    pub body: Option<Seq<char>>,
    /// Structured source fields.
    pub metadata: Seq<(Seq<char>, JsonModel)>,
}

impl View for RiteEvent {
    type V = EventModel;

    open spec fn view(&self) -> EventModel {
        EventModel {
            source: self.source@,
            event_type: self.event_type@,
            action: text::optional(self.action),
            timestamp: self.timestamp,
            severity: self.severity,
            title: self.title@,
            body: text::optional(self.body),
            metadata: json::table_model(self.metadata),
        }
    }
}

/// Static description of an event source.
#[derive(Debug, Clone, Copy, PartialEq, Eq)]
pub struct SourceMetadata {
    /// Stable source ID.
    pub id: &'static str,
    /// Human-readable source name.
    pub name: &'static str,
    /// Supported capabilities.
    pub capabilities: &'static [&'static str],
}

/// The mathematical value of a [`SourceMetadata`].
pub struct MetadataModel {
    /// Stable source ID.
    pub id: Seq<char>,
    /// Human-readable source name.
    pub name: Seq<char>,
    /// Supported capabilities.
    pub capabilities: Seq<Seq<char>>,
}

impl View for SourceMetadata {
    type V = MetadataModel;

    open spec fn view(&self) -> MetadataModel {
        MetadataModel {
            id: self.id@,
            name: self.name@,
            capabilities: self.capabilities@.map_values(|capability: &'static str| capability@),
        }
    }
}

/// The names of the severities are four different texts.
pub proof fn severity_names(severity: Severity, other: Severity)
    ensures
        Severity::Info.name() == "info"@,
        Severity::Warning.name() == "warning"@,
        Severity::Error.name() == "error"@,
        Severity::Critical.name() == "critical"@,
        severity.name() == other.name() <==> severity == other,
{
    reveal_strlit("info");
    reveal_strlit("warning");
    reveal_strlit("error");
    reveal_strlit("critical");
    assert("info"@.len() == 4 && "warning"@.len() == 7 && "error"@.len() == 5 && "critical"@.len()
        == 8);
}

/// An event is seen field by field, each as what it holds.
pub proof fn events_are_seen_whole(event: RiteEvent)
    ensures
        event@.source == event.source@,
        event@.event_type == event.event_type@,
        event@.action == (match event.action {
            Some(action) => Some(action@),
            None => None,
        }),
        event@.timestamp == event.timestamp,
        event@.severity == event.severity,
        event@.title == event.title@,
        event@.body == (match event.body {
            Some(body) => Some(body@),
            None => None,
        }),
        event@.metadata.len() == event.metadata.entries@.len(),
        forall|i: int|
            0 <= i < event.metadata.entries@.len() ==> #[trigger] event@.metadata[i] == (
                event.metadata.entries@[i].0@,
                event.metadata.entries@[i].1@,
            ),
{
}

/// The description of a source is seen whole.
pub proof fn descriptions_are_seen_whole(metadata: SourceMetadata)
    ensures
        metadata@.id == metadata.id@,
        metadata@.name == metadata.name@,
        metadata@.capabilities.len() == metadata.capabilities@.len(),
        forall|i: int|
            0 <= i < metadata.capabilities@.len() ==> #[trigger] metadata@.capabilities[i]
                == metadata.capabilities@[i]@,
{
}

} // verus!
