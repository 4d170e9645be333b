//! Application state, operations, and what becomes of an incoming event.

use crate::action;
use crate::action::{action_request, HttpRequest, RequestModel};
use crate::config;
use crate::config::{ConfigModel, RiteConfig};
use crate::error;
use crate::error::{ErrorModel, RiteError};
use crate::event::{EventModel, MetadataModel, RiteEvent, SourceMetadata};
use crate::github;
use crate::github::GitHubSource;
use crate::iris;
use crate::iris::{IrisModel, IrisSource};
use crate::json;
use crate::json::{Json, JsonModel};
use crate::matching::{HandlerModel, RiteHandler};
use crate::signature;
use crate::source;
use crate::source::EventSource;
use crate::table;
use crate::table::Table;
use crate::text;
use crate::time::Timestamp;
use crate::uptime_kuma;
use crate::uptime_kuma::UptimeKumaSource;
use vstd::prelude::*;

verus! {

/// A source that takes webhooks.
#[derive(Debug)]
pub enum IngressSource {
    /// GitHub.
    GitHub(GitHubSource),
    /// Uptime Kuma.
    UptimeKuma(UptimeKumaSource),
}

/// The mathematical value of an [`IngressSource`]: which source it is, and its
/// secret.
pub enum IngressModel {
    /// GitHub.
    GitHub(Seq<u8>),
    /// Uptime Kuma.
    UptimeKuma(Seq<u8>),
}

impl View for IngressSource {
    type V = IngressModel;

    open spec fn view(&self) -> IngressModel {
        match self {
            IngressSource::GitHub(source) => IngressModel::GitHub(source.key()),
            IngressSource::UptimeKuma(source) => IngressModel::UptimeKuma(source.key()),
        }
    }
}

impl IngressModel {
    /// Whether a request is authentic, or why it is refused.
    pub open spec fn verdict(
        self,
        headers: Seq<(Seq<char>, Seq<char>)>,
        body: Seq<u8>,
    ) -> Result<(), ErrorModel> {
        match self {
            IngressModel::GitHub(key) => github::signature_verdict(key, headers, body),
            IngressModel::UptimeKuma(key) => uptime_kuma::signature_verdict(key, headers, body),
        }
    }

    /// The event that a payload received at `now` stands for, or why it is refused.
    pub open spec fn normalized(
        self,
        headers: Seq<(Seq<char>, Seq<char>)>,
        body: Seq<u8>,
        now: Timestamp,
        duration_ms: Option<JsonModel>,
    ) -> Result<EventModel, ErrorModel> {
        match json::parsed(body) {
            Err(error) => Err(ErrorModel::Parse(error)),
            Ok(payload) => match self {
                IngressModel::GitHub(_) => github::event_of(headers, payload, now),
                IngressModel::UptimeKuma(_) => uptime_kuma::event_of(payload, now, duration_ms),
            },
        }
    }
}

impl EventSource for IngressSource {
    open spec fn description(&self) -> MetadataModel {
        match self {
            IngressSource::GitHub(source) => source.description(),
            IngressSource::UptimeKuma(source) => source.description(),
        }
    }

    open spec fn verdict(&self, headers: Seq<(Seq<char>, Seq<char>)>, body: Seq<u8>) -> Result<
        (),
        ErrorModel,
    > {
        self@.verdict(headers, body)
    }

    open spec fn normalized(
        &self,
        headers: Seq<(Seq<char>, Seq<char>)>,
        body: Seq<u8>,
        now: Timestamp,
        duration_ms: Option<JsonModel>,
    ) -> Result<EventModel, ErrorModel> {
        self@.normalized(headers, body, now, duration_ms)
    }

    fn metadata(&self) -> (r: SourceMetadata) {
        match self {
            IngressSource::GitHub(source) => source.metadata(),
            IngressSource::UptimeKuma(source) => source.metadata(),
        }
    }

    fn verify(&self, headers: &[(String, String)], body: &[u8]) -> (r: Result<(), RiteError>) {
        match self {
            IngressSource::GitHub(source) => source.verify(headers, body),
            IngressSource::UptimeKuma(source) => source.verify(headers, body),
        }
    }

    fn parse_at(
        &self,
        headers: &[(String, String)],
        body: &[u8],
        now: Timestamp,
        duration_ms: Option<Json>,
    ) -> (r: Result<RiteEvent, RiteError>) {
        match self {
            IngressSource::GitHub(source) => source.parse_at(headers, body, now, duration_ms),
            IngressSource::UptimeKuma(source) => source.parse_at(headers, body, now, duration_ms),
        }
    }
}

/// The number after `n`, starting over at zero past the largest.
pub open spec fn wrapping_next(n: u64) -> u64 {
    if n == u64::MAX {
        0
    } else {
        (n + 1) as u64
    }
}

/// The number after `n`, starting over at zero past the largest.
fn bump(n: u64) -> (r: u64)
    ensures
        r == wrapping_next(n),
{
    if n == u64::MAX {
        0
    } else {
        n + 1
    }
}

/// Process-local counters.
#[derive(Debug, Clone, Copy, PartialEq, Eq, Structural)]
pub struct Metrics {
    /// Events that were authenticated and normalized.
    pub events_received: u64,
    /// Events that some handler matched.
    pub events_matched: u64,
    /// Actions that were answered with success.
    pub actions_succeeded: u64,
    /// Actions that failed.
    pub actions_failed: u64,
}

impl Default for Metrics {
    fn default() -> (r: Metrics)
        ensures
            r == (Metrics {
                events_received: 0,
                events_matched: 0,
                actions_succeeded: 0,
                actions_failed: 0,
            }),
    {
        Metrics { events_received: 0, events_matched: 0, actions_succeeded: 0, actions_failed: 0 }
    }
}

impl Metrics {
    /// The counters after one more event, matched or not.
    pub open spec fn with_event(self, matched: bool) -> Metrics {
        Metrics {
            events_received: wrapping_next(self.events_received),
            events_matched: if matched {
                wrapping_next(self.events_matched)
            } else {
                self.events_matched
            },
            ..self
        }
    }

    /// The counters after one more action.
    pub open spec fn with_action(self, succeeded: bool) -> Metrics {
        if succeeded {
            Metrics { actions_succeeded: wrapping_next(self.actions_succeeded), ..self }
        } else {
            Metrics { actions_failed: wrapping_next(self.actions_failed), ..self }
        }
    }

    /// Counts an event.
    pub fn count_event(&mut self, matched: bool)
        ensures
            *final(self) == old(self).with_event(matched),
    {
        self.events_received = bump(self.events_received);
        if matched {
            self.events_matched = bump(self.events_matched);
        }
    }

    /// Counts an action.
    pub fn count_action(&mut self, succeeded: bool)
        ensures
            *final(self) == old(self).with_action(succeeded),
    {
        if succeeded {
            self.actions_succeeded = bump(self.actions_succeeded);
        } else {
            self.actions_failed = bump(self.actions_failed);
        }
    }
}

/// Shared application state.
pub struct AppState {
    /// The configured handlers.
    pub handlers: Vec<RiteHandler>,
    /// Ingress sources keyed by their stable source ID.
    pub sources: Table<IngressSource>,
    /// The Iris subscription, where one is enabled.
    pub iris: Option<IrisSource>,
    /// The counters.
    pub metrics: Metrics,
}

/// The mathematical value of an [`AppState`].
pub struct StateModel {
    /// The configured handlers.
    pub handlers: Seq<HandlerModel>,
    /// Ingress sources by their IDs.
    pub sources: Seq<(Seq<char>, IngressModel)>,
    /// The Iris subscription.
    pub iris: Option<IrisModel>,
    /// The counters.
    pub metrics: Metrics,
}

/// The function from an ingress source to its mathematical value.
pub open spec fn ingress_modelling() -> spec_fn(IngressSource) -> IngressModel {
    |source: IngressSource| source@
}

impl View for AppState {
    type V = StateModel;

    open spec fn view(&self) -> StateModel {
        StateModel {
            handlers: config::handler_models(self.handlers@),
            sources: table::mapped(self.sources.pairs(), ingress_modelling()),
            iris: match self.iris {
                Some(iris) => Some(iris@),
                None => None,
            },
            metrics: self.metrics,
        }
    }
}

/// The counters of a server that has just started.
pub open spec fn fresh_metrics() -> Metrics {
    Metrics { events_received: 0, events_matched: 0, actions_succeeded: 0, actions_failed: 0 }
}

/// The subscription that a configuration asks for, or why it is refused.
pub open spec fn subscription_of(config: ConfigModel) -> Result<Option<IrisModel>, ErrorModel> {
    match config.iris {
        None => Ok(None),
        Some(settings) => if !settings.enabled {
            Ok(None)
        } else {
            match iris::settings(settings.base_url, settings.api_token) {
                Ok(source) => Ok(Some(source)),
                Err(error) => Err(error),
            }
        },
    }
}

/// The secret bytes of a configured secret, or why it is refused.
pub open spec fn key_of(secret: Seq<char>, required: Seq<char>) -> Result<Seq<u8>, ErrorModel> {
    if text::is_blank(secret) {
        Err(ErrorModel::Config(required))
    } else {
        Ok(vstd::utf8::encode_utf8(text::trimmed(secret)))
    }
}

/// The ingress sources that a GitHub secret and a configuration give, or why
/// they are refused.
pub open spec fn ingress_of(secret: Seq<char>, config: ConfigModel) -> Result<
    Seq<(Seq<char>, IngressModel)>,
    ErrorModel,
> {
    match key_of(secret, "github webhook secret is required"@) {
        Err(error) => Err(error),
        Ok(key) => {
            let github = table::with_entry(seq![], "github"@, IngressModel::GitHub(key));
            match config.uptime_kuma {
                None => Ok(github),
                Some(kuma) => if !kuma.enabled {
                    Ok(github)
                } else {
                    match key_of(kuma.secret, "uptime_kuma webhook secret is required"@) {
                        Err(error) => Err(error),
                        Ok(key) => Ok(
                            table::with_entry(
                                github,
                                "uptime_kuma"@,
                                IngressModel::UptimeKuma(key),
                            ),
                        ),
                    }
                },
            }
        },
    }
}

/// The state that a GitHub secret and a configuration give, or why they are
/// refused: first the subscription, then the ingress sources.
pub open spec fn initial_state(secret: Seq<char>, config: ConfigModel) -> Result<
    StateModel,
    ErrorModel,
> {
    match subscription_of(config) {
        Err(error) => Err(error),
        Ok(iris) => state_of(secret, config, iris),
    }
}

/// The state that a GitHub secret, a configuration and a subscription give, or why
/// they are refused.
pub open spec fn state_of(
    secret: Seq<char>,
    config: ConfigModel,
    iris: Option<IrisModel>,
) -> Result<StateModel, ErrorModel> {
    match ingress_of(secret, config) {
        Err(error) => Err(error),
        Ok(sources) => Ok(
            StateModel { handlers: config.rites, sources, iris, metrics: fresh_metrics() },
        ),
    }
}

/// Puts `value` under `key` in a table of ingress sources.
fn add_source(sources: &mut Table<IngressSource>, key: &str, value: IngressSource)
    ensures
        table::mapped(final(sources).pairs(), ingress_modelling()) == table::with_entry(
            table::mapped(old(sources).pairs(), ingress_modelling()),
            key@,
            value@,
        ),
        old(sources).well_formed() ==> final(sources).well_formed(),
{
    proof {
        table::with_entry_mapped(sources.pairs(), ingress_modelling(), key@, value);
    }
    sources.insert(key.to_owned(), value);
}

/// Builds state with a GitHub source and configured handlers.
pub fn configured_state(secret: &str, config: RiteConfig) -> (r: Result<AppState, RiteError>)
    ensures
        error::outcome(r) == initial_state(secret@, config@),
        r matches Ok(state) ==> state.sources.well_formed(),
{
    let subscription = match &config.sources.iris {
        Some(settings) => if settings.enabled {
            let token = match &settings.api_token {
                Some(token) => Some(token.as_str()),
                None => None,
            };
            match IrisSource::new_with_token(settings.base_url.as_str(), token) {
                Ok(source) => Some(source),
                Err(error) => return Err(error),
            }
        } else {
            None
        },
        None => None,
    };
    subscribed_state(secret, config, subscription)
}

/// Builds state with a GitHub source, configured handlers, and this subscription.
pub fn subscribed_state(secret: &str, config: RiteConfig, subscription: Option<IrisSource>) -> (r:
    Result<AppState, RiteError>)
    ensures
        error::outcome(r) == state_of(
            secret@,
            config@,
            match subscription {
                Some(source) => Some(source@),
                None => None,
            },
        ),
        r matches Ok(state) ==> state.sources.well_formed(),
{
    let RiteConfig { rites, sources: configured } = config;
    let mut sources: Table<IngressSource> = Table::new();
    assert(table::mapped(sources.pairs(), ingress_modelling()) =~= seq![]);
    match GitHubSource::new(secret) {
        Ok(github) => add_source(&mut sources, "github", IngressSource::GitHub(github)),
        Err(error) => return Err(error),
    }
    if let Some(kuma) = &configured.uptime_kuma {
        if kuma.enabled {
            match UptimeKumaSource::new(kuma.secret.as_str()) {
                Ok(source) => add_source(
                    &mut sources,
                    "uptime_kuma",
                    IngressSource::UptimeKuma(source),
                ),
                Err(error) => return Err(error),
            }
        }
    }
    Ok(AppState { handlers: rites, sources, iris: subscription, metrics: Metrics::default() })
}

/// Raw-request input for an operation: the exact body bytes and headers as
/// received, for signature verification.
#[derive(Debug)]
pub struct RawOperationInput {
    /// Path parameters.
    pub path: Table<String>,
    /// Request headers.
    pub headers: Vec<(String, String)>,
    /// Raw request body bytes.
    pub raw_body: Vec<u8>,
}

/// The mathematical value of a table of path or query parameters.
pub open spec fn parameters(table: Table<String>) -> Seq<(Seq<char>, Seq<char>)> {
    table::mapped(table.pairs(), |value: String| value@)
}

/// The parameter of this name.
fn parameter<'a>(parameters_given: &'a Table<String>, name: &str) -> (r: Option<&'a str>)
    ensures
        match r {
            Some(value) => table::lookup(parameters(*parameters_given), name@) == Some(value@),
            None => table::lookup(parameters(*parameters_given), name@) is None,
        },
{
    proof {
        table::lookup_mapped(parameters_given.pairs(), |value: String| value@, name@);
    }
    match parameters_given.get(name) {
        Some(value) => Some(value.as_str()),
        None => None,
    }
}

/// The mathematical value of a [`RawOperationInput`].
pub struct RawModel {
    /// Path parameters.
    pub path: Seq<(Seq<char>, Seq<char>)>,
    /// Request headers.
    pub headers: Seq<(Seq<char>, Seq<char>)>,
    /// Raw request body bytes.
    pub body: Seq<u8>,
}

impl View for RawOperationInput {
    type V = RawModel;

    open spec fn view(&self) -> RawModel {
        RawModel {
            path: parameters(self.path),
            headers: source::header_pairs(self.headers@),
            body: self.raw_body@,
        }
    }
}

/// A copy of request headers.
fn copy_headers(headers: &Vec<(String, String)>) -> (r: Vec<(String, String)>)
    ensures
        source::header_pairs(r@) == source::header_pairs(headers@),
{
    let mut r: Vec<(String, String)> = Vec::new();
    let mut i: usize = 0;
    while i < headers.len()
        invariant
            i <= headers@.len(),
            r@.len() == i,
            forall|j: int|
                0 <= j < i ==> (#[trigger] r@[j]).0@ == headers@[j].0@ && r@[j].1@
                    == headers@[j].1@,
        decreases headers@.len() - i,
    {
        r.push((headers[i].0.clone(), headers[i].1.clone()));
        i += 1;
    }
    assert(source::header_pairs(r@) =~= source::header_pairs(headers@));
    r
}

/// A copy of path or query parameters.
fn copy_parameters(table: &Table<String>) -> (r: Table<String>)
    ensures
        parameters(r) == parameters(*table),
        table.well_formed() ==> r.well_formed(),
{
    let r = table.clone();
    assert(parameters(r) =~= parameters(*table));
    r
}

impl Clone for RawOperationInput {
    fn clone(&self) -> (r: RawOperationInput)
        ensures
            r@ == self@,
            self.path.well_formed() ==> r.path.well_formed(),
    {
        let raw_body = self.raw_body.clone();
        assert(raw_body@ =~= self.raw_body@);
        RawOperationInput {
            path: copy_parameters(&self.path),
            headers: copy_headers(&self.headers),
            raw_body,
        }
    }
}

/// A refusal of a request.
#[derive(Debug, PartialEq, Eq)]
pub struct OperationError {
    /// HTTP status for the HTTP surface.
    pub status: u16,
    /// Human-readable message used on all surfaces.
    pub message: String,
}

/// The mathematical value of an [`OperationError`].
pub struct RefusalModel {
    /// HTTP status.
    pub status: u16,
    /// Human-readable message.
    pub message: Seq<char>,
}

impl View for OperationError {
    type V = RefusalModel;

    open spec fn view(&self) -> RefusalModel {
        RefusalModel { status: self.status, message: self.message@ }
    }
}

/// An action to perform for a matched handler.
#[derive(Debug, PartialEq, Eq)]
pub struct PlannedAction {
    /// The handler's name.
    pub handler: String,
    /// The request to send.
    pub request: HttpRequest,
}

/// The mathematical value of a [`PlannedAction`].
pub struct PlannedModel {
    /// The handler's name.
    pub handler: Seq<char>,
    /// The request to send.
    pub request: RequestModel,
}

impl View for PlannedAction {
    type V = PlannedModel;

    open spec fn view(&self) -> PlannedModel {
        PlannedModel { handler: self.handler@, request: self.request@ }
    }
}

/// The mathematical value of a list of planned actions.
pub open spec fn planned_models(planned: Seq<PlannedAction>) -> Seq<PlannedModel> {
    planned.map_values(|plan: PlannedAction| plan@)
}

/// The actions that an event asks for: those of the handlers that match it, in
/// the handlers' order.
pub open spec fn plan_of(handlers: Seq<HandlerModel>, event: EventModel) -> Seq<PlannedModel>
    decreases handlers.len(),
{
    if handlers.len() == 0 {
        seq![]
    } else {
        let earlier = plan_of(handlers.drop_last(), event);
        let last = handlers.last();
        if last.matches(event) {
            earlier.push(
                PlannedModel {
                    handler: last.name,
                    request: action::request_of(last.action, event),
                },
            )
        } else {
            earlier
        }
    }
}

/// What becomes of a webhook request.
#[derive(Debug)]
pub enum Reception {
    /// The request is refused.
    Refused(OperationError),
    /// The event is taken, and these actions are to be performed.
    Accepted {
        /// The normalized event.
        event: RiteEvent,
        /// The actions to perform.
        planned: Vec<PlannedAction>,
    },
}

/// The mathematical value of a [`Reception`].
pub enum ReceptionModel {
    /// The request is refused.
    Refused(RefusalModel),
    /// The event is taken.
    Accepted {
        /// The normalized event.
        event: EventModel,
        /// The actions to perform.
        planned: Seq<PlannedModel>,
    },
}

impl View for Reception {
    type V = ReceptionModel;

    open spec fn view(&self) -> ReceptionModel {
        match self {
            Reception::Refused(error) => ReceptionModel::Refused(error@),
            Reception::Accepted { event, planned } => ReceptionModel::Accepted {
                event: event@,
                planned: planned_models(planned@),
            },
        }
    }
}

/// The source that a request is for, where it is configured and the request is
/// authentic: 404 for a source that is not, 401 for a request that is not.
pub open spec fn admission(state: StateModel, input: RawModel) -> Result<
    IngressModel,
    RefusalModel,
> {
    let found = match table::lookup(input.path, "source"@) {
        Some(id) => table::lookup(state.sources, id),
        None => None,
    };
    match found {
        None => Err(RefusalModel { status: 404, message: "unknown event source"@ }),
        Some(source) => match source.verdict(input.headers, input.body) {
            Err(error) => Err(RefusalModel { status: 401, message: error.message() }),
            Ok(()) => Ok(source),
        },
    }
}

/// What becomes of a request received at `now`: it is admitted, normalized (400
/// where it cannot be), and matched.
pub open spec fn reception(
    state: StateModel,
    input: RawModel,
    now: Timestamp,
    duration_ms: Option<JsonModel>,
) -> ReceptionModel {
    match admission(state, input) {
        Err(refusal) => ReceptionModel::Refused(refusal),
        Ok(source) => match source.normalized(input.headers, input.body, now, duration_ms) {
            Err(error) => ReceptionModel::Refused(
                RefusalModel { status: 400, message: error.message() },
            ),
            Ok(event) => ReceptionModel::Accepted { event, planned: plan_of(state.handlers, event) },
        },
    }
}

impl StateModel {
    /// The state after one more event, matched or not.
    pub open spec fn with_event(self, matched: bool) -> StateModel {
        StateModel { metrics: self.metrics.with_event(matched), ..self }
    }

    /// The state after a request: the event is counted where it is taken, and as
    /// matched where some handler matches it.
    pub open spec fn after(self, outcome: ReceptionModel) -> StateModel {
        match outcome {
            ReceptionModel::Refused(_) => self,
            ReceptionModel::Accepted { planned, .. } => self.with_event(planned.len() > 0),
        }
    }
}

/// The heartbeat's duration in seconds, where the request is an authentic one of
/// Uptime Kuma and gives a number.
pub open spec fn request_duration(state: StateModel, input: RawModel) -> Option<JsonModel> {
    match admission(state, input) {
        Ok(IngressModel::UptimeKuma(_)) => match json::parsed(input.body) {
            Ok(payload) => uptime_kuma::duration_of(payload),
            Err(_) => None,
        },
        _ => None,
    }
}

impl AppState {
    /// The source that a request is for, where it is configured and the request
    /// is authentic.
    fn authentic_source(&self, input: &RawOperationInput) -> (r: Result<&IngressSource, OperationError>)
        ensures
            match r {
                Ok(source) => admission(self@, input@) == Ok::<_, RefusalModel>(source@),
                Err(error) => admission(self@, input@) == Err::<IngressModel, _>(error@),
            },
    {
        let found = match parameter(&input.path, "source") {
            Some(id) => {
                proof {
                    table::lookup_mapped(self.sources.pairs(), ingress_modelling(), id@);
                }
                self.sources.get(id)
            },
            None => None,
        };
        match found {
            None => Err(
                OperationError { status: 404, message: "unknown event source".to_owned() },
            ),
            Some(source) => match source.verify(input.headers.as_slice(), input.raw_body.as_slice()) {
                Err(error) => Err(OperationError { status: 401, message: error.message() }),
                Ok(()) => Ok(source),
            },
        }
    }

    /// The heartbeat's duration in seconds, where the request is an authentic one
    /// of Uptime Kuma and gives a number.
    pub fn duration_seconds(&self, input: &RawOperationInput) -> (r: Option<Json>)
        ensures
            source::optional_json(r) == request_duration(self@, input@),
    {
        match self.authentic_source(input) {
            Ok(IngressSource::UptimeKuma(_)) => UptimeKumaSource::duration_seconds(
                input.raw_body.as_slice(),
            ),
            _ => None,
        }
    }

    /// The actions that an event asks for.
    pub fn plan(&self, event: &RiteEvent) -> (r: Vec<PlannedAction>)
        ensures
            planned_models(r@) == plan_of(self@.handlers, event@),
    {
        let ghost all = self@.handlers;
        let mut r: Vec<PlannedAction> = Vec::new();
        let mut i: usize = 0;
        assert(all.take(0) =~= seq![]);
        assert(planned_models(r@) =~= seq![]);
        while i < self.handlers.len()
            invariant
                all == self@.handlers,
                i <= self.handlers@.len(),
                planned_models(r@) == plan_of(all.take(i as int), event@),
            decreases self.handlers@.len() - i,
        {
            assert(all.take(i + 1).drop_last() =~= all.take(i as int));
            assert(all.take(i + 1).last() == self.handlers@[i as int]@);
            let handler = &self.handlers[i];
            if handler.matches(event) {
                let ghost before = r@;
                let plan = PlannedAction {
                    handler: handler.name.clone(),
                    request: action_request(&handler.action, event),
                };
                r.push(plan);
                assert(planned_models(r@) =~= planned_models(before).push(plan@));
            }
            i += 1;
        }
        assert(all.take(i as int) =~= all);
        r
    }

    /// Takes an event: counts it, and gives the actions that it asks for.
    pub fn take_event(&mut self, event: &RiteEvent) -> (r: Vec<PlannedAction>)
        ensures
            planned_models(r@) == plan_of(old(self)@.handlers, event@),
            final(self)@ == old(self)@.with_event(r@.len() > 0),
    {
        let planned = self.plan(event);
        self.metrics.count_event(planned.len() > 0);
        planned
    }

    /// Webhook ingress of a request received at `now`: verify the delivery
    /// signature, normalize the payload, and plan the action of every matching
    /// handler.
    pub fn receive_event_at(
        &mut self,
        input: &RawOperationInput,
        now: Timestamp,
        duration_ms: Option<Json>,
    ) -> (r: Reception)
        ensures
            r@ == reception(old(self)@, input@, now, source::optional_json(duration_ms)),
            final(self)@ == old(self)@.after(r@),
    {
        let normalized = match self.authentic_source(input) {
            Err(error) => return Reception::Refused(error),
            Ok(source) => source.parse_at(
                input.headers.as_slice(),
                input.raw_body.as_slice(),
                now,
                duration_ms,
            ),
        };
        match normalized {
            Err(error) => Reception::Refused(
                OperationError { status: 400, message: error.message() },
            ),
            Ok(event) => {
                let planned = self.take_event(&event);
                Reception::Accepted { event, planned }
            },
        }
    }

    /// Webhook ingress of a request that has just been received.
    pub fn receive_event(&mut self, input: &RawOperationInput, duration_ms: Option<Json>) -> (r:
        Reception)
        ensures
            exists|now: Timestamp|
                now.valid() && r@ == #[trigger] reception(
                    old(self)@,
                    input@,
                    now,
                    source::optional_json(duration_ms),
                ),
            final(self)@ == old(self)@.after(r@),
    {
        let now = Timestamp::now();
        self.receive_event_at(input, now, duration_ms)
    }
}

/// How many of the outcomes are successes.
pub open spec fn successes(outcomes: Seq<bool>) -> nat
    decreases outcomes.len(),
{
    if outcomes.len() == 0 {
        0
    } else {
        successes(outcomes.drop_last()) + if outcomes.last() {
            1nat
        } else {
            0
        }
    }
}

/// What is answered to a request whose event was taken, with status 202.
#[derive(Debug, PartialEq, Eq)]
pub struct Acknowledgement {
    /// The names of the handlers that matched, in order.
    pub matched_handlers: Vec<String>,
    /// How many actions were answered with success.
    pub actions_executed: usize,
}

/// What is answered once the planned actions have run with these outcomes.
pub fn acknowledge(planned: &Vec<PlannedAction>, outcomes: &Vec<bool>) -> (r: Acknowledgement)
    ensures
        text::views(r.matched_handlers@) == planned_models(planned@).map_values(
            |plan: PlannedModel| plan.handler,
        ),
        r.actions_executed == successes(outcomes@),
        r.actions_executed <= outcomes@.len(),
{
    let mut matched_handlers: Vec<String> = Vec::new();
    let mut i: usize = 0;
    while i < planned.len()
        invariant
            i <= planned@.len(),
            matched_handlers@.len() == i,
            forall|j: int| 0 <= j < i ==> (#[trigger] matched_handlers@[j])@ == planned@[j].handler@,
        decreases planned@.len() - i,
    {
        matched_handlers.push(planned[i].handler.clone());
        i += 1;
    }
    assert(text::views(matched_handlers@) =~= planned_models(planned@).map_values(
        |plan: PlannedModel| plan.handler,
    ));
    let mut executed: usize = 0;
    let mut k: usize = 0;
    while k < outcomes.len()
        invariant
            executed <= k <= outcomes@.len(),
            executed == successes(outcomes@.take(k as int)),
        decreases outcomes@.len() - k,
    {
        assert(outcomes@.take(k + 1).drop_last() =~= outcomes@.take(k as int));
        if outcomes[k] {
            executed += 1;
        }
        k += 1;
    }
    assert(outcomes@.take(k as int) =~= outcomes@);
    Acknowledgement { matched_handlers, actions_executed: executed }
}

/// Input for an operation.
#[derive(Debug)]
pub struct OperationInput {
    /// Path parameters.
    pub path: Table<String>,
    /// Query parameters.
    pub query: Table<String>,
    /// JSON body.
    pub body: Json,
}

impl Clone for OperationInput {
    fn clone(&self) -> (r: OperationInput)
        ensures
            parameters(r.path) == parameters(self.path),
            parameters(r.query) == parameters(self.query),
            r.body@ == self.body@,
            self.path.well_formed() ==> r.path.well_formed(),
            self.query.well_formed() ==> r.query.well_formed(),
    {
        OperationInput {
            path: copy_parameters(&self.path),
            query: copy_parameters(&self.query),
            body: self.body.clone(),
        }
    }
}

impl Default for OperationInput {
    fn default() -> (r: OperationInput)
        ensures
            parameters(r.path) == Seq::<(Seq<char>, Seq<char>)>::empty(),
            parameters(r.query) == Seq::<(Seq<char>, Seq<char>)>::empty(),
            r.body@ == JsonModel::Null,
            r.path.well_formed(),
            r.query.well_formed(),
    {
        let r = OperationInput { path: Table::new(), query: Table::new(), body: Json::Null };
        assert(parameters(r.path) =~= Seq::<(Seq<char>, Seq<char>)>::empty());
        assert(parameters(r.query) =~= Seq::<(Seq<char>, Seq<char>)>::empty());
        r
    }
}

/// The path parameters that a JSON object gives: each member's text, and the
/// empty text for one that is no string.
pub open spec fn parameters_of(fields: Seq<(Seq<char>, JsonModel)>) -> Seq<(Seq<char>, Seq<char>)>
    decreases fields.len(),
{
    if fields.len() == 0 {
        seq![]
    } else {
        table::with_entry(
            parameters_of(fields.drop_last()),
            fields.last().0,
            text::or_empty(fields.last().1.as_str()),
        )
    }
}

/// The operation input of a command with these parameters.
pub fn read_input(given: &Json) -> (r: OperationInput)
    ensures
        parameters(r.path) == match given@ {
            JsonModel::Object { fields, .. } => parameters_of(fields),
            _ => seq![],
        },
        parameters(r.query) == Seq::<(Seq<char>, Seq<char>)>::empty(),
        r.body@ == JsonModel::Null,
        r.path.well_formed(),
        r.query.well_formed(),
{
    let mut r = OperationInput::default();
    if let Json::Object { fields, .. } = given {
        let ghost all = json::field_models(fields@);
        assert(given@->Object_fields =~= all);
        let mut i: usize = 0;
        assert(all.take(0) =~= seq![]);
        while i < fields.len()
            invariant
                all == json::field_models(fields@),
                i <= fields@.len(),
                parameters(r.path) == parameters_of(all.take(i as int)),
                parameters(r.query) == Seq::<(Seq<char>, Seq<char>)>::empty(),
                r.body@ == JsonModel::Null,
                r.path.well_formed(),
                r.query.well_formed(),
            decreases fields@.len() - i,
        {
            assert(all.take(i + 1).drop_last() =~= all.take(i as int));
            assert(all.take(i + 1).last() == (fields@[i as int].0@, fields@[i as int].1@));
            let value = match fields[i].1.as_str() {
                Some(value) => value.to_owned(),
                None => String::new(),
            };
            let key = fields[i].0.clone();
            proof {
                table::with_entry_mapped(r.path.pairs(), |value: String| value@, key@, value);
            }
            r.path.insert(key, value);
            i += 1;
        }
        assert(all.take(i as int) =~= all);
    }
    r
}

/// A source as operations list it.
#[derive(Debug, Clone, Copy, PartialEq, Eq)]
pub struct SourceEntry {
    /// Stable source ID.
    pub id: &'static str,
    /// Human-readable source name.
    pub name: &'static str,
}

/// The ID and the name of each configured source.
pub open spec fn listed_sources(state: StateModel) -> Seq<(Seq<char>, Seq<char>)> {
    seq![("github"@, "GitHub"@)] + (if state.iris is Some {
        seq![("iris"@, "Iris"@)]
    } else {
        seq![]
    }) + (if table::lookup(state.sources, "uptime_kuma"@) is Some {
        seq![("uptime_kuma"@, "Uptime Kuma"@)]
    } else {
        seq![]
    })
}

/// A snapshot of the live, process-local metrics.
#[derive(Debug, Clone, Copy, PartialEq, Eq, Structural)]
pub struct StatusSnapshot {
    /// Events that were authenticated and normalized.
    pub events_received: u64,
    /// Events that some handler matched.
    pub events_matched: u64,
    /// Actions that were answered with success.
    pub actions_succeeded: u64,
    /// Actions that failed.
    pub actions_failed: u64,
    /// How long the server has been running.
    pub uptime_seconds: u64,
    /// How many handlers are configured.
    pub handlers_loaded: u64,
}

/// The snapshot of a state after `uptime_seconds`.
pub open spec fn snapshot_of(state: StateModel, uptime_seconds: u64) -> StatusSnapshot {
    StatusSnapshot {
        events_received: state.metrics.events_received,
        events_matched: state.metrics.events_matched,
        actions_succeeded: state.metrics.actions_succeeded,
        actions_failed: state.metrics.actions_failed,
        uptime_seconds,
        handlers_loaded: state.handlers.len() as u64,
    }
}

/// Return the metric snapshot shared by every public surface.
pub fn status_snapshot(state: &AppState, uptime_seconds: u64) -> (r: StatusSnapshot)
    ensures
        r == snapshot_of(state@, uptime_seconds),
        r.handlers_loaded == state@.handlers.len(),
{
    StatusSnapshot {
        events_received: state.metrics.events_received,
        events_matched: state.metrics.events_matched,
        actions_succeeded: state.metrics.actions_succeeded,
        actions_failed: state.metrics.actions_failed,
        uptime_seconds,
        handlers_loaded: state.handlers.len() as u64,
    }
}

/// What an operation returns.
#[derive(Debug)]
pub enum OperationOutput<'a> {
    /// The configured sources.
    Sources(Vec<SourceEntry>),
    /// The configured handlers.
    Handlers(&'a Vec<RiteHandler>),
    /// One handler.
    Handler(&'a RiteHandler),
    /// The live metrics.
    Status(StatusSnapshot),
}

/// The mathematical value of an [`OperationOutput`].
pub enum OutputModel {
    /// The ID and the name of each configured source.
    Sources(Seq<(Seq<char>, Seq<char>)>),
    /// The configured handlers.
    Handlers(Seq<HandlerModel>),
    /// One handler.
    Handler(HandlerModel),
    /// The live metrics.
    Status(StatusSnapshot),
}

/// The mathematical value of a list of sources.
pub open spec fn entry_models(entries: Seq<SourceEntry>) -> Seq<(Seq<char>, Seq<char>)> {
    entries.map_values(|entry: SourceEntry| (entry.id@, entry.name@))
}

impl<'a> View for OperationOutput<'a> {
    type V = OutputModel;

    open spec fn view(&self) -> OutputModel {
        match self {
            OperationOutput::Sources(entries) => OutputModel::Sources(entry_models(entries@)),
            OperationOutput::Handlers(handlers) => OutputModel::Handlers(
                config::handler_models(handlers@),
            ),
            OperationOutput::Handler(handler) => OutputModel::Handler(handler@),
            OperationOutput::Status(snapshot) => OutputModel::Status(*snapshot),
        }
    }
}

/// The first handler of this name.
pub open spec fn handler_named(handlers: Seq<HandlerModel>, name: Seq<char>) -> Option<HandlerModel>
    decreases handlers.len(),
{
    if handlers.len() == 0 {
        None
    } else if handlers[0].name == name {
        Some(handlers[0])
    } else {
        handler_named(handlers.drop_first(), name)
    }
}

/// What an operation returns, or why it is refused.
pub open spec fn operation_result(
    state: StateModel,
    operation: Seq<char>,
    path: Seq<(Seq<char>, Seq<char>)>,
    uptime_seconds: u64,
) -> Result<OutputModel, RefusalModel> {
    if operation == "list_sources"@ {
        Ok(OutputModel::Sources(listed_sources(state)))
    } else if operation == "list_handlers"@ {
        Ok(OutputModel::Handlers(state.handlers))
    } else if operation == "get_handler"@ {
        match table::lookup(path, "handler_id"@) {
            None => Err(
                RefusalModel { status: 400, message: "missing path parameter: handler_id"@ },
            ),
            Some(id) => match handler_named(state.handlers, id) {
                Some(handler) => Ok(OutputModel::Handler(handler)),
                None => Err(RefusalModel { status: 404, message: "handler not found: "@ + id }),
            },
        }
    } else if operation == "get_status"@ {
        Ok(OutputModel::Status(snapshot_of(state, uptime_seconds)))
    } else {
        Err(unknown_operation(operation))
    }
}

/// The refusal of an operation that does not exist.
pub open spec fn unknown_operation(operation: Seq<char>) -> RefusalModel {
    RefusalModel { status: 404, message: "unknown operation: "@ + operation }
}

/// The configured sources.
fn list_sources(state: &AppState) -> (r: Vec<SourceEntry>)
    ensures
        entry_models(r@) == listed_sources(state@),
{
    let mut r: Vec<SourceEntry> = Vec::new();
    r.push(SourceEntry { id: "github", name: "GitHub" });
    if state.iris.is_some() {
        r.push(SourceEntry { id: "iris", name: "Iris" });
    }
    proof {
        table::lookup_mapped(state.sources.pairs(), ingress_modelling(), "uptime_kuma"@);
    }
    if state.sources.get("uptime_kuma").is_some() {
        r.push(SourceEntry { id: "uptime_kuma", name: "Uptime Kuma" });
    }
    assert(entry_models(r@) =~= listed_sources(state@));
    r
}

/// The first handler of this name.
fn get_handler<'a>(state: &'a AppState, name: &str) -> (r: Option<&'a RiteHandler>)
    ensures
        match r {
            Some(handler) => handler_named(state@.handlers, name@) == Some(handler@),
            None => handler_named(state@.handlers, name@) is None,
        },
{
    let ghost all = state@.handlers;
    let mut i: usize = 0;
    assert(all.skip(0) =~= all);
    while i < state.handlers.len()
        invariant
            all == state@.handlers,
            i <= state.handlers@.len(),
            handler_named(all, name@) == handler_named(all.skip(i as int), name@),
        decreases state.handlers@.len() - i,
    {
        assert(all.skip(i as int)[0] == state.handlers@[i as int]@);
        if text::same(state.handlers[i].name.as_str(), name) {
            return Some(&state.handlers[i]);
        }
        assert(all.skip(i as int).drop_first() =~= all.skip(i + 1));
        i += 1;
    }
    None
}

/// The single dispatch every surface funnels through. `uptime_seconds` is how
/// long the server has been running.
pub fn execute_operation<'a>(
    state: &'a AppState,
    operation: &str,
    input: &OperationInput,
    uptime_seconds: u64,
) -> (r: Result<OperationOutput<'a>, OperationError>)
    ensures
        match r {
            Ok(output) => operation_result(
                state@,
                operation@,
                parameters(input.path),
                uptime_seconds,
            ) == Ok::<_, RefusalModel>(output@),
            Err(error) => operation_result(
                state@,
                operation@,
                parameters(input.path),
                uptime_seconds,
            ) == Err::<OutputModel, _>(error@),
        },
{
    if text::same(operation, "list_sources") {
        Ok(OperationOutput::Sources(list_sources(state)))
    } else if text::same(operation, "list_handlers") {
        Ok(OperationOutput::Handlers(&state.handlers))
    } else if text::same(operation, "get_handler") {
        match parameter(&input.path, "handler_id") {
            None => Err(
                OperationError {
                    status: 400,
                    message: "missing path parameter: handler_id".to_owned(),
                },
            ),
            Some(id) => match get_handler(state, id) {
                Some(handler) => Ok(OperationOutput::Handler(handler)),
                None => Err(
                    OperationError {
                        status: 404,
                        message: "handler not found: ".to_owned().concat(id),
                    },
                ),
            },
        }
    } else if text::same(operation, "get_status") {
        Ok(OperationOutput::Status(status_snapshot(state, uptime_seconds)))
    } else {
        Err(
            OperationError {
                status: 404,
                message: "unknown operation: ".to_owned().concat(operation),
            },
        )
    }
}

/// Whether a raw operation exists: only the reception of events does.
pub fn check_raw_operation(operation: &str) -> (r: Result<(), OperationError>)
    ensures
        match r {
            Ok(()) => operation@ == "receive_event"@,
            Err(error) => operation@ != "receive_event"@ && error@ == unknown_operation(
                operation@,
            ),
        },
{
    if text::same(operation, "receive_event") {
        Ok(())
    } else {
        Err(
            OperationError {
                status: 404,
                message: "unknown operation: ".to_owned().concat(operation),
            },
        )
    }
}

/// A request that fails verification is answered 401 with the reason, whatever
/// its payload is: nothing of it is parsed.
pub proof fn verification_precedes_parsing(
    state: StateModel,
    input: RawModel,
    id: Seq<char>,
    source: IngressModel,
    now: Timestamp,
    duration_ms: Option<JsonModel>,
)
    requires
        table::lookup(input.path, "source"@) == Some(id),
        table::lookup(state.sources, id) == Some(source),
        source.verdict(input.headers, input.body) is Err,
    ensures
        reception(state, input, now, duration_ms) == ReceptionModel::Refused(
            RefusalModel {
                status: 401,
                message: source.verdict(input.headers, input.body)->Err_0.message(),
            },
        ),
{
}

/// A request is refused with 404, 401 or 400 and leaves the state as it was.
pub proof fn refusal_changes_nothing(
    state: StateModel,
    input: RawModel,
    now: Timestamp,
    duration_ms: Option<JsonModel>,
)
    requires
        reception(state, input, now, duration_ms) is Refused,
    ensures
        state.after(reception(state, input, now, duration_ms)) == state,
        ({
            let status = reception(state, input, now, duration_ms)->Refused_0.status;
            status == 404 || status == 401 || status == 400
        }),
{
}

/// Only authentic requests to configured sources have their events taken, and
/// the event is the one that the payload stands for.
pub proof fn accepted_request_is_authentic(
    state: StateModel,
    input: RawModel,
    now: Timestamp,
    duration_ms: Option<JsonModel>,
)
    requires
        reception(state, input, now, duration_ms) is Accepted,
    ensures
        table::lookup(input.path, "source"@) matches Some(id) && table::lookup(
            state.sources,
            id,
        ) matches Some(source) && source.verdict(input.headers, input.body) is Ok
            && source.normalized(input.headers, input.body, now, duration_ms) == Ok::<
            _,
            ErrorModel,
        >(reception(state, input, now, duration_ms)->Accepted_event),
{
}

/// An authentic request to a configured source whose payload stands for an event
/// has that event taken and its actions planned.
pub proof fn authentic_event_is_taken(
    state: StateModel,
    input: RawModel,
    id: Seq<char>,
    source: IngressModel,
    now: Timestamp,
    duration_ms: Option<JsonModel>,
)
    requires
        table::lookup(input.path, "source"@) == Some(id),
        table::lookup(state.sources, id) == Some(source),
        source.verdict(input.headers, input.body) is Ok,
        source.normalized(input.headers, input.body, now, duration_ms) is Ok,
    ensures
        ({
            let event = source.normalized(input.headers, input.body, now, duration_ms)->Ok_0;
            reception(state, input, now, duration_ms) == (ReceptionModel::Accepted {
                event,
                planned: plan_of(state.handlers, event),
            })
        }),
{
}

/// The planned actions are those of the matching handlers and no others: each
/// matching handler's request is planned, and each planned request is that of a
/// matching handler of the event's source.
pub proof fn plan_is_exact(handlers: Seq<HandlerModel>, event: EventModel)
    ensures
        plan_of(handlers, event).len() <= handlers.len(),
        forall|i: int|
            0 <= i < handlers.len() && (#[trigger] handlers[i]).matches(event) ==> plan_of(
                handlers,
                event,
            ).contains(
                PlannedModel {
                    handler: handlers[i].name,
                    request: action::request_of(handlers[i].action, event),
                },
            ),
        forall|k: int|
            0 <= k < plan_of(handlers, event).len() ==> exists|i: int|
                0 <= i < handlers.len() && (#[trigger] handlers[i]).matches(event)
                    && handlers[i].source == event.source && #[trigger] plan_of(handlers, event)[k]
                    == (PlannedModel {
                    handler: handlers[i].name,
                    request: action::request_of(handlers[i].action, event),
                }),
    decreases handlers.len(),
{
    if handlers.len() > 0 {
        let rest = handlers.drop_last();
        let n = rest.len() as int;
        let earlier = plan_of(rest, event);
        let all = plan_of(handlers, event);
        plan_is_exact(rest, event);
        assert forall|i: int| 0 <= i < n implies #[trigger] rest[i] == handlers[i] by {}
        assert forall|i: int|
            0 <= i < handlers.len() && (#[trigger] handlers[i]).matches(event) implies all.contains(
            PlannedModel {
                handler: handlers[i].name,
                request: action::request_of(handlers[i].action, event),
            },
        ) by {
            let plan = PlannedModel {
                handler: handlers[i].name,
                request: action::request_of(handlers[i].action, event),
            };
            if i < n {
                assert(rest[i].matches(event));
                let k = choose|k: int| 0 <= k < earlier.len() && earlier[k] == plan;
                assert(all[k] == plan);
            } else {
                assert(all[all.len() - 1] == plan);
            }
        }
        assert forall|k: int| 0 <= k < all.len() implies exists|i: int|
            0 <= i < handlers.len() && (#[trigger] handlers[i]).matches(event)
                && handlers[i].source == event.source && #[trigger] all[k] == (PlannedModel {
                handler: handlers[i].name,
                request: action::request_of(handlers[i].action, event),
            }) by {
            if k < earlier.len() {
                assert(all[k] == earlier[k]);
                let i = choose|i: int|
                    0 <= i < rest.len() && (#[trigger] rest[i]).matches(event) && rest[i].source
                        == event.source && earlier[k] == (PlannedModel {
                        handler: rest[i].name,
                        request: action::request_of(rest[i].action, event),
                    });
                assert(handlers[i].matches(event));
            } else {
                assert(handlers[n].matches(event));
            }
        }
    }
}

/// No more events are counted as matched than as received, as long as the count
/// of received events has not started over.
pub proof fn matched_within_received(metrics: Metrics, matched: bool)
    requires
        metrics.events_matched <= metrics.events_received < u64::MAX,
    ensures
        metrics.with_event(matched).events_matched <= metrics.with_event(matched).events_received,
{
}

/// A configured state takes events of GitHub always, of Uptime Kuma exactly when
/// it is enabled, and of no other source; it subscribes to Iris exactly when
/// that is enabled. It starts with the configured handlers and zero counters.
pub proof fn configured_sources(secret: Seq<char>, config: ConfigModel, id: Seq<char>)
    requires
        initial_state(secret, config) is Ok,
    ensures
        ({
            let state = initial_state(secret, config)->Ok_0;
            &&& table::lookup(state.sources, id) is Some <==> id == "github"@ || (id
                == "uptime_kuma"@ && config.uptime_kuma is Some && config.uptime_kuma->0.enabled)
            &&& table::lookup(state.sources, "github"@) == Some(
                IngressModel::GitHub(vstd::utf8::encode_utf8(text::trimmed(secret))),
            )
            &&& state.iris is Some <==> config.iris is Some && config.iris->0.enabled
            &&& state.handlers == config.rites
            &&& state.metrics == fresh_metrics()
        }),
{
    reveal_strlit("github");
    reveal_strlit("uptime_kuma");
    assert("github"@.len() != "uptime_kuma"@.len());
    let none = Seq::<(Seq<char>, IngressModel)>::empty();
    let github = IngressModel::GitHub(vstd::utf8::encode_utf8(text::trimmed(secret)));
    let first = table::with_entry(none, "github"@, github);
    table::insert_then_lookup(none, "github"@, github, id);
    table::insert_then_lookup(none, "github"@, github, "github"@);
    if let Some(kuma) = config.uptime_kuma {
        let source = IngressModel::UptimeKuma(
            vstd::utf8::encode_utf8(text::trimmed(kuma.secret)),
        );
        table::insert_then_lookup(first, "uptime_kuma"@, source, id);
        table::insert_then_lookup(first, "uptime_kuma"@, source, "github"@);
    }
}

/// Of a configuration that validation finds no error in, with a secret for
/// GitHub, only the Iris settings can be refused.
pub proof fn servable_configuration_starts(secret: Seq<char>, config: ConfigModel)
    requires
        !config::forbids_serving(config::diagnostics(config)),
        !text::is_blank(secret),
    ensures
        initial_state(secret, config) is Ok <==> subscription_of(config) is Ok,
        config.iris is None || !config.iris->0.enabled ==> initial_state(secret, config) is Ok,
{
    config::validation_decides(config);
}

/// The handler found by name has that name, and none is found exactly when no
/// handler has it.
pub proof fn handler_lookup_by_name(handlers: Seq<HandlerModel>, name: Seq<char>)
    ensures
        handler_named(handlers, name) matches Some(handler) ==> handler.name == name
            && handlers.contains(handler),
        handler_named(handlers, name) is Some <==> config::is_named(handlers, name),
    decreases handlers.len(),
{
    if handlers.len() > 0 {
        let rest = handlers.drop_first();
        handler_lookup_by_name(rest, name);
        if handlers[0].name == name {
            assert(handlers.contains(handlers[0]));
        } else {
            if handler_named(rest, name) is Some {
                let i = choose|i: int| 0 <= i < rest.len() && (#[trigger] rest[i]).name == name;
                assert(handlers[i + 1].name == name);
                let found = handler_named(rest, name)->0;
                let k = choose|k: int| 0 <= k < rest.len() && rest[k] == found;
                assert(handlers[k + 1] == found);
            }
            if config::is_named(handlers, name) {
                let i = choose|i: int|
                    0 <= i < handlers.len() && (#[trigger] handlers[i]).name == name;
                assert(rest[i - 1].name == name);
            }
        }
    }
}

/// Of a configuration that validation finds no error in, each handler is found by
/// its own name.
pub proof fn validated_handler_is_found(config: ConfigModel, i: int)
    requires
        !config::forbids_serving(config::diagnostics(config)),
        0 <= i < config.rites.len(),
    ensures
        handler_named(config.rites, config.rites[i].name) == Some(config.rites[i]),
{
    config::validation_decides(config);
    distinct_handler_is_found(config.rites, i);
}

proof fn distinct_handler_is_found(handlers: Seq<HandlerModel>, i: int)
    requires
        0 <= i < handlers.len(),
        forall|j: int, k: int|
            0 <= j < k < handlers.len() ==> (#[trigger] handlers[j]).name != (
            #[trigger] handlers[k]).name,
    ensures
        handler_named(handlers, handlers[i].name) == Some(handlers[i]),
    decreases handlers.len(),
{
    if i > 0 {
        let rest = handlers.drop_first();
        assert(handlers[0].name != handlers[i].name);
        assert(rest[i - 1] == handlers[i]);
        assert forall|j: int, k: int| 0 <= j < k < rest.len() implies (#[trigger] rest[j]).name != (
        #[trigger] rest[k]).name by {
            assert(handlers[j + 1].name != handlers[k + 1].name);
        }
        distinct_handler_is_found(rest, i - 1);
    }
}

/// Each kind of source verifies by its own rule and its own secret, and normalizes
/// its own payloads; a body that is not JSON is refused.
pub proof fn each_source_by_its_own_rule(
    key: Seq<u8>,
    headers: Seq<(Seq<char>, Seq<char>)>,
    body: Seq<u8>,
    now: Timestamp,
    duration_ms: Option<JsonModel>,
)
    ensures
        IngressModel::GitHub(key).verdict(headers, body) == github::signature_verdict(
            key,
            headers,
            body,
        ),
        IngressModel::UptimeKuma(key).verdict(headers, body) == uptime_kuma::signature_verdict(
            key,
            headers,
            body,
        ),
        json::parsed(body) matches Ok(payload) ==> {
            &&& IngressModel::GitHub(key).normalized(headers, body, now, duration_ms)
                == github::event_of(headers, payload, now)
            &&& IngressModel::UptimeKuma(key).normalized(headers, body, now, duration_ms)
                == uptime_kuma::event_of(payload, now, duration_ms)
        },
        json::parsed(body) matches Err(error) ==> {
            &&& IngressModel::GitHub(key).normalized(headers, body, now, duration_ms) == Err::<
                EventModel,
                _,
            >(ErrorModel::Parse(error))
            &&& IngressModel::UptimeKuma(key).normalized(headers, body, now, duration_ms) == Err::<
                EventModel,
                _,
            >(ErrorModel::Parse(error))
        },
{
}

/// An ingress source does what the source in it does.
pub proof fn ingress_is_its_source(
    github: GitHubSource,
    kuma: UptimeKumaSource,
    headers: Seq<(Seq<char>, Seq<char>)>,
    body: Seq<u8>,
    now: Timestamp,
    duration_ms: Option<JsonModel>,
)
    ensures
        IngressSource::GitHub(github)@ == IngressModel::GitHub(github.key()),
        IngressSource::UptimeKuma(kuma)@ == IngressModel::UptimeKuma(kuma.key()),
        IngressSource::GitHub(github).verdict(headers, body) == github.verdict(headers, body),
        IngressSource::UptimeKuma(kuma).verdict(headers, body) == kuma.verdict(headers, body),
        IngressSource::GitHub(github).normalized(headers, body, now, duration_ms)
            == github.normalized(headers, body, now, duration_ms),
        IngressSource::UptimeKuma(kuma).normalized(headers, body, now, duration_ms)
            == kuma.normalized(headers, body, now, duration_ms),
        IngressSource::GitHub(github).description() == github.description(),
        IngressSource::UptimeKuma(kuma).description() == kuma.description(),
{
}

/// A counter goes up by one, modulo two to the sixty-fourth.
pub proof fn counters_wrap(n: u64)
    ensures
        wrapping_next(n) as int == (n as int + 1) % 0x1_0000_0000_0000_0000,
{
}

/// An event is counted once as received and, where it is matched, once as matched;
/// an action is counted once, as succeeded or as failed. No other counter changes.
pub proof fn counters_count(metrics: Metrics, b: bool)
    ensures
        ({
            let after = metrics.with_event(b);
            &&& after.events_received as int == (metrics.events_received + 1)
                % 0x1_0000_0000_0000_0000
            &&& b ==> after.events_matched as int == (metrics.events_matched + 1)
                % 0x1_0000_0000_0000_0000
            &&& !b ==> after.events_matched == metrics.events_matched
            &&& after.actions_succeeded == metrics.actions_succeeded
            &&& after.actions_failed == metrics.actions_failed
        }),
        ({
            let after = metrics.with_action(b);
            &&& after.events_received == metrics.events_received
            &&& after.events_matched == metrics.events_matched
            &&& b ==> after.actions_succeeded as int == (metrics.actions_succeeded + 1)
                % 0x1_0000_0000_0000_0000 && after.actions_failed == metrics.actions_failed
            &&& !b ==> after.actions_failed as int == (metrics.actions_failed + 1)
                % 0x1_0000_0000_0000_0000 && after.actions_succeeded == metrics.actions_succeeded
        }),
        fresh_metrics().events_received == 0,
        fresh_metrics().events_matched == 0,
        fresh_metrics().actions_succeeded == 0,
        fresh_metrics().actions_failed == 0,
{
}

/// A state is made exactly of a GitHub secret that is not blank, a secret for
/// Uptime Kuma that is not blank where that is enabled, and Iris settings that are
/// accepted where that is enabled. It has the secrets trimmed, under the sources'
/// IDs, and the Iris settings.
pub proof fn states_are_made(secret: Seq<char>, config: ConfigModel)
    ensures
        ({
            let made = initial_state(secret, config);
            let wants_iris = config.iris is Some && config.iris->0.enabled;
            let wants_kuma = config.uptime_kuma is Some && config.uptime_kuma->0.enabled;
            let iris = iris::settings(config.iris->0.base_url, config.iris->0.api_token);
            &&& made is Ok <==> !text::all_space(secret) && (wants_kuma ==> !text::all_space(
                config.uptime_kuma->0.secret,
            )) && (wants_iris ==> iris is Ok)
            &&& made is Ok ==> {
                let state = made->Ok_0;
                &&& state.iris == (if wants_iris {
                    Some(iris->Ok_0)
                } else {
                    None
                })
                &&& table::lookup(state.sources, "github"@) == Some(
                    IngressModel::GitHub(vstd::utf8::encode_utf8(text::trimmed(secret))),
                )
                &&& table::lookup(state.sources, "uptime_kuma"@) == (if wants_kuma {
                    Some(
                        IngressModel::UptimeKuma(
                            vstd::utf8::encode_utf8(text::trimmed(config.uptime_kuma->0.secret)),
                        ),
                    )
                } else {
                    None
                })
                &&& table::increasing(state.sources)
                &&& state.handlers == config.rites
                &&& state.metrics == (Metrics {
                    events_received: 0,
                    events_matched: 0,
                    actions_succeeded: 0,
                    actions_failed: 0,
                })
            }
            &&& wants_iris && iris is Err ==> made == Err::<StateModel, _>(iris->Err_0)
            &&& (wants_iris ==> iris is Ok) && text::all_space(secret) ==> made == Err::<
                StateModel,
                _,
            >(ErrorModel::Config("github webhook secret is required"@))
            &&& (wants_iris ==> iris is Ok) && !text::all_space(secret) && wants_kuma
                && text::all_space(config.uptime_kuma->0.secret) ==> made == Err::<StateModel, _>(
                ErrorModel::Config("uptime_kuma webhook secret is required"@),
            )
        }),
{
    text::blank_is_all_space(secret);
    reveal_strlit("github");
    reveal_strlit("uptime_kuma");
    assert("github"@.len() != "uptime_kuma"@.len());
    let none = Seq::<(Seq<char>, IngressModel)>::empty();
    let github = IngressModel::GitHub(vstd::utf8::encode_utf8(text::trimmed(secret)));
    let first = table::with_entry(none, "github"@, github);
    table::insert_then_lookup(none, "github"@, github, "github"@);
    table::insert_then_lookup(none, "github"@, github, "uptime_kuma"@);
    table::with_entry_increasing(none, "github"@, github);
    if let Some(kuma) = config.uptime_kuma {
        text::blank_is_all_space(kuma.secret);
        let source = IngressModel::UptimeKuma(
            vstd::utf8::encode_utf8(text::trimmed(kuma.secret)),
        );
        table::insert_then_lookup(first, "uptime_kuma"@, source, "github"@);
        table::insert_then_lookup(first, "uptime_kuma"@, source, "uptime_kuma"@);
        table::with_entry_increasing(first, "uptime_kuma"@, source);
    }
}

/// The status of every answer: 404 without a configured source, 401 for a request
/// that the source refuses, 400 for a payload that it cannot normalize, and
/// otherwise the event is taken and the actions of all handlers planned. The
/// refusals carry the message of the error.
pub proof fn every_request_is_answered(
    state: StateModel,
    input: RawModel,
    now: Timestamp,
    duration_ms: Option<JsonModel>,
)
    ensures
        ({
            let answer = reception(state, input, now, duration_ms);
            let id = table::lookup(input.path, "source"@);
            if id is None || table::lookup(state.sources, id->0) is None {
                answer == ReceptionModel::Refused(
                    RefusalModel { status: 404, message: "unknown event source"@ },
                )
            } else {
                let source = table::lookup(state.sources, id->0)->0;
                match source.verdict(input.headers, input.body) {
                    Err(error) => answer == ReceptionModel::Refused(
                        RefusalModel { status: 401, message: error.message() },
                    ),
                    Ok(()) => match source.normalized(
                        input.headers,
                        input.body,
                        now,
                        duration_ms,
                    ) {
                        Err(error) => answer == ReceptionModel::Refused(
                            RefusalModel { status: 400, message: error.message() },
                        ),
                        Ok(event) => answer == (ReceptionModel::Accepted {
                            event,
                            planned: plan_of(state.handlers, event),
                        }),
                    },
                }
            }
        }),
{
}

/// A GitHub delivery to a configured state is refused with 401 unless it carries
/// the tag of its body under the trimmed secret, whatever else it holds.
pub proof fn unsigned_delivery_is_unauthorized(
    secret: Seq<char>,
    config: ConfigModel,
    input: RawModel,
    now: Timestamp,
    duration_ms: Option<JsonModel>,
)
    requires
        initial_state(secret, config) is Ok,
        table::lookup(input.path, "source"@) == Some("github"@),
    ensures
        ({
            let answer = reception(
                initial_state(secret, config)->Ok_0,
                input,
                now,
                duration_ms,
            );
            let tag = signature::hmac_sha256(
                vstd::utf8::encode_utf8(text::trimmed(secret)),
                input.body,
            );
            let signed = exists|encoded: Seq<char>|
                {
                    &&& #[trigger] text::same_ignoring_ascii_case(
                        encoded,
                        signature::hex_encoded(tag),
                    )
                    &&& source::header_value(input.headers, "x-hub-signature-256"@) == Some(
                        "sha256="@ + encoded,
                    )
                };
            &&& !signed <==> answer is Refused && answer->Refused_0.status == 401
            &&& signed ==> (answer is Accepted <==> json::parsed(input.body) is Ok
                && source::header_value(input.headers, "x-github-event"@) is Some
                && github::is_delivery(
                source::header_value(input.headers, "x-github-event"@)->0,
                json::parsed(input.body)->Ok_0,
            ))
        }),
{
    states_are_made(secret, config);
    let key = vstd::utf8::encode_utf8(text::trimmed(secret));
    github::signature_decides(key, input.headers, input.body);
    if let Ok(payload) = json::parsed(input.body) {
        github::delivery_becomes_event(input.headers, payload, now);
    }
}

/// An Uptime Kuma heartbeat to a configured state that has the source enabled is
/// refused with 401 unless it carries the tag of its body under the trimmed secret.
pub proof fn unsigned_heartbeat_is_unauthorized(
    secret: Seq<char>,
    config: ConfigModel,
    input: RawModel,
    now: Timestamp,
    duration_ms: Option<JsonModel>,
)
    requires
        initial_state(secret, config) is Ok,
        config.uptime_kuma is Some,
        table::lookup(input.path, "source"@) == Some("uptime_kuma"@),
    ensures
        ({
            let answer = reception(
                initial_state(secret, config)->Ok_0,
                input,
                now,
                duration_ms,
            );
            let kuma = config.uptime_kuma->0;
            let signed = source::header_value(input.headers, "signature"@) == Some(
                signature::base64_encoded(
                    signature::hmac_sha256(
                        vstd::utf8::encode_utf8(text::trimmed(kuma.secret)),
                        input.body,
                    ),
                ),
            );
            &&& !kuma.enabled <==> answer is Refused && answer->Refused_0.status == 404
            &&& kuma.enabled ==> (!signed <==> answer is Refused && answer->Refused_0.status == 401)
            &&& kuma.enabled && signed ==> (answer is Accepted <==> json::parsed(input.body) is Ok
                && uptime_kuma::is_heartbeat(json::parsed(input.body)->Ok_0))
        }),
{
    states_are_made(secret, config);
    let key = vstd::utf8::encode_utf8(text::trimmed(config.uptime_kuma->0.secret));
    uptime_kuma::signature_decides(key, input.headers, input.body);
    if let Ok(payload) = json::parsed(input.body) {
        uptime_kuma::heartbeat_becomes_event(payload, now, duration_ms);
    }
}

/// The plan goes through the handlers in their order: one handler has its request
/// planned under its name exactly when it matches, and the plan of two lists of
/// handlers is that of the first and then that of the second.
pub proof fn plan_goes_handler_by_handler(
    first: Seq<HandlerModel>,
    second: Seq<HandlerModel>,
    handler: HandlerModel,
    event: EventModel,
)
    ensures
        plan_of(Seq::empty(), event).len() == 0,
        handler.matches(event) ==> plan_of(seq![handler], event) == seq![
            PlannedModel {
                handler: handler.name,
                request: action::request_of(handler.action, event),
            },
        ],
        !handler.matches(event) ==> plan_of(seq![handler], event).len() == 0,
        plan_of(first + second, event) == plan_of(first, event) + plan_of(second, event),
    decreases second.len(),
{
    let alone = seq![handler];
    assert(alone.drop_last() =~= seq![]);
    assert(plan_of(alone.drop_last(), event) =~= seq![]);
    if handler.matches(event) {
        assert(plan_of(alone, event) =~= seq![
            PlannedModel {
                handler: handler.name,
                request: action::request_of(handler.action, event),
            },
        ]);
    }
    if second.len() == 0 {
        assert(first + second =~= first);
        assert(plan_of(first, event) + plan_of(second, event) =~= plan_of(first, event));
    } else {
        plan_goes_handler_by_handler(first, second.drop_last(), handler, event);
        assert((first + second).drop_last() =~= first + second.drop_last());
        assert((first + second).last() == second.last());
        assert(plan_of(first + second, event) =~= plan_of(first, event) + plan_of(second, event));
    }
}

/// After a request that is refused the state is as before; after one whose event is
/// taken one more event is received, and one more matched if some action is
/// planned. Nothing else of the state changes.
pub proof fn requests_change_the_counters_alone(
    state: StateModel,
    outcome: ReceptionModel,
    matched: bool,
)
    ensures
        outcome is Refused ==> state.after(outcome) == state,
        state.after(outcome).handlers == state.handlers,
        state.after(outcome).sources == state.sources,
        state.after(outcome).iris == state.iris,
        outcome matches ReceptionModel::Accepted { planned, .. } ==> state.after(outcome).metrics
            == state.metrics.with_event(planned.len() > 0),
        state.with_event(matched).metrics == state.metrics.with_event(matched),
        state.with_event(matched).handlers == state.handlers,
        state.with_event(matched).sources == state.sources,
        state.with_event(matched).iris == state.iris,
{
}

/// A request has a duration exactly when it is an authentic one of Uptime Kuma
/// whose heartbeat gives a number.
pub proof fn only_heartbeats_have_durations(
    state: StateModel,
    input: RawModel,
    duration: JsonModel,
)
    ensures
        request_duration(state, input) == Some(duration) <==> {
            let id = table::lookup(input.path, "source"@);
            let source = table::lookup(state.sources, id->0);
            &&& id is Some && source is Some && source->0 is UptimeKuma
            &&& source->0.verdict(input.headers, input.body) is Ok
            &&& json::parsed(input.body) is Ok
            &&& duration is Number
            &&& json::parsed(input.body)->Ok_0.get("heartbeat"@) matches Some(heartbeat)
                && heartbeat is Object && heartbeat.get("duration"@) == Some(duration)
        },
{
    if let Ok(payload) = json::parsed(input.body) {
        uptime_kuma::durations_are_numbers(payload, duration);
    }
}

/// The successes among outcomes are counted one by one.
pub proof fn successes_add_up(first: Seq<bool>, second: Seq<bool>)
    ensures
        successes(Seq::empty()) == 0,
        successes(seq![true]) == 1,
        successes(seq![false]) == 0,
        successes(first + second) == successes(first) + successes(second),
    decreases second.len(),
{
    assert(seq![true].drop_last() =~= seq![]);
    assert(seq![false].drop_last() =~= seq![]);
    assert(successes(seq![true].drop_last()) == 0);
    assert(successes(seq![false].drop_last()) == 0);
    if second.len() == 0 {
        assert(first + second =~= first);
    } else {
        successes_add_up(first, second.drop_last());
        assert((first + second).drop_last() =~= first + second.drop_last());
        assert((first + second).last() == second.last());
    }
}

/// The parameters that an object gives are its members' texts under their names: of
/// members of one name the last, and the empty text for one that is no string.
pub proof fn members_become_parameters(
    fields: Seq<(Seq<char>, JsonModel)>,
    name: Seq<char>,
    value: JsonModel,
    other: Seq<char>,
)
    ensures
        parameters_of(Seq::empty()).len() == 0,
        table::lookup(parameters_of(fields.push((name, value))), other) == if other == name {
            match value {
                JsonModel::String(s) => Some(s),
                _ => Some(Seq::empty()),
            }
        } else {
            table::lookup(parameters_of(fields), other)
        },
{
    let more = fields.push((name, value));
    assert(more.drop_last() =~= fields);
    table::insert_then_lookup(parameters_of(fields), name, text::or_empty(value.as_str()), other);
}

/// The listing has GitHub, then Iris where it is subscribed to, then Uptime Kuma
/// where it takes webhooks.
pub proof fn sources_are_listed(state: StateModel)
    ensures
        ({
            let kuma = table::lookup(state.sources, "uptime_kuma"@) is Some;
            listed_sources(state) == match (state.iris, kuma) {
                (None, false) => seq![("github"@, "GitHub"@)],
                (Some(_), false) => seq![("github"@, "GitHub"@), ("iris"@, "Iris"@)],
                (None, true) => seq![
                    ("github"@, "GitHub"@),
                    ("uptime_kuma"@, "Uptime Kuma"@),
                ],
                (Some(_), true) => seq![
                    ("github"@, "GitHub"@),
                    ("iris"@, "Iris"@),
                    ("uptime_kuma"@, "Uptime Kuma"@),
                ],
            }
        }),
{
    let kuma = table::lookup(state.sources, "uptime_kuma"@) is Some;
    let github = seq![("github"@, "GitHub"@)];
    let iris = seq![("iris"@, "Iris"@)];
    let uptime = seq![("uptime_kuma"@, "Uptime Kuma"@)];
    let none = Seq::<(Seq<char>, Seq<char>)>::empty();
    assert(github + none + none =~= github);
    assert(github + iris + none =~= seq![("github"@, "GitHub"@), ("iris"@, "Iris"@)]);
    assert(github + none + uptime =~= seq![
        ("github"@, "GitHub"@),
        ("uptime_kuma"@, "Uptime Kuma"@),
    ]);
    assert(github + iris + uptime =~= seq![
        ("github"@, "GitHub"@),
        ("iris"@, "Iris"@),
        ("uptime_kuma"@, "Uptime Kuma"@),
    ]);
}

/// A snapshot shows the counters of the state, the given uptime, and how many
/// handlers there are.
pub proof fn snapshots_show_the_counters(state: StateModel, uptime_seconds: u64)
    requires
        state.handlers.len() <= u64::MAX,
    ensures
        ({
            let snapshot = snapshot_of(state, uptime_seconds);
            &&& snapshot.events_received == state.metrics.events_received
            &&& snapshot.events_matched == state.metrics.events_matched
            &&& snapshot.actions_succeeded == state.metrics.actions_succeeded
            &&& snapshot.actions_failed == state.metrics.actions_failed
            &&& snapshot.uptime_seconds == uptime_seconds
            &&& snapshot.handlers_loaded == state.handlers.len()
        }),
{
}

/// The handler found by name is the first of that name.
pub proof fn first_handler_is_found(handlers: Seq<HandlerModel>, name: Seq<char>, i: int)
    requires
        0 <= i < handlers.len(),
        handlers[i].name == name,
        forall|j: int| 0 <= j < i ==> (#[trigger] handlers[j]).name != name,
    ensures
        handler_named(handlers, name) == Some(handlers[i]),
    decreases i,
{
    if i > 0 {
        let rest = handlers.drop_first();
        assert(handlers[0].name != name);
        assert(rest[i - 1] == handlers[i]);
        assert forall|j: int| 0 <= j < i - 1 implies (#[trigger] rest[j]).name != name by {
            assert(handlers[j + 1].name != name);
        }
        first_handler_is_found(rest, name, i - 1);
    }
}

/// Each operation returns what its name says, and no other exists. A handler is
/// asked for by its ID; without one the request is bad, and an ID that no handler
/// has is not found.
pub proof fn operations_do_what_they_say(
    state: StateModel,
    operation: Seq<char>,
    path: Seq<(Seq<char>, Seq<char>)>,
    uptime_seconds: u64,
)
    ensures
        operation_result(state, "list_sources"@, path, uptime_seconds) == Ok::<_, RefusalModel>(
            OutputModel::Sources(listed_sources(state)),
        ),
        operation_result(state, "list_handlers"@, path, uptime_seconds) == Ok::<_, RefusalModel>(
            OutputModel::Handlers(state.handlers),
        ),
        operation_result(state, "get_status"@, path, uptime_seconds) == Ok::<_, RefusalModel>(
            OutputModel::Status(snapshot_of(state, uptime_seconds)),
        ),
        ({
            let answer = operation_result(state, "get_handler"@, path, uptime_seconds);
            match table::lookup(path, "handler_id"@) {
                None => answer == Err::<OutputModel, _>(
                    RefusalModel { status: 400, message: "missing path parameter: handler_id"@ },
                ),
                Some(id) => match handler_named(state.handlers, id) {
                    Some(handler) => answer == Ok::<_, RefusalModel>(OutputModel::Handler(handler)),
                    None => answer == Err::<OutputModel, _>(
                        RefusalModel { status: 404, message: "handler not found: "@ + id },
                    ),
                },
            }
        }),
        operation != "list_sources"@ && operation != "list_handlers"@ && operation != "get_handler"@
            && operation != "get_status"@ ==> operation_result(
            state,
            operation,
            path,
            uptime_seconds,
        ) == Err::<OutputModel, _>(
            RefusalModel { status: 404, message: "unknown operation: "@ + operation },
        ),
        unknown_operation(operation) == (RefusalModel {
            status: 404,
            message: "unknown operation: "@ + operation,
        }),
{
    reveal_strlit("list_sources");
    reveal_strlit("list_handlers");
    reveal_strlit("get_handler");
    reveal_strlit("get_status");
    assert("list_sources"@.len() == 12 && "list_handlers"@.len() == 13 && "get_handler"@.len() == 11
        && "get_status"@.len() == 10);
}

/// A state is seen whole.
pub proof fn states_are_seen_whole(state: AppState)
    ensures
        state@.handlers.len() == state.handlers@.len(),
        forall|i: int|
            0 <= i < state.handlers@.len() ==> #[trigger] state@.handlers[i] == state.handlers@[i]@,
        state@.sources.len() == state.sources.entries@.len(),
        forall|i: int|
            0 <= i < state.sources.entries@.len() ==> #[trigger] state@.sources[i] == (
                state.sources.entries@[i].0@,
                state.sources.entries@[i].1@,
            ),
        state@.iris == (match state.iris {
            Some(iris) => Some(iris@),
            None => None,
        }),
        state@.metrics == state.metrics,
{
}

/// A raw request, a refusal and what becomes of a request are seen whole.
pub proof fn requests_are_seen_whole(
    input: RawOperationInput,
    error: OperationError,
    plan: PlannedAction,
    outcome: Reception,
)
    ensures
        input@.path.len() == input.path.entries@.len(),
        forall|i: int|
            0 <= i < input.path.entries@.len() ==> #[trigger] input@.path[i] == (
                input.path.entries@[i].0@,
                input.path.entries@[i].1@,
            ),
        input@.headers.len() == input.headers@.len(),
        forall|i: int|
            0 <= i < input.headers@.len() ==> #[trigger] input@.headers[i] == (
                input.headers@[i].0@,
                input.headers@[i].1@,
            ),
        input@.body == input.raw_body@,
        error@.status == error.status,
        error@.message == error.message@,
        plan@.handler == plan.handler@,
        plan@.request == plan.request@,
        match outcome {
            Reception::Refused(error) => outcome@ == ReceptionModel::Refused(error@),
            Reception::Accepted { event, planned } => {
                &&& outcome@ is Accepted
                &&& outcome@->Accepted_event == event@
                &&& outcome@->Accepted_planned.len() == planned@.len()
                &&& forall|i: int|
                    0 <= i < planned@.len() ==> #[trigger] outcome@->Accepted_planned[i]
                        == planned@[i]@
            },
        },
{
}

/// What an operation returns is seen whole.
pub proof fn outputs_are_seen_whole<'a>(output: OperationOutput<'a>)
    ensures
        match output {
            OperationOutput::Sources(entries) => {
                &&& output@ is Sources
                &&& output@->Sources_0.len() == entries@.len()
                &&& forall|i: int|
                    0 <= i < entries@.len() ==> #[trigger] output@->Sources_0[i] == (
                        entries@[i].id@,
                        entries@[i].name@,
                    )
            },
            OperationOutput::Handlers(handlers) => {
                &&& output@ is Handlers
                &&& output@->Handlers_0.len() == handlers@.len()
                &&& forall|i: int|
                    0 <= i < handlers@.len() ==> #[trigger] output@->Handlers_0[i] == handlers@[i]@
            },
            OperationOutput::Handler(handler) => output@ == OutputModel::Handler(handler@),
            OperationOutput::Status(snapshot) => output@ == OutputModel::Status(snapshot),
        },
{
}

/// A state holds the subscription that it is given, and is refused for its secrets
/// alone.
pub proof fn given_subscription_is_held(
    secret: Seq<char>,
    config: ConfigModel,
    iris: Option<IrisModel>,
)
    ensures
        ({
            let made = state_of(secret, config, iris);
            let kuma = config.uptime_kuma;
            &&& made is Ok <==> !text::all_space(secret) && (kuma is Some && kuma->0.enabled
                ==> !text::all_space(kuma->0.secret))
            &&& made is Ok ==> made->Ok_0.iris == iris && made->Ok_0.handlers == config.rites
            &&& initial_state(secret, config) is Ok ==> initial_state(secret, config) == state_of(
                secret,
                config,
                initial_state(secret, config)->Ok_0.iris,
            )
        }),
{
    text::blank_is_all_space(secret);
    if let Some(kuma) = config.uptime_kuma {
        text::blank_is_all_space(kuma.secret);
    }
}

/// Parameters and plans are seen one by one, in their order.
pub proof fn lists_are_seen_one_by_one(given: Table<String>, plans: Seq<PlannedAction>)
    ensures
        parameters(given).len() == given.entries@.len(),
        forall|i: int|
            0 <= i < given.entries@.len() ==> #[trigger] parameters(given)[i] == (
                given.entries@[i].0@,
                given.entries@[i].1@,
            ),
        planned_models(plans).len() == plans.len(),
        forall|i: int|
            0 <= i < plans.len() ==> #[trigger] planned_models(plans)[i] == (PlannedModel {
                handler: plans[i].handler@,
                request: plans[i].request@,
            }),
{
}

} // verus!
