//! Server configuration: what it holds and what is wrong with it.

use crate::error::ErrorModel;
use crate::matching;
use crate::matching::{HandlerModel, MatchValue, RiteHandler};
use crate::table::Table;
use crate::text;
use vstd::prelude::*;

verus! {

/// What a load error of a match table begins with, so that it can be told from
/// a parser's own.
pub const MATCH_VALIDATION_ERROR_PREFIX: &'static str = "invalid match table: ";

/// Uptime Kuma webhook configuration.
#[derive(Debug)]
pub struct UptimeKumaConfig {
    /// Whether the source takes events.
    pub enabled: bool,
    /// The secret that requests are signed with.
    pub secret: String,
}

/// Iris subscription configuration.
#[derive(Debug)]
pub struct IrisConfig {
    /// Whether the source is subscribed to.
    pub enabled: bool,
    /// The HTTP base URL.
    pub base_url: String,
    /// The bearer token, where Iris asks for one.
    pub api_token: Option<String>,
}

/// Source configuration.
#[derive(Debug)]
pub struct SourcesConfig {
    /// Optional Iris SSE subscription source.
    pub iris: Option<IrisConfig>,
    /// Optional authenticated Uptime Kuma webhook source.
    pub uptime_kuma: Option<UptimeKumaConfig>,
}

/// Server configuration.
#[derive(Debug)]
pub struct RiteConfig {
    /// The handlers, in order.
    pub rites: Vec<RiteHandler>,
    /// The sources.
    pub sources: SourcesConfig,
}

/// The mathematical value of an [`UptimeKumaConfig`].
pub struct KumaModel {
    /// Whether the source takes events.
    pub enabled: bool,
    /// The secret that requests are signed with.
    pub secret: Seq<char>,
}

/// The mathematical value of an [`IrisConfig`].
pub struct IrisConfigModel {
    /// Whether the source is subscribed to.
    pub enabled: bool,
    /// The HTTP base URL.
    pub base_url: Seq<char>,
    /// The bearer token, where Iris asks for one.
    pub api_token: Option<Seq<char>>,
}

/// The mathematical value of a [`RiteConfig`].
pub struct ConfigModel {
    /// The handlers, in order.
    pub rites: Seq<HandlerModel>,
    /// The Iris source.
    pub iris: Option<IrisConfigModel>,
    /// The Uptime Kuma source.
    pub uptime_kuma: Option<KumaModel>,
}

impl View for UptimeKumaConfig {
    type V = KumaModel;

    open spec fn view(&self) -> KumaModel {
        KumaModel { enabled: self.enabled, secret: self.secret@ }
    }
}

impl View for IrisConfig {
    type V = IrisConfigModel;

    open spec fn view(&self) -> IrisConfigModel {
        IrisConfigModel {
            enabled: self.enabled,
            base_url: self.base_url@,
            api_token: text::optional(self.api_token),
        }
    }
}

/// The mathematical value of a list of handlers.
pub open spec fn handler_models(handlers: Seq<RiteHandler>) -> Seq<HandlerModel> {
    handlers.map_values(|handler: RiteHandler| handler@)
}

impl View for RiteConfig {
    type V = ConfigModel;

    open spec fn view(&self) -> ConfigModel {
        ConfigModel {
            rites: handler_models(self.rites@),
            iris: match self.sources.iris {
                Some(iris) => Some(iris@),
                None => None,
            },
            uptime_kuma: match self.sources.uptime_kuma {
                Some(kuma) => Some(kuma@),
                None => None,
            },
        }
    }
}

impl Clone for UptimeKumaConfig {
    fn clone(&self) -> (r: UptimeKumaConfig)
        ensures
            r@ == self@,
    {
        UptimeKumaConfig { enabled: self.enabled, secret: self.secret.clone() }
    }
}

impl Clone for IrisConfig {
    fn clone(&self) -> (r: IrisConfig)
        ensures
            r@ == self@,
    {
        IrisConfig {
            enabled: self.enabled,
            base_url: self.base_url.clone(),
            api_token: text::copy_optional(&self.api_token),
        }
    }
}

impl Clone for SourcesConfig {
    fn clone(&self) -> (r: SourcesConfig)
        ensures
            match (r.iris, self.iris) {
                (Some(copy), Some(iris)) => copy@ == iris@,
                (None, None) => true,
                _ => false,
            },
            match (r.uptime_kuma, self.uptime_kuma) {
                (Some(copy), Some(kuma)) => copy@ == kuma@,
                (None, None) => true,
                _ => false,
            },
    {
        SourcesConfig {
            iris: match &self.iris {
                Some(iris) => Some(iris.clone()),
                None => None,
            },
            uptime_kuma: match &self.uptime_kuma {
                Some(kuma) => Some(kuma.clone()),
                None => None,
            },
        }
    }
}

impl Clone for RiteConfig {
    fn clone(&self) -> (r: RiteConfig)
        ensures
            r@ == self@,
    {
        let mut rites: Vec<RiteHandler> = Vec::new();
        let mut i: usize = 0;
        while i < self.rites.len()
            invariant
                i <= self.rites@.len(),
                rites@.len() == i,
                forall|j: int| 0 <= j < i ==> (#[trigger] rites@[j])@ == self.rites@[j]@,
            decreases self.rites@.len() - i,
        {
            rites.push(self.rites[i].clone());
            i += 1;
        }
        let r = RiteConfig {
            rites,
            sources: self.sources.clone(),
        };
        assert(r@.rites =~= self@.rites);
        r
    }
}

impl Default for SourcesConfig {
    fn default() -> (r: SourcesConfig)
        ensures
            r.iris is None,
            r.uptime_kuma is None,
    {
        SourcesConfig { iris: None, uptime_kuma: None }
    }
}

impl Default for RiteConfig {
    fn default() -> (r: RiteConfig)
        ensures
            r@ == (ConfigModel { rites: seq![], iris: None, uptime_kuma: None }),
    {
        let r = RiteConfig { rites: Vec::new(), sources: SourcesConfig::default() };
        assert(r@.rites =~= seq![]);
        r
    }
}

/// Severity emitted while checking a loaded configuration before the server starts.
#[derive(Debug, Clone, Copy, PartialEq, Eq, Structural)]
pub enum DiagnosticLevel {
    /// Configuration is usable but likely accidental.
    Warning,
    /// Configuration cannot safely be served.
    Error,
}

/// A secret-free configuration diagnostic suitable for startup logging.
#[derive(Debug, PartialEq, Eq)]
pub struct Diagnostic {
    /// Severity that determines whether startup may continue.
    pub level: DiagnosticLevel,
    /// Human-readable explanation of the configuration problem.
    pub message: String,
}

/// The mathematical value of a [`Diagnostic`].
pub struct DiagnosticModel {
    /// Severity that determines whether startup may continue.
    pub level: DiagnosticLevel,
    /// Human-readable explanation of the configuration problem.
    pub message: Seq<char>,
}

impl View for Diagnostic {
    type V = DiagnosticModel;

    open spec fn view(&self) -> DiagnosticModel {
        DiagnosticModel { level: self.level, message: self.message@ }
    }
}

impl Clone for Diagnostic {
    fn clone(&self) -> (r: Diagnostic)
        ensures
            r == *self,
    {
        Diagnostic { level: self.level, message: self.message.clone() }
    }
}

/// The mathematical value of a list of diagnostics.
pub open spec fn diagnostic_models(diagnostics: Seq<Diagnostic>) -> Seq<DiagnosticModel> {
    diagnostics.map_values(|diagnostic: Diagnostic| diagnostic@)
}

/// The list with this one warning where `found`, and the empty list otherwise.
pub open spec fn warning_if(found: bool, message: Seq<char>) -> Seq<DiagnosticModel> {
    if found {
        seq![DiagnosticModel { level: DiagnosticLevel::Warning, message }]
    } else {
        seq![]
    }
}

/// The list with this one error where `found`, and the empty list otherwise.
pub open spec fn error_if(found: bool, message: Seq<char>) -> Seq<DiagnosticModel> {
    if found {
        seq![DiagnosticModel { level: DiagnosticLevel::Error, message }]
    } else {
        seq![]
    }
}

/// What is wrong with the Iris source.
pub open spec fn iris_diagnostics(iris: Option<IrisConfigModel>) -> Seq<DiagnosticModel> {
    match iris {
        None => seq![],
        Some(iris) => if !iris.enabled {
            seq![]
        } else if text::is_blank(iris.base_url) {
            error_if(true, "enabled source 'iris' has an empty base_url"@)
        } else {
            match iris.api_token {
                Some(token) => error_if(
                    text::is_blank(token),
                    "enabled source 'iris' has a blank api_token"@,
                ),
                None => warning_if(
                    true,
                    "enabled source 'iris' has no api_token; this only works with unauthenticated Iris"@,
                ),
            }
        },
    }
}

/// What is wrong with the Uptime Kuma source.
pub open spec fn kuma_diagnostics(kuma: Option<KumaModel>) -> Seq<DiagnosticModel> {
    match kuma {
        None => seq![],
        Some(kuma) => error_if(
            kuma.enabled && text::is_blank(kuma.secret),
            "enabled source 'uptime_kuma' has an empty secret"@,
        ),
    }
}

impl ConfigModel {
    /// A source of this ID is configured. GitHub always is.
    pub open spec fn has_source(self, id: Seq<char>) -> bool {
        ||| id == "github"@
        ||| id == "iris"@ && self.iris is Some
        ||| id == "uptime_kuma"@ && self.uptime_kuma is Some
    }
}

/// One of the handlers has this name.
pub open spec fn is_named(handlers: Seq<HandlerModel>, name: Seq<char>) -> bool {
    exists|i: int| 0 <= i < handlers.len() && (#[trigger] handlers[i]).name == name
}

/// What is wrong with a handler that comes after the handlers `earlier`.
pub open spec fn handler_diagnostics(
    config: ConfigModel,
    earlier: Seq<HandlerModel>,
    handler: HandlerModel,
) -> Seq<DiagnosticModel> {
    (match matching::tree(handler.matcher) {
        Ok(_) => seq![],
        Err(reason) => error_if(
            true,
            "handler '"@ + handler.name + "' has an invalid match table: "@ + ErrorModel::Config(
                reason,
            ).message(),
        ),
    }) + error_if(
        !config.has_source(handler.source),
        "handler '"@ + handler.name + "' references unknown source '"@ + handler.source + "'"@,
    ) + error_if(
        is_named(earlier, handler.name),
        "duplicate handler name '"@ + handler.name + "'"@,
    )
}

/// What is wrong with the handlers, in their order.
pub open spec fn handlers_diagnostics(config: ConfigModel, handlers: Seq<HandlerModel>) -> Seq<
    DiagnosticModel,
>
    decreases handlers.len(),
{
    if handlers.len() == 0 {
        seq![]
    } else {
        handlers_diagnostics(config, handlers.drop_last()) + handler_diagnostics(
            config,
            handlers.drop_last(),
            handlers.last(),
        )
    }
}

/// What is wrong with a configuration.
pub open spec fn diagnostics(config: ConfigModel) -> Seq<DiagnosticModel> {
    warning_if(
        config.rites.len() == 0,
        "no handlers configured; Rite will receive events but take no actions"@,
    ) + iris_diagnostics(config.iris) + kuma_diagnostics(config.uptime_kuma)
        + handlers_diagnostics(config, config.rites)
}

/// Appends a diagnostic.
fn report(diagnostics: &mut Vec<Diagnostic>, level: DiagnosticLevel, message: String)
    ensures
        diagnostic_models(final(diagnostics)@) == diagnostic_models(old(diagnostics)@) + seq![
            DiagnosticModel { level, message: message@ },
        ],
{
    let ghost before = diagnostics@;
    diagnostics.push(Diagnostic { level, message });
    assert(diagnostic_models(diagnostics@) =~= diagnostic_models(before) + seq![
        DiagnosticModel { level, message: message@ },
    ]);
}

/// Whether a source of this ID is configured.
fn source_is_configured(config: &RiteConfig, id: &str) -> (yes: bool)
    ensures
        yes == config@.has_source(id@),
{
    text::same(id, "github") || (text::same(id, "iris") && config.sources.iris.is_some()) || (
    text::same(id, "uptime_kuma") && config.sources.uptime_kuma.is_some())
}

/// Whether one of the first `n` handlers has this name.
fn name_is_taken(handlers: &Vec<RiteHandler>, n: usize, name: &str) -> (yes: bool)
    requires
        n <= handlers@.len(),
    ensures
        yes == is_named(handler_models(handlers@).take(n as int), name@),
{
    let ghost earlier = handler_models(handlers@).take(n as int);
    let mut i: usize = 0;
    while i < n
        invariant
            i <= n <= handlers@.len(),
            earlier == handler_models(handlers@).take(n as int),
            forall|j: int| 0 <= j < i ==> (#[trigger] earlier[j]).name != name@,
        decreases n - i,
    {
        assert(earlier[i as int] == handlers@[i as int]@);
        if text::same(handlers[i].name.as_str(), name) {
            return true;
        }
        i += 1;
    }
    false
}

/// Appends what is wrong with the handler at `i`.
fn check_handler(config: &RiteConfig, i: usize, diagnostics: &mut Vec<Diagnostic>)
    requires
        i < config.rites@.len(),
    ensures
        diagnostic_models(final(diagnostics)@) == diagnostic_models(old(diagnostics)@)
            + handler_diagnostics(config@, config@.rites.take(i as int), config@.rites[i as int]),
{
    let handler = &config.rites[i];
    let ghost start = diagnostic_models(diagnostics@);
    let ghost model = handler@;
    let ghost first = match matching::tree(model.matcher) {
        Ok(_) => seq![],
        Err(reason) => error_if(
            true,
            "handler '"@ + model.name + "' has an invalid match table: "@ + ErrorModel::Config(
                reason,
            ).message(),
        ),
    };
    let ghost second = error_if(
        !config@.has_source(model.source),
        "handler '"@ + model.name + "' references unknown source '"@ + model.source + "'"@,
    );
    if let Err(error) = handler.condition_tree() {
        report(
            diagnostics,
            DiagnosticLevel::Error,
            "handler '".to_owned().concat(handler.name.as_str()).concat(
                "' has an invalid match table: ",
            ).concat(error.message().as_str()),
        );
    }
    assert(diagnostic_models(diagnostics@) =~= start + first);
    if !source_is_configured(config, handler.source.as_str()) {
        report(
            diagnostics,
            DiagnosticLevel::Error,
            "handler '".to_owned().concat(handler.name.as_str()).concat(
                "' references unknown source '",
            ).concat(handler.source.as_str()).concat("'"),
        );
    }
    assert(diagnostic_models(diagnostics@) =~= start + first + second);
    if name_is_taken(&config.rites, i, handler.name.as_str()) {
        report(
            diagnostics,
            DiagnosticLevel::Error,
            "duplicate handler name '".to_owned().concat(handler.name.as_str()).concat("'"),
        );
    }
    assert(diagnostic_models(diagnostics@) =~= start + handler_diagnostics(
        config@,
        config@.rites.take(i as int),
        model,
    ));
}

/// Appends what is wrong with the Iris source.
fn check_iris(iris: &Option<IrisConfig>, diagnostics: &mut Vec<Diagnostic>)
    ensures
        diagnostic_models(final(diagnostics)@) == diagnostic_models(old(diagnostics)@)
            + iris_diagnostics(
            match *iris {
                Some(iris) => Some(iris@),
                None => None,
            },
        ),
{
    if let Some(iris) = iris {
        if iris.enabled {
            if text::blank(iris.base_url.as_str()) {
                report(
                    diagnostics,
                    DiagnosticLevel::Error,
                    "enabled source 'iris' has an empty base_url".to_owned(),
                );
            } else {
                match &iris.api_token {
                    Some(token) => if text::blank(token.as_str()) {
                        report(
                            diagnostics,
                            DiagnosticLevel::Error,
                            "enabled source 'iris' has a blank api_token".to_owned(),
                        );
                    },
                    None => {
                        report(
                            diagnostics,
                            DiagnosticLevel::Warning,
                            "enabled source 'iris' has no api_token; this only works with unauthenticated Iris".to_owned(),
                        );
                    },
                }
            }
        }
    }
}

/// Validate configuration without performing network or filesystem I/O.
pub fn validate(config: &RiteConfig) -> (r: Vec<Diagnostic>)
    ensures
        diagnostic_models(r@) == diagnostics(config@),
{
    let mut r: Vec<Diagnostic> = Vec::new();
    assert(diagnostic_models(r@) =~= seq![]);
    if config.rites.len() == 0 {
        report(
            &mut r,
            DiagnosticLevel::Warning,
            "no handlers configured; Rite will receive events but take no actions".to_owned(),
        );
    }
    check_iris(&config.sources.iris, &mut r);
    if let Some(kuma) = &config.sources.uptime_kuma {
        if kuma.enabled && text::blank(kuma.secret.as_str()) {
            report(
                &mut r,
                DiagnosticLevel::Error,
                "enabled source 'uptime_kuma' has an empty secret".to_owned(),
            );
        }
    }
    let ghost start = diagnostic_models(r@);
    let ghost model = config@;
    assert(start =~= warning_if(
        model.rites.len() == 0,
        "no handlers configured; Rite will receive events but take no actions"@,
    ) + iris_diagnostics(model.iris) + kuma_diagnostics(model.uptime_kuma));
    let mut i: usize = 0;
    assert(model.rites.take(0) =~= seq![]);
    while i < config.rites.len()
        invariant
            model == config@,
            i <= config.rites@.len(),
            diagnostic_models(r@) == start + handlers_diagnostics(
                model,
                model.rites.take(i as int),
            ),
        decreases config.rites@.len() - i,
    {
        let ghost before = diagnostic_models(r@);
        assert(model.rites.take(i + 1).drop_last() =~= model.rites.take(i as int));
        check_handler(config, i, &mut r);
        assert(diagnostic_models(r@) =~= start + handlers_diagnostics(
            model,
            model.rites.take(i + 1),
        ));
        i += 1;
    }
    assert(model.rites.take(i as int) =~= model.rites);
    r
}

/// A diagnostic of the list forbids serving.
pub open spec fn forbids_serving(diagnostics: Seq<DiagnosticModel>) -> bool {
    exists|i: int|
        0 <= i < diagnostics.len() && (#[trigger] diagnostics[i]).level == DiagnosticLevel::Error
}

/// Whether a diagnostic of the list forbids serving.
pub fn has_errors(diagnostics: &Vec<Diagnostic>) -> (yes: bool)
    ensures
        yes == forbids_serving(diagnostic_models(diagnostics@)),
{
    let ghost models = diagnostic_models(diagnostics@);
    let mut i: usize = 0;
    while i < diagnostics.len()
        invariant
            models == diagnostic_models(diagnostics@),
            i <= diagnostics@.len(),
            forall|j: int|
                0 <= j < i ==> (#[trigger] models[j]).level != DiagnosticLevel::Error,
        decreases diagnostics@.len() - i,
    {
        assert(models[i as int] == diagnostics@[i as int]@);
        if diagnostics[i].level == DiagnosticLevel::Error {
            return true;
        }
        i += 1;
    }
    false
}

/// How many sources are configured. GitHub always is.
pub open spec fn source_count(config: ConfigModel) -> nat {
    1 + (if config.iris is Some {
        1nat
    } else {
        0
    }) + (if config.uptime_kuma is Some {
        1nat
    } else {
        0
    })
}

/// How many sources are enabled. GitHub always is.
pub open spec fn enabled_count(config: ConfigModel) -> nat {
    1 + (if config.iris is Some && config.iris->0.enabled {
        1nat
    } else {
        0
    }) + (if config.uptime_kuma is Some && config.uptime_kuma->0.enabled {
        1nat
    } else {
        0
    })
}

/// The inventory of a configuration.
pub open spec fn summary(config: ConfigModel) -> Seq<char> {
    "rite: "@ + text::numeral(source_count(config)) + " sources ("@ + text::numeral(
        enabled_count(config),
    ) + " enabled), "@ + text::numeral(config.rites.len()) + " handlers loaded"@
}

/// A secret-free configuration inventory for startup logs.
pub fn startup_summary(config: &RiteConfig) -> (r: String)
    ensures
        r@ == summary(config@),
{
    let mut sources: u64 = 1;
    let mut enabled: u64 = 1;
    if let Some(iris) = &config.sources.iris {
        sources += 1;
        if iris.enabled {
            enabled += 1;
        }
    }
    if let Some(kuma) = &config.sources.uptime_kuma {
        sources += 1;
        if kuma.enabled {
            enabled += 1;
        }
    }
    "rite: ".to_owned().concat(text::decimal(sources).as_str()).concat(" sources (").concat(
        text::decimal(enabled).as_str(),
    ).concat(" enabled), ").concat(text::decimal(config.rites.len() as u64).as_str()).concat(
        " handlers loaded",
    )
}

/// A configuration-load failure safe to display in CLI output and logs.
///
/// Parser errors can retain a copy of their complete source document. This type
/// deliberately retains only a matcher diagnostic or a generic parse/type error.
#[derive(Debug, PartialEq, Eq)]
pub struct ConfigLoadError(String);

impl View for ConfigLoadError {
    type V = Seq<char>;

    closed spec fn view(&self) -> Seq<char> {
        self.0@
    }
}

impl Clone for ConfigLoadError {
    fn clone(&self) -> (r: ConfigLoadError)
        ensures
            r@ == self@,
    {
        ConfigLoadError(self.0.clone())
    }
}

/// What is kept of a load error: the diagnostic of a match table, or a generic
/// text.
pub open spec fn safe_reason(message: Seq<char>) -> Seq<char> {
    match text::stripped_prefix(message, MATCH_VALIDATION_ERROR_PREFIX@) {
        Some(diagnostic) => diagnostic,
        None => "configuration syntax or value type is invalid"@,
    }
}

impl ConfigLoadError {
    /// What may be shown of a parser's error message.
    pub fn from_message(message: &str) -> (r: ConfigLoadError)
        ensures
            r@ == safe_reason(message@),
    {
        match text::strip_prefix(message, MATCH_VALIDATION_ERROR_PREFIX) {
            Some(diagnostic) => ConfigLoadError(diagnostic),
            None => ConfigLoadError("configuration syntax or value type is invalid".to_owned()),
        }
    }

    /// The error as it is shown to people.
    pub fn message(&self) -> (r: String)
        ensures
            r@ == "invalid Rite configuration: "@ + self@,
    {
        "invalid Rite configuration: ".to_owned().concat(self.0.as_str())
    }
}

/// A match table that may be loaded, or the load error of a malformed one.
pub fn validated_matcher(map: Table<MatchValue>) -> (r: Result<Table<MatchValue>, String>)
    ensures
        match r {
            Ok(kept) => kept == map && matching::tree(matching::entries_model(map)) is Ok,
            Err(message) => matching::tree(matching::entries_model(map)) matches Err(reason)
                && message@ == MATCH_VALIDATION_ERROR_PREFIX@ + ErrorModel::Config(
                reason,
            ).message(),
        },
{
    match RiteHandler::tree_from_map(&map) {
        Ok(_) => Ok(map),
        Err(error) => Err(
            MATCH_VALIDATION_ERROR_PREFIX.to_owned().concat(error.message().as_str()),
        ),
    }
}

impl HandlerModel {
    /// The handler's match table is accepted and its source is configured.
    pub open spec fn is_usable(self, config: ConfigModel) -> bool {
        matching::tree(self.matcher) is Ok && config.has_source(self.source)
    }
}

/// The configuration can be served: enabled sources have what they need, every
/// handler is usable, and no two handlers share a name.
pub open spec fn is_servable(config: ConfigModel) -> bool {
    &&& match config.iris {
        Some(iris) => iris.enabled ==> !text::is_blank(iris.base_url) && match iris.api_token {
            Some(token) => !text::is_blank(token),
            None => true,
        },
        None => true,
    }
    &&& match config.uptime_kuma {
        Some(kuma) => kuma.enabled ==> !text::is_blank(kuma.secret),
        None => true,
    }
    &&& forall|i: int|
        0 <= i < config.rites.len() ==> (#[trigger] config.rites[i]).is_usable(config)
    &&& forall|i: int, j: int|
        0 <= i < j < config.rites.len() ==> (#[trigger] config.rites[i]).name != (
        #[trigger] config.rites[j]).name
}

/// Two lists together forbid serving exactly when one of them does.
pub proof fn forbids_serving_of_more(first: Seq<DiagnosticModel>, second: Seq<DiagnosticModel>)
    ensures
        forbids_serving(first + second) <==> forbids_serving(first) || forbids_serving(second),
{
    let both = first + second;
    if forbids_serving(first) {
        let i = choose|i: int|
            0 <= i < first.len() && (#[trigger] first[i]).level == DiagnosticLevel::Error;
        assert(both[i] == first[i]);
    }
    if forbids_serving(second) {
        let i = choose|i: int|
            0 <= i < second.len() && (#[trigger] second[i]).level == DiagnosticLevel::Error;
        assert(both[first.len() + i] == second[i]);
    }
}

proof fn forbids_serving_of_one(found: bool, message: Seq<char>)
    ensures
        forbids_serving(error_if(found, message)) == found,
        !forbids_serving(warning_if(found, message)),
{
    if found {
        assert(error_if(found, message)[0].level == DiagnosticLevel::Error);
    }
}

proof fn handler_forbids_serving(
    config: ConfigModel,
    earlier: Seq<HandlerModel>,
    handler: HandlerModel,
)
    ensures
        forbids_serving(handler_diagnostics(config, earlier, handler)) <==> !handler.is_usable(
            config,
        ) || is_named(earlier, handler.name),
{
    let first = match matching::tree(handler.matcher) {
        Ok(_) => seq![],
        Err(reason) => error_if(
            true,
            "handler '"@ + handler.name + "' has an invalid match table: "@ + ErrorModel::Config(
                reason,
            ).message(),
        ),
    };
    let unknown = "handler '"@ + handler.name + "' references unknown source '"@ + handler.source
        + "'"@;
    let twice = "duplicate handler name '"@ + handler.name + "'"@;
    let second = error_if(!config.has_source(handler.source), unknown);
    let third = error_if(is_named(earlier, handler.name), twice);
    forbids_serving_of_more(first, second);
    forbids_serving_of_more(first + second, third);
    forbids_serving_of_one(!config.has_source(handler.source), unknown);
    forbids_serving_of_one(is_named(earlier, handler.name), twice);
    if let Err(reason) = matching::tree(handler.matcher) {
        forbids_serving_of_one(
            true,
            "handler '"@ + handler.name + "' has an invalid match table: "@ + ErrorModel::Config(
                reason,
            ).message(),
        );
    }
}

proof fn handlers_forbid_serving(config: ConfigModel, handlers: Seq<HandlerModel>)
    ensures
        forbids_serving(handlers_diagnostics(config, handlers)) <==> !((forall|i: int|
            0 <= i < handlers.len() ==> (#[trigger] handlers[i]).is_usable(config)) && (forall|
            i: int,
            j: int,
        |
            0 <= i < j < handlers.len() ==> (#[trigger] handlers[i]).name != (
            #[trigger] handlers[j]).name)),
    decreases handlers.len(),
{
    if handlers.len() > 0 {
        let earlier = handlers.drop_last();
        let last = handlers.last();
        let n = earlier.len() as int;
        handlers_forbid_serving(config, earlier);
        handler_forbids_serving(config, earlier, last);
        forbids_serving_of_more(
            handlers_diagnostics(config, earlier),
            handler_diagnostics(config, earlier, last),
        );
        assert forall|i: int| 0 <= i < n implies #[trigger] earlier[i] == handlers[i] by {}
        assert(handlers[n] == last);
        let usable = forall|i: int|
            0 <= i < handlers.len() ==> (#[trigger] handlers[i]).is_usable(config);
        let distinct = forall|i: int, j: int|
            0 <= i < j < handlers.len() ==> (#[trigger] handlers[i]).name != (
            #[trigger] handlers[j]).name;
        if forbids_serving(handlers_diagnostics(config, earlier)) {
            if usable {
                assert forall|i: int| 0 <= i < n implies (#[trigger] earlier[i]).is_usable(
                    config,
                ) by {
                    assert(handlers[i].is_usable(config));
                }
            }
            if distinct {
                assert forall|i: int, j: int| 0 <= i < j < n implies (#[trigger] earlier[i]).name
                    != (#[trigger] earlier[j]).name by {
                    assert(handlers[i].name != handlers[j].name);
                }
            }
        }
        if is_named(earlier, last.name) {
            let i = choose|i: int|
                0 <= i < earlier.len() && (#[trigger] earlier[i]).name == last.name;
            assert(handlers[i].name == handlers[n].name);
        }
        if !forbids_serving(handlers_diagnostics(config, handlers)) {
            assert forall|i: int| 0 <= i < handlers.len() implies (
            #[trigger] handlers[i]).is_usable(config) by {
                if i < n {
                    assert(earlier[i].is_usable(config));
                }
            }
            assert forall|i: int, j: int| 0 <= i < j < handlers.len() implies (
            #[trigger] handlers[i]).name != (#[trigger] handlers[j]).name by {
                if j < n {
                    assert(earlier[i].name != earlier[j].name);
                } else {
                    assert(earlier[i].name != last.name);
                }
            }
        }
    }
}

/// Validation finds an error exactly in the configurations that cannot be served.
pub proof fn validation_decides(config: ConfigModel)
    ensures
        forbids_serving(diagnostics(config)) <==> !is_servable(config),
{
    let idle = "no handlers configured; Rite will receive events but take no actions"@;
    let first = warning_if(config.rites.len() == 0, idle);
    let second = iris_diagnostics(config.iris);
    let third = kuma_diagnostics(config.uptime_kuma);
    let fourth = handlers_diagnostics(config, config.rites);
    forbids_serving_of_more(first, second);
    forbids_serving_of_more(first + second, third);
    forbids_serving_of_more(first + second + third, fourth);
    forbids_serving_of_one(config.rites.len() == 0, idle);
    handlers_forbid_serving(config, config.rites);
    if let Some(iris) = config.iris {
        forbids_serving_of_one(true, "enabled source 'iris' has an empty base_url"@);
        forbids_serving_of_one(
            true,
            "enabled source 'iris' has no api_token; this only works with unauthenticated Iris"@,
        );
        if let Some(token) = iris.api_token {
            forbids_serving_of_one(
                text::is_blank(token),
                "enabled source 'iris' has a blank api_token"@,
            );
        }
    }
    if let Some(kuma) = config.uptime_kuma {
        forbids_serving_of_one(
            kuma.enabled && text::is_blank(kuma.secret),
            "enabled source 'uptime_kuma' has an empty secret"@,
        );
    }
}

/// The two handlers have the same name and source, and match tables that differ
/// in nothing but scalars. Their actions may be any.
pub open spec fn alike_but_values(a: HandlerModel, b: HandlerModel) -> bool {
    &&& a.name == b.name
    &&& a.source == b.source
    &&& matching::blanked_entries(a.matcher) == matching::blanked_entries(b.matcher)
}

/// The two configurations are alike but for secrets and values: handlers may
/// differ in their actions and in the scalars they match, and a secret or token
/// may be another, as long as both are blank or neither is.
pub open spec fn differ_in_secrets(a: ConfigModel, b: ConfigModel) -> bool {
    &&& a.rites.len() == b.rites.len()
    &&& forall|i: int|
        0 <= i < a.rites.len() ==> alike_but_values(#[trigger] a.rites[i], b.rites[i])
    &&& match (a.iris, b.iris) {
        (Some(x), Some(y)) => {
            &&& x.enabled == y.enabled
            &&& text::is_blank(x.base_url) == text::is_blank(y.base_url)
            &&& match (x.api_token, y.api_token) {
                (Some(s), Some(t)) => text::is_blank(s) == text::is_blank(t),
                (None, None) => true,
                _ => false,
            }
        },
        (None, None) => true,
        _ => false,
    }
    &&& match (a.uptime_kuma, b.uptime_kuma) {
        (Some(x), Some(y)) => x.enabled == y.enabled && text::is_blank(x.secret)
            == text::is_blank(y.secret),
        (None, None) => true,
        _ => false,
    }
}

/// Neither the diagnostics nor the startup summary tell anything of a secret or a
/// base URL but whether it is blank, and nothing of an action's URL, headers and
/// template or of the scalars in a match table.
pub proof fn secrets_stay_hidden(a: ConfigModel, b: ConfigModel)
    requires
        differ_in_secrets(a, b),
    ensures
        diagnostics(a) == diagnostics(b),
        summary(a) == summary(b),
{
    handlers_diagnostics_hide_values(a, b, a.rites, b.rites);
}

proof fn handlers_diagnostics_hide_values(
    a: ConfigModel,
    b: ConfigModel,
    handlers: Seq<HandlerModel>,
    others: Seq<HandlerModel>,
)
    requires
        (a.iris is Some) == (b.iris is Some),
        (a.uptime_kuma is Some) == (b.uptime_kuma is Some),
        handlers.len() == others.len(),
        forall|i: int|
            0 <= i < handlers.len() ==> alike_but_values(#[trigger] handlers[i], others[i]),
    ensures
        handlers_diagnostics(a, handlers) == handlers_diagnostics(b, others),
    decreases handlers.len(),
{
    if handlers.len() > 0 {
        let earlier = handlers.drop_last();
        let earlier_others = others.drop_last();
        let n = earlier.len() as int;
        let (handler, other) = (handlers.last(), others.last());
        assert(alike_but_values(handlers[n], others[n]));
        assert forall|i: int| 0 <= i < n implies alike_but_values(
            #[trigger] earlier[i],
            earlier_others[i],
        ) by {
            assert(alike_but_values(handlers[i], others[i]));
        }
        handlers_diagnostics_hide_values(a, b, earlier, earlier_others);
        matching::refusal_hides_values(handler.matcher);
        matching::refusal_hides_values(other.matcher);
        assert(is_named(earlier, handler.name) == is_named(earlier_others, handler.name)) by {
            if is_named(earlier, handler.name) {
                let i = choose|i: int|
                    0 <= i < earlier.len() && (#[trigger] earlier[i]).name == handler.name;
                assert(earlier_others[i].name == handler.name);
            }
            if is_named(earlier_others, handler.name) {
                let i = choose|i: int|
                    0 <= i < earlier_others.len() && (#[trigger] earlier_others[i]).name
                        == handler.name;
                assert(alike_but_values(earlier[i], earlier_others[i]));
            }
        }
    }
}

/// Of an error that is not a match table's, nothing of the parser's message is
/// kept.
pub proof fn parser_messages_are_dropped(message: Seq<char>)
    requires
        text::stripped_prefix(message, MATCH_VALIDATION_ERROR_PREFIX@) is None,
    ensures
        safe_reason(message) == "configuration syntax or value type is invalid"@,
{
}

/// Of a match table's error, the diagnostic is kept whole.
pub proof fn match_diagnostics_are_kept(diagnostic: Seq<char>)
    ensures
        safe_reason(MATCH_VALIDATION_ERROR_PREFIX@ + diagnostic) == diagnostic,
{
    let message = MATCH_VALIDATION_ERROR_PREFIX@ + diagnostic;
    let n = MATCH_VALIDATION_ERROR_PREFIX@.len() as int;
    assert(message.subrange(0, n) =~= MATCH_VALIDATION_ERROR_PREFIX@);
    assert(message.subrange(n, message.len() as int) =~= diagnostic);
}

/// The source that handlers may name: GitHub always, Iris where the configuration
/// has a section for it, Uptime Kuma where it has one for that, and no other.
pub proof fn known_sources(config: ConfigModel, id: Seq<char>)
    ensures
        config.has_source("github"@),
        config.has_source("iris"@) <==> config.iris is Some,
        config.has_source("uptime_kuma"@) <==> config.uptime_kuma is Some,
        id != "github"@ && id != "iris"@ && id != "uptime_kuma"@ ==> !config.has_source(id),
{
    reveal_strlit("github");
    reveal_strlit("iris");
    reveal_strlit("uptime_kuma");
    assert("github"@.len() == 6 && "iris"@.len() == 4 && "uptime_kuma"@.len() == 11);
}

/// The one error with this message.
pub open spec fn sole_error(message: Seq<char>) -> Seq<DiagnosticModel> {
    seq![DiagnosticModel { level: DiagnosticLevel::Error, message }]
}

/// A handler is reported for a match table that is refused, for a source that is
/// neither `github` nor a configured `iris` or `uptime_kuma`, and for a name that an
/// earlier handler has; each with its own error, in this order, and for nothing
/// else.
pub proof fn handler_findings(
    config: ConfigModel,
    earlier: Seq<HandlerModel>,
    handler: HandlerModel,
)
    ensures
        ({
            let found = handler_diagnostics(config, earlier, handler);
            let known = handler.source == "github"@ || (handler.source == "iris"@
                && config.iris is Some) || (handler.source == "uptime_kuma"@
                && config.uptime_kuma is Some);
            let taken = exists|i: int|
                0 <= i < earlier.len() && (#[trigger] earlier[i]).name == handler.name;
            let refused = match matching::tree(handler.matcher) {
                Ok(_) => Seq::<DiagnosticModel>::empty(),
                Err(reason) => sole_error(
                    "handler '"@ + handler.name + "' has an invalid match table: "@
                        + "configuration error: "@ + reason,
                ),
            };
            let unknown = sole_error(
                "handler '"@ + handler.name + "' references unknown source '"@ + handler.source
                    + "'"@,
            );
            let twice = sole_error("duplicate handler name '"@ + handler.name + "'"@);
            &&& known && !taken ==> found == refused
            &&& !known && !taken ==> found == refused + unknown
            &&& known && taken ==> found == refused + twice
            &&& !known && taken ==> found == refused + unknown + twice
        }),
{
    let none = Seq::<DiagnosticModel>::empty();
    if let Err(reason) = matching::tree(handler.matcher) {
        assert("handler '"@ + handler.name + "' has an invalid match table: "@ + (
        "configuration error: "@ + reason) =~= "handler '"@ + handler.name
            + "' has an invalid match table: "@ + "configuration error: "@ + reason);
    }
    let refused = match matching::tree(handler.matcher) {
        Ok(_) => Seq::<DiagnosticModel>::empty(),
        Err(reason) => sole_error(
            "handler '"@ + handler.name + "' has an invalid match table: "@
                + "configuration error: "@ + reason,
        ),
    };
    assert(refused + none =~= refused);
    assert(is_named(earlier, handler.name) == exists|i: int|
        0 <= i < earlier.len() && (#[trigger] earlier[i]).name == handler.name);
    let unknown = error_if(
        !config.has_source(handler.source),
        "handler '"@ + handler.name + "' references unknown source '"@ + handler.source + "'"@,
    );
    assert(refused + unknown + none =~= refused + unknown);
}

proof fn handlers_diagnostics_by_sources(
    a: ConfigModel,
    b: ConfigModel,
    handlers: Seq<HandlerModel>,
)
    requires
        (a.iris is Some) == (b.iris is Some),
        (a.uptime_kuma is Some) == (b.uptime_kuma is Some),
    ensures
        handlers_diagnostics(a, handlers) == handlers_diagnostics(b, handlers),
    decreases handlers.len(),
{
    if handlers.len() > 0 {
        handlers_diagnostics_by_sources(a, b, handlers.drop_last());
    }
}

/// The configuration with these handlers.
pub open spec fn with_handlers(config: ConfigModel, rites: Seq<HandlerModel>) -> ConfigModel {
    ConfigModel { rites, iris: config.iris, uptime_kuma: config.uptime_kuma }
}

/// Validation goes through the handlers in their order: one more handler adds what
/// is found of it behind all else and changes nothing before. Without handlers, the
/// idle warning comes first.
pub proof fn findings_come_handler_by_handler(config: ConfigModel, handler: HandlerModel)
    ensures
        config.rites.len() > 0 ==> diagnostics(with_handlers(config, config.rites.push(handler)))
            == diagnostics(config) + handler_diagnostics(config, config.rites, handler),
        config.rites.len() == 0 ==> diagnostics(config) == seq![
            DiagnosticModel {
                level: DiagnosticLevel::Warning,
                message: "no handlers configured; Rite will receive events but take no actions"@,
            },
        ] + iris_diagnostics(config.iris) + kuma_diagnostics(config.uptime_kuma),
        config.rites.len() == 0 ==> diagnostics(with_handlers(config, seq![handler]))
            == iris_diagnostics(config.iris) + kuma_diagnostics(config.uptime_kuma)
            + handler_diagnostics(config, seq![], handler),
{
    let more = with_handlers(config, config.rites.push(handler));
    assert(more.rites.drop_last() =~= config.rites);
    handlers_diagnostics_by_sources(more, config, config.rites);
    assert(handler_diagnostics(more, config.rites, handler) == handler_diagnostics(
        config,
        config.rites,
        handler,
    ));
    if config.rites.len() > 0 {
        assert(diagnostics(more) =~= diagnostics(config) + handler_diagnostics(
            config,
            config.rites,
            handler,
        ));
    } else {
        assert(diagnostics(config) =~= seq![
            DiagnosticModel {
                level: DiagnosticLevel::Warning,
                message: "no handlers configured; Rite will receive events but take no actions"@,
            },
        ] + iris_diagnostics(config.iris) + kuma_diagnostics(config.uptime_kuma));
        let one = with_handlers(config, seq![handler]);
        assert(one.rites.drop_last() =~= seq![]);
        assert(handlers_diagnostics(one, one.rites.drop_last()) =~= seq![]);
        assert(handlers_diagnostics(one, one.rites) =~= handler_diagnostics(one, seq![], handler));
        assert(handler_diagnostics(one, seq![], handler) == handler_diagnostics(
            config,
            seq![],
            handler,
        ));
        assert(diagnostics(one) =~= iris_diagnostics(config.iris) + kuma_diagnostics(
            config.uptime_kuma,
        ) + handler_diagnostics(config, seq![], handler));
    }
}

/// An enabled Iris source needs a base URL and, if a token is given, one that is not
/// blank; without a token there is a warning. An enabled Uptime Kuma source needs a
/// secret. A source that is not enabled is not looked at.
pub proof fn source_findings(iris: IrisConfigModel, kuma: KumaModel)
    ensures
        !iris.enabled ==> iris_diagnostics(Some(iris)).len() == 0,
        iris_diagnostics(None).len() == 0,
        iris.enabled && text::all_space(iris.base_url) ==> iris_diagnostics(Some(iris))
            == sole_error("enabled source 'iris' has an empty base_url"@),
        iris.enabled && !text::all_space(iris.base_url) ==> match iris.api_token {
            None => iris_diagnostics(Some(iris)) == seq![
                DiagnosticModel {
                    level: DiagnosticLevel::Warning,
                    message:
                        "enabled source 'iris' has no api_token; this only works with unauthenticated Iris"@,
                },
            ],
            Some(token) => if text::all_space(token) {
                iris_diagnostics(Some(iris)) == sole_error(
                    "enabled source 'iris' has a blank api_token"@,
                )
            } else {
                iris_diagnostics(Some(iris)).len() == 0
            },
        },
        kuma_diagnostics(None).len() == 0,
        kuma_diagnostics(Some(kuma)) == if kuma.enabled && text::all_space(kuma.secret) {
            sole_error("enabled source 'uptime_kuma' has an empty secret"@)
        } else {
            Seq::empty()
        },
{
    text::blank_is_all_space(iris.base_url);
    text::blank_is_all_space(kuma.secret);
    if let Some(token) = iris.api_token {
        text::blank_is_all_space(token);
    }
}

/// The configuration has handlers of known sources with accepted match tables and
/// different names, and its enabled sources have what they need.
pub open spec fn is_sound(config: ConfigModel) -> bool {
    &&& config.iris matches Some(iris) ==> iris.enabled ==> !text::all_space(iris.base_url) && (
    iris.api_token matches Some(token) ==> !text::all_space(token))
    &&& config.uptime_kuma matches Some(kuma) ==> kuma.enabled ==> !text::all_space(kuma.secret)
    &&& forall|i: int|
        0 <= i < config.rites.len() ==> matching::tree((#[trigger] config.rites[i]).matcher) is Ok
    &&& forall|i: int|
        0 <= i < config.rites.len() ==> (#[trigger] config.rites[i]).source == "github"@ || (
        config.rites[i].source == "iris"@ && config.iris is Some) || (config.rites[i].source
            == "uptime_kuma"@ && config.uptime_kuma is Some)
    &&& forall|i: int, j: int|
        0 <= i < j < config.rites.len() ==> (#[trigger] config.rites[i]).name != (
        #[trigger] config.rites[j]).name
}

/// A configuration has a diagnostic that forbids serving exactly when it is not
/// sound.
pub proof fn sound_configurations_are_served(config: ConfigModel)
    ensures
        (exists|i: int|
            0 <= i < diagnostics(config).len() && (#[trigger] diagnostics(config)[i]).level
                == DiagnosticLevel::Error) <==> !is_sound(config),
        forbids_serving(diagnostics(config)) <==> !is_sound(config),
{
    validation_decides(config);
    if let Some(iris) = config.iris {
        text::blank_is_all_space(iris.base_url);
        if let Some(token) = iris.api_token {
            text::blank_is_all_space(token);
        }
    }
    if let Some(kuma) = config.uptime_kuma {
        text::blank_is_all_space(kuma.secret);
    }
    assert(is_servable(config) <==> is_sound(config)) by {
        if is_servable(config) {
            assert forall|i: int| 0 <= i < config.rites.len() implies matching::tree(
                (#[trigger] config.rites[i]).matcher,
            ) is Ok && config.has_source(config.rites[i].source) by {
                assert(config.rites[i].is_usable(config));
            }
        }
    }
}

/// The summary counts GitHub and the configured sources, GitHub and the enabled
/// ones, and the handlers.
pub proof fn summary_counts(config: ConfigModel)
    ensures
        exists|sources: nat, enabled: nat|
            {
                &&& sources == (match (config.iris, config.uptime_kuma) {
                    (Some(_), Some(_)) => 3nat,
                    (None, None) => 1,
                    _ => 2,
                })
                &&& enabled == (match (config.iris, config.uptime_kuma) {
                    (Some(iris), Some(kuma)) => if iris.enabled && kuma.enabled {
                        3nat
                    } else if iris.enabled || kuma.enabled {
                        2
                    } else {
                        1
                    },
                    (Some(iris), None) => if iris.enabled {
                        2
                    } else {
                        1
                    },
                    (None, Some(kuma)) => if kuma.enabled {
                        2
                    } else {
                        1
                    },
                    (None, None) => 1,
                })
                &&& summary(config) == "rite: "@ + #[trigger] text::numeral(sources) + " sources ("@
                    + #[trigger] text::numeral(enabled) + " enabled), "@ + text::numeral(
                    config.rites.len(),
                ) + " handlers loaded"@
            },
{
    let sources = source_count(config);
    let enabled = enabled_count(config);
    assert(summary(config) == "rite: "@ + text::numeral(sources) + " sources ("@ + text::numeral(
        enabled,
    ) + " enabled), "@ + text::numeral(config.rites.len()) + " handlers loaded"@);
}

/// Of a load error, what stands behind the prefix of match tables is kept, and of
/// any other nothing but that it is one.
pub proof fn load_errors_are_safe(message: Seq<char>, diagnostic: Seq<char>)
    ensures
        safe_reason("invalid match table: "@ + diagnostic) == diagnostic,
        !"invalid match table: "@.is_prefix_of(message) ==> safe_reason(message)
            == "configuration syntax or value type is invalid"@,
{
    match_diagnostics_are_kept(diagnostic);
    text::prefix_and_rest(message, MATCH_VALIDATION_ERROR_PREFIX@, diagnostic);
}

/// A configuration is seen whole.
pub proof fn configurations_are_seen_whole(config: RiteConfig, diagnostic: Diagnostic)
    ensures
        config@.rites.len() == config.rites@.len(),
        forall|i: int|
            0 <= i < config.rites@.len() ==> #[trigger] config@.rites[i] == config.rites@[i]@,
        match config.sources.iris {
            Some(iris) => {
                &&& config@.iris is Some
                &&& config@.iris->0.enabled == iris.enabled
                &&& config@.iris->0.base_url == iris.base_url@
                &&& config@.iris->0.api_token == match iris.api_token {
                    Some(token) => Some(token@),
                    None => None,
                }
            },
            None => config@.iris is None,
        },
        match config.sources.uptime_kuma {
            Some(kuma) => {
                &&& config@.uptime_kuma is Some
                &&& config@.uptime_kuma->0.enabled == kuma.enabled
                &&& config@.uptime_kuma->0.secret == kuma.secret@
            },
            None => config@.uptime_kuma is None,
        },
        diagnostic@.level == diagnostic.level,
        diagnostic@.message == diagnostic.message@,
{
}

/// Diagnostics are seen one by one, in their order.
pub proof fn diagnostics_are_seen_one_by_one(list: Seq<Diagnostic>)
    ensures
        diagnostic_models(list).len() == list.len(),
        forall|i: int|
            0 <= i < list.len() ==> #[trigger] diagnostic_models(list)[i] == (DiagnosticModel {
                level: list[i].level,
                message: list[i].message@,
            }),
{
}

/// An error forbids serving, a warning does not, and neither does an empty list.
pub proof fn errors_alone_forbid_serving(message: Seq<char>)
    ensures
        !forbids_serving(Seq::empty()),
        forbids_serving(seq![DiagnosticModel { level: DiagnosticLevel::Error, message }]),
        !forbids_serving(seq![DiagnosticModel { level: DiagnosticLevel::Warning, message }]),
{
    let error = seq![DiagnosticModel { level: DiagnosticLevel::Error, message }];
    assert(error[0].level == DiagnosticLevel::Error);
}

} // verus!
