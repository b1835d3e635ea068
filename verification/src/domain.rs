//! The greeting domain: application state, a pluggable greeting engine,
//! and the response builder the RPC layer uses.
//!
//! The greeting engine and the metrics sink are the two seams a host
//! application implements; the static engine is the built-in
//! implementation that prefixes a greeting and rejects blank names.

use std::sync::Arc;

use vstd::prelude::*;
use vstd::string::StrSliceExecFns;
use vstd::string::StringExecFns;

verus! {

/// The result of a domain operation.
pub type AlloyResult<T> = Result<T, AlloyError>;

/// A domain failure: invalid caller input, or an unexpected internal
/// failure.
#[derive(Debug, Clone)]
pub enum AlloyError {
    Validation(String),
    Internal(String),
}

/// Model of a domain failure.
pub ghost enum AlloyErrorModel {
    Validation(Seq<char>),
    Internal(Seq<char>),
}

impl View for AlloyError {
    type V = AlloyErrorModel;

    open spec fn view(&self) -> AlloyErrorModel {
        match self {
            AlloyError::Validation(m) => AlloyErrorModel::Validation(m@),
            AlloyError::Internal(m) => AlloyErrorModel::Internal(m@),
        }
    }
}

impl AlloyError {
    /// The failure rendered for a log or an error response.
    pub fn message(&self) -> (r: String)
        ensures
            match self@ {
                AlloyErrorModel::Validation(m) => r@ == "validation error: "@ + m,
                AlloyErrorModel::Internal(m) => r@ == "internal error: "@ + m,
            },
    {
        match self {
            AlloyError::Validation(m) => {
                let mut s = String::from_str("validation error: ");
                s.append(m.as_str());
                s
            },
            AlloyError::Internal(m) => {
                let mut s = String::from_str("internal error: ");
                s.append(m.as_str());
                s
            },
        }
    }
}

/// Whether a character has the Unicode white-space property, the set the
/// standard library's trimming goes by.
pub open spec fn is_ws_char(c: char) -> bool {
    let u = c as u32;
    (9 <= u <= 13)  // tab through carriage return
     || u == 32  // space
     || u == 0x85  // next line
     || u == 0xA0  // no-break space
     || u == 0x1680  // ogham space mark
     || (0x2000 <= u <= 0x200A)  // en quad through hair space
     || u == 0x2028  // line separator
     || u == 0x2029  // paragraph separator
     || u == 0x202F  // narrow no-break space
     || u == 0x205F  // medium mathematical space
     || u == 0x3000  // ideographic space
}

/// Whether a string holds nothing but white space.
pub open spec fn is_blank(s: Seq<char>) -> bool {
    forall|i: int| 0 <= i < s.len() ==> is_ws_char(#[trigger] s[i])
}

/// Decides the white-space property of one character.
pub fn ws_char(c: char) -> (r: bool)
    ensures
        r == is_ws_char(c),
{
    let u = c as u32;
    (9 <= u && u <= 13) || u == 32 || u == 0x85 || u == 0xA0 || u == 0x1680 || (0x2000 <= u && u
        <= 0x200A) || u == 0x2028 || u == 0x2029 || u == 0x202F || u == 0x205F || u == 0x3000
}

/// Decides whether a string holds nothing but white space.
pub fn str_is_blank(s: &str) -> (r: bool)
    ensures
        r == is_blank(s@),
{
    let n = s.unicode_len();
    let mut i: usize = 0;
    while i < n
        invariant
            n == s@.len(),
            i <= n,
            forall|j: int| 0 <= j < i ==> is_ws_char(#[trigger] s@[j]),
        decreases n - i,
    {
        if !ws_char(s.get_char(i)) {
            return false;
        }
        i += 1;
    }
    true
}

/// How the application identifies itself.
#[derive(Debug, Clone)]
pub struct AppConfig {
    pub service_name: String,
    pub environment: String,
}

impl AppConfig {
    /// A configuration for local development.
    pub fn local(service_name: &str) -> (r: AppConfig)
        ensures
            r.service_name@ == service_name@,
            r.environment@ == "local"@,
    {
        AppConfig { service_name: service_name.to_owned(), environment: String::from_str("local") }
    }
}

/// Produces a greeting for a caller-supplied name, or rejects it.
pub trait GreetingEngine: Send + Sync {
    /// What this engine returns for each name.
    spec fn greet_spec(&self, name: Seq<char>) -> Result<Seq<char>, AlloyErrorModel>;

    /// Greets a name.
    fn greet(&self, name: &str) -> (r: AlloyResult<String>)
        ensures
            match (r, self.greet_spec(name@)) {
                (Ok(s), Ok(m)) => s@ == m,
                (Err(e), Err(m)) => e@ == m,
                _ => false,
            },
    ;
}

/// Receives operational counters.
pub trait MetricsSink: Send + Sync {
    /// Counts one occurrence of a named event.
    fn incr_counter(&self, name: &str);
}

/// A metrics sink that drops every counter.
#[derive(Debug, Default)]
pub struct NoopMetrics;

impl MetricsSink for NoopMetrics {
    fn incr_counter(&self, _name: &str) {
    }
}

/// The greeting of the static engine.
pub open spec fn static_greet_spec(prefix: Seq<char>, name: Seq<char>) -> Result<
    Seq<char>,
    AlloyErrorModel,
> {
    if is_blank(name) {
        Err(AlloyErrorModel::Validation("name must not be empty"@))
    } else {
        Ok(prefix + ", "@ + name + "!"@)
    }
}

/// Greets with a fixed prefix; a blank name is invalid input.
#[derive(Debug, Clone)]
pub struct StaticGreetingEngine {
    pub prefix: String,
}

impl StaticGreetingEngine {
    /// An engine with the given prefix.
    pub fn new(prefix: &str) -> (r: StaticGreetingEngine)
        ensures
            r.prefix@ == prefix@,
    {
        StaticGreetingEngine { prefix: prefix.to_owned() }
    }
}

impl GreetingEngine for StaticGreetingEngine {
    open spec fn greet_spec(&self, name: Seq<char>) -> Result<Seq<char>, AlloyErrorModel> {
        static_greet_spec(self.prefix@, name)
    }

    fn greet(&self, name: &str) -> (r: AlloyResult<String>)
        ensures
            match (r, self.greet_spec(name@)) {
                (Ok(s), Ok(m)) => s@ == m,
                (Err(e), Err(m)) => e@ == m,
                _ => false,
            },
    {
        if str_is_blank(name) {
            return Err(AlloyError::Validation(String::from_str("name must not be empty")));
        }
        let mut s = self.prefix.clone();
        s.append(", ");
        s.append(name);
        s.append("!");
        assert(s@ =~= self.prefix@ + ", "@ + name@ + "!"@);
        Ok(s)
    }
}

/// Everything a request handler needs: configuration, the greeting
/// engine, the metrics sink.
#[derive(Clone)]
pub struct AppState<G, M> {
    pub config: AppConfig,
    pub greeter: Arc<G>,
    pub metrics: Arc<M>,
}

impl<G: GreetingEngine, M: MetricsSink> AppState<G, M> {
    /// A state over the given collaborators.
    pub fn new(config: AppConfig, greeter: Arc<G>, metrics: Arc<M>) -> (r: AppState<G, M>)
        ensures
            r.config == config,
            r.greeter == greeter,
            r.metrics == metrics,
    {
        AppState { config, greeter, metrics }
    }

    /// Greets a name with the configured engine, counting the request.
    pub fn greet(&self, name: &str) -> (r: AlloyResult<String>)
        ensures
            match (r, self.greeter.greet_spec(name@)) {
                (Ok(s), Ok(m)) => s@ == m,
                (Err(e), Err(m)) => e@ == m,
                _ => false,
            },
    {
        self.metrics.incr_counter("greet.requests");
        self.greeter.greet(name)
    }
}

impl AppState<StaticGreetingEngine, NoopMetrics> {
    /// A local state: static greeting engine, counters dropped.
    pub fn local(service_name: &str) -> (r: AppState<StaticGreetingEngine, NoopMetrics>)
        ensures
            r.config.service_name@ == service_name@,
            r.config.environment@ == "local"@,
            forall|n: Seq<char>| r.greeter.greet_spec(n) == static_greet_spec("Hello"@, n),
    {
        let engine = StaticGreetingEngine::new("Hello");
        AppState {
            config: AppConfig::local(service_name),
            greeter: Arc::new(engine),
            metrics: Arc::new(NoopMetrics),
        }
    }
}

/// An RPC request: the name to greet.
#[derive(Debug, Clone)]
pub struct HelloRequest {
    pub name: String,
}

/// An RPC response: the greeting.
#[derive(Debug, Clone)]
pub struct HelloResponse {
    pub message: String,
}

/// Builds the RPC response for a request: the configured engine's
/// greeting, or the domain error as it stands.
pub fn build_hello_response<G: GreetingEngine, M: MetricsSink>(
    state: &AppState<G, M>,
    request: HelloRequest,
) -> (r: AlloyResult<HelloResponse>)
    ensures
        match (r, state.greeter.greet_spec(request.name@)) {
            (Ok(resp), Ok(m)) => resp.message@ == m,
            (Err(e), Err(m)) => e@ == m,
            _ => false,
        },
{
    match state.greet(request.name.as_str()) {
        Ok(message) => Ok(HelloResponse { message }),
        Err(e) => Err(e),
    }
}

} // verus!
