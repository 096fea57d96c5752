//! The request and response shapes of the surrounding endpoints, and the
//! endpoint error model.  The transport lives outside; these types carry the
//! plain values in and out of the library.

use vstd::prelude::*;
use crate::json::JsonValue;
use crate::payload::{CodePayload, PayloadType};

verus! {

/// The kind of an endpoint error.
#[derive(Clone, Copy, Debug, PartialEq, Eq, Structural)]
pub enum ErrorKind {
    User,
    Unknown,
    NotFound,
    Configuration,
    UpstreamService,
    Internal,
    Custom,
}

impl ErrorKind {
    /// The HTTP status an error kind answers with: a caller fault is a bad
    /// request, a missing resource is not found, everything else is an
    /// internal error.
    pub fn status_code(&self) -> (r: u16)
        ensures
            r == spec_status_code(*self),
    {
        match self {
            ErrorKind::User => 400,
            ErrorKind::NotFound => 404,
            ErrorKind::Configuration => 500,
            ErrorKind::Unknown => 500,
            ErrorKind::UpstreamService => 500,
            ErrorKind::Internal => 500,
            ErrorKind::Custom => 500,
        }
    }
}

/// The status each kind maps to.
pub open spec fn spec_status_code(k: ErrorKind) -> u16 {
    match k {
        ErrorKind::User => 400u16,
        ErrorKind::NotFound => 404u16,
        _ => 500u16,
    }
}

/// The response upon encountering an error.
#[derive(Debug, Clone)]
pub struct EndpointError {
    /// The kind of this error.
    pub kind: ErrorKind,
    /// A context aware message describing the error.
    pub message: String,
}

impl EndpointError {
    /// An error of a kind with its message.
    pub fn new(kind: ErrorKind, message: String) -> (r: EndpointError)
        ensures
            r.kind == kind && r.message@ == message@,
    {
        EndpointError { kind, message }
    }
}

/// A free-text query.
#[derive(Debug, Clone)]
pub struct SimpleQuery {
    pub q: String,
}

/// A query scoped to one repository and payload kind.
#[derive(Debug, Clone)]
pub struct ApiQuery {
    pub q: String,
    pub repo_ref: String,
    pub query_type: PayloadType,
}

/// A fixed-point embedding handed back to a caller.
#[derive(Debug, Clone)]
pub struct EmbeddingResponse {
    pub data: Vec<i64>,
}

/// The records a query answered with.
#[derive(Debug)]
pub struct QueryResponse {
    pub data: Vec<CodePayload>,
}

/// A rendered prompt handed back to a caller.
#[derive(Debug, Clone)]
pub struct PromptResult {
    pub prompt: String,
}

/// A list of path aliases.
#[derive(Debug, Clone)]
pub struct PathListArgs {
    pub paths: Vec<String>,
}

/// The scanner's reporting parameters.
#[derive(Debug, Clone)]
pub struct ArchGuardParams {
    pub language: String,
    pub path: String,
    pub repo_id: String,
}

/// An analytics event stage.
#[derive(Clone, Copy, Debug, PartialEq, Eq, Structural)]
pub enum EventKind {
    Input,
    Output,
}

/// The data of one analytics event.
#[derive(Debug)]
pub struct EventData {
    pub kind: EventKind,
    pub name: String,
    pub payload: Vec<(String, JsonValue)>,
}

impl EventData {
    /// An input-stage event with an empty payload.
    pub fn input_stage(name: &str) -> (r: EventData)
        ensures
            r.kind == EventKind::Input,
            r.name@ == name@,
            r.payload@.len() == 0,
    {
        EventData { kind: EventKind::Input, name: name.to_owned(), payload: Vec::new() }
    }

    /// An output-stage event with an empty payload.
    pub fn output_stage(name: &str) -> (r: EventData)
        ensures
            r.kind == EventKind::Output,
            r.name@ == name@,
            r.payload@.len() == 0,
    {
        EventData { kind: EventKind::Output, name: name.to_owned(), payload: Vec::new() }
    }

    /// The event with one more named value.
    pub fn with_payload(self, name: &str, value: JsonValue) -> (r: EventData)
        ensures
            r.kind == self.kind,
            r.name@ == self.name@,
            r.payload@.len() == self.payload@.len() + 1,
            r.payload@.last().0@ == name@,
            r.payload@.last().1 == value,
    {
        let mut payload = self.payload;
        payload.push((name.to_owned(), value));
        EventData { kind: self.kind, name: self.name, payload }
    }
}

/// The build metadata an analytics event carries.
#[derive(Debug, Clone)]
pub struct PackageMetadata {
    pub name: String,
    pub version: String,
    pub git_rev: String,
}

/// A device-specific unique identifier.
#[derive(Debug, Clone, PartialEq, Eq, Hash)]
pub struct DeviceId(pub String);

/// User-specific configuration.
#[derive(Debug, Clone)]
pub struct UserState {
    pub tracking_id: String,
}

} // verus!

verus! {

/// What the agent chooses to do next.
#[derive(Debug, Clone)]
pub enum Action {
    /// A user-provided query.
    Query(String),
    Path { query: String },
    /// Enough is known; answer over these path aliases.
    Answer { paths: Vec<usize> },
    Code { query: String },
    Proc { query: String, paths: Vec<usize> },
}

/// A data-map ingestion request.
#[derive(Debug, Clone)]
pub struct DatamapRequest {
    pub system_id: String,
    pub repo_name: String,
    pub repo_url: String,
}

/// The identifier a data-map ingestion answers with.
#[derive(Debug, Clone, Copy, PartialEq, Eq, Structural)]
pub struct DatamapEmbedding {
    pub id: u64,
}

/// A REST-API ingestion request.
#[derive(Debug, Clone)]
pub struct ResetApiRequest {
    pub username: String,
}

/// The identifier a REST-API ingestion answers with.
#[derive(Debug, Clone, Copy, PartialEq, Eq, Structural)]
pub struct RestApi {
    pub id: u64,
}

/// One described REST operation.
#[derive(Debug, Clone)]
pub struct RestApiOperation {
    pub code: i32,
    pub http_method: String,
    pub path: String,
    pub description: String,
    pub canonical_name: String,
    pub request: Option<String>,
    pub request_headers: Vec<String>,
    pub response: Option<String>,
    pub response_headers: Vec<String>,
    pub protocols: String,
    pub nickname: Option<String>,
    pub notes: Option<String>,
    pub tags: Vec<String>,
    pub authorizations: Vec<String>,
    pub extensions: Vec<String>,
}

/// A structure-initialisation request body.
#[derive(Debug, Clone, Copy, PartialEq, Eq, Structural)]
pub struct DataStructure {}

/// A human-dictionary initialisation request.
#[derive(Debug, Clone)]
pub struct HumanDictRequest {
    pub name: String,
    pub system_id: String,
    pub repo_name: String,
    pub repo_url: String,
    pub dictionaries: Vec<Detail>,
}

/// One dictionary entry of such a request.
#[derive(Debug, Clone)]
pub struct Detail {
    pub name: String,
    pub code_name: String,
    pub locale_name: String,
    pub description: String,
    pub usecase: String,
}

/// The identifier a dictionary initialisation answers with.
#[derive(Debug, Clone, Copy, PartialEq, Eq, Structural)]
pub struct LanguageResponse {
    pub id: u64,
}

} // verus!
