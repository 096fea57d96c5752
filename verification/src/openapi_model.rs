//! The OpenAPI-shaped records the scanner reports.

use vstd::prelude::*;

verus! {

/// One named, typed parameter.
#[derive(Debug, Clone)]
pub struct Parameter {
    pub name: String,
    pub typ: String,
}

/// How a request or response body is given.
#[derive(Clone, Copy, Debug, PartialEq, Eq, Structural)]
pub enum BodyMode {
    RawText,
    Typed,
}

impl Default for BodyMode {
    /// Bodies are typed unless said otherwise.
    fn default() -> (r: BodyMode)
        ensures
            r == BodyMode::Typed,
    {
        BodyMode::Typed
    }
}

/// One request shape.
#[derive(Debug, Clone)]
pub struct Request {
    pub parameters: Vec<Parameter>,
    pub body: Vec<Parameter>,
    pub body_mode: BodyMode,
    pub body_string: String,
}

} // verus!
