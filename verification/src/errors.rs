//! The error taxonomy of the engine.

use vstd::prelude::*;

verus! {

/// What can go wrong inside the engine.
///
/// - `IndexInitializationError`: the index bootstrap failed; fatal at startup.
/// - `InferenceError`: the embedding model or tokenizer failed; fatal at
///   startup, otherwise a corrupted model file.
/// - `IndexUnavailable`: a transient transport failure; retryable by the
///   caller, never retried here.
/// - `CorruptedRecord`: a decode met a malformed identifier or payload shape;
///   unrecoverable for that record.
/// - `NoSearchTarget`: a search was asked for without a target.
/// - `InvalidEmbedding`: a degenerate (zero) vector reached similarity
///   scoring.
#[derive(Clone, Copy, Debug, PartialEq, Eq, Structural)]
pub enum SemanticError {
    IndexInitializationError,
    InferenceError,
    IndexUnavailable,
    CorruptedRecord,
    NoSearchTarget,
    InvalidEmbedding,
}

impl SemanticError {
    /// A short description, in place of a `Display` implementation.
    pub fn describe(&self) -> (r: String)
        ensures
            r@ == spec_describe(*self),
    {
        match self {
            SemanticError::IndexInitializationError => "index initialization failed".to_owned(),
            SemanticError::InferenceError => "inference engine error".to_owned(),
            SemanticError::IndexUnavailable => "vector index unavailable".to_owned(),
            SemanticError::CorruptedRecord => "corrupted record in the index".to_owned(),
            SemanticError::NoSearchTarget => "no search target for query".to_owned(),
            SemanticError::InvalidEmbedding => "degenerate embedding vector".to_owned(),
        }
    }
}

/// The description each error carries.
pub open spec fn spec_describe(e: SemanticError) -> Seq<char> {
    match e {
        SemanticError::IndexInitializationError => "index initialization failed"@,
        SemanticError::InferenceError => "inference engine error"@,
        SemanticError::IndexUnavailable => "vector index unavailable"@,
        SemanticError::CorruptedRecord => "corrupted record in the index"@,
        SemanticError::NoSearchTarget => "no search target for query"@,
        SemanticError::InvalidEmbedding => "degenerate embedding vector"@,
    }
}

} // verus!
