//! The indexer's configuration.

use vstd::prelude::*;

verus! {

/// The indexer's configuration.  Paths are held as plain text.
#[derive(Debug, Clone)]
pub struct Configuration {
    /// If a config file is given, it overrides all command line parameters.
    pub config_file: Option<String>,
    /// Path to dynamic libraries used in the app.
    pub dylib_dir: Option<String>,
    /// URL for the vector index server.
    pub qdrant_url: Option<String>,
    /// Path to the embedding model directory.
    pub model_dir: String,
    /// Maximum number of tokens in a chunk (the model's input size).
    pub max_chunk_tokens: usize,
}

pub fn default_model_dir() -> (r: String)
    ensures
        r@ == "model"@,
{
    "model".to_owned()
}

pub fn default_max_chunk_tokens() -> (r: usize)
    ensures
        r == 256,
{
    256
}

impl Configuration {
    /// A configuration with every field at its default.
    pub fn new() -> (r: Configuration)
        ensures
            r.config_file is None,
            r.dylib_dir is None,
            r.qdrant_url is None,
            r.model_dir@ == "model"@,
            r.max_chunk_tokens == 256,
    {
        Configuration {
            config_file: None,
            dylib_dir: None,
            qdrant_url: None,
            model_dir: default_model_dir(),
            max_chunk_tokens: default_max_chunk_tokens(),
        }
    }
}

} // verus!
