pub mod analyser;
pub mod archguard;
pub mod cache;
pub mod chapi;
pub mod config;
pub mod description_dsl;
pub mod document;
pub mod domain;
pub mod engine;
pub mod errors;
pub mod filters;
pub mod index_config;
pub mod json;
pub mod literal;
pub mod openapi_model;
pub mod payload;
pub mod prompts;
pub mod query_description;
pub mod ranking;
pub mod semantic_query;
pub mod server_types;
pub mod strutil;
pub mod tools;
