//! Client-side model of a paginated REST API: request builders for the user
//! resource, collection adapters, and the engine that turns a chain of pages
//! into one lazily produced sequence of records.

pub mod client;
pub mod comment;
pub mod error;
pub mod json;
pub mod path;
pub mod playlist;
pub mod record;
pub mod stream;
pub mod streaming_api;
pub mod text;
pub mod track;
pub mod trace;
pub mod user;
pub mod web_profile;

pub use crate::client::Client;
pub use crate::error::Error;
pub use crate::streaming_api::StreamingApi;
