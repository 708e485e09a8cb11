//! Templated HTTP requests, their overrides, and the text that two responses
//! are compared by.
use vstd::prelude::*;

pub mod cli;
pub mod config;
pub mod diff;
pub mod error;
pub mod headers;
pub mod json;
pub mod profile;
pub mod response;
pub mod text;

pub use config::{DiffConfig, DiffProfile, RequestConfig};
pub use diff::diff_text;
pub use error::{Field, XdiffError};
pub use json::JsonObject;
pub use profile::{RequestProfile, ValidateConfig};
pub use response::{is_default, ResponseExt, ResponseProfile};

verus! {

/// Overrides given when a request is sent, in the order given, each as a
/// name and a text: for headers, for the query, and for the body.
#[derive(Clone, Debug, Default)]
pub struct ExtraArgs {
    pub headers: Vec<(String, String)>,
    pub query: Vec<(String, String)>,
    pub body: Vec<(String, String)>,
}

} // verus!
