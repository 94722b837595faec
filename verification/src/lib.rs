//! Request composition for a JSON-over-HTTPS tree database: locations that
//! always name a `.json` resource, chainable query parameters, and the
//! transport-independent part of sending a request and reading its answer.

pub mod clients;
pub mod constants;
pub mod errors;
pub mod firebase;
pub mod json;
pub mod location;
pub mod message;
pub mod params;
pub mod path;
pub mod queries;
pub mod request;
pub mod text;
pub mod types;
pub mod utils;

pub use clients::Client;
pub use errors::{UrlParseError, UrlParseResult};
pub use firebase::Firebase;
pub use location::Location;
pub use message::{Method, Request, Response, Version};
pub use params::{ParamValue, Paramable};
pub use queries::{WithParams, WithQueries};
pub use request::Requestable;
pub use types::{DecodeError, RequestError, RequestResult};
pub use utils::check_uri;
