//! CORS middleware logic for hyper 1.x.
//!
//! `Cors` wraps an inner service and applies the Cross-Origin Resource Sharing
//! protocol to every request: `Cors::call` classifies a request and starts the
//! origin decision, `CorsFuture::poll` turns the answers of the caller's predicates
//! into an `Outcome` (answer directly, or forward to the inner service), and
//! `merge_headers` says how the CORS headers join the inner service's response.
//!
//! Preflight requests (`OPTIONS` with `Access-Control-Request-Method`) are
//! short-circuited by default, so the inner service never sees them.

pub mod allow_credentials;
pub mod allow_headers;
pub mod allow_methods;
pub mod allow_origin;
pub mod config;
pub mod cors;
pub mod expose_headers;
pub mod header;
pub mod header_buf;
pub mod headers;
pub mod laws;
pub mod max_age;
pub mod text;
pub mod util;
pub mod vary;

pub use allow_credentials::AllowCredentials;
pub use allow_headers::AllowHeaders;
pub use allow_methods::AllowMethods;
pub use allow_origin::{AllowOrigin, AllowOriginFuture, Any};
pub use config::{ConfigError, CorsBuilder};
pub use cors::{builder, Cors, CorsFuture, HeaderOp, Outcome};
pub use expose_headers::ExposeHeaders;
pub use header::{HeaderName, HeaderValue, Method, RequestHead};
pub use header_buf::HeaderBuf;
pub use max_age::MaxAge;
pub use util::is_valid_token;
pub use vary::Vary;
