//! An Elasticsearch binding: one configured operation, served as a tool, a
//! resource or a prompt.
//!
//! The library decides and computes; it does no I/O. A request is handled in two
//! halves, with the network between them:
//!
//! - [`config`] and [`validate`]: what a binding is configured with, and which
//!   configurations are accepted.
//! - [`scripting`], [`body`], [`ndjson`] and [`call`]: the REST call that the
//!   arguments of a request come to, and which arguments are refused.
//! - [`transport`]: credentials, the guard on the host, and failover between base
//!   URLs.
//! - [`response`], [`surface`] and [`schema`]: what becomes of a response.
//! - [`plugin`] and [`observe`]: both halves of each kind of request, and what is
//!   recorded of it.
//! - [`watch`]: watching an index by polling.
//! - [`debug`]: descriptions for logs.
//! - [`json`], [`wire`], [`text`] and [`encode`]: values, bytes and characters.
//!
//! A function whose name begins with `law_` states a property of the library as a
//! whole.

pub mod body;
pub mod call;
pub mod config;
pub mod debug;
pub mod encode;
pub mod json;
pub mod ndjson;
pub mod observe;
pub mod plugin;
pub mod response;
pub mod schema;
pub mod scripting;
pub mod surface;
pub mod text;
pub mod transport;
pub mod validate;
pub mod watch;
pub mod wire;

pub use config::{ElasticsearchBackendSpec, EsAuth, EsOperation, EsTlsConfig, SpecError};
pub use plugin::ElasticsearchBackendPlugin;
