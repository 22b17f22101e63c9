//! A server-function registry: a mapping from route keys (stable path
//! strings) to registration records, each record pairing an invocable
//! handle with the encoding declared for that route.
//!
//! The registry offers exactly-once registration per key (a second
//! registration for the same key fails and leaves the first record
//! untouched), lookup that degrades to "absent" once the shared store
//! has been marked as failed, and enumeration of the registered keys.

pub mod encoding;
pub mod error;
pub mod laws;
pub mod registry;
pub mod server_fn;

pub use encoding::Encoding;
pub use error::ServerFnError;
pub use error::ServerRegistrationFnError;
pub use registry::DioxusServerFnRegistry;
pub use registry::ServerFunction;
pub use server_fn::ServerFn;
