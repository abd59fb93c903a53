//! Serving core: endpoint descriptions, socket permission planning, and the
//! decision logic of the accept loop, of each connection and of shutdown.
//!
//! Nothing here touches a socket or a task. Each component takes what
//! happened as a plain value and answers with what to do next; the program
//! around it performs that and reports back. The one thing asked of the
//! system is the account database, for an owner or group given by name.

pub mod connection;
pub mod endpoint;
pub mod listener;
pub mod permissions;
pub mod serve;
pub mod signal;
pub mod text;

pub use endpoint::{Endpoint, UnixDomainSocket};
pub use serve::serve;
