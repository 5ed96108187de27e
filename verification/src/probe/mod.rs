//! The hunt for routing tickets: what is asked of the upstream, what its answers
//! mean, and when to ask again.
pub mod observe;
pub mod random;

pub mod reader;
pub mod plan;
pub mod request;
pub mod cookie;
pub mod notify;
pub mod worker;
pub mod laws;
pub mod message_laws;
