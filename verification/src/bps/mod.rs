//! The Basis Points channel: requests and answers of the Responses API, carried
//! over an upstream that knows a single native function.
pub mod tools;
pub mod cache;
pub mod envelope;
pub mod response;
pub mod request;
pub mod sse;
pub mod exchange;
pub mod laws;
pub mod relay_laws;
pub mod request_laws;
pub mod stream_laws;
