//! Routing tickets and routing cookies of upstream accounts.
pub mod account;
pub mod base64_text;
pub mod bps;
pub mod digest;
pub mod headers;
pub mod json;
pub mod json_laws;
pub mod probe;
pub mod store;
pub mod text;
pub mod text_laws;
pub mod text_map;
