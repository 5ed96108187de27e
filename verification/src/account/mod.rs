//! Upstream accounts: their routing tickets and routing cookies.
pub mod cookie_lock;
pub mod provider;
pub mod selection;
pub mod turn_state;
pub mod laws;
