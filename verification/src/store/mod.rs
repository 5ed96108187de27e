//! What is stored of tickets and cookies, and the rules by which it changes.
pub mod commands;
pub mod cookie_pool;
pub mod error;
pub mod hunting;
pub mod notice_laws;
pub mod notifications;
pub mod pool_laws;
pub mod replay;
pub mod ticket;
pub mod ticket_admin;
pub mod ticket_history;
pub mod ticket_laws;
pub mod ticket_status;
pub mod usage;
pub mod usage_laws;
