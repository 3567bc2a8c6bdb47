//! Decision core of a message relay: membership sets with a line-oriented
//! text form, a per-sender rate limiter, and the rules that turn one inbound
//! message into replies and forwards.

pub mod text;
pub mod decimal;
pub mod ids_set;
pub mod simple_storage;
pub mod rate_limiter;
pub mod relay;
