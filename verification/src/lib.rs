//! A minimal webhook receiver and order-creation relay for an external
//! payment provider: HMAC-SHA256 signature checking, webhook event handling,
//! an in-memory order table, and JSON rendering of orders.

pub mod create;
pub mod jsonio;
pub mod jsontext;
pub mod sig;
pub mod store;
pub mod webhook;
