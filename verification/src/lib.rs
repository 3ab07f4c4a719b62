//! Verified core of a small service that answers whether an IP address is a
//! known proxy, backed by an IP2Proxy BIN database.
//!
//! The crate holds the decisions of the service: how query text becomes
//! addresses, how engine outcomes become answers and responses, which
//! listening socket is used, and when the data is refreshed. Sockets, the
//! HTTP server and the refresh process itself live with the caller.

pub mod addr;
pub mod engine;
pub mod gateway;
pub mod listener;
pub mod router;
pub mod text;
pub mod updater;
