//! The server side: authentication, the registry of proxies, control sessions
//! and the tunnels of user connections.
pub mod auth;
pub mod config;
pub mod session;
pub mod state;
pub mod tls;
