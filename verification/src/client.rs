//! The client side: connecting, registering proxies and serving tunnels.
pub mod config;
pub mod session;
pub mod tls;
pub mod tunnel;
