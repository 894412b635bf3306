//! A tunnel for services behind a firewall.
//!
//! A client inside the private network keeps a control channel to a public
//! server and registers proxies: a port on the server for a local service. For
//! every user that connects to such a port the server gets a tunnel to the
//! client, over TCP as a connection that the client opens, over QUIC as a stream
//! on the connection that is already there.
//!
//! The crate holds what both sides decide: the messages and their frames, who
//! may register what, the states of the sessions, and whom to trust. It does no
//! input or output: a decision comes back as an action for the caller to carry
//! out, and what came of it is handed back as an event.
//!
//! - [`msg`], [`json`] and [`frame`]: control messages, their JSON form and the
//!   frames that carry them
//! - [`describe`] and [`fault`]: messages and wrong values in reports
//! - [`fingerprint`] and [`clock`]: certificate fingerprints and time stamps
//! - [`server`]: authentication, the registry of proxies, control sessions,
//!   tunnels and the server's certificate
//! - [`client`]: configuration, the client's session, its tunnels and its trust
//!   in the server
//! - [`protocol`]: what holds of client and server together
//! - [`laws`]: what the functions promise to those who call them
pub mod client;
pub mod clock;
pub mod describe;
pub mod fault;
pub mod fingerprint;
pub mod frame;
pub mod json;
pub mod laws;
pub mod msg;
pub mod protocol;
pub mod quic;
pub mod server;
pub mod text;
