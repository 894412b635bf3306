//! What the functions of the library promise to those who call them.
//!
//! Each law takes the arguments and the result of a call, and says of them what
//! the call is for.
//!
//! - [`access`], [`settings`]: who a client is, what it may register, and the
//!   configuration that says so
//! - [`server`], [`client`]: what the two sides decide
//! - [`trust`], [`certificate`]: whom the client trusts, and the certificate of
//!   the server
//! - [`frames`], [`messages`], [`texts`]: what travels, and what is shown
pub mod access;
pub mod certificate;
pub mod client;
pub mod frames;
pub mod messages;
pub mod server;
pub mod settings;
pub mod texts;
pub mod trust;
