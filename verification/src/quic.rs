//! What both sides agree on for QUIC.
use vstd::prelude::*;

verus! {

/// Name of the protocol in the TLS handshake: `rfp/1`.
pub const ALPN: [u8; 5] = [0x72, 0x66, 0x70, 0x2f, 0x31];

/// Streams that may be open at a time in each direction.
pub const MAX_STREAMS: u32 = 256;

/// Seconds between two keep-alives of the client.
pub const KEEPALIVE_SECS: u64 = 15;

} // verus!
