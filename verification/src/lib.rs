//! A layered source-routed anonymity protocol: an IPv6 segment-routing-style
//! forwarding header combined with per-hop onion encryption. A sender picks
//! a path of relay identifiers, wraps its payload in nested AEAD layers
//! keyed per hop, and each relay strips one layer, advances the segment
//! pointer, and forwards to the next hop named by the decrypted layer.
//!
//! The packet format, the cryptographic forwarding pipeline and the sender's
//! path encryption live here, verified; datagram transport and topology
//! wiring stay outside.
pub mod bytes;
pub mod kdf;
pub mod node;
pub mod onion_header;
pub mod onion_layer;
pub mod srh;

use vstd::prelude::*;

verus! {

/// Protocol version carried in every onion header.
pub const PROTOCOL_VERSION: u8 = 1;

/// The error taxonomy of the protocol core.
///
/// `IoError` is reserved for transport failures, which happen outside this
/// library; the core itself only produces the other three kinds.
#[derive(Clone, Copy, Debug, PartialEq, Eq, Structural)]
pub enum Error {
    IoError,
    CryptoError,
    ParseError,
    ProtocolError,
}

} // verus!
