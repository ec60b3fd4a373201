//! Remote
//! Messages between local client thread and remote client
//!
//! This module handles the wire-level protocol: the packets exchanged with
//! remote clients, and the length-delimited framing that carries them.

/// Codec structures
pub mod codec;
/// Packet structures
pub mod packet;
