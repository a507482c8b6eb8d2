//! Verified core of an SSH-directory migration tool: the pairing code, the key
//! derivation, the wire framing, the Noise session glue, the transfer protocol
//! on both ends, and the relay's greeting rules.
use vstd::prelude::*;

pub mod protocol;
pub mod text;
pub mod framing;
pub mod transfer;
pub mod transport;
pub mod address;
pub mod relay;
pub mod receive;
pub mod archive;

