//! A verified core for a man-in-the-middle forward proxy: HTTP/1.1 header
//! framing and parsing, response serialization against a fixed status table,
//! leaf-certificate minting through a local certificate authority, and the
//! per-connection decision logic (tunnel negotiation, forwarding, error
//! replies). All I/O stays with the caller; this crate works on plain bytes.

pub mod bytes;
pub mod message;
pub mod status;
pub mod ser;
pub mod parse;
pub mod resp;
pub mod roundtrip;
pub mod x509;
pub mod cert;
pub mod pipeline;
