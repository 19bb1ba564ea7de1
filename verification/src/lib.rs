//! A quorum-acknowledgment replication core for a small fixed-size cluster.
//!
//! The cluster accepts `Read`, `Write` and `Ack` packets over a simple binary
//! wire format.  Writes are deduplicated by a 64-bit content fingerprint and
//! executed only once a quorum of signed acknowledgments has been collected;
//! the commit ledger linearizes vote accumulation and guarantees that the
//! execution of any given fingerprint fires exactly once.
//!
//! The crate holds the protocol logic only: packet encoding and decoding, the
//! vote bitmap and commit ledger, peer identification, and the per-packet
//! dispatch decisions.  Network transport, persistence and the signature
//! scheme itself are left to the embedding application, which reaches the
//! signature scheme through the [`pqc_sign::Signer`] capability.

pub mod codec;
pub mod consensus;
pub mod did;
pub mod engine;
pub mod error;
pub mod fingerprint;
pub mod ledger;
pub mod peers;
pub mod pqc_sign;
pub mod util;
