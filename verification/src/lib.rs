//! A multi-instance UDP relay core with symmetric XOR obfuscation.
//!
//! Each configured server listens on a relay endpoint, XOR-transforms
//! incoming datagrams with a repeating key, and forwards them to a fixed
//! upstream endpoint over a per-peer socket. Responses are transformed the
//! same way and sent back to the originating peer. This crate holds the
//! verified core: the byte transform, the per-peer session bookkeeping,
//! and the per-datagram forwarding decisions. Socket I/O and the async
//! runtime live outside it and hand the core plain values.

pub mod config;
pub mod obfs;
pub mod relay;
pub mod session;
