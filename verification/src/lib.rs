//! Verified core of a SOCKS5 proxy server.
//!
//! The crate holds the wire-level logic of the proxy: the request and reply
//! codecs, the per-connection protocol state machine, the classification of
//! connect errors into SOCKS5 reply codes, and the byte-exact model of the
//! bidirectional copy stage.  All I/O lives outside the crate; callers feed
//! bytes and events in and carry frames and actions out.

pub mod config;
pub mod connection;
pub mod cycbuffer;
pub mod error;
pub mod future_ext;
pub mod line_parser;
pub mod outgoing;
pub mod req_addr;
pub mod socks5;
pub mod stream_wrap;
