//! `ring`: an ICMP / ICMPv6 echo ("ping") library.
//!
//! The library holds the verified core of the utility: the echo-request
//! packet builder with its RFC 1071 checksum arithmetic, the classifier for
//! received datagrams, the per-round accounting of the send/receive
//! coordinator, endpoint selection, and the command-line surface.  The
//! sockets, threads and signal handling around it are ordinary unverified
//! plumbing that feeds plain values into these functions.

pub mod checksum;
pub mod cli_parse;
pub mod iputils;
pub mod ring_impl;
pub mod error;
pub mod utils;
