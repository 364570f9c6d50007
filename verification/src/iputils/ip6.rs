//! The ICMPv6 echo shape with its checksum pseudo-header fields.
//!
//! The kernel computes the ICMPv6 checksum (pseudo-header included) when the
//! packet leaves through an ICMPv6 socket, so nothing here feeds the wire;
//! the record documents the layout.

use vstd::prelude::*;

verus! {

#[derive(Debug, PartialEq, Eq)]
pub struct EchoICMPv6 {
    // pseudo-header fields (source, destination, upper-layer length, zeros,
    // next header)
    pub source: [u8; 12],
    pub destination: [u8; 12],
    pub length: u32,
    pub zeros: u32,
    pub next_header: u8,
    // the echo header itself
    pub echo_type: u8,
    pub code: u8,
    pub identifier: [u8; 2],
    pub seq_num: u16,
    pub echo_data: Vec<u8>,
}

impl Default for EchoICMPv6 {
    /// A fresh ICMPv6 echo record: zero addresses, next header 58 (ICMPv6),
    /// echo request type 128, the fixed payload.
    fn default() -> (r: Self)
        ensures
            r.source@ =~= Seq::new(12, |i: int| 0u8),
            r.destination@ =~= Seq::new(12, |i: int| 0u8),
            r.length == 15,
            r.zeros == 0,
            r.next_header == 58,
            r.echo_type == 128,
            r.code == 0,
            r.identifier@ =~= seq![0u8, 0u8],
            r.seq_num == 1,
            r.echo_data@ == crate::iputils::data_seq(),
    {
        EchoICMPv6 {
            source: [0; 12],
            destination: [0; 12],
            length: 15,
            zeros: 0,
            next_header: 58,
            echo_type: 128,
            code: 0,
            identifier: [0, 0],
            seq_num: 1,
            echo_data: crate::iputils::default_data(),
        }
    }
}

} // verus!
