use vstd::prelude::*;

use crate::network::packet::PacketReader;
use crate::network::{need, ReadError};
use tcp::{tcp_error, tcp_size, TCPHeader};
use udp::UDPHeader;

pub mod application;
pub mod tcp;
pub mod udp;

verus! {

/// The transport header, chosen by the protocol id that the network layer ends with.
pub enum TransportHeader {
    TCP(TCPHeader),
    UDP(UDPHeader),
    Default(Vec<u8>),
}

/// Why decoding the transport header for `protocol` at `p` of `d` fails, if it does.
pub open spec fn transport_error(protocol: u8, d: Seq<u8>, p: int) -> Option<ReadError> {
    if protocol == 6 {
        tcp_error(d, p)
    } else if protocol == 17 {
        need(d, p, 8)
    } else {
        None
    }
}

/// How many bytes the transport header for `protocol` at `p` of `d` takes.
pub open spec fn transport_size(protocol: u8, d: Seq<u8>, p: int) -> int {
    if protocol == 6 {
        tcp_size(d, p)
    } else if protocol == 17 {
        8
    } else {
        0
    }
}

impl TransportHeader {
    /// `self` and `o` hold the same values, field by field.
    pub open spec fn same_as(&self, o: &Self) -> bool {
        match (self, o) {
            (TransportHeader::TCP(a), TransportHeader::TCP(b)) => a.same_as(b),
            (TransportHeader::UDP(a), TransportHeader::UDP(b)) => a == b,
            (TransportHeader::Default(a), TransportHeader::Default(b)) => a@ == b@,
            _ => false,
        }
    }

    /// `b` is the whole header and `self` holds what it encodes for `protocol`.
    pub open spec fn parsed_from(&self, protocol: u8, b: Seq<u8>) -> bool {
        match self {
            TransportHeader::TCP(h) => protocol == 6 && h.parsed_from(b),
            TransportHeader::UDP(h) => protocol == 17 && h.parsed_from(b),
            TransportHeader::Default(v) => protocol != 6 && protocol != 17 && b.len() == 0
                && v@.len() == 0,
        }
    }

    /// Two headers decoded from the same bytes hold the same values.
    pub proof fn lemma_parsed_unique(&self, o: &Self, protocol: u8, b: Seq<u8>)
        requires
            self.parsed_from(protocol, b),
            o.parsed_from(protocol, b),
        ensures
            self.same_as(o),
    {
        match (self, o) {
            (TransportHeader::Default(x), TransportHeader::Default(y)) => {
                assert(x@ =~= y@);
            },
            _ => {},
        }
    }

    /// The source port; 0 where the header has no ports.
    pub open spec fn spec_src_port(&self) -> u16 {
        match self {
            TransportHeader::TCP(h) => h.src_port,
            TransportHeader::UDP(h) => h.src_port,
            TransportHeader::Default(_) => 0,
        }
    }

    /// The destination port; 0 where the header has no ports.
    pub open spec fn spec_dst_port(&self) -> u16 {
        match self {
            TransportHeader::TCP(h) => h.dst_port,
            TransportHeader::UDP(h) => h.dst_port,
            TransportHeader::Default(_) => 0,
        }
    }

    /// Decodes the header for `protocol` at the reader's position: TCP for 6,
    /// UDP for 17, and an empty marker, reading nothing, for any other id.
    pub fn new<'a>(protocol: u8, packet_reader: &mut PacketReader<'a>) -> (res: Result<TransportHeader, ReadError>)
        ensures
            final(packet_reader).data() == old(packet_reader).data(),
            ({
                let d = old(packet_reader).data();
                let p = old(packet_reader).pos();
                match res {
                    Ok(h) => transport_error(protocol, d, p) is None
                        && h.parsed_from(protocol, d.subrange(p, p + transport_size(protocol, d, p)))
                        && final(packet_reader).pos() == p + transport_size(protocol, d, p),
                    Err(e) => transport_error(protocol, d, p) == Some(e),
                }
            }),
    {
        if protocol == 6 {
            match TCPHeader::new(packet_reader) {
                Ok(h) => Ok(TransportHeader::TCP(h)),
                Err(e) => Err(e),
            }
        } else if protocol == 17 {
            match UDPHeader::new(packet_reader) {
                Ok(h) => Ok(TransportHeader::UDP(h)),
                Err(e) => Err(e),
            }
        } else {
            proof {
                use_type_invariant(&*packet_reader);
                packet_reader.lemma_in_bounds();
            }
            Ok(TransportHeader::Default(Vec::new()))
        }
    }

    /// The source port; 0 where the header has no ports.
    pub fn src_port(&self) -> (r: u16)
        ensures
            r == self.spec_src_port(),
    {
        match self {
            TransportHeader::TCP(h) => h.src_port,
            TransportHeader::UDP(h) => h.src_port,
            TransportHeader::Default(_) => 0,
        }
    }

    /// The destination port; 0 where the header has no ports.
    pub fn dst_port(&self) -> (r: u16)
        ensures
            r == self.spec_dst_port(),
    {
        match self {
            TransportHeader::TCP(h) => h.dst_port,
            TransportHeader::UDP(h) => h.dst_port,
            TransportHeader::Default(_) => 0,
        }
    }
}

/// Bytes that follow the transport header.
pub struct TransportPayload(pub Vec<u8>);

} // verus!
