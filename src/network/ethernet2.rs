use vstd::prelude::*;

use crate::network::packet::PacketReader;
use crate::network::{be16, need, read_be16, take6, ReadError};

verus! {

/// An Ethernet II header.
pub struct Ethernet2Header {
    pub destination: [u8; 6],
    pub source: [u8; 6],
    pub ether_type: u16,
}

impl Ethernet2Header {
    /// `self` and `o` hold the same values, field by field.
    pub open spec fn same_as(&self, o: &Self) -> bool {
        &&& self.ether_type == o.ether_type
        &&& self.destination@ == o.destination@
        &&& self.source@ == o.source@
    }

    /// The header's size on the wire.
    pub const SIZE: usize = 14;

    /// `b` is the header's 14 bytes and `self` holds what they encode.
    pub open spec fn parsed_from(&self, b: Seq<u8>) -> bool {
        &&& b.len() == 14
        &&& self.destination@ == b.subrange(0, 6)
        &&& self.source@ == b.subrange(6, 12)
        &&& self.ether_type == be16(b[12], b[13])
    }

    /// Decodes the header at the reader's position.
    pub fn new<'a>(packet_reader: &mut PacketReader<'a>) -> (res: Result<Ethernet2Header, ReadError>)
        ensures
            final(packet_reader).data() == old(packet_reader).data(),
            ({
                let d = old(packet_reader).data();
                let p = old(packet_reader).pos();
                match res {
                    Ok(h) => need(d, p, 14) is None && h.parsed_from(d.subrange(p, p + 14))
                        && final(packet_reader).pos() == p + 14,
                    Err(e) => need(d, p, 14) == Some(e),
                }
            }),
    {
        let bytes = match packet_reader.read(Self::SIZE) {
            Ok(b) => b,
            Err(e) => return Err(e),
        };
        let h = Ethernet2Header {
            destination: take6(bytes, 0),
            source: take6(bytes, 6),
            ether_type: read_be16(bytes, 12),
        };
        assert(h.destination@ =~= bytes@.subrange(0, 6));
        Ok(h)
    }
}

} // verus!
