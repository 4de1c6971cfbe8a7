use vstd::prelude::*;

use crate::network::packet::PacketReader;
use crate::network::{be16, need, read_be16, ReadError};

verus! {

/// A UDP header.
pub struct UDPHeader {
    pub src_port: u16,
    pub dst_port: u16,
    pub length: u16,
    pub checksum: u16,
}

impl UDPHeader {
    /// The header's size on the wire.
    pub const SIZE: usize = 8;

    /// `b` is the header's 8 bytes and `self` holds what they encode.
    pub open spec fn parsed_from(&self, b: Seq<u8>) -> bool {
        &&& b.len() == 8
        &&& self.src_port == be16(b[0], b[1])
        &&& self.dst_port == be16(b[2], b[3])
        &&& self.length == be16(b[4], b[5])
        &&& self.checksum == be16(b[6], b[7])
    }

    /// Decodes the header at the reader's position.
    pub fn new<'a>(packet_reader: &mut PacketReader<'a>) -> (res: Result<UDPHeader, ReadError>)
        ensures
            final(packet_reader).data() == old(packet_reader).data(),
            ({
                let d = old(packet_reader).data();
                let p = old(packet_reader).pos();
                match res {
                    Ok(h) => need(d, p, 8) is None && h.parsed_from(d.subrange(p, p + 8))
                        && final(packet_reader).pos() == p + 8,
                    Err(e) => need(d, p, 8) == Some(e),
                }
            }),
    {
        let bytes = match packet_reader.read(Self::SIZE) {
            Ok(b) => b,
            Err(e) => return Err(e),
        };
        Ok(
            UDPHeader {
                src_port: read_be16(bytes, 0),
                dst_port: read_be16(bytes, 2),
                length: read_be16(bytes, 4),
                checksum: read_be16(bytes, 6),
            },
        )
    }
}

} // verus!
