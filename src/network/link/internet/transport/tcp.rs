use vstd::prelude::*;

use crate::network::packet::PacketReader;
use crate::network::{be16, be32, need, read_be16, read_be32, ReadError};

verus! {

/// A TCP header, options kept as raw bytes.
pub struct TCPHeader {
    pub src_port: u16,
    pub dst_port: u16,
    pub sequence_number: u32,
    pub ack: u32,
    pub data_offset: u8,
    pub reserved: u8,
    pub flags: TCPFlags,
    pub window_size: u16,
    pub checksum: u16,
    pub urgent_pointer: u16,
    pub options: Vec<u8>,
}

/// The header length, in 32-bit words, that byte 12 declares.
pub open spec fn data_offset_of(b12: u8) -> u8 {
    b12 >> 4
}

/// Why decoding a TCP header at `p` of `d` fails, if it does.
pub open spec fn tcp_error(d: Seq<u8>, p: int) -> Option<ReadError> {
    if need(d, p, 20) is Some {
        need(d, p, 20)
    } else if data_offset_of(d[p + 12]) < 5 {
        Some(ReadError::CouldntParse)
    } else {
        need(d, p + 20, data_offset_of(d[p + 12]) * 4 - 20)
    }
}

/// How many bytes a TCP header at `p` of `d` takes.
pub open spec fn tcp_size(d: Seq<u8>, p: int) -> int {
    data_offset_of(d[p + 12]) * 4
}

impl TCPHeader {
    /// `self` and `o` hold the same values, field by field.
    pub open spec fn same_as(&self, o: &Self) -> bool {
        &&& self.src_port == o.src_port
        &&& self.dst_port == o.dst_port
        &&& self.sequence_number == o.sequence_number
        &&& self.ack == o.ack
        &&& self.data_offset == o.data_offset
        &&& self.reserved == o.reserved
        &&& self.flags == o.flags
        &&& self.window_size == o.window_size
        &&& self.checksum == o.checksum
        &&& self.urgent_pointer == o.urgent_pointer
        &&& self.options@ == o.options@
    }

    /// The fixed part's size on the wire.
    pub const SIZE: usize = 20;

    /// `b` is the whole header, options included, and `self` holds what it encodes.
    pub open spec fn parsed_from(&self, b: Seq<u8>) -> bool {
        &&& b.len() >= 20
        &&& self.src_port == be16(b[0], b[1])
        &&& self.dst_port == be16(b[2], b[3])
        &&& self.sequence_number == be32(b[4], b[5], b[6], b[7])
        &&& self.ack == be32(b[8], b[9], b[10], b[11])
        &&& self.data_offset == data_offset_of(b[12])
        &&& b.len() == self.data_offset * 4
        &&& self.reserved == b[12] & 0x0E
        &&& self.flags.parsed_from(b[12], b[13])
        &&& self.window_size == be16(b[14], b[15])
        &&& self.checksum == be16(b[16], b[17])
        &&& self.urgent_pointer == be16(b[18], b[19])
        &&& self.options@ == b.subrange(20, b.len() as int)
    }

    /// Decodes the header at the reader's position, options included.
    pub fn new<'a>(packet_reader: &mut PacketReader<'a>) -> (res: Result<TCPHeader, ReadError>)
        ensures
            final(packet_reader).data() == old(packet_reader).data(),
            ({
                let d = old(packet_reader).data();
                let p = old(packet_reader).pos();
                match res {
                    Ok(h) => tcp_error(d, p) is None
                        && h.parsed_from(d.subrange(p, p + tcp_size(d, p)))
                        && final(packet_reader).pos() == p + tcp_size(d, p),
                    Err(e) => tcp_error(d, p) == Some(e),
                }
            }),
    {
        let ghost d = packet_reader.data();
        let ghost p = packet_reader.pos();
        let bytes = match packet_reader.read(Self::SIZE) {
            Ok(b) => b,
            Err(e) => return Err(e),
        };
        let b12 = bytes[12];
        let data_offset = b12 >> 4;
        assert(b12 >> 4 <= 15) by (bit_vector);
        if data_offset < 5 {
            return Err(ReadError::CouldntParse);
        }
        let options_size = (data_offset as usize) * 4 - Self::SIZE;
        let options = if options_size > 0 {
            match packet_reader.read(options_size) {
                Ok(o) => vstd::slice::slice_to_vec(o),
                Err(e) => return Err(e),
            }
        } else {
            Vec::new()
        };
        let h = TCPHeader {
            src_port: read_be16(bytes, 0),
            dst_port: read_be16(bytes, 2),
            sequence_number: read_be32(bytes, 4),
            ack: read_be32(bytes, 8),
            data_offset,
            reserved: b12 & 0x0E,
            flags: TCPFlags::new(b12, bytes[13]),
            window_size: read_be16(bytes, 14),
            checksum: read_be16(bytes, 16),
            urgent_pointer: read_be16(bytes, 18),
            options,
        };
        let ghost hb = d.subrange(p, p + tcp_size(d, p));
        assert(hb.subrange(20, hb.len() as int) =~= h.options@);
        Ok(h)
    }
}

/// The nine control flags of a TCP header.
pub struct TCPFlags {
    pub ns: bool,
    pub cwr: bool,
    pub ece: bool,
    pub urg: bool,
    pub ack: bool,
    pub psh: bool,
    pub rst: bool,
    pub syn: bool,
    pub fin: bool,
}

impl TCPFlags {
    /// `self` holds bit 0 of `b12` and the eight bits of `b13`.
    pub open spec fn parsed_from(&self, b12: u8, b13: u8) -> bool {
        &&& self.ns == (b12 & 0x01 != 0)
        &&& self.cwr == (b13 & 0x80 != 0)
        &&& self.ece == (b13 & 0x40 != 0)
        &&& self.urg == (b13 & 0x20 != 0)
        &&& self.ack == (b13 & 0x10 != 0)
        &&& self.psh == (b13 & 0x08 != 0)
        &&& self.rst == (b13 & 0x04 != 0)
        &&& self.syn == (b13 & 0x02 != 0)
        &&& self.fin == (b13 & 0x01 != 0)
    }

    /// The flags held in bytes 12 and 13 of a TCP header.
    pub fn new(b12: u8, b13: u8) -> (r: TCPFlags)
        ensures
            r.parsed_from(b12, b13),
    {
        TCPFlags {
            ns: b12 & 0x01 != 0,
            cwr: b13 & 0x80 != 0,
            ece: b13 & 0x40 != 0,
            urg: b13 & 0x20 != 0,
            ack: b13 & 0x10 != 0,
            psh: b13 & 0x08 != 0,
            rst: b13 & 0x04 != 0,
            syn: b13 & 0x02 != 0,
            fin: b13 & 0x01 != 0,
        }
    }
}

} // verus!
