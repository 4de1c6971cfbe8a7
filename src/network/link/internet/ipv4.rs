use vstd::prelude::*;

use crate::network::packet::PacketReader;
use crate::network::{be16, need, read_be16, take4, ReadError};

verus! {

/// An IPv4 header, options kept as raw bytes.
pub struct Ipv4Header {
    pub ihl: u8,
    pub dscp: u8,
    pub ecn: u8,
    pub total_length: u16,
    pub identification: u16,
    pub flags: IPv4Flags,
    pub fragment_offset: u16,
    pub ttl: u8,
    pub protocol: u8,
    pub header_checksum: u16,
    pub src_addr: [u8; 4],
    pub dst_addr: [u8; 4],
    pub options: Vec<u8>,
}

/// The header length, in 32-bit words, that the first byte `b0` declares.
pub open spec fn ihl_of(b0: u8) -> u8 {
    b0 & 0x0F
}

/// Why decoding an IPv4 header at `p` of `d` fails, if it does.
pub open spec fn ipv4_error(d: Seq<u8>, p: int) -> Option<ReadError> {
    if need(d, p, 20) is Some {
        need(d, p, 20)
    } else if ihl_of(d[p]) < 5 {
        Some(ReadError::CouldntParse)
    } else {
        need(d, p + 20, ihl_of(d[p]) * 4 - 20)
    }
}

/// How many bytes an IPv4 header at `p` of `d` takes.
pub open spec fn ipv4_size(d: Seq<u8>, p: int) -> int {
    ihl_of(d[p]) * 4
}

impl Ipv4Header {
    /// `self` and `o` hold the same values, field by field.
    pub open spec fn same_as(&self, o: &Self) -> bool {
        &&& self.ihl == o.ihl
        &&& self.dscp == o.dscp
        &&& self.ecn == o.ecn
        &&& self.total_length == o.total_length
        &&& self.identification == o.identification
        &&& self.flags == o.flags
        &&& self.fragment_offset == o.fragment_offset
        &&& self.ttl == o.ttl
        &&& self.protocol == o.protocol
        &&& self.header_checksum == o.header_checksum
        &&& self.src_addr@ == o.src_addr@
        &&& self.dst_addr@ == o.dst_addr@
        &&& self.options@ == o.options@
    }

    /// The fixed part's size on the wire.
    pub const SIZE: usize = 20;

    /// `b` is the whole header, options included, and `self` holds what it encodes.
    pub open spec fn parsed_from(&self, b: Seq<u8>) -> bool {
        &&& b.len() >= 20
        &&& self.ihl == ihl_of(b[0])
        &&& b.len() == self.ihl * 4
        &&& self.dscp == b[1] >> 2
        &&& self.ecn == b[1] & 0x03
        &&& self.total_length == be16(b[2], b[3])
        &&& self.identification == be16(b[4], b[5])
        &&& self.flags.parsed_from(b[6])
        &&& self.fragment_offset == (b[6] & 0x1F) * 256 + b[7]
        &&& self.ttl == b[8]
        &&& self.protocol == b[9]
        &&& self.header_checksum == be16(b[10], b[11])
        &&& self.src_addr@ == b.subrange(12, 16)
        &&& self.dst_addr@ == b.subrange(16, 20)
        &&& self.options@ == b.subrange(20, b.len() as int)
    }

    /// Decodes the header at the reader's position, options included.
    pub fn new<'a>(packet_reader: &mut PacketReader<'a>) -> (res: Result<Ipv4Header, ReadError>)
        ensures
            final(packet_reader).data() == old(packet_reader).data(),
            ({
                let d = old(packet_reader).data();
                let p = old(packet_reader).pos();
                match res {
                    Ok(h) => ipv4_error(d, p) is None
                        && h.parsed_from(d.subrange(p, p + ipv4_size(d, p)))
                        && final(packet_reader).pos() == p + ipv4_size(d, p),
                    Err(e) => ipv4_error(d, p) == Some(e),
                }
            }),
    {
        let ghost d = packet_reader.data();
        let ghost p = packet_reader.pos();
        let bytes = match packet_reader.read(Self::SIZE) {
            Ok(b) => b,
            Err(e) => return Err(e),
        };
        let ihl = bytes[0] & 0x0F;
        if ihl < 5 {
            return Err(ReadError::CouldntParse);
        }
        let options_size = (ihl as usize) * 4 - Self::SIZE;
        let options = if options_size > 0 {
            match packet_reader.read(options_size) {
                Ok(o) => vstd::slice::slice_to_vec(o),
                Err(e) => return Err(e),
            }
        } else {
            Vec::new()
        };
        let b6 = bytes[6];
        assert(b6 & 0x1F <= 0x1F) by (bit_vector);
        let h = Ipv4Header {
            ihl,
            dscp: bytes[1] >> 2,
            ecn: bytes[1] & 0x03,
            total_length: read_be16(bytes, 2),
            identification: read_be16(bytes, 4),
            flags: IPv4Flags::new(bytes[6]),
            fragment_offset: ((b6 & 0x1F) as u16) * 256 + (bytes[7] as u16),
            ttl: bytes[8],
            protocol: bytes[9],
            header_checksum: read_be16(bytes, 10),
            src_addr: take4(bytes, 12),
            dst_addr: take4(bytes, 16),
            options,
        };
        let ghost hb = d.subrange(p, p + ipv4_size(d, p));
        assert(hb.subrange(12, 16) =~= bytes@.subrange(12, 16));
        assert(hb.subrange(16, 20) =~= bytes@.subrange(16, 20));
        assert(hb.subrange(20, hb.len() as int) =~= h.options@);
        Ok(h)
    }

    /// The header's length in bytes, options included.
    pub fn len(&self) -> (r: usize)
        ensures
            r == self.ihl * 4,
    {
        self.ihl as usize * 4
    }
}

/// Options take what the header length declares beyond the 20 fixed bytes:
/// none at 5 words (20 bytes), four at 6 words (24 bytes).
pub proof fn lemma_ipv4_options(h: Ipv4Header, b: Seq<u8>)
    requires
        h.parsed_from(b),
    ensures
        h.options@.len() == h.ihl * 4 - 20,
        ihl_of(b[0]) == 5 ==> h.options@.len() == 0 && h.ihl * 4 == 20,
        ihl_of(b[0]) == 6 ==> h.options@.len() == 4 && h.ihl * 4 == 24,
{
}

/// The three flag bits of an IPv4 header.
pub struct IPv4Flags {
    pub reserved: bool,
    pub df: bool,
    pub mf: bool,
}

impl IPv4Flags {
    /// `self` holds the top three bits of `byte`.
    pub open spec fn parsed_from(&self, byte: u8) -> bool {
        &&& self.reserved == (byte & 0x80 != 0)
        &&& self.df == (byte & 0x40 != 0)
        &&& self.mf == (byte & 0x20 != 0)
    }

    /// The flags held in the top three bits of `byte`.
    pub fn new(byte: u8) -> (r: IPv4Flags)
        ensures
            r.parsed_from(byte),
    {
        IPv4Flags { reserved: byte & 0x80 != 0, df: byte & 0x40 != 0, mf: byte & 0x20 != 0 }
    }
}

} // verus!
