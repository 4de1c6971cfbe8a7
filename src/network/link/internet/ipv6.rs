use vstd::prelude::*;

use crate::network::packet::PacketReader;
use crate::network::{be16, be32, need, need2, read_be16, read_be32, take16, ReadError};

verus! {

/// The fixed IPv6 header.
pub struct Ipv6Header {
    pub traffic_class: u8,
    pub flow_label: u32,
    pub payload_length: u16,
    pub next_header: u8,
    pub hop_limit: u8,
    pub src_addr: [u8; 16],
    pub dst_addr: [u8; 16],
}

impl Ipv6Header {
    /// `self` and `o` hold the same values, field by field.
    pub open spec fn same_as(&self, o: &Self) -> bool {
        &&& self.traffic_class == o.traffic_class
        &&& self.flow_label == o.flow_label
        &&& self.payload_length == o.payload_length
        &&& self.next_header == o.next_header
        &&& self.hop_limit == o.hop_limit
        &&& self.src_addr@ == o.src_addr@
        &&& self.dst_addr@ == o.dst_addr@
    }

    /// The header's size on the wire.
    pub const SIZE: usize = 40;

    /// `b` is the header's 40 bytes and `self` holds what they encode.
    pub open spec fn parsed_from(&self, b: Seq<u8>) -> bool {
        &&& b.len() == 40
        &&& self.traffic_class == (b[0] & 0x0F) * 16 + (b[1] >> 4)
        &&& self.flow_label == (b[1] & 0x0F) * 0x1_0000 + b[2] * 0x100 + b[3]
        &&& self.payload_length == be16(b[4], b[5])
        &&& self.next_header == b[6]
        &&& self.hop_limit == b[7]
        &&& self.src_addr@ == b.subrange(8, 24)
        &&& self.dst_addr@ == b.subrange(24, 40)
    }

    /// Decodes the header at the reader's position.
    pub fn new<'a>(packet_reader: &mut PacketReader<'a>) -> (res: Result<Ipv6Header, ReadError>)
        ensures
            final(packet_reader).data() == old(packet_reader).data(),
            ({
                let d = old(packet_reader).data();
                let p = old(packet_reader).pos();
                match res {
                    Ok(h) => need(d, p, 40) is None && h.parsed_from(d.subrange(p, p + 40))
                        && final(packet_reader).pos() == p + 40,
                    Err(e) => need(d, p, 40) == Some(e),
                }
            }),
    {
        let bytes = match packet_reader.read(Self::SIZE) {
            Ok(b) => b,
            Err(e) => return Err(e),
        };
        let b0 = bytes[0];
        let b1 = bytes[1];
        assert(b0 & 0x0F <= 15 && b1 >> 4 <= 15 && b1 & 0x0F <= 15) by (bit_vector);
        let h = Ipv6Header {
            traffic_class: (b0 & 0x0F) * 16 + (b1 >> 4),
            flow_label: ((b1 & 0x0F) as u32) * 0x1_0000 + (bytes[2] as u32) * 0x100 + (bytes[3] as u32),
            payload_length: read_be16(bytes, 4),
            next_header: bytes[6],
            hop_limit: bytes[7],
            src_addr: take16(bytes, 8),
            dst_addr: take16(bytes, 24),
        };
        Ok(h)
    }
}

/// Why decoding an extension whose length byte counts 8-byte units beyond
/// `fixed + body` bytes fails at `p` of `d`, if it does.
pub open spec fn counted_ext_error(d: Seq<u8>, p: int, fixed: int, body: int) -> Option<ReadError> {
    if need(d, p, fixed) is Some {
        need(d, p, fixed)
    } else {
        need(d, p + fixed, d[p + 1] * 8 + body)
    }
}

/// How many bytes an extension whose length byte is at `p + 1` takes.
pub open spec fn counted_ext_size(d: Seq<u8>, p: int) -> int {
    d[p + 1] * 8 + 8
}

/// The Hop-by-Hop Options extension; its options are skipped.
pub struct Ipv6HopByHopOptions {
    pub next_header: u8,
    pub hdr_ext_len: u8,
    pub options: Vec<Ipv6ExtensionOptions>,
}

impl Ipv6HopByHopOptions {
    /// `self` and `o` hold the same values, field by field.
    pub open spec fn same_as(&self, o: &Self) -> bool {
        &&& self.next_header == o.next_header
        &&& self.hdr_ext_len == o.hdr_ext_len
        &&& self.options@ == o.options@
    }

    pub const PROTOCOL_NUMBER: u8 = 0;

    /// `b` is the whole extension and `self` holds what it encodes.
    pub open spec fn parsed_from(&self, b: Seq<u8>) -> bool {
        &&& b.len() >= 2
        &&& self.next_header == b[0]
        &&& self.hdr_ext_len == b[1]
        &&& b.len() == self.hdr_ext_len * 8 + 8
        &&& self.options@.len() == 0
    }

    /// Decodes the extension at the reader's position, skipping its options.
    pub fn new<'a>(packet_reader: &mut PacketReader<'a>) -> (res: Result<Self, ReadError>)
        ensures
            final(packet_reader).data() == old(packet_reader).data(),
            ({
                let d = old(packet_reader).data();
                let p = old(packet_reader).pos();
                match res {
                    Ok(h) => counted_ext_error(d, p, 2, 6) is None
                        && h.parsed_from(d.subrange(p, p + counted_ext_size(d, p)))
                        && final(packet_reader).pos() == p + counted_ext_size(d, p),
                    Err(e) => counted_ext_error(d, p, 2, 6) == Some(e),
                }
            }),
    {
        let bytes = match packet_reader.read(2) {
            Ok(b) => b,
            Err(e) => return Err(e),
        };
        let hdr_ext_len = bytes[1];
        let read_len = (hdr_ext_len as usize) * 8 + 6;
        match packet_reader.read(read_len) {
            Ok(_) => {},
            Err(e) => return Err(e),
        }
        Ok(Ipv6HopByHopOptions { next_header: bytes[0], hdr_ext_len, options: Vec::new() })
    }
}

/// The Fragment extension.
pub struct Ipv6Fragment {
    pub next_header: u8,
    pub reserved: u8,
    pub fragment_offset: u16,
    pub res: u8,
    pub m_flag: bool,
    pub identification: u32,
}

impl Ipv6Fragment {
    pub const PROTOCOL_NUMBER: u8 = 44;

    /// `b` is the extension's 8 bytes and `self` holds what they encode.
    pub open spec fn parsed_from(&self, b: Seq<u8>) -> bool {
        &&& b.len() == 8
        &&& self.next_header == b[0]
        &&& self.reserved == b[1]
        &&& self.fragment_offset == b[2] * 32 + (b[3] >> 3)
        &&& self.res == (b[3] & 0x06) >> 1
        &&& self.m_flag == (b[3] & 0x01 == 1)
        &&& self.identification == be32(b[4], b[5], b[6], b[7])
    }

    /// Decodes the extension at the reader's position.
    pub fn new<'a>(packet_reader: &mut PacketReader<'a>) -> (res: Result<Self, ReadError>)
        ensures
            final(packet_reader).data() == old(packet_reader).data(),
            ({
                let d = old(packet_reader).data();
                let p = old(packet_reader).pos();
                match res {
                    Ok(h) => need(d, p, 8) is None && h.parsed_from(d.subrange(p, p + 8))
                        && final(packet_reader).pos() == p + 8,
                    Err(e) => need(d, p, 8) == Some(e),
                }
            }),
    {
        let bytes = match packet_reader.read(8) {
            Ok(b) => b,
            Err(e) => return Err(e),
        };
        let b3 = bytes[3];
        assert(b3 >> 3 <= 31) by (bit_vector);
        Ok(Ipv6Fragment {
            next_header: bytes[0],
            reserved: bytes[1],
            fragment_offset: (bytes[2] as u16) * 32 + ((b3 >> 3) as u16),
            res: (b3 & 0x06) >> 1,
            m_flag: b3 & 0x01 == 1,
            identification: read_be32(bytes, 4),
        })
    }
}

/// The fragment offset is the 13 high bits of bytes 2 and 3, and the M flag
/// is the low bit of byte 3.
pub proof fn lemma_fragment_fields(f: Ipv6Fragment, b: Seq<u8>)
    requires
        f.parsed_from(b),
    ensures
        f.fragment_offset < 0x2000,
        f.fragment_offset == be16(b[2], b[3]) / 8,
        f.m_flag == (b[3] % 2 == 1),
{
    let b3 = b[3];
    assert(b3 >> 3 == b3 / 8 && b3 & 0x01 == b3 % 2) by (bit_vector);
    assert((b[2] * 256 + b3) / 8 == b[2] * 32 + b3 / 8) by (nonlinear_arith);
}

/// The Destination Options extension; its options are skipped.
pub struct Ipv6DestinationOptions {
    pub next_header: u8,
    pub hdr_ext_len: u8,
    pub options: Vec<Ipv6ExtensionOptions>,
}

impl Ipv6DestinationOptions {
    /// `self` and `o` hold the same values, field by field.
    pub open spec fn same_as(&self, o: &Self) -> bool {
        &&& self.next_header == o.next_header
        &&& self.hdr_ext_len == o.hdr_ext_len
        &&& self.options@ == o.options@
    }

    pub const PROTOCOL_NUMBER: u8 = 60;

    /// `b` is the whole extension and `self` holds what it encodes.
    pub open spec fn parsed_from(&self, b: Seq<u8>) -> bool {
        &&& b.len() >= 2
        &&& self.next_header == b[0]
        &&& self.hdr_ext_len == b[1]
        &&& b.len() == self.hdr_ext_len * 8 + 8
        &&& self.options@.len() == 0
    }

    /// Decodes the extension at the reader's position, skipping its options.
    pub fn new<'a>(packet_reader: &mut PacketReader<'a>) -> (res: Result<Self, ReadError>)
        ensures
            final(packet_reader).data() == old(packet_reader).data(),
            ({
                let d = old(packet_reader).data();
                let p = old(packet_reader).pos();
                match res {
                    Ok(h) => counted_ext_error(d, p, 2, 6) is None
                        && h.parsed_from(d.subrange(p, p + counted_ext_size(d, p)))
                        && final(packet_reader).pos() == p + counted_ext_size(d, p),
                    Err(e) => counted_ext_error(d, p, 2, 6) == Some(e),
                }
            }),
    {
        let bytes = match packet_reader.read(2) {
            Ok(b) => b,
            Err(e) => return Err(e),
        };
        let hdr_ext_len = bytes[1];
        let read_len = (hdr_ext_len as usize) * 8 + 6;
        match packet_reader.read(read_len) {
            Ok(_) => {},
            Err(e) => return Err(e),
        }
        Ok(Ipv6DestinationOptions { next_header: bytes[0], hdr_ext_len, options: Vec::new() })
    }
}

/// The Routing extension; its type-specific data is skipped.
pub struct Ipv6Routing {
    pub next_header: u8,
    pub hdr_ext_len: u8,
    pub routing_type: u8,
    pub segments_left: u8,
    pub type_specific_data: Vec<u8>,
}

impl Ipv6Routing {
    /// `self` and `o` hold the same values, field by field.
    pub open spec fn same_as(&self, o: &Self) -> bool {
        &&& self.next_header == o.next_header
        &&& self.hdr_ext_len == o.hdr_ext_len
        &&& self.routing_type == o.routing_type
        &&& self.segments_left == o.segments_left
        &&& self.type_specific_data@ == o.type_specific_data@
    }

    pub const PROTOCOL_NUMBER: u8 = 43;

    /// `b` is the whole extension and `self` holds what it encodes.
    pub open spec fn parsed_from(&self, b: Seq<u8>) -> bool {
        &&& b.len() >= 4
        &&& self.next_header == b[0]
        &&& self.hdr_ext_len == b[1]
        &&& self.routing_type == b[2]
        &&& self.segments_left == b[3]
        &&& b.len() == self.hdr_ext_len * 8 + 8
        &&& self.type_specific_data@.len() == 0
    }

    /// Decodes the extension at the reader's position, skipping its data.
    pub fn new<'a>(packet_reader: &mut PacketReader<'a>) -> (res: Result<Self, ReadError>)
        ensures
            final(packet_reader).data() == old(packet_reader).data(),
            ({
                let d = old(packet_reader).data();
                let p = old(packet_reader).pos();
                match res {
                    Ok(h) => counted_ext_error(d, p, 4, 4) is None
                        && h.parsed_from(d.subrange(p, p + counted_ext_size(d, p)))
                        && final(packet_reader).pos() == p + counted_ext_size(d, p),
                    Err(e) => counted_ext_error(d, p, 4, 4) == Some(e),
                }
            }),
    {
        let bytes = match packet_reader.read(4) {
            Ok(b) => b,
            Err(e) => return Err(e),
        };
        let hdr_ext_len = bytes[1];
        let read_len = (hdr_ext_len as usize) * 8 + 4;
        match packet_reader.read(read_len) {
            Ok(_) => {},
            Err(e) => return Err(e),
        }
        Ok(
            Ipv6Routing {
                next_header: bytes[0],
                hdr_ext_len,
                routing_type: bytes[2],
                segments_left: bytes[3],
                type_specific_data: Vec::new(),
            },
        )
    }
}

/// Why decoding an Authentication extension at `p` of `d` fails, if it does.
pub open spec fn authentication_error(d: Seq<u8>, p: int) -> Option<ReadError> {
    if need(d, p, 12) is Some {
        need(d, p, 12)
    } else if d[p + 1] == 0 {
        Some(ReadError::CouldntParse)
    } else {
        need(d, p + 12, (d[p + 1] - 1) * 4)
    }
}

/// How many bytes an Authentication extension at `p` of `d` takes.
pub open spec fn authentication_size(d: Seq<u8>, p: int) -> int {
    12 + (d[p + 1] - 1) * 4
}

/// The Authentication extension, with its integrity check value.
pub struct Ipv6Authentication {
    pub next_header: u8,
    pub payload_len: u8,
    pub reserved: u16,
    pub spi: u32,
    pub seq_num: u32,
    pub icv: Vec<u8>,
}

impl Ipv6Authentication {
    /// `self` and `o` hold the same values, field by field.
    pub open spec fn same_as(&self, o: &Self) -> bool {
        &&& self.next_header == o.next_header
        &&& self.payload_len == o.payload_len
        &&& self.reserved == o.reserved
        &&& self.spi == o.spi
        &&& self.seq_num == o.seq_num
        &&& self.icv@ == o.icv@
    }

    pub const PROTOCOL_NUMBER: u8 = 51;

    /// `b` is the whole extension and `self` holds what it encodes.
    pub open spec fn parsed_from(&self, b: Seq<u8>) -> bool {
        &&& b.len() >= 12
        &&& self.next_header == b[0]
        &&& self.payload_len == b[1]
        &&& b.len() == 12 + (self.payload_len - 1) * 4
        &&& self.reserved == be16(b[2], b[3])
        &&& self.spi == be32(b[4], b[5], b[6], b[7])
        &&& self.seq_num == be32(b[8], b[9], b[10], b[11])
        &&& self.icv@ == b.subrange(12, b.len() as int)
    }

    /// Decodes the extension at the reader's position.
    pub fn new<'a>(packet_reader: &mut PacketReader<'a>) -> (res: Result<Self, ReadError>)
        ensures
            final(packet_reader).data() == old(packet_reader).data(),
            ({
                let d = old(packet_reader).data();
                let p = old(packet_reader).pos();
                match res {
                    Ok(h) => authentication_error(d, p) is None
                        && h.parsed_from(d.subrange(p, p + authentication_size(d, p)))
                        && final(packet_reader).pos() == p + authentication_size(d, p),
                    Err(e) => authentication_error(d, p) == Some(e),
                }
            }),
    {
        let ghost d = packet_reader.data();
        let ghost p = packet_reader.pos();
        let bytes = match packet_reader.read(12) {
            Ok(b) => b,
            Err(e) => return Err(e),
        };
        let payload_len = bytes[1];
        if payload_len == 0 {
            return Err(ReadError::CouldntParse);
        }
        let read_len = (payload_len as usize - 1) * 4;
        let icv = match packet_reader.read(read_len) {
            Ok(b) => vstd::slice::slice_to_vec(b),
            Err(e) => return Err(e),
        };
        let h = Ipv6Authentication {
            next_header: bytes[0],
            payload_len,
            reserved: read_be16(bytes, 2),
            spi: read_be32(bytes, 4),
            seq_num: read_be32(bytes, 8),
            icv,
        };
        let ghost hb = d.subrange(p, p + authentication_size(d, p));
        assert(hb.subrange(12, hb.len() as int) =~= h.icv@);
        Ok(h)
    }
}

/// The Encapsulating Security Payload extension, which is not decoded.
pub struct Ipv6EncapsulatingSecurityPayload {}

impl Ipv6EncapsulatingSecurityPayload {
    pub const PROTOCOL_NUMBER: u8 = 50;

    /// Always fails: this extension's body is not decoded, and the reader
    /// does not move.
    pub fn new<'a>(packet_reader: &mut PacketReader<'a>) -> (res: Result<Self, ReadError>)
        ensures
            *final(packet_reader) == *old(packet_reader),
            res == Err::<Self, ReadError>(ReadError::UnsupportedIpExtension),
    {
        Err(ReadError::UnsupportedIpExtension)
    }
}

/// Why decoding an extension option at `p` of `d` fails, if it does.
pub open spec fn option_error(d: Seq<u8>, p: int) -> Option<ReadError> {
    need2(d, p, 16, (d[p + 1] / 8) as int)
}

/// One option of a Hop-by-Hop or Destination Options extension.
pub struct Ipv6ExtensionOptions {
    pub option_type: u8,
    pub opt_data_len: u8,
    pub option_data: Vec<u8>,
}

impl Ipv6ExtensionOptions {
    /// `b` is the whole option and `self` holds what it encodes.
    pub open spec fn parsed_from(&self, b: Seq<u8>) -> bool {
        &&& b.len() >= 16
        &&& self.option_type == b[0]
        &&& self.opt_data_len == b[1]
        &&& b.len() == 16 + self.opt_data_len / 8
        &&& self.option_data@ == b.subrange(16, b.len() as int)
    }

    /// Decodes the option at the reader's position.
    pub fn new<'a>(packet_reader: &mut PacketReader<'a>) -> (res: Result<Self, ReadError>)
        ensures
            final(packet_reader).data() == old(packet_reader).data(),
            ({
                let d = old(packet_reader).data();
                let p = old(packet_reader).pos();
                match res {
                    Ok(h) => option_error(d, p) is None
                        && h.parsed_from(d.subrange(p, p + 16 + d[p + 1] / 8))
                        && final(packet_reader).pos() == p + 16 + d[p + 1] / 8,
                    Err(e) => option_error(d, p) == Some(e),
                }
            }),
    {
        let ghost d = packet_reader.data();
        let ghost p = packet_reader.pos();
        let bytes = match packet_reader.read(16) {
            Ok(b) => b,
            Err(e) => return Err(e),
        };
        let opt_data_len = bytes[1];
        let option_data = match packet_reader.read(opt_data_len as usize / 8) {
            Ok(b) => vstd::slice::slice_to_vec(b),
            Err(e) => return Err(e),
        };
        let h = Ipv6ExtensionOptions { option_type: bytes[0], opt_data_len, option_data };
        let ghost hb = d.subrange(p, p + 16 + d[p + 1] / 8);
        assert(hb.subrange(16, hb.len() as int) =~= h.option_data@);
        Ok(h)
    }
}

} // verus!
