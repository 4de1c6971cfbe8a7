use vstd::prelude::*;

use crate::network::ethernet2::Ethernet2Header;
use crate::network::link::internet::ipv4::ipv4_size;
use crate::network::link::internet::transport::application::ApplicationHeader;
use crate::network::link::internet::transport::{transport_error, transport_size, TransportHeader};
use crate::network::link::internet::{
    chain_continues, chain_end, chain_error, chain_items, ext_size, exts_parsed_from, ip_error, ip_size, IpExtension, IpHeader,
};
use crate::network::{be16, need, ReadError};

verus! {

/// A decoded frame: every header from the link layer up.
pub struct Packet {
    pub lp_header: Ethernet2Header,
    pub ip_header: IpHeader,
    pub ip_extensions: Vec<IpExtension>,
    pub tp_header: TransportHeader,
    pub ap_header: ApplicationHeader,
}

/// The version nibble of the frame's network header.
pub open spec fn ip_version(d: Seq<u8>) -> u8 {
    d[14] >> 4
}

/// The protocol id that the frame's network header names (its byte 9 for
/// IPv4, its byte 6 for IPv6).
pub open spec fn ip_protocol(d: Seq<u8>) -> u8 {
    if ip_version(d) == 4 {
        d[23]
    } else {
        d[20]
    }
}

/// Where the network header of the frame ends.
pub open spec fn ip_end(d: Seq<u8>) -> int {
    14 + ip_size(ip_version(d), d, 14)
}

/// The protocol id that selects the frame's transport header: after the
/// extension chain for IPv6, straight from the header for IPv4.
pub open spec fn transport_id(d: Seq<u8>) -> u8 {
    if ip_version(d) == 6 {
        chain_end(ip_protocol(d), d, ip_end(d)).0
    } else {
        ip_protocol(d)
    }
}

/// Where the frame's transport header starts.
pub open spec fn transport_start(d: Seq<u8>) -> int {
    if ip_version(d) == 6 {
        chain_end(ip_protocol(d), d, ip_end(d)).1
    } else {
        ip_end(d)
    }
}

/// Why decoding the frame `d` fails: the first failure in layer order, if any.
pub open spec fn frame_error(d: Seq<u8>) -> Option<ReadError> {
    if need(d, 0, 14) is Some {
        need(d, 0, 14)
    } else if need(d, 14, 1) is Some {
        need(d, 14, 1)
    } else if ip_error(ip_version(d), d, 14) is Some {
        ip_error(ip_version(d), d, 14)
    } else if ip_version(d) == 6 && chain_error(ip_protocol(d), d, ip_end(d)) is Some {
        chain_error(ip_protocol(d), d, ip_end(d))
    } else {
        transport_error(transport_id(d), d, transport_start(d))
    }
}

impl Packet {
    /// `self` and `o` hold the same values, field by field.
    pub open spec fn same_as(&self, o: &Packet) -> bool {
        &&& self.lp_header.same_as(&o.lp_header)
        &&& self.ip_header.same_as(&o.ip_header)
        &&& self.ip_extensions@.len() == o.ip_extensions@.len()
        &&& forall|i: int|
            0 <= i < self.ip_extensions@.len() ==> #[trigger] self.ip_extensions@[i].same_as(
                &o.ip_extensions@[i],
            )
        &&& self.tp_header.same_as(&o.tp_header)
        &&& self.ap_header == o.ap_header
    }

    /// `self` holds what the frame `d` encodes, layer by layer.
    pub open spec fn parsed_from(&self, d: Seq<u8>) -> bool {
        &&& self.lp_header.parsed_from(d.subrange(0, 14))
        &&& self.ip_header.parsed_from(ip_version(d), d.subrange(14, ip_end(d)))
        &&& ip_version(d) == 6 ==> exts_parsed_from(
            self.ip_extensions@,
            chain_items(ip_protocol(d), d, ip_end(d)),
            d,
        )
        &&& ip_version(d) == 4 ==> self.ip_extensions@.len() == 0
        &&& self.tp_header.parsed_from(
            transport_id(d),
            d.subrange(
                transport_start(d),
                transport_start(d) + transport_size(transport_id(d), d, transport_start(d)),
            ),
        )
        &&& self.ap_header == ApplicationHeader::Default
    }

    /// Decodes a whole Ethernet II frame; the first failure in layer order
    /// ends the decode.
    pub fn from_ethernet_bytes(bytes: &[u8]) -> (res: Result<Packet, ReadError>)
        ensures
            match res {
                Ok(pk) => frame_error(bytes@) is None && pk.parsed_from(bytes@),
                Err(e) => frame_error(bytes@) == Some(e),
            },
    {
        let ghost d = bytes@;
        let mut packet_reader = PacketReader::new(bytes);
        let lp_header = match Ethernet2Header::new(&mut packet_reader) {
            Ok(h) => h,
            Err(e) => return Err(e),
        };
        let first = match packet_reader.peek(1) {
            Ok(s) => s[0],
            Err(e) => return Err(e),
        };
        let ip_header = match IpHeader::new(first >> 4, &mut packet_reader) {
            Ok(h) => h,
            Err(e) => return Err(e),
        };
        let (protocol, ip_extensions) = match ip_header {
            IpHeader::V6Header(_) => match IpExtension::list(ip_header.protocol(), &mut packet_reader) {
                Ok(x) => x,
                Err(e) => return Err(e),
            },
            IpHeader::V4Header(_) => (ip_header.protocol(), Vec::new()),
        };
        let tp_header = match TransportHeader::new(protocol, &mut packet_reader) {
            Ok(h) => h,
            Err(e) => return Err(e),
        };
        let ap_header = match ApplicationHeader::new(&mut packet_reader) {
            Ok(h) => h,
            Err(e) => return Err(e),
        };
        Ok(Packet { lp_header, ip_header, ip_extensions, tp_header, ap_header })
    }
}

/// A frame shorter than the 14-byte link header fails to decode, short by
/// exactly the bytes that are missing, and so does the link header alone.
pub proof fn lemma_short_frame(d: Seq<u8>)
    requires
        d.len() < 14,
    ensures
        need(d, 0, 14) == Some(ReadError::DataOffsetTooSmall((14 - d.len()) as usize)),
        frame_error(d) == Some(ReadError::DataOffsetTooSmall((14 - d.len()) as usize)),
{
}

/// Decoding depends on the bytes alone: two packets decoded from the same
/// frame hold the same values.
pub proof fn lemma_decode_deterministic(d: Seq<u8>, a: Packet, b: Packet)
    requires
        a.parsed_from(d),
        b.parsed_from(d),
    ensures
        a.same_as(&b),
{
    a.ip_header.lemma_parsed_unique(&b.ip_header, ip_version(d), d.subrange(14, ip_end(d)));
    let tid = transport_id(d);
    let ts = transport_start(d);
    a.tp_header.lemma_parsed_unique(
        &b.tp_header,
        tid,
        d.subrange(ts, ts + transport_size(tid, d, ts)),
    );
    let items = chain_items(ip_protocol(d), d, ip_end(d));
    assert forall|i: int| 0 <= i < a.ip_extensions@.len() implies #[trigger] a.ip_extensions@[i].same_as(
        &b.ip_extensions@[i],
    ) by {
        if ip_version(d) == 6 {
            let (id, start) = items[i];
            a.ip_extensions@[i].lemma_parsed_unique(
                &b.ip_extensions@[i],
                id,
                d.subrange(start, start + ext_size(id, d, start)),
            );
        }
    }
}

/// A frame that ends right where its transport header should start, with a
/// transport id of TCP or UDP, fails at the transport stage with a positive
/// shortfall: the size of that header.
pub proof fn lemma_no_room_for_transport(d: Seq<u8>)
    requires
        need(d, 0, 15) is None,
        ip_error(ip_version(d), d, 14) is None,
        ip_version(d) == 6 ==> chain_error(ip_protocol(d), d, ip_end(d)) is None,
        transport_start(d) == d.len(),
        transport_id(d) == 6 || transport_id(d) == 17,
    ensures
        transport_id(d) == 6 ==> frame_error(d) == Some(ReadError::DataOffsetTooSmall(20)),
        transport_id(d) == 17 ==> frame_error(d) == Some(ReadError::DataOffsetTooSmall(8)),
{
}

/// An IPv6 frame whose chain is one Hop-by-Hop extension without option
/// words that names 59 (no next header) decodes: the chain holds that one
/// extension and ends with 59, which selects no transport header.
pub proof fn lemma_hop_by_hop_then_no_next_header(d: Seq<u8>)
    requires
        d.len() >= 62,
        ip_version(d) == 6,
        d[20] == 0,
        d[54] == 59,
        d[55] == 0,
    ensures
        frame_error(d) is None,
        chain_items(ip_protocol(d), d, ip_end(d)) == seq![(0u8, 54int)],
        transport_id(d) == 59,
        transport_start(d) == 62,
        transport_size(59, d, 62) == 0,
        forall|pk: Packet| #[trigger] pk.parsed_from(d) ==> pk.tp_header is Default,
{
    assert(ip_end(d) == 54);
    assert(chain_continues(0, d, 54));
    assert(!chain_continues(59, d, 62));
    assert(chain_items(59, d, 62) =~= Seq::<(u8, int)>::empty());
    assert(chain_items(0, d, 54) =~= seq![(0u8, 54int)]);
    assert(chain_end(59, d, 62) == (59u8, 62int));
    assert(chain_end(0, d, 54) == (59u8, 62int));
    assert(chain_error(59, d, 62) is None);
    assert(chain_error(0, d, 54) is None);
}

/// An IPv4 frame with a 20-byte network header naming TCP, followed by a
/// 20-byte TCP header, decodes to a TCP header with the ports of its first
/// four bytes and no extensions.
pub proof fn lemma_ipv4_tcp_frame(d: Seq<u8>)
    requires
        d.len() >= 54,
        d[14] == 0x45,
        d[23] == 6,
        d[46] >> 4 == 5,
    ensures
        frame_error(d) is None,
        transport_id(d) == 6,
        transport_start(d) == 34,
        forall|pk: Packet| #[trigger]
            pk.parsed_from(d) ==> {
                &&& pk.ip_extensions@.len() == 0
                &&& pk.tp_header is TCP
                &&& pk.tp_header.spec_src_port() == be16(d[34], d[35])
                &&& pk.tp_header.spec_dst_port() == be16(d[36], d[37])
            },
{
    let b = d[14];
    assert(b >> 4 == 4 && b & 0x0F == 5) by (bit_vector)
        requires
            b == 0x45,
    ;
    assert(ip_end(d) == 34);
    assert forall|pk: Packet| #[trigger] pk.parsed_from(d) implies pk.tp_header.spec_src_port() == be16(
        d[34],
        d[35],
    ) && pk.tp_header.spec_dst_port() == be16(d[36], d[37]) by {
        let tb = d.subrange(34, 34 + transport_size(6, d, 34));
        assert(tb[0] == d[34] && tb[1] == d[35] && tb[2] == d[36] && tb[3] == d[37]);
    }
}

/// A forward-only, bounds-checked reader over a byte buffer.
pub struct PacketReader<'a> {
    bytes: &'a [u8],
    position: usize,
}

impl<'a> PacketReader<'a> {
    /// The position stays within the buffer.
    #[verifier::type_invariant]
    pub closed spec fn inv(&self) -> bool {
        self.position <= self.bytes@.len()
    }

    /// The whole buffer.
    pub closed spec fn data(&self) -> Seq<u8> {
        self.bytes@
    }

    /// The offset of the next unread byte.
    pub closed spec fn offset(&self) -> nat {
        self.position as nat
    }

    /// The offset of the next unread byte, as an integer.
    pub open spec fn pos(&self) -> int {
        self.offset() as int
    }

    /// What the invariant says of the position.
    pub proof fn lemma_in_bounds(&self)
        requires
            self.inv(),
        ensures
            self.pos() <= self.data().len(),
    {
    }

    /// A reader at the start of `bytes`.
    pub fn new(bytes: &'a [u8]) -> (r: PacketReader<'a>)
        ensures
            r.data() == bytes@,
            r.pos() == 0,
    {
        PacketReader { bytes, position: 0 }
    }

    /// The next `n` bytes, without moving.
    pub fn peek(&self, n: usize) -> (r: Result<&'a [u8], ReadError>)
        ensures
            r is Err <==> need(self.data(), self.pos(), n as int) is Some,
            r matches Err(e) ==> need(self.data(), self.pos(), n as int) == Some(e),
            r matches Ok(s) ==> s@ == self.data().subrange(self.pos(), self.pos() + n),
    {
        proof {
            use_type_invariant(self);
        }
        let left = self.bytes.len() - self.position;
        if n > left {
            return Err(ReadError::DataOffsetTooSmall(n - left));
        }
        Ok(vstd::slice::slice_subrange(self.bytes, self.position, self.position + n))
    }

    /// The next `n` bytes; on success the position moves past them, on
    /// failure it stays.
    pub fn read(&mut self, n: usize) -> (r: Result<&'a [u8], ReadError>)
        ensures
            final(self).data() == old(self).data(),
            final(self).pos() <= final(self).data().len(),
            r is Err <==> need(old(self).data(), old(self).pos(), n as int) is Some,
            r matches Err(e) ==> need(old(self).data(), old(self).pos(), n as int) == Some(e)
                && final(self).pos() == old(self).pos(),
            r matches Ok(s) ==> s@ == old(self).data().subrange(old(self).pos(), old(self).pos() + n)
                && final(self).pos() == old(self).pos() + n,
    {
        proof {
            use_type_invariant(&*self);
        }
        let left = self.bytes.len() - self.position;
        if n > left {
            return Err(ReadError::DataOffsetTooSmall(n - left));
        }
        let r = vstd::slice::slice_subrange(self.bytes, self.position, self.position + n);
        self.position = self.position + n;
        Ok(r)
    }
}

} // verus!
