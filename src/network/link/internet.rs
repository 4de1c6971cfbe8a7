use vstd::prelude::*;

use crate::network::packet::PacketReader;
use crate::network::{need, ReadError};
use ipv4::{ipv4_error, ipv4_size, Ipv4Header};
use ipv6::{
    authentication_error, authentication_size, counted_ext_error, counted_ext_size,
    Ipv6Authentication, Ipv6DestinationOptions, Ipv6EncapsulatingSecurityPayload, Ipv6Fragment,
    Ipv6HopByHopOptions, Ipv6Header, Ipv6Routing,
};

pub mod ipv4;
pub mod ipv6;
pub mod transport;

verus! {

/// The network-layer header.
pub enum IpHeader {
    V4Header(Ipv4Header),
    V6Header(Ipv6Header),
}

/// Why decoding a network header of `version` at `p` of `d` fails, if it does.
pub open spec fn ip_error(version: u8, d: Seq<u8>, p: int) -> Option<ReadError> {
    if version == 4 {
        ipv4_error(d, p)
    } else if version == 6 {
        need(d, p, 40)
    } else {
        Some(ReadError::IPUnexpectedVersion(version))
    }
}

/// How many bytes a network header of `version` at `p` of `d` takes.
pub open spec fn ip_size(version: u8, d: Seq<u8>, p: int) -> int {
    if version == 4 {
        ipv4_size(d, p)
    } else {
        40
    }
}

impl IpHeader {
    /// `self` and `o` hold the same values, field by field.
    pub open spec fn same_as(&self, o: &Self) -> bool {
        match (self, o) {
            (IpHeader::V4Header(a), IpHeader::V4Header(b)) => a.same_as(b),
            (IpHeader::V6Header(a), IpHeader::V6Header(b)) => a.same_as(b),
            _ => false,
        }
    }

    /// `b` is the whole header and `self` holds what it encodes for `version`.
    pub open spec fn parsed_from(&self, version: u8, b: Seq<u8>) -> bool {
        match self {
            IpHeader::V4Header(h) => version == 4 && h.parsed_from(b),
            IpHeader::V6Header(h) => version == 6 && h.parsed_from(b),
        }
    }

    /// Two headers decoded from the same bytes hold the same values.
    pub proof fn lemma_parsed_unique(&self, o: &Self, version: u8, b: Seq<u8>)
        requires
            self.parsed_from(version, b),
            o.parsed_from(version, b),
        ensures
            self.same_as(o),
    {
    }

    /// The header's length in bytes; IPv6 extensions are not counted.
    pub open spec fn spec_len(&self) -> int {
        match self {
            IpHeader::V4Header(h) => h.ihl * 4,
            IpHeader::V6Header(_) => 40,
        }
    }

    /// The protocol id that follows the header.
    pub open spec fn spec_protocol(&self) -> u8 {
        match self {
            IpHeader::V4Header(h) => h.protocol,
            IpHeader::V6Header(h) => h.next_header,
        }
    }

    /// Decodes the header of `version` (4 or 6) at the reader's position.
    pub fn new<'a>(version: u8, packet_reader: &mut PacketReader<'a>) -> (res: Result<IpHeader, ReadError>)
        ensures
            final(packet_reader).data() == old(packet_reader).data(),
            ({
                let d = old(packet_reader).data();
                let p = old(packet_reader).pos();
                match res {
                    Ok(h) => ip_error(version, d, p) is None
                        && h.parsed_from(version, d.subrange(p, p + ip_size(version, d, p)))
                        && final(packet_reader).pos() == p + ip_size(version, d, p),
                    Err(e) => ip_error(version, d, p) == Some(e),
                }
            }),
    {
        if version == 4 {
            match Ipv4Header::new(packet_reader) {
                Ok(h) => Ok(IpHeader::V4Header(h)),
                Err(e) => Err(e),
            }
        } else if version == 6 {
            match Ipv6Header::new(packet_reader) {
                Ok(h) => Ok(IpHeader::V6Header(h)),
                Err(e) => Err(e),
            }
        } else {
            Err(ReadError::IPUnexpectedVersion(version))
        }
    }

    /// The header's length in bytes; IPv6 extensions are not counted.
    pub fn len(&self) -> (r: usize)
        ensures
            r == self.spec_len(),
    {
        match self {
            IpHeader::V4Header(h) => h.len(),
            IpHeader::V6Header(_) => 40,
        }
    }

    /// The protocol id that follows the header.
    pub fn protocol(&self) -> (r: u8)
        ensures
            r == self.spec_protocol(),
    {
        match self {
            IpHeader::V4Header(h) => h.protocol,
            IpHeader::V6Header(h) => h.next_header,
        }
    }
}

/// An extension of the network header.
pub enum IpExtension {
    Ipv4Extension(Ipv4Extension),
    Ipv6Extension(Ipv6Extension),
}

/// IPv4 has no extension headers (its options stay in the header), so the
/// decoders never produce this.
pub struct Ipv4Extension {}

/// The IPv6 extension headers.
pub enum Ipv6Extension {
    HopByHopOptions(Ipv6HopByHopOptions),
    Fragment(Ipv6Fragment),
    DestinationOptions(Ipv6DestinationOptions),
    Routing(Ipv6Routing),
    Authentication(Ipv6Authentication),
    EncapsulatingSecurityPayload(Ipv6EncapsulatingSecurityPayload),
}

/// Why decoding the extension `next_header` at `p` of `d` fails, if it does.
pub open spec fn ext_error(next_header: u8, d: Seq<u8>, p: int) -> Option<ReadError> {
    if next_header == 0 || next_header == 60 {
        counted_ext_error(d, p, 2, 6)
    } else if next_header == 43 {
        counted_ext_error(d, p, 4, 4)
    } else if next_header == 44 {
        need(d, p, 8)
    } else if next_header == 51 {
        authentication_error(d, p)
    } else {
        Some(ReadError::UnsupportedIpExtension)
    }
}

/// How many bytes the extension `next_header` at `p` of `d` takes.
pub open spec fn ext_size(next_header: u8, d: Seq<u8>, p: int) -> int {
    if next_header == 0 || next_header == 60 || next_header == 43 {
        counted_ext_size(d, p)
    } else if next_header == 44 {
        8
    } else if next_header == 51 {
        authentication_size(d, p)
    } else {
        0
    }
}

/// An extension that decodes takes at least one byte, all of them in `d`.
pub proof fn lemma_ext_size(next_header: u8, d: Seq<u8>, p: int)
    requires
        ext_error(next_header, d, p) is None,
    ensures
        0 < ext_size(next_header, d, p),
        p + ext_size(next_header, d, p) <= d.len(),
{
}

/// Whether the chain goes on past an extension `next_header` at `p` of `d`.
pub open spec fn chain_continues(next_header: u8, d: Seq<u8>, p: int) -> bool {
    ext_error(next_header, d, p) is None && 0 < ext_size(next_header, d, p) && p + ext_size(
        next_header,
        d,
        p,
    ) <= d.len()
}

/// Why decoding the extension chain that starts with `next_header` at `p` of
/// `d` fails, if it does. An id that names no implemented extension ends the
/// chain without failing.
pub open spec fn chain_error(next_header: u8, d: Seq<u8>, p: int) -> Option<ReadError>
    decreases d.len() - p,
{
    if chain_continues(next_header, d, p) {
        chain_error(d[p], d, p + ext_size(next_header, d, p))
    } else if ext_error(next_header, d, p) == Some(ReadError::UnsupportedIpExtension) {
        None
    } else {
        ext_error(next_header, d, p)
    }
}

/// The protocol id that ends the chain and the position right after it.
pub open spec fn chain_end(next_header: u8, d: Seq<u8>, p: int) -> (u8, int)
    decreases d.len() - p,
{
    if chain_continues(next_header, d, p) {
        chain_end(d[p], d, p + ext_size(next_header, d, p))
    } else {
        (next_header, p)
    }
}

/// The id and start of each extension of the chain, in order.
pub open spec fn chain_items(next_header: u8, d: Seq<u8>, p: int) -> Seq<(u8, int)>
    decreases d.len() - p,
{
    if chain_continues(next_header, d, p) {
        seq![(next_header, p)] + chain_items(d[p], d, p + ext_size(next_header, d, p))
    } else {
        Seq::empty()
    }
}

/// Each of `exts` holds what the extension at the same place of `items` encodes.
pub open spec fn exts_parsed_from(exts: Seq<IpExtension>, items: Seq<(u8, int)>, d: Seq<u8>) -> bool {
    &&& exts.len() == items.len()
    &&& forall|i: int|
        0 <= i < exts.len() ==> #[trigger] exts[i].parsed_from(
            items[i].0,
            d.subrange(items[i].1, items[i].1 + ext_size(items[i].0, d, items[i].1)),
        )
}

impl IpExtension {
    /// `self` and `o` hold the same values, field by field.
    pub open spec fn same_as(&self, o: &Self) -> bool {
        match (self, o) {
            (
                IpExtension::Ipv6Extension(Ipv6Extension::HopByHopOptions(a)),
                IpExtension::Ipv6Extension(Ipv6Extension::HopByHopOptions(b)),
            ) => a.same_as(b),
            (
                IpExtension::Ipv6Extension(Ipv6Extension::Routing(a)),
                IpExtension::Ipv6Extension(Ipv6Extension::Routing(b)),
            ) => a.same_as(b),
            (
                IpExtension::Ipv6Extension(Ipv6Extension::Fragment(a)),
                IpExtension::Ipv6Extension(Ipv6Extension::Fragment(b)),
            ) => a == b,
            (
                IpExtension::Ipv6Extension(Ipv6Extension::DestinationOptions(a)),
                IpExtension::Ipv6Extension(Ipv6Extension::DestinationOptions(b)),
            ) => a.same_as(b),
            (
                IpExtension::Ipv6Extension(Ipv6Extension::Authentication(a)),
                IpExtension::Ipv6Extension(Ipv6Extension::Authentication(b)),
            ) => a.same_as(b),
            _ => false,
        }
    }

    /// `b` is the whole extension and `self` holds what it encodes for `next_header`.
    pub open spec fn parsed_from(&self, next_header: u8, b: Seq<u8>) -> bool {
        match self {
            IpExtension::Ipv6Extension(Ipv6Extension::HopByHopOptions(e)) => next_header == 0
                && e.parsed_from(b),
            IpExtension::Ipv6Extension(Ipv6Extension::Routing(e)) => next_header == 43
                && e.parsed_from(b),
            IpExtension::Ipv6Extension(Ipv6Extension::Fragment(e)) => next_header == 44
                && e.parsed_from(b),
            IpExtension::Ipv6Extension(Ipv6Extension::DestinationOptions(e)) => next_header == 60
                && e.parsed_from(b),
            IpExtension::Ipv6Extension(Ipv6Extension::Authentication(e)) => next_header == 51
                && e.parsed_from(b),
            _ => false,
        }
    }

    /// Whether the extension records the id of the header after it.
    pub open spec fn has_next_header(&self) -> bool {
        match self {
            IpExtension::Ipv6Extension(Ipv6Extension::EncapsulatingSecurityPayload(_)) => false,
            IpExtension::Ipv6Extension(_) => true,
            IpExtension::Ipv4Extension(_) => false,
        }
    }

    /// The id of the header after this extension.
    pub open spec fn spec_next_header(&self) -> u8 {
        match self {
            IpExtension::Ipv6Extension(Ipv6Extension::HopByHopOptions(e)) => e.next_header,
            IpExtension::Ipv6Extension(Ipv6Extension::Routing(e)) => e.next_header,
            IpExtension::Ipv6Extension(Ipv6Extension::Fragment(e)) => e.next_header,
            IpExtension::Ipv6Extension(Ipv6Extension::DestinationOptions(e)) => e.next_header,
            IpExtension::Ipv6Extension(Ipv6Extension::Authentication(e)) => e.next_header,
            _ => 0,
        }
    }

    /// Two extensions decoded from the same bytes hold the same values.
    pub proof fn lemma_parsed_unique(&self, o: &Self, next_header: u8, b: Seq<u8>)
        requires
            self.parsed_from(next_header, b),
            o.parsed_from(next_header, b),
        ensures
            self.same_as(o),
    {
        match (self, o) {
            (
                IpExtension::Ipv6Extension(Ipv6Extension::HopByHopOptions(x)),
                IpExtension::Ipv6Extension(Ipv6Extension::HopByHopOptions(y)),
            ) => {
                assert(x.options@ =~= y.options@);
            },
            (
                IpExtension::Ipv6Extension(Ipv6Extension::DestinationOptions(x)),
                IpExtension::Ipv6Extension(Ipv6Extension::DestinationOptions(y)),
            ) => {
                assert(x.options@ =~= y.options@);
            },
            (
                IpExtension::Ipv6Extension(Ipv6Extension::Routing(x)),
                IpExtension::Ipv6Extension(Ipv6Extension::Routing(y)),
            ) => {
                assert(x.type_specific_data@ =~= y.type_specific_data@);
            },
            _ => {},
        }
    }

    /// A decoded extension names the next header in its first byte.
    pub proof fn lemma_next_header(&self, next_header: u8, b: Seq<u8>)
        requires
            self.parsed_from(next_header, b),
        ensures
            self.has_next_header(),
            self.spec_next_header() == b[0],
    {
    }

    /// Decodes the extension `next_header` at the reader's position. An id
    /// that names no implemented extension fails with `UnsupportedIpExtension`
    /// and leaves the reader where it was.
    pub fn new<'a>(next_header: u8, packet_reader: &mut PacketReader<'a>) -> (res: Result<IpExtension, ReadError>)
        ensures
            final(packet_reader).data() == old(packet_reader).data(),
            ({
                let d = old(packet_reader).data();
                let p = old(packet_reader).pos();
                match res {
                    Ok(x) => ext_error(next_header, d, p) is None
                        && x.parsed_from(next_header, d.subrange(p, p + ext_size(next_header, d, p)))
                        && final(packet_reader).pos() == p + ext_size(next_header, d, p),
                    Err(e) => ext_error(next_header, d, p) == Some(e)
                        && (e == ReadError::UnsupportedIpExtension ==> final(packet_reader).pos() == p),
                }
            }),
    {
        if next_header == Ipv6HopByHopOptions::PROTOCOL_NUMBER {
            match Ipv6HopByHopOptions::new(packet_reader) {
                Ok(e) => Ok(IpExtension::Ipv6Extension(Ipv6Extension::HopByHopOptions(e))),
                Err(e) => Err(e),
            }
        } else if next_header == Ipv6Routing::PROTOCOL_NUMBER {
            match Ipv6Routing::new(packet_reader) {
                Ok(e) => Ok(IpExtension::Ipv6Extension(Ipv6Extension::Routing(e))),
                Err(e) => Err(e),
            }
        } else if next_header == Ipv6Fragment::PROTOCOL_NUMBER {
            match Ipv6Fragment::new(packet_reader) {
                Ok(e) => Ok(IpExtension::Ipv6Extension(Ipv6Extension::Fragment(e))),
                Err(e) => Err(e),
            }
        } else if next_header == Ipv6DestinationOptions::PROTOCOL_NUMBER {
            match Ipv6DestinationOptions::new(packet_reader) {
                Ok(e) => Ok(IpExtension::Ipv6Extension(Ipv6Extension::DestinationOptions(e))),
                Err(e) => Err(e),
            }
        } else if next_header == Ipv6Authentication::PROTOCOL_NUMBER {
            match Ipv6Authentication::new(packet_reader) {
                Ok(e) => Ok(IpExtension::Ipv6Extension(Ipv6Extension::Authentication(e))),
                Err(e) => Err(e),
            }
        } else {
            Err(ReadError::UnsupportedIpExtension)
        }
    }

    /// Decodes the chain of extensions that starts with `next_header`, up to
    /// the first id that names no implemented extension; returns that id and
    /// the extensions in order. A failure inside an implemented extension is
    /// returned as it is.
    pub fn list<'a>(next_header: u8, packet_reader: &mut PacketReader<'a>) -> (res: Result<(u8, Vec<IpExtension>), ReadError>)
        ensures
            final(packet_reader).data() == old(packet_reader).data(),
            ({
                let d = old(packet_reader).data();
                let p = old(packet_reader).pos();
                match res {
                    Ok((t, exts)) => chain_error(next_header, d, p) is None
                        && t == chain_end(next_header, d, p).0
                        && final(packet_reader).pos() == chain_end(next_header, d, p).1
                        && exts_parsed_from(exts@, chain_items(next_header, d, p), d),
                    Err(e) => chain_error(next_header, d, p) == Some(e),
                }
            }),
    {
        let ghost d = packet_reader.data();
        let ghost p0 = packet_reader.pos();
        let mut current = next_header;
        let mut res: Vec<IpExtension> = Vec::new();
        let ghost mut items: Seq<(u8, int)> = Seq::empty();
        proof {
            use_type_invariant(&*packet_reader);
            packet_reader.lemma_in_bounds();
            assert(items + chain_items(current, d, p0) =~= chain_items(current, d, p0));
        }
        loop
            invariant
                d == old(packet_reader).data(),
                p0 == old(packet_reader).pos(),
                packet_reader.data() == d,
                packet_reader.pos() <= d.len(),
                chain_error(next_header, d, p0) == chain_error(current, d, packet_reader.pos()),
                chain_end(next_header, d, p0) == chain_end(current, d, packet_reader.pos()),
                chain_items(next_header, d, p0) == items + chain_items(current, d, packet_reader.pos()),
                exts_parsed_from(res@, items, d),
            ensures
                d == old(packet_reader).data(),
                p0 == old(packet_reader).pos(),
                packet_reader.data() == d,
                chain_error(next_header, d, p0) is None,
                chain_end(next_header, d, p0) == (current, packet_reader.pos()),
                chain_items(next_header, d, p0) == items,
                exts_parsed_from(res@, items, d),
            decreases d.len() - packet_reader.pos(),
        {
            let ghost p = packet_reader.pos();
            match IpExtension::new(current, packet_reader) {
                Ok(ext) => {
                    proof {
                        lemma_ext_size(current, d, p);
                        ext.lemma_next_header(current, d.subrange(p, p + ext_size(current, d, p)));
                        assert(chain_continues(current, d, p));
                        let rest = chain_items(d[p], d, p + ext_size(current, d, p));
                        assert(items + (seq![(current, p)] + rest) =~= items.push((current, p)) + rest);
                        items = items.push((current, p));
                    }
                    let next = ext.next_header();
                    res.push(ext);
                    current = next;
                },
                Err(ReadError::UnsupportedIpExtension) => {
                    proof {
                        assert(chain_items(current, d, p) =~= Seq::empty());
                        assert(items + chain_items(current, d, p) =~= items);
                    }
                    break ;
                },
                Err(e) => {
                    return Err(e);
                },
            }
        }
        Ok((current, res))
    }

    /// The id of the header after this extension.
    pub fn next_header(&self) -> (r: u8)
        requires
            self.has_next_header(),
        ensures
            r == self.spec_next_header(),
    {
        match self {
            IpExtension::Ipv6Extension(Ipv6Extension::HopByHopOptions(e)) => e.next_header,
            IpExtension::Ipv6Extension(Ipv6Extension::Routing(e)) => e.next_header,
            IpExtension::Ipv6Extension(Ipv6Extension::Fragment(e)) => e.next_header,
            IpExtension::Ipv6Extension(Ipv6Extension::DestinationOptions(e)) => e.next_header,
            IpExtension::Ipv6Extension(Ipv6Extension::Authentication(e)) => e.next_header,
            _ => 0,
        }
    }
}

} // verus!
