use packet_sniffer::network::ethernet2::Ethernet2Header;
use packet_sniffer::network::link::internet::ipv4::Ipv4Header;
use packet_sniffer::network::link::internet::ipv6::{Ipv6EncapsulatingSecurityPayload, Ipv6Fragment};
use packet_sniffer::network::link::internet::transport::application::ApplicationHeader;
use packet_sniffer::network::link::internet::transport::TransportHeader;
use packet_sniffer::network::link::internet::{IpExtension, IpHeader, Ipv6Extension};
use packet_sniffer::network::packet::{Packet, PacketReader};
use packet_sniffer::network::ReadError;

fn ethernet(ether_type: u16) -> Vec<u8> {
    let mut v = vec![1, 2, 3, 4, 5, 6, 0xA, 0xB, 0xC, 0xD, 0xE, 0xF];
    v.push((ether_type >> 8) as u8);
    v.push(ether_type as u8);
    v
}

fn ipv4(ihl: u8, protocol: u8) -> Vec<u8> {
    let mut v = vec![
        0x40 | ihl, 0b1011_0110, 0x01, 0x2C, 0xAB, 0xCD, 0b0101_1010, 0x34, 64, protocol, 0xBE, 0xEF,
        192, 168, 1, 2, 10, 0, 0, 1,
    ];
    for i in 0..(ihl as usize * 4).saturating_sub(20) {
        v.push(0x90 + i as u8);
    }
    v
}

fn ipv6(next_header: u8) -> Vec<u8> {
    let mut v = vec![0x6A, 0xB1, 0x23, 0x45, 0x00, 0x10, next_header, 255];
    for i in 0..16 {
        v.push(i as u8);
    }
    for i in 0..16 {
        v.push(0xF0 | i as u8);
    }
    v
}

fn tcp(src: u16, dst: u16, data_offset: u8, flags: u8) -> Vec<u8> {
    let mut v = vec![(src >> 8) as u8, src as u8, (dst >> 8) as u8, dst as u8];
    v.extend_from_slice(&[0x11, 0x22, 0x33, 0x44, 0x55, 0x66, 0x77, 0x88]);
    v.push((data_offset << 4) | 0x01);
    v.push(flags);
    v.extend_from_slice(&[0x10, 0x00, 0xCA, 0xFE, 0x00, 0x07]);
    for i in 0..(data_offset as usize * 4).saturating_sub(20) {
        v.push(i as u8);
    }
    v
}

fn udp(src: u16, dst: u16) -> Vec<u8> {
    vec![(src >> 8) as u8, src as u8, (dst >> 8) as u8, dst as u8, 0x00, 0x0C, 0x12, 0x34]
}

fn frame(parts: &[Vec<u8>]) -> Vec<u8> {
    parts.concat()
}

#[test]
fn short_buffers_fail_at_the_link_layer() {
    for len in 0..14usize {
        let bytes = vec![0u8; len];
        let mut reader = PacketReader::new(&bytes);
        assert_eq!(Ethernet2Header::new(&mut reader).err(), Some(ReadError::DataOffsetTooSmall(14 - len)));
        assert_eq!(Packet::from_ethernet_bytes(&bytes).err(), Some(ReadError::DataOffsetTooSmall(14 - len)));
    }
}

#[test]
fn link_header_fields() {
    let bytes = ethernet(0x86DD);
    let mut reader = PacketReader::new(&bytes);
    let h = Ethernet2Header::new(&mut reader).ok().unwrap();
    assert_eq!(h.destination, [1, 2, 3, 4, 5, 6]);
    assert_eq!(h.source, [0xA, 0xB, 0xC, 0xD, 0xE, 0xF]);
    assert_eq!(h.ether_type, 0x86DD);
    assert_eq!(reader.read(1).err(), Some(ReadError::DataOffsetTooSmall(1)));
}

#[test]
fn reader_peek_and_read() {
    let bytes = [1u8, 2, 3, 4, 5];
    let mut reader = PacketReader::new(&bytes);
    assert_eq!(reader.peek(2).ok().unwrap(), &[1, 2]);
    assert_eq!(reader.read(3).ok().unwrap(), &[1, 2, 3]);
    assert_eq!(reader.peek(5).err(), Some(ReadError::DataOffsetTooSmall(3)));
    assert_eq!(reader.read(4).err(), Some(ReadError::DataOffsetTooSmall(2)));
    assert_eq!(reader.read(2).ok().unwrap(), &[4, 5]);
    assert_eq!(reader.read(0).ok().unwrap(), &[] as &[u8]);
    assert_eq!(reader.peek(1).err(), Some(ReadError::DataOffsetTooSmall(1)));
}

#[test]
fn ipv4_without_options() {
    let bytes = ipv4(5, 6);
    let mut reader = PacketReader::new(&bytes);
    let h = Ipv4Header::new(&mut reader).ok().unwrap();
    assert!(h.options.is_empty());
    assert_eq!(h.len(), 20);
    assert_eq!(reader.peek(1).err(), Some(ReadError::DataOffsetTooSmall(1)));
}

#[test]
fn ipv4_with_one_word_of_options() {
    let mut bytes = ipv4(6, 6);
    bytes.push(0x77);
    let mut reader = PacketReader::new(&bytes);
    let h = Ipv4Header::new(&mut reader).ok().unwrap();
    assert_eq!(h.options, vec![0x90, 0x91, 0x92, 0x93]);
    assert_eq!(h.len(), 24);
    assert_eq!(reader.read(1).ok().unwrap(), &[0x77]);
}

#[test]
fn ipv4_fields() {
    let bytes = ipv4(5, 17);
    let mut reader = PacketReader::new(&bytes);
    let h = Ipv4Header::new(&mut reader).ok().unwrap();
    assert_eq!(h.ihl, 5);
    assert_eq!(h.dscp, 0b101101);
    assert_eq!(h.ecn, 0b10);
    assert_eq!(h.total_length, 300);
    assert_eq!(h.identification, 0xABCD);
    assert!(!h.flags.reserved);
    assert!(h.flags.df);
    assert!(!h.flags.mf);
    assert_eq!(h.fragment_offset, 0x1A34);
    assert_eq!(h.ttl, 64);
    assert_eq!(h.protocol, 17);
    assert_eq!(h.header_checksum, 0xBEEF);
    assert_eq!(h.src_addr, [192, 168, 1, 2]);
    assert_eq!(h.dst_addr, [10, 0, 0, 1]);
}

#[test]
fn ipv4_truncated_options() {
    let bytes = ipv4(8, 6);
    let mut reader = PacketReader::new(&bytes[..25]);
    assert_eq!(Ipv4Header::new(&mut reader).err(), Some(ReadError::DataOffsetTooSmall(7)));
}

#[test]
fn ipv4_header_length_below_five_words() {
    let mut bytes = ipv4(5, 6);
    bytes[0] = 0x44;
    let mut reader = PacketReader::new(&bytes);
    assert_eq!(Ipv4Header::new(&mut reader).err(), Some(ReadError::CouldntParse));
}

#[test]
fn ipv6_fields() {
    let bytes = ipv6(59);
    let mut reader = PacketReader::new(&bytes);
    let h = match IpHeader::new(6, &mut reader).ok().unwrap() {
        IpHeader::V6Header(h) => h,
        IpHeader::V4Header(_) => panic!("expected IPv6"),
    };
    assert_eq!(h.traffic_class, 0xAB);
    assert_eq!(h.flow_label, 0x12345);
    assert_eq!(h.payload_length, 16);
    assert_eq!(h.next_header, 59);
    assert_eq!(h.hop_limit, 255);
    assert_eq!(h.src_addr[15], 15);
    assert_eq!(h.dst_addr[0], 0xF0);
}

#[test]
fn ip_header_len_and_protocol() {
    let bytes = ipv6(17);
    let mut reader = PacketReader::new(&bytes);
    let h = IpHeader::new(6, &mut reader).ok().unwrap();
    assert_eq!(h.len(), 40);
    assert_eq!(h.protocol(), 17);
    let bytes = ipv4(7, 6);
    let mut reader = PacketReader::new(&bytes);
    let h = IpHeader::new(4, &mut reader).ok().unwrap();
    assert_eq!(h.len(), 28);
    assert_eq!(h.protocol(), 6);
}

#[test]
fn unexpected_ip_version() {
    let bytes = frame(&[ethernet(0x0800), vec![0x55; 20]]);
    assert_eq!(Packet::from_ethernet_bytes(&bytes).err(), Some(ReadError::IPUnexpectedVersion(5)));
    let mut reader = PacketReader::new(&bytes);
    assert_eq!(IpHeader::new(9, &mut reader).err(), Some(ReadError::IPUnexpectedVersion(9)));
}

#[test]
fn link_header_only_fails_on_the_version_peek() {
    let bytes = ethernet(0x0800);
    assert_eq!(Packet::from_ethernet_bytes(&bytes).err(), Some(ReadError::DataOffsetTooSmall(1)));
}

#[test]
fn tcp_flags_ack_syn() {
    let bytes = tcp(1, 2, 5, 0b0001_0010);
    let mut reader = PacketReader::new(&bytes);
    let h = match TransportHeader::new(6, &mut reader).ok().unwrap() {
        TransportHeader::TCP(h) => h,
        _ => panic!("expected TCP"),
    };
    let f = &h.flags;
    assert!(f.ack && f.syn);
    assert!(!f.cwr && !f.ece && !f.urg && !f.psh && !f.rst && !f.fin);
    assert!(f.ns);
}

#[test]
fn tcp_fields() {
    let bytes = tcp(443, 51000, 6, 0b1110_1101);
    let mut reader = PacketReader::new(&bytes);
    let h = match TransportHeader::new(6, &mut reader).ok().unwrap() {
        TransportHeader::TCP(h) => h,
        _ => panic!("expected TCP"),
    };
    assert_eq!(h.src_port, 443);
    assert_eq!(h.dst_port, 51000);
    assert_eq!(h.sequence_number, 0x11223344);
    assert_eq!(h.ack, 0x55667788);
    assert_eq!(h.data_offset, 6);
    assert_eq!(h.reserved, 0);
    assert_eq!(h.window_size, 0x1000);
    assert_eq!(h.checksum, 0xCAFE);
    assert_eq!(h.urgent_pointer, 7);
    assert_eq!(h.options, vec![0, 1, 2, 3]);
    let f = &h.flags;
    assert!(f.cwr && f.ece && f.urg && !f.ack && f.psh && f.rst && !f.syn && f.fin);
}

#[test]
fn tcp_data_offset_below_five_words() {
    let bytes = tcp(1, 2, 4, 0);
    let mut reader = PacketReader::new(&bytes);
    assert_eq!(TransportHeader::new(6, &mut reader).err(), Some(ReadError::CouldntParse));
}

#[test]
fn udp_fields_and_ports() {
    let bytes = udp(53, 40000);
    let mut reader = PacketReader::new(&bytes);
    let t = TransportHeader::new(17, &mut reader).ok().unwrap();
    assert_eq!(t.src_port(), 53);
    assert_eq!(t.dst_port(), 40000);
    match t {
        TransportHeader::UDP(h) => {
            assert_eq!(h.length, 12);
            assert_eq!(h.checksum, 0x1234);
        }
        _ => panic!("expected UDP"),
    }
}

#[test]
fn unknown_transport_is_default_with_zero_ports() {
    let bytes = [1u8, 2, 3];
    let mut reader = PacketReader::new(&bytes);
    let t = TransportHeader::new(1, &mut reader).ok().unwrap();
    assert!(matches!(&t, TransportHeader::Default(v) if v.is_empty()));
    assert_eq!(t.src_port(), 0);
    assert_eq!(t.dst_port(), 0);
    assert_eq!(reader.read(3).ok().unwrap(), &[1, 2, 3]);
}

#[test]
fn hop_by_hop_then_no_next_header() {
    let hop = vec![59, 0, 1, 4, 0, 0, 0, 0];
    let bytes = frame(&[ethernet(0x86DD), ipv6(0), hop]);
    let p = Packet::from_ethernet_bytes(&bytes).ok().unwrap();
    assert_eq!(p.ip_extensions.len(), 1);
    match &p.ip_extensions[0] {
        IpExtension::Ipv6Extension(Ipv6Extension::HopByHopOptions(h)) => {
            assert_eq!(h.next_header, 59);
            assert_eq!(h.hdr_ext_len, 0);
        }
        _ => panic!("expected Hop-by-Hop"),
    }
    assert!(matches!(p.tp_header, TransportHeader::Default(_)));
    let mut reader = PacketReader::new(&bytes[54..]);
    let (t, exts) = IpExtension::list(0, &mut reader).ok().unwrap();
    assert_eq!(t, 59);
    assert_eq!(exts.len(), 1);
}

#[test]
fn extension_chain_to_udp() {
    let dest = vec![43, 1, 0, 0, 0, 0, 0, 0, 9, 9, 9, 9, 9, 9, 9, 9];
    let routing = vec![44, 0, 2, 1, 0, 0, 0, 0];
    let fragment = vec![51, 0, 0x00, 0x19, 0, 0, 0, 9];
    let auth = vec![17, 2, 0, 0, 0, 0, 1, 0, 0, 0, 0, 5, 0xAA, 0xBB, 0xCC, 0xDD];
    let bytes = frame(&[ethernet(0x86DD), ipv6(60), dest, routing, fragment, auth, udp(7, 8)]);
    let p = Packet::from_ethernet_bytes(&bytes).ok().unwrap();
    assert_eq!(p.ip_extensions.len(), 4);
    match &p.ip_extensions[1] {
        IpExtension::Ipv6Extension(Ipv6Extension::Routing(r)) => {
            assert_eq!(r.routing_type, 2);
            assert_eq!(r.segments_left, 1);
        }
        _ => panic!("expected Routing"),
    }
    match &p.ip_extensions[2] {
        IpExtension::Ipv6Extension(Ipv6Extension::Fragment(f)) => {
            assert_eq!(f.fragment_offset, 3);
            assert!(f.m_flag);
            assert_eq!(f.identification, 9);
        }
        _ => panic!("expected Fragment"),
    }
    match &p.ip_extensions[3] {
        IpExtension::Ipv6Extension(Ipv6Extension::Authentication(a)) => {
            assert_eq!(a.payload_len, 2);
            assert_eq!(a.spi, 256);
            assert_eq!(a.seq_num, 5);
            assert_eq!(a.icv, vec![0xAA, 0xBB, 0xCC, 0xDD]);
        }
        _ => panic!("expected Authentication"),
    }
    assert_eq!(p.tp_header.src_port(), 7);
    assert_eq!(p.tp_header.dst_port(), 8);
}

#[test]
fn fragment_offset_and_more_fragments_flag() {
    let bytes = [6u8, 0x00, 0xFF, 0xF9, 0x00, 0x00, 0x00, 0x01];
    let mut reader = PacketReader::new(&bytes);
    let f = match IpExtension::new(Ipv6Fragment::PROTOCOL_NUMBER, &mut reader).ok().unwrap() {
        IpExtension::Ipv6Extension(Ipv6Extension::Fragment(f)) => f,
        _ => panic!("expected Fragment"),
    };
    assert_eq!(f.next_header, 6);
    assert_eq!(f.reserved, 0);
    assert_eq!(f.fragment_offset, 0x1FFF);
    assert_eq!(f.res, 0);
    assert!(f.m_flag);
    assert_eq!(f.identification, 1);
}

#[test]
fn unsupported_extension_standalone() {
    let bytes = [0u8; 16];
    let mut reader = PacketReader::new(&bytes);
    assert_eq!(IpExtension::new(50, &mut reader).err(), Some(ReadError::UnsupportedIpExtension));
    assert_eq!(IpExtension::new(6, &mut reader).err(), Some(ReadError::UnsupportedIpExtension));
    assert_eq!(
        Ipv6EncapsulatingSecurityPayload::new(&mut reader).err(),
        Some(ReadError::UnsupportedIpExtension)
    );
    assert_eq!(reader.read(16).ok().unwrap().len(), 16);
}

#[test]
fn encapsulating_security_payload_ends_the_chain() {
    let bytes = frame(&[ethernet(0x86DD), ipv6(50), vec![0xEE; 8]]);
    let p = Packet::from_ethernet_bytes(&bytes).ok().unwrap();
    assert!(p.ip_extensions.is_empty());
    assert!(matches!(p.tp_header, TransportHeader::Default(_)));
}

#[test]
fn truncated_extension_fails_the_frame() {
    let hop = vec![6, 1, 0, 0, 0, 0, 0, 0];
    let bytes = frame(&[ethernet(0x86DD), ipv6(0), hop]);
    assert_eq!(Packet::from_ethernet_bytes(&bytes).err(), Some(ReadError::DataOffsetTooSmall(8)));
}

#[test]
fn authentication_with_zero_length() {
    let auth = vec![6, 0, 0, 0, 0, 0, 0, 0, 0, 0, 0, 0];
    let bytes = frame(&[ethernet(0x86DD), ipv6(51), auth]);
    assert_eq!(Packet::from_ethernet_bytes(&bytes).err(), Some(ReadError::CouldntParse));
}

#[test]
fn ipv4_tcp_end_to_end() {
    let bytes = frame(&[ethernet(0x0800), ipv4(5, 6), tcp(8080, 443, 5, 0x18)]);
    let p = Packet::from_ethernet_bytes(&bytes).ok().unwrap();
    assert_eq!(p.lp_header.ether_type, 0x0800);
    assert!(p.ip_extensions.is_empty());
    assert_eq!(p.ip_header.len(), 20);
    match &p.tp_header {
        TransportHeader::TCP(h) => {
            assert_eq!(h.src_port, 8080);
            assert_eq!(h.dst_port, 443);
        }
        _ => panic!("expected TCP"),
    }
    assert_eq!(p.ap_header, ApplicationHeader::Default);
}

#[test]
fn ipv4_never_decodes_extensions() {
    let bytes = frame(&[ethernet(0x0800), ipv4(5, 0), vec![59, 0, 0, 0, 0, 0, 0, 0]]);
    let p = Packet::from_ethernet_bytes(&bytes).ok().unwrap();
    assert!(p.ip_extensions.is_empty());
    assert!(matches!(p.tp_header, TransportHeader::Default(_)));
}

#[test]
fn no_room_for_the_transport_header() {
    let bytes = frame(&[ethernet(0x0800), ipv4(5, 6)]);
    assert_eq!(Packet::from_ethernet_bytes(&bytes).err(), Some(ReadError::DataOffsetTooSmall(20)));
    let bytes = frame(&[ethernet(0x0800), ipv4(6, 17)]);
    assert_eq!(Packet::from_ethernet_bytes(&bytes).err(), Some(ReadError::DataOffsetTooSmall(8)));
    let bytes = frame(&[ethernet(0x86DD), ipv6(6)]);
    assert_eq!(Packet::from_ethernet_bytes(&bytes).err(), Some(ReadError::DataOffsetTooSmall(20)));
}

#[test]
fn decoding_twice_gives_the_same_packet() {
    let bytes = frame(&[ethernet(0x0800), ipv4(6, 6), tcp(1234, 80, 6, 0x02), vec![1, 2, 3]]);
    let a = Packet::from_ethernet_bytes(&bytes).ok().unwrap();
    let b = Packet::from_ethernet_bytes(&bytes).ok().unwrap();
    assert_eq!(a.lp_header.destination, b.lp_header.destination);
    assert_eq!(a.lp_header.source, b.lp_header.source);
    assert_eq!(a.lp_header.ether_type, b.lp_header.ether_type);
    match (&a.ip_header, &b.ip_header) {
        (IpHeader::V4Header(x), IpHeader::V4Header(y)) => {
            assert_eq!(x.options, y.options);
            assert_eq!(x.identification, y.identification);
            assert_eq!(x.src_addr, y.src_addr);
        }
        _ => panic!("expected IPv4"),
    }
    match (&a.tp_header, &b.tp_header) {
        (TransportHeader::TCP(x), TransportHeader::TCP(y)) => {
            assert_eq!(x.options, y.options);
            assert_eq!(x.sequence_number, y.sequence_number);
            assert_eq!(x.flags.syn, y.flags.syn);
        }
        _ => panic!("expected TCP"),
    }
}

#[test]
fn application_header_reads_nothing() {
    let bytes = [9u8];
    let mut reader = PacketReader::new(&bytes);
    assert_eq!(ApplicationHeader::new(&mut reader).ok(), Some(ApplicationHeader::Default));
    assert_eq!(reader.read(1).ok().unwrap(), &[9]);
}
