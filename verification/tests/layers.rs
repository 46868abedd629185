use pdu::ethernet::{Ethernet, EthernetPdu};
use pdu::gre::{Gre, GrePdu};
use pdu::ipv4::{Ipv4, Ipv4Option, Ipv4Pdu};
use pdu::ipv6::{Ipv6, Ipv6ExtensionHeader, Ipv6Pdu};
use pdu::tcp::{TcpOption, TcpPdu};
use pdu::{Error, Ip};

/// The worked example: a 68-byte Ethernet/IPv4/UDP packet.
fn example_packet() -> Vec<u8> {
    vec![
        0x68, 0x5b, 0x35, 0xc0, 0x61, 0xb6, 0x00, 0x1d, 0x09, 0x94, 0x65, 0x38, 0x08, 0x00, 0x45,
        0x00, 0x00, 0x3b, 0x2d, 0xfd, 0x00, 0x00, 0x40, 0x11, 0xbc, 0x43, 0x83, 0xb3, 0xc4, 0x2e,
        0x83, 0xb3, 0xc4, 0xdc, 0x18, 0xdb, 0x18, 0xdb, 0x00, 0x27, 0xe0, 0x3e, 0x05, 0x1d, 0x07,
        0x15, 0x08, 0x07, 0x65, 0x78, 0x61, 0x6d, 0x70, 0x6c, 0x65, 0x08, 0x07, 0x74, 0x65, 0x73,
        0x74, 0x41, 0x70, 0x70, 0x08, 0x01, 0x31, 0x0a, 0x04, 0x1e, 0xcc, 0xe2, 0x51,
    ]
}

#[test]
fn truncated_ethernet() {
    let buf = vec![0u8; 13];
    assert!(matches!(EthernetPdu::new(&buf), Err(Error::Truncated)));
}

#[test]
fn truncated_ipv4() {
    let buf = vec![0x45u8; 19];
    assert!(matches!(Ipv4Pdu::new(&buf), Err(Error::Truncated)));
}

#[test]
fn truncated_ipv6() {
    let buf = vec![0x60u8; 39];
    assert!(matches!(Ipv6Pdu::new(&buf), Err(Error::Truncated)));
}

#[test]
fn truncated_tcp() {
    let buf = vec![0u8; 19];
    assert!(matches!(TcpPdu::new(&buf), Err(Error::Truncated)));
}

#[test]
fn truncated_gre() {
    let buf = vec![0u8; 3];
    assert!(matches!(GrePdu::new(&buf), Err(Error::Truncated)));
}

#[test]
fn computed_length_exceeding_buffer_is_truncated() {
    // IHL declares 24 bytes but only 20 are present.
    let mut buf = vec![0u8; 20];
    buf[0] = 0x46;
    assert!(matches!(Ipv4Pdu::new(&buf), Err(Error::Truncated)));
    // Data offset declares 24 bytes but only 20 are present.
    let mut buf = vec![0u8; 20];
    buf[12] = 0x60;
    assert!(matches!(TcpPdu::new(&buf), Err(Error::Truncated)));
    // VLAN tag declares an 18-byte header but only 14 are present.
    let mut buf = vec![0u8; 14];
    buf[12] = 0x81;
    buf[13] = 0x00;
    assert!(matches!(EthernetPdu::new(&buf), Err(Error::Truncated)));
}

#[test]
fn gre_rejects_routing_variant() {
    // Low 3 bits of byte 1 nonzero: not the base RFC 2784 variant.
    let buf = vec![0x00u8, 0x01, 0x08, 0x00];
    assert!(matches!(GrePdu::new(&buf), Err(Error::Malformed)));
}

#[test]
fn example_packet_end_to_end() {
    let packet = example_packet();
    let ethernet = EthernetPdu::new(&packet).unwrap();
    assert_eq!(
        ethernet.destination_address().unwrap(),
        &[0x68, 0x5b, 0x35, 0xc0, 0x61, 0xb6]
    );
    assert_eq!(
        ethernet.source_address().unwrap(),
        &[0x00, 0x1d, 0x09, 0x94, 0x65, 0x38]
    );
    assert_eq!(ethernet.ethertype().unwrap(), 0x0800);
    assert_eq!(ethernet.vlan(), None);
    assert_eq!(ethernet.computed_ihl().unwrap(), 14);
    match ethernet.inner().unwrap() {
        Ethernet::Ipv4(ipv4) => {
            assert_eq!(ipv4.version().unwrap(), 4);
            assert_eq!(ipv4.protocol().unwrap(), 0x11);
            assert_eq!(ipv4.source_address().unwrap(), &[131, 179, 196, 46]);
            assert_eq!(ipv4.destination_address().unwrap(), &[131, 179, 196, 220]);
            assert_eq!(ipv4.ttl().unwrap(), 0x40);
            assert_eq!(ipv4.total_length().unwrap(), 0x3b);
            // UDP is not a first-class layer: the payload is raw bytes.
            match ipv4.inner().unwrap() {
                Ipv4::Raw(rest) => assert_eq!(rest.len(), packet.len() - 14 - 20),
                _ => panic!("expected a raw inner payload"),
            }
        }
        _ => panic!("expected an IPv4 inner payload"),
    }
}

#[test]
fn ipv4_computed_checksum_matches_stored_and_detects_mutation() {
    let packet = example_packet();
    let header = &packet[14..34];
    let ipv4 = Ipv4Pdu::new(header).unwrap();
    assert_eq!(ipv4.checksum().unwrap(), 0xbc43);
    assert_eq!(ipv4.computed_checksum().unwrap(), 0xbc43);
    // Mutating a header byte changes the computed checksum.
    let mut mutated = header.to_vec();
    mutated[8] = mutated[8].wrapping_add(1);
    let ipv4 = Ipv4Pdu::new(&mutated).unwrap();
    assert_ne!(ipv4.computed_checksum().unwrap(), ipv4.checksum().unwrap());
}

#[test]
fn ipv4_short_declared_header_fails_checksum_as_out_of_bounds() {
    // IHL nibble 2: an 8-byte declared header cannot contain the checksum
    // field region, so recomputing it fails while construction succeeds.
    let mut buf = vec![0u8; 20];
    buf[0] = 0x42;
    let ipv4 = Ipv4Pdu::new(&buf).unwrap();
    assert_eq!(ipv4.computed_checksum(), Err(Error::OutOfBounds));
}

#[test]
fn ipv4_field_accessors() {
    let header: &[u8] = &[
        0x45, 0x93, 0x00, 0x3b, 0x12, 0x34, 0x65, 0xe9, 0x40, 0x11, 0xbc, 0x43, 0x83, 0xb3, 0xc4,
        0x2e, 0x83, 0xb3, 0xc4, 0xdc,
    ];
    let ipv4 = Ipv4Pdu::new(header).unwrap();
    assert_eq!(ipv4.version().unwrap(), 4);
    assert_eq!(ipv4.ihl().unwrap(), 5);
    assert_eq!(ipv4.computed_ihl().unwrap(), 20);
    assert_eq!(ipv4.dscp().unwrap(), 0x24);
    assert_eq!(ipv4.ecn().unwrap(), 0x03);
    assert_eq!(ipv4.identification().unwrap(), 0x1234);
    // 0x65e9: don't-fragment set, more-fragments set, offset 0x05e9.
    assert!(ipv4.dont_fragment());
    assert!(ipv4.more_fragments());
    assert_eq!(ipv4.fragment_offset().unwrap(), 0x05e9);
    assert_eq!(ipv4.buffer(), header);
    assert_eq!(ipv4.as_bytes(), header);
}

#[test]
fn ipv4_options_walk() {
    // IHL 6: one 4-byte option (router alert) after the fixed header.
    let mut buf = vec![0u8; 24];
    buf[0] = 0x46;
    buf[20] = 0x94;
    buf[21] = 0x04;
    let ipv4 = Ipv4Pdu::new(&buf).unwrap();
    let mut options = ipv4.options();
    match options.next() {
        Some(Ipv4Option::Raw { option }) => assert_eq!(option, &[0x94, 0x04, 0x00, 0x00]),
        None => panic!("expected one option"),
    }
    assert!(options.next().is_none());
}

#[test]
fn ipv4_options_malformed_length_ends_walk() {
    // A length byte running past the header boundary ends the sequence.
    let mut buf = vec![0u8; 24];
    buf[0] = 0x46;
    buf[20] = 0x94;
    buf[21] = 0x30;
    let ipv4 = Ipv4Pdu::new(&buf).unwrap();
    let mut options = ipv4.options();
    assert!(options.next().is_none());
}

#[test]
fn ethernet_vlan_tagged_frame() {
    let mut buf = vec![0u8; 18];
    buf[12] = 0x81;
    buf[13] = 0x00;
    // Tag control: priority 3, drop-eligible clear, VLAN 0x00a.
    buf[14] = 0x60;
    buf[15] = 0x0a;
    buf[16] = 0x86;
    buf[17] = 0xdd;
    let ethernet = EthernetPdu::new(&buf).unwrap();
    assert_eq!(ethernet.computed_ihl().unwrap(), 18);
    assert_eq!(ethernet.ethertype().unwrap(), 0x86dd);
    assert_eq!(ethernet.vlan(), Some(0x00a));
    assert_eq!(ethernet.vlan_pcp(), Some(3));
    assert_eq!(ethernet.vlan_dei(), Some(false));
}

#[test]
fn ethernet_untagged_frame_has_no_vlan() {
    let mut buf = vec![0u8; 14];
    buf[12] = 0x08;
    buf[13] = 0x00;
    let ethernet = EthernetPdu::new(&buf).unwrap();
    assert_eq!(ethernet.ethertype().unwrap(), 0x0800);
    assert_eq!(ethernet.vlan(), None);
    assert_eq!(ethernet.vlan_pcp(), None);
    assert_eq!(ethernet.vlan_dei(), None);
    assert_eq!(ethernet.computed_ihl().unwrap(), 14);
}

#[test]
fn ipv6_without_extension_headers() {
    let mut buf = vec![0u8; 40];
    buf[0] = 0x60;
    buf[4] = 0x00;
    buf[5] = 0x00;
    buf[6] = 17;
    buf[7] = 64;
    let ipv6 = Ipv6Pdu::new(&buf).unwrap();
    assert_eq!(ipv6.version().unwrap(), 6);
    assert_eq!(ipv6.next_header().unwrap(), 17);
    assert_eq!(ipv6.computed_protocol().unwrap(), 17);
    assert_eq!(ipv6.computed_ihl().unwrap(), 40);
    assert_eq!(ipv6.hop_limit().unwrap(), 64);
    assert_eq!(ipv6.computed_identification(), None);
    assert_eq!(ipv6.computed_more_fragments(), None);
    assert_eq!(ipv6.computed_fragment_offset(), None);
    let mut headers = ipv6.extension_headers();
    assert!(headers.next().is_none());
}

#[test]
fn ipv6_traffic_class_and_flow_label() {
    let mut buf = vec![0u8; 40];
    // Version 6, traffic class 0xab (dscp 0x2a, ecn 3), flow label 0xcde12.
    buf[0] = 0x6a;
    buf[1] = 0xbc;
    buf[2] = 0xde;
    buf[3] = 0x12;
    buf[4] = 0x01;
    buf[5] = 0x02;
    buf[6] = 59;
    for i in 0..16 {
        buf[8 + i] = i as u8;
        buf[24 + i] = 0x10 + i as u8;
    }
    let ipv6 = Ipv6Pdu::new(&buf).unwrap();
    assert_eq!(ipv6.dscp().unwrap(), 0x2a);
    assert_eq!(ipv6.ecn().unwrap(), 0x03);
    assert_eq!(ipv6.flow_label().unwrap(), 0xcde12);
    assert_eq!(ipv6.payload_length().unwrap(), 0x0102);
    assert_eq!(ipv6.source_address().unwrap(), &buf[8..24]);
    assert_eq!(ipv6.destination_address().unwrap(), &buf[24..40]);
}

#[test]
fn ipv6_fragment_then_tcp_chain() {
    let mut buf = vec![0u8; 48 + 20];
    buf[0] = 0x60;
    buf[6] = 44; // first extension header: fragment
    // Fragment header at offset 40: next header TCP, offset field, id.
    buf[40] = 6;
    buf[42] = 0x01;
    buf[43] = 0xa9; // offset 0x01a9 >> 3 = 53, more-fragments bit set
    buf[44] = 0x00;
    buf[45] = 0x00;
    buf[46] = 0x00;
    buf[47] = 0x2a;
    // TCP header at offset 48.
    buf[48 + 12] = 0x50;
    let ipv6 = Ipv6Pdu::new(&buf).unwrap();
    assert_eq!(ipv6.computed_protocol().unwrap(), 6);
    assert_eq!(ipv6.computed_ihl().unwrap(), 48);
    assert_eq!(ipv6.computed_identification(), Some(42));
    assert_eq!(ipv6.computed_more_fragments(), Some(true));
    assert_eq!(ipv6.computed_fragment_offset(), Some(53));
    let mut headers = ipv6.extension_headers();
    match headers.next() {
        Some(Ipv6ExtensionHeader::Fragment {
            identification,
            more_fragments,
            fragment_offset,
        }) => {
            assert_eq!(identification, 42);
            assert!(more_fragments);
            assert_eq!(fragment_offset, 53);
        }
        _ => panic!("expected a fragment extension header"),
    }
    assert!(headers.next().is_none());
    match ipv6.inner().unwrap() {
        Ipv6::Tcp(tcp) => assert_eq!(tcp.computed_data_offset().unwrap(), 20),
        _ => panic!("expected a TCP inner payload"),
    }
}

#[test]
fn ipv6_raw_extension_header_walk() {
    // Hop-by-hop options header (8 bytes, length byte 0) then UDP.
    let mut buf = vec![0u8; 48];
    buf[0] = 0x60;
    buf[6] = 0;
    buf[40] = 17;
    buf[41] = 0;
    let ipv6 = Ipv6Pdu::new(&buf).unwrap();
    assert_eq!(ipv6.computed_ihl().unwrap(), 48);
    assert_eq!(ipv6.computed_protocol().unwrap(), 17);
    let mut headers = ipv6.extension_headers();
    match headers.next() {
        Some(Ipv6ExtensionHeader::Raw { header, content }) => {
            assert_eq!(header, 0);
            assert_eq!(content, &buf[40..48]);
        }
        _ => panic!("expected a raw extension header"),
    }
    assert!(headers.next().is_none());
}

#[test]
fn ipv6_chain_running_past_buffer_is_truncated() {
    // The hop-by-hop header declares 16 bytes but only 8 are present.
    let mut buf = vec![0u8; 48];
    buf[0] = 0x60;
    buf[6] = 0;
    buf[40] = 17;
    buf[41] = 1;
    assert!(matches!(Ipv6Pdu::new(&buf), Err(Error::Truncated)));
}

#[test]
fn gre_minimal_header() {
    let buf: &[u8] = &[0x00, 0x00, 0x08, 0x00];
    let gre = GrePdu::new(buf).unwrap();
    assert_eq!(gre.computed_ihl(), 4);
    assert_eq!(gre.version().unwrap(), 0);
    assert_eq!(gre.ethertype().unwrap(), 0x0800);
    assert!(!gre.has_checksum());
    assert!(!gre.has_key());
    assert!(!gre.has_sequence_number());
    assert_eq!(gre.checksum(), None);
    assert_eq!(gre.computed_checksum(), None);
    assert_eq!(gre.key(), None);
    assert_eq!(gre.sequence_number(), None);
    assert_eq!(gre.buffer(), buf);
    assert_eq!(gre.as_bytes(), buf);
}

#[test]
fn gre_all_optional_fields() {
    let buf: &[u8] = &[
        0xb0, 0x00, 0x08, 0x00, // flags, version, ethertype
        0xc1, 0xd2, 0x00, 0x00, // checksum, reserved
        0x00, 0x00, 0x00, 0x2a, // key
        0x00, 0x00, 0x00, 0x07, // sequence number
    ];
    let gre = GrePdu::new(buf).unwrap();
    assert!(gre.has_checksum());
    assert!(gre.has_key());
    assert!(gre.has_sequence_number());
    assert_eq!(gre.computed_ihl(), 16);
    assert_eq!(gre.checksum(), Some(0xc1d2));
    assert_eq!(gre.key(), Some(42));
    assert_eq!(gre.sequence_number(), Some(7));
    // Spans 0xb000 + 0x0800 and 0x002a + 0x0007 complementing to 0x47ce.
    assert_eq!(gre.computed_checksum(), Some(0x47ce));
}

#[test]
fn gre_field_offsets_depend_on_preceding_flags() {
    // Key and sequence number only: key at 4, sequence number at 8.
    let buf: &[u8] = &[
        0x30, 0x00, 0x08, 0x00, 0x00, 0x00, 0x00, 0x2a, 0x00, 0x00, 0x00, 0x07,
    ];
    let gre = GrePdu::new(buf).unwrap();
    assert_eq!(gre.computed_ihl(), 12);
    assert_eq!(gre.checksum(), None);
    assert_eq!(gre.key(), Some(42));
    assert_eq!(gre.sequence_number(), Some(7));
    // Sequence number only: it sits directly after the fixed header.
    let buf: &[u8] = &[0x10, 0x00, 0x08, 0x00, 0x00, 0x00, 0x00, 0x07];
    let gre = GrePdu::new(buf).unwrap();
    assert_eq!(gre.computed_ihl(), 8);
    assert_eq!(gre.key(), None);
    assert_eq!(gre.sequence_number(), Some(7));
}

#[test]
fn gre_inner_dispatch() {
    // GRE carrying an IPv4 packet.
    let mut buf = vec![0u8; 24];
    buf[2] = 0x08;
    buf[3] = 0x00;
    buf[4] = 0x45;
    let gre = GrePdu::new(&buf).unwrap();
    match gre.inner().unwrap() {
        Gre::Ipv4(ipv4) => assert_eq!(ipv4.computed_ihl().unwrap(), 20),
        _ => panic!("expected an IPv4 inner payload"),
    }
    // Unrecognized ethertype: raw payload.
    let buf: &[u8] = &[0x00, 0x00, 0xab, 0xcd, 0x01, 0x02];
    let gre = GrePdu::new(buf).unwrap();
    match gre.inner().unwrap() {
        Gre::Raw(rest) => assert_eq!(rest, &[0x01, 0x02]),
        _ => panic!("expected a raw inner payload"),
    }
}

#[test]
fn ip_new_dispatches_on_version_nibble() {
    let packet = example_packet();
    match Ip::new(&packet[14..]).unwrap() {
        Ip::Ipv4(ipv4) => {
            assert_eq!(ipv4.source_address().unwrap(), &[131, 179, 196, 46]);
            assert_eq!(ipv4.destination_address().unwrap(), &[131, 179, 196, 220]);
            assert_eq!(ipv4.protocol().unwrap(), 0x11);
        }
        _ => panic!("expected an IPv4 view"),
    }
    let mut v6 = vec![0u8; 40];
    v6[0] = 0x60;
    v6[6] = 59;
    assert!(matches!(Ip::new(&v6), Ok(Ip::Ipv6(_))));
    let empty: &[u8] = &[];
    assert!(matches!(Ip::new(empty), Err(Error::Truncated)));
    let bad: &[u8] = &[0x50, 0, 0, 0];
    assert!(matches!(Ip::new(bad), Err(Error::Malformed)));
}
