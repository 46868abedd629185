use pdu::ipv4::Ipv4Pdu;
use pdu::ipv6::Ipv6Pdu;
use pdu::tcp::{TcpOption, TcpPdu};
use pdu::Ip;

/// A minimal 20-byte TCP header: SYN from port 0x1234 to port 80 with a full
/// window.
fn tcp_segment() -> Vec<u8> {
    let mut buf = vec![0u8; 20];
    buf[0] = 0x12;
    buf[1] = 0x34;
    buf[3] = 0x50;
    buf[12] = 0x50;
    buf[13] = 0x02;
    buf[14] = 0xff;
    buf[15] = 0xff;
    buf
}

#[test]
fn tcp_field_accessors() {
    let mut buf = tcp_segment();
    buf[4] = 0x01;
    buf[5] = 0x02;
    buf[6] = 0x03;
    buf[7] = 0x04;
    buf[8] = 0x0a;
    buf[9] = 0x0b;
    buf[10] = 0x0c;
    buf[11] = 0x0d;
    buf[16] = 0xde;
    buf[17] = 0xad;
    buf[18] = 0x00;
    buf[19] = 0x2a;
    let tcp = TcpPdu::new(&buf).unwrap();
    assert_eq!(tcp.source_port().unwrap(), 0x1234);
    assert_eq!(tcp.destination_port().unwrap(), 0x0050);
    assert_eq!(tcp.sequence_number().unwrap(), 0x01020304);
    assert_eq!(tcp.acknowledgement_number().unwrap(), 0x0a0b0c0d);
    assert_eq!(tcp.data_offset().unwrap(), 5);
    assert_eq!(tcp.computed_data_offset().unwrap(), 20);
    assert_eq!(tcp.flags().unwrap(), 0x02);
    assert!(tcp.syn());
    assert!(!tcp.fin());
    assert!(!tcp.rst());
    assert!(!tcp.psh());
    assert!(!tcp.ack());
    assert!(!tcp.urg());
    assert!(!tcp.ecn());
    assert!(!tcp.cwr());
    assert_eq!(tcp.window_size().unwrap(), 0xffff);
    assert_eq!(tcp.checksum().unwrap(), 0xdead);
    assert_eq!(tcp.urgent_pointer().unwrap(), 0x002a);
    assert_eq!(tcp.buffer(), &buf[..]);
}

#[test]
fn tcp_all_flags_set() {
    let mut buf = tcp_segment();
    buf[13] = 0xff;
    let tcp = TcpPdu::new(&buf).unwrap();
    assert!(tcp.fin() && tcp.syn() && tcp.rst() && tcp.psh());
    assert!(tcp.ack() && tcp.urg() && tcp.ecn() && tcp.cwr());
}

#[test]
fn tcp_computed_window_size_applies_shift() {
    let buf = tcp_segment();
    let tcp = TcpPdu::new(&buf).unwrap();
    assert_eq!(tcp.computed_window_size(0).unwrap(), 0xffff);
    assert_eq!(tcp.computed_window_size(14).unwrap(), 0xffff << 14);
}

#[test]
fn tcp_checksum_depends_on_enclosing_ip_layer() {
    let seg = tcp_segment();
    let tcp = TcpPdu::new(&seg).unwrap();
    let v4_header: &[u8] = &[
        0x45, 0x00, 0x00, 0x28, 0x00, 0x00, 0x00, 0x00, 0x40, 0x06, 0x00, 0x00, 0xc0, 0xa8, 0x00,
        0x01, 0xc0, 0xa8, 0x00, 0x02,
    ];
    let v4 = Ip::Ipv4(Ipv4Pdu::new(v4_header).unwrap());
    let mut v6_header = vec![0u8; 40];
    v6_header[0] = 0x60;
    v6_header[6] = 6;
    let v6 = Ip::Ipv6(Ipv6Pdu::new(&v6_header).unwrap());
    // IPv4 pseudo-header: 0xc0a8 + 0x0001 + 0xc0a8 + 0x0002 + 0x0006 + 0x0014;
    // segment words: 0x1234 + 0x0050 + 0x5002 + 0xffff. Folded and
    // complemented: 0x1c0b.
    assert_eq!(tcp.computed_checksum(&v4).unwrap(), 0x1c0b);
    // IPv6 pseudo-header over zero addresses: 0x0014 + 0x0006. Folded and
    // complemented: 0x9d5f.
    assert_eq!(tcp.computed_checksum(&v6).unwrap(), 0x9d5f);
    assert_ne!(
        tcp.computed_checksum(&v4).unwrap(),
        tcp.computed_checksum(&v6).unwrap()
    );
}

#[test]
fn tcp_options_decoded_kinds() {
    // Data offset 8: a 12-byte options region.
    let mut buf = vec![0u8; 32];
    buf[12] = 0x80;
    let options_bytes: &[u8] = &[
        0x01, // no-op
        0x02, 0x04, 0x05, 0xb4, // maximum segment size 1460
        0x03, 0x03, 0x07, // window scale 7
        0x04, 0x02, // SACK permitted
        0x01, 0x01, // padding no-ops
    ];
    buf[20..32].copy_from_slice(options_bytes);
    let tcp = TcpPdu::new(&buf).unwrap();
    let mut options = tcp.options();
    assert!(matches!(options.next(), Some(TcpOption::NoOp)));
    match options.next() {
        Some(TcpOption::Mss { size }) => assert_eq!(size, 1460),
        _ => panic!("expected a maximum-segment-size option"),
    }
    match options.next() {
        Some(TcpOption::WindowScale { shift }) => assert_eq!(shift, 7),
        _ => panic!("expected a window-scale option"),
    }
    assert!(matches!(options.next(), Some(TcpOption::SackPermitted)));
    assert!(matches!(options.next(), Some(TcpOption::NoOp)));
    assert!(matches!(options.next(), Some(TcpOption::NoOp)));
    assert!(options.next().is_none());
}

#[test]
fn tcp_options_sack_blocks() {
    let mut buf = vec![0u8; 32];
    buf[12] = 0x80;
    let options_bytes: &[u8] = &[
        0x05, 0x0a, 0x00, 0x00, 0x00, 0x01, 0x00, 0x00, 0x00, 0x02, // one SACK block (1, 2)
        0x01, 0x01,
    ];
    buf[20..32].copy_from_slice(options_bytes);
    let tcp = TcpPdu::new(&buf).unwrap();
    let mut options = tcp.options();
    match options.next() {
        Some(TcpOption::Sack { blocks }) => assert_eq!(blocks, vec![(1, 2)]),
        _ => panic!("expected a SACK option"),
    }
}

#[test]
fn tcp_options_timestamp() {
    let mut buf = vec![0u8; 32];
    buf[12] = 0x80;
    let options_bytes: &[u8] = &[
        0x08, 0x0a, 0x11, 0x22, 0x33, 0x44, 0x55, 0x66, 0x77, 0x88, // timestamp
        0x01, 0x01,
    ];
    buf[20..32].copy_from_slice(options_bytes);
    let tcp = TcpPdu::new(&buf).unwrap();
    let mut options = tcp.options();
    match options.next() {
        Some(TcpOption::Timestamp { val, ecr }) => {
            assert_eq!(val, 0x11223344);
            assert_eq!(ecr, 0x55667788);
        }
        _ => panic!("expected a timestamp option"),
    }
}

#[test]
fn tcp_options_raw_fallback_and_truncation() {
    // An unrecognized kind is surfaced raw; a length running past the header
    // boundary ends the walk.
    let mut buf = vec![0u8; 32];
    buf[12] = 0x80;
    let options_bytes: &[u8] = &[
        0xfe, 0x04, 0xaa, 0xbb, // unrecognized kind, surfaced raw
        0xfe, 0x30, 0x00, 0x00, 0x00, 0x00, 0x00, 0x00, // length past the boundary
    ];
    buf[20..32].copy_from_slice(options_bytes);
    let tcp = TcpPdu::new(&buf).unwrap();
    let mut options = tcp.options();
    match options.next() {
        Some(TcpOption::Raw { option }) => assert_eq!(option, &[0xfe, 0x04, 0xaa, 0xbb]),
        _ => panic!("expected a raw option"),
    }
    assert!(options.next().is_none());
}

#[test]
fn tcp_options_wrong_declared_length_is_raw() {
    // A recognized kind whose length does not match its fixed size is
    // surfaced raw rather than decoded.
    let mut buf = vec![0u8; 32];
    buf[12] = 0x80;
    let options_bytes: &[u8] = &[
        0x02, 0x03, 0x05, // maximum-segment-size kind with length 3
        0x01, 0x01, 0x01, 0x01, 0x01, 0x01, 0x01, 0x01, 0x01,
    ];
    buf[20..32].copy_from_slice(options_bytes);
    let tcp = TcpPdu::new(&buf).unwrap();
    let mut options = tcp.options();
    match options.next() {
        Some(TcpOption::Raw { option }) => assert_eq!(option, &[0x02, 0x03, 0x05]),
        _ => panic!("expected a raw option"),
    }
}

#[test]
fn tcp_inner_payload() {
    let mut buf = tcp_segment();
    buf.extend_from_slice(&[0xca, 0xfe]);
    let tcp = TcpPdu::new(&buf).unwrap();
    match tcp.inner().unwrap() {
        pdu::tcp::Tcp::Raw(rest) => assert_eq!(rest, &[0xca, 0xfe]),
    }
}
