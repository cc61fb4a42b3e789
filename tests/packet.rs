use place_ipv6::{icmpv6_checksum, make_icmpv6_packet, make_ipv6_pseudo_header, EthernetInfo};

const SRC: [u16; 8] = [0xfe80, 0, 0, 0, 0, 0, 0, 1];
const DST: [u16; 8] = [0x2602, 0xfa9b, 0x0202, 0x100a, 0x0014, 0x00ff, 0x0000, 0x0080];

#[test]
fn pseudo_header_layout() {
    let h = make_ipv6_pseudo_header(SRC, DST, 0x0108);
    assert_eq!(h.len(), 38);
    assert_eq!(&h[0..2], &[0xfe, 0x80]);
    assert_eq!(&h[14..16], &[0x00, 0x01]);
    assert_eq!(&h[16..18], &[0x26, 0x02]);
    assert_eq!(&h[32..38], &[0x01, 0x08, 0, 0, 0, 0x3a]);
}

#[test]
fn checksum_of_empty_message() {
    assert_eq!(icmpv6_checksum([0; 8], [0; 8], &[]), 0xc5ff);
}

#[test]
fn checksum_pairs_low_byte_first_and_pads_odd_length() {
    assert_eq!(icmpv6_checksum([0; 8], [0; 8], &[1, 2, 3]), 0xc0fb);
}

#[test]
fn checksum_of_echo_request() {
    let echo = [0x80, 0, 0, 0, 0, 0x69, 0, 1];
    assert_eq!(icmpv6_checksum(SRC, DST, &echo), 0x944c);
}

#[test]
fn checksum_inserted_checks_to_zero() {
    let mut echo = vec![0x80, 0, 0, 0, 0, 0x69, 0, 1, 0xde, 0xad, 0xbe];
    let c = icmpv6_checksum(SRC, DST, &echo);
    echo[2] = (c & 0xff) as u8;
    echo[3] = (c >> 8) as u8;
    assert_eq!(icmpv6_checksum(SRC, DST, &echo), 0);
}

#[test]
fn packet_without_link_header() {
    let p = make_icmpv6_packet(None, SRC, DST);
    assert_eq!(p.len(), 48);
    assert_eq!(&p[0..8], &[0x60, 0x08, 0x0a, 0xf4, 0x00, 0x08, 0x3a, 64]);
    assert_eq!(&p[8..10], &[0xfe, 0x80]);
    assert_eq!(&p[24..26], &[0x26, 0x02]);
    assert_eq!(&p[38..40], &[0x00, 0x80]);
    assert_eq!(&p[40..48], &[0x80, 0x00, 0x4c, 0x94, 0x00, 0x69, 0x00, 0x01]);
    assert_eq!(icmpv6_checksum(SRC, DST, &p[40..]), 0);
}

#[test]
fn packet_with_link_header() {
    let eth = EthernetInfo::new([1, 2, 3, 4, 5, 6], [0xa, 0xb, 0xc, 0xd, 0xe, 0xf]);
    let p = make_icmpv6_packet(Some(eth), SRC, DST);
    assert_eq!(p.len(), 62);
    assert_eq!(&p[0..6], &[0xa, 0xb, 0xc, 0xd, 0xe, 0xf]);
    assert_eq!(&p[6..12], &[1, 2, 3, 4, 5, 6]);
    assert_eq!(&p[12..14], &[0x86, 0xdd]);
    assert_eq!(&p[14..], &make_icmpv6_packet(None, SRC, DST)[..]);
}
