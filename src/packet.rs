//! The wire frame: optional Ethernet header, IPv6 header and ICMPv6 echo request.
use vstd::prelude::*;
use crate::address::Segments;
use crate::checksum::{checksum_spec, icmpv6_checksum, lemma_checksum_self_consistent, octets_of, push_octets};
use crate::types::EthernetInfo;

verus! {

/// Destination MAC, source MAC and ethertype 0x86DD, where link framing is used.
pub open spec fn link_header_spec(ethernet_info: Option<EthernetInfo>) -> Seq<u8> {
    match ethernet_info {
        Some(e) => e.dest_mac@ + e.src_mac@ + seq![0x86u8, 0xddu8],
        None => seq![],
    }
}

/// The fixed IPv6 header: version and flow words, payload length 8,
/// next header 58, hop limit 64, then the two addresses.
pub open spec fn ipv6_header_spec(src: Seq<u16>, dest: Seq<u16>) -> Seq<u8> {
    seq![0x60u8, 0x08u8, 0x0au8, 0xf4u8, 0u8, 8u8, 58u8, 64u8] + octets_of(src) + octets_of(dest)
}

/// The echo request with its checksum field zero: type 128, code 0,
/// identifier 0x0069, sequence 1.
pub open spec fn echo_unsummed() -> Seq<u8> {
    seq![0x80u8, 0u8, 0u8, 0u8, 0x00u8, 0x69u8, 0x00u8, 0x01u8]
}

/// The echo request with its checksum in place, low byte first.
pub open spec fn echo_spec(src: Seq<u16>, dest: Seq<u16>) -> Seq<u8> {
    let c = checksum_spec(src, dest, echo_unsummed());
    echo_unsummed().update(2, (c % 256) as u8).update(3, (c / 256) as u8)
}

/// The whole wire frame.
pub open spec fn packet_spec(ethernet_info: Option<EthernetInfo>, src: Seq<u16>, dest: Seq<u16>) -> Seq<u8> {
    link_header_spec(ethernet_info) + ipv6_header_spec(src, dest) + echo_spec(src, dest)
}

fn push_mac(data: &mut Vec<u8>, mac: &[u8; 6])
    ensures
        final(data)@ == old(data)@ + mac@,
{
    let ghost start = data@;
    let mut k: usize = 0;
    while k < 6
        invariant
            k <= 6,
            data@ == start + mac@.subrange(0, k as int),
        decreases 6 - k,
    {
        data.push(mac[k]);
        k = k + 1;
        assert(data@ =~= start + mac@.subrange(0, k as int));
    }
    assert(mac@.subrange(0, 6) =~= mac@);
}

/// Builds the echo request frame from `src_ip` to `dest_ip`; 62 bytes with
/// link framing, 48 without.
pub fn make_icmpv6_packet(ethernet_info: Option<EthernetInfo>, src_ip: Segments, dest_ip: Segments) -> (r: Vec<u8>)
    ensures
        r@ == packet_spec(ethernet_info, src_ip@, dest_ip@),
        r@.len() == if ethernet_info.is_some() { 62int } else { 48int },
{
    let mut data: Vec<u8> = Vec::new();
    match ethernet_info {
        Some(e) => {
            push_mac(&mut data, &e.dest_mac);
            push_mac(&mut data, &e.src_mac);
            data.push(0x86);
            data.push(0xdd);
        },
        None => {},
    }
    assert(data@ =~= link_header_spec(ethernet_info));
    let ghost link = data@;

    data.push(0x60);
    data.push(0x08);
    data.push(0x0a);
    data.push(0xf4);
    data.push(0x00);
    data.push(0x08);
    data.push(0x3a);
    data.push(64);
    push_octets(&mut data, &src_ip);
    push_octets(&mut data, &dest_ip);
    assert(data@ =~= link + ipv6_header_spec(src_ip@, dest_ip@));

    let mut echo: Vec<u8> = Vec::new();
    echo.push(0x80);
    echo.push(0x00);
    echo.push(0x00);
    echo.push(0x00);
    echo.push(0x00);
    echo.push(0x69);
    echo.push(0x00);
    echo.push(0x01);
    assert(echo@ =~= echo_unsummed());
    let checksum = icmpv6_checksum(src_ip, dest_ip, echo.as_slice());
    let lo = (checksum & 0xffu16) as u8;
    let hi = (checksum >> 8u16) as u8;
    assert(lo == checksum % 256 && hi == checksum / 256) by (bit_vector)
        requires
            lo == (checksum & 0xffu16) as u8,
            hi == (checksum >> 8u16) as u8,
    ;
    echo.set(2, lo);
    echo.set(3, hi);
    assert(echo@ =~= echo_spec(src_ip@, dest_ip@));

    let ghost head = data@;
    let mut k: usize = 0;
    while k < 8
        invariant
            k <= 8,
            echo@.len() == 8,
            data@ == head + echo@.subrange(0, k as int),
        decreases 8 - k,
    {
        data.push(echo[k]);
        k = k + 1;
        assert(data@ =~= head + echo@.subrange(0, k as int));
    }
    assert(echo@.subrange(0, 8) =~= echo@);
    data
}

/// The echo request at the end of every built frame carries a checksum that
/// checks: its checksum, recomputed with the field filled, is zero.
pub proof fn lemma_packet_checksum_checks(ethernet_info: Option<EthernetInfo>, src: Seq<u16>, dest: Seq<u16>)
    requires
        src.len() == 8,
        dest.len() == 8,
    ensures
        ({
            let p = packet_spec(ethernet_info, src, dest);
            checksum_spec(src, dest, p.subrange(p.len() - 8, p.len() as int)) == 0
        }),
{
    let p = packet_spec(ethernet_info, src, dest);
    assert(p.subrange(p.len() - 8, p.len() as int) =~= echo_spec(src, dest));
    lemma_checksum_self_consistent(src, dest, echo_unsummed());
}

} // verus!
