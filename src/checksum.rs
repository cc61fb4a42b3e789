//! The ICMPv6 checksum: RFC 1071 one's-complement sum over a pseudo-header and the message.
use vstd::prelude::*;
use crate::address::Segments;

verus! {

/// The bytes of address words, each word most significant byte first.
pub open spec fn octets_of(s: Seq<u16>) -> Seq<u8> {
    Seq::new(
        (2 * s.len()) as nat,
        |i: int| if i % 2 == 0 { (s[i / 2] / 256) as u8 } else { (s[i / 2] % 256) as u8 },
    )
}

/// Source and destination address, message length, three zero bytes and next header 58.
pub open spec fn pseudo_header_spec(src: Seq<u16>, dest: Seq<u16>, len: u16) -> Seq<u8> {
    octets_of(src) + octets_of(dest) + seq![(len / 256) as u8, (len % 256) as u8, 0u8, 0u8, 0u8, 58u8]
}

/// The sum of the stream read as 16-bit words, the first byte of each pair
/// being the low half; an odd last byte stands alone.
pub open spec fn word_sum(s: Seq<u8>) -> nat
    decreases s.len(),
{
    if s.len() == 0 {
        0
    } else if s.len() == 1 {
        s[0] as nat
    } else {
        s[0] as nat + 256 * (s[1] as nat) + word_sum(s.subrange(2, s.len() as int))
    }
}

/// A sum with its carries folded back in until it fits 16 bits.
pub open spec fn ones_fold(n: nat) -> nat {
    if n == 0 {
        0
    } else {
        ((n - 1) % 65535 + 1) as nat
    }
}

/// The checksum of a message between two addresses.
pub open spec fn checksum_spec(src: Seq<u16>, dest: Seq<u16>, payload: Seq<u8>) -> u16 {
    (65535 - ones_fold(word_sum(pseudo_header_spec(src, dest, payload.len() as u16) + payload))) as u16
}

/// Appends the bytes of eight address words.
pub fn push_octets(data: &mut Vec<u8>, a: &Segments)
    ensures
        final(data)@ == old(data)@ + octets_of(a@),
{
    let ghost start = data@;
    let mut k: usize = 0;
    while k < 8
        invariant
            k <= 8,
            data@ == start + octets_of(a@.subrange(0, k as int)),
        decreases 8 - k,
    {
        let w = a[k];
        assert((w >> 8u16) as u8 == w / 256 && (w & 0xffu16) as u8 == w % 256) by (bit_vector);
        data.push((w >> 8u16) as u8);
        data.push((w & 0xffu16) as u8);
        k = k + 1;
        assert(data@ =~= start + octets_of(a@.subrange(0, k as int)));
    }
    assert(a@.subrange(0, 8) =~= a@);
}

/// The pseudo-header that the checksum covers but that is never sent.
pub fn make_ipv6_pseudo_header(src_ip: Segments, dest_ip: Segments, icmp_packet_len: u16) -> (r: Vec<u8>)
    ensures
        r@ == pseudo_header_spec(src_ip@, dest_ip@, icmp_packet_len),
{
    let mut data: Vec<u8> = Vec::new();
    push_octets(&mut data, &src_ip);
    push_octets(&mut data, &dest_ip);
    let hi = (icmp_packet_len >> 8u16) as u8;
    let lo = (icmp_packet_len & 0xffu16) as u8;
    assert(hi == icmp_packet_len / 256 && lo == icmp_packet_len % 256) by (bit_vector)
        requires
            hi == (icmp_packet_len >> 8u16) as u8,
            lo == (icmp_packet_len & 0xffu16) as u8,
    ;
    data.push(hi);
    data.push(lo);
    data.push(0x00);
    data.push(0x00);
    data.push(0x00);
    data.push(0x3a);
    assert(data@ =~= pseudo_header_spec(src_ip@, dest_ip@, icmp_packet_len));
    data
}

proof fn lemma_word_sum_step(s: Seq<u8>, i: int)
    requires
        0 <= i,
        i + 2 <= s.len(),
    ensures
        word_sum(s.subrange(i, s.len() as int)) == s[i] as nat + 256 * (s[i + 1] as nat)
            + word_sum(s.subrange(i + 2, s.len() as int)),
{
    let t = s.subrange(i, s.len() as int);
    assert(t.subrange(2, t.len() as int) =~= s.subrange(i + 2, s.len() as int));
}

proof fn lemma_fold_step(t: u32)
    requires
        t > 0xffff,
    ensures
        (t >> 16u32) + (t & 0xffffu32) < t,
        ((t >> 16u32) + (t & 0xffffu32)) as int % 65535 == t as int % 65535,
        (t >> 16u32) + (t & 0xffffu32) > 0,
{
    assert((t >> 16u32) == t / 65536 && (t & 0xffffu32) == t % 65536) by (bit_vector);
    let q = t as int / 65536;
    let r = t as int % 65536;
    assert(t as int == 65536 * q + r);
    assert((q + r) % 65535 == (65536 * q + r) % 65535) by (nonlinear_arith)
        requires q >= 0, r >= 0;
}

/// The ICMPv6 checksum of `icmpv6_packet` sent from `src_ip` to `dest_ip`.
pub fn icmpv6_checksum(src_ip: Segments, dest_ip: Segments, icmpv6_packet: &[u8]) -> (r: u16)
    requires
        icmpv6_packet@.len() <= 0xffff,
    ensures
        r == checksum_spec(src_ip@, dest_ip@, icmpv6_packet@),
{
    let mut data = make_ipv6_pseudo_header(src_ip, dest_ip, icmpv6_packet.len() as u16);
    let ghost header = data@;
    let mut j: usize = 0;
    while j < icmpv6_packet.len()
        invariant
            j <= icmpv6_packet@.len(),
            data@ == header + icmpv6_packet@.subrange(0, j as int),
        decreases icmpv6_packet@.len() - j,
    {
        data.push(icmpv6_packet[j]);
        j = j + 1;
        assert(data@ =~= header + icmpv6_packet@.subrange(0, j as int));
    }
    assert(icmpv6_packet@.subrange(0, j as int) =~= icmpv6_packet@);
    let ghost all = data@;
    assert(all.subrange(0, all.len() as int) =~= all);

    let n = data.len();
    let mut total: u32 = 0;
    let mut i: usize = 0;
    while i < n
        invariant
            n == data@.len(),
            all == data@,
            n <= 40 + 0xffff,
            i % 2 == 0,
            i <= n + 1,
            total as int <= 32768 * i,
            total + word_sum(all.subrange(if i <= n { i as int } else { n as int }, n as int)) == word_sum(all),
        decreases n + 1 - i,
    {
        let lo = data[i] as u32;
        let hi: u32 = if i + 1 < n { data[i + 1] as u32 } else { 0 };
        let val = (hi << 8u32) | lo;
        assert(val == hi * 256 + lo) by (bit_vector)
            requires
                val == (hi << 8u32) | lo,
                hi < 256,
                lo < 256,
        ;
        proof {
            if i + 1 < n {
                lemma_word_sum_step(all, i as int);
            } else {
                assert(all.subrange(i as int, n as int).len() == 1);
                assert(all.subrange(n as int, n as int).len() == 0);
            }
        }
        total = total + val;
        i = i + 2;
    }
    assert(all.subrange(n as int, n as int).len() == 0);
    let ghost sum = word_sum(all);
    while (total & 0xffff0000u32) > 0
        invariant
            total as int % 65535 == sum % 65535,
            total == 0 <==> sum == 0,
        decreases total,
    {
        assert((total & 0xffff0000u32) > 0 ==> total > 0xffff) by (bit_vector);
        proof {
            lemma_fold_step(total);
        }
        total = (total >> 16u32) + (total & 0xffffu32);
    }
    assert((total & 0xffff0000u32) == 0 ==> total <= 0xffff) by (bit_vector);
    assert(total == ones_fold(sum)) by {
        if sum > 0 {
            assert(total as int == (sum - 1) % 65535 + 1) by (nonlinear_arith)
                requires
                    0 < total <= 0xffff,
                    total as int % 65535 == sum % 65535,
                    sum > 0,
            ;
        }
    }
    let t = total as u16;
    assert(!t == 0xffff - t) by (bit_vector);
    !t
}

proof fn lemma_word_sum_update(s: Seq<u8>, i: int, a: u8, b: u8)
    requires
        0 <= i,
        i % 2 == 0,
        i + 1 < s.len(),
    ensures
        word_sum(s.update(i, a).update(i + 1, b)) + s[i] as nat + 256 * (s[i + 1] as nat)
            == word_sum(s) + a as nat + 256 * (b as nat),
    decreases i,
{
    let t = s.update(i, a).update(i + 1, b);
    if i == 0 {
        assert(t.subrange(2, t.len() as int) =~= s.subrange(2, s.len() as int));
    } else {
        let rest = s.subrange(2, s.len() as int);
        assert(t.subrange(2, t.len() as int) =~= rest.update(i - 2, a).update(i - 1, b));
        lemma_word_sum_update(rest, i - 2, a, b);
    }
}

/// Writing a message's checksum into its checksum field (bytes 2 and 3, low
/// byte first), where that field was zero, makes the message's checksum zero.
pub proof fn lemma_checksum_self_consistent(src: Seq<u16>, dest: Seq<u16>, payload: Seq<u8>)
    requires
        src.len() == 8,
        dest.len() == 8,
        4 <= payload.len() <= 0xffff,
        payload[2] == 0,
        payload[3] == 0,
    ensures
        ({
            let c = checksum_spec(src, dest, payload);
            checksum_spec(src, dest, payload.update(2, (c % 256) as u8).update(3, (c / 256) as u8)) == 0
        }),
{
    let c = checksum_spec(src, dest, payload);
    let lo = (c % 256) as u8;
    let hi = (c / 256) as u8;
    let filled = payload.update(2, lo).update(3, hi);
    let ph = pseudo_header_spec(src, dest, payload.len() as u16);
    assert(ph.len() == 38);
    let before = ph + payload;
    assert(ph + filled =~= before.update(40, lo).update(41, hi));
    lemma_word_sum_update(before, 40, lo, hi);
    let s = word_sum(before);
    let s2 = word_sum(ph + filled);
    assert(lo as nat + 256 * (hi as nat) == c as nat);
    assert(s2 == s + c as nat);
    if s == 0 {
        assert(c == 65535);
    } else {
        let f = ((s - 1) % 65535 + 1) as int;
        assert(c as int == 65535 - f);
        assert(((s + 65535 - f) - 1) % 65535 + 1 == 65535) by (nonlinear_arith)
            requires
                s > 0,
                f == (s - 1) % 65535 + 1,
        ;
    }
}

} // verus!
