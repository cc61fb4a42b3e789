//! Packing a draw command into the 128-bit destination address, and back.
use vstd::prelude::*;
use crate::types::{Color, EncodingProfile, Pos, SizeTag};

verus! {

/// An IPv6 address as eight 16-bit words, most significant first.
pub type Segments = [u16; 8];

/// The number that the size flag carries in the address.
pub open spec fn size_code(size: SizeTag) -> u16 {
    match size {
        SizeTag::SinglePixel => 1,
        SizeTag::Area2x2 => 2,
    }
}

/// The address words for a draw command under a profile.
pub open spec fn encode_spec(profile: EncodingProfile, pos: Pos, color: Color, size: SizeTag) -> Seq<u16> {
    match profile {
        EncodingProfile::SizeFlag => seq![
            0x2602u16, 0xfa9bu16, 0x0202u16,
            pos.x | (size_code(size) << 12u16),
            pos.y,
            color.red as u16,
            color.green as u16,
            color.blue as u16,
        ],
        EncodingProfile::Alpha => seq![
            0x2001u16, 0x0610u16, 0x1908u16, 0xa000u16,
            pos.x,
            pos.y,
            (color.blue as int * 256 + color.green as int) as u16,
            (color.red as int * 256 + color.alpha as int) as u16,
        ],
    }
}

/// The draw command that an address carries under a profile, if it is one.
pub open spec fn decode_spec(profile: EncodingProfile, s: Seq<u16>) -> Option<(Pos, Color, SizeTag)> {
    match profile {
        EncodingProfile::SizeFlag => {
            if s.len() == 8 && s[0] == 0x2602 && s[1] == 0xfa9b && s[2] == 0x0202
                && (s[3] / 4096 == 1 || s[3] / 4096 == 2)
                && s[5] < 256 && s[6] < 256 && s[7] < 256 {
                Some((
                    Pos { x: (s[3] % 4096) as u16, y: s[4] },
                    Color { red: s[5] as u8, green: s[6] as u8, blue: s[7] as u8, alpha: 0xFF },
                    if s[3] / 4096 == 1 { SizeTag::SinglePixel } else { SizeTag::Area2x2 },
                ))
            } else {
                None
            }
        },
        EncodingProfile::Alpha => {
            if s.len() == 8 && s[0] == 0x2001 && s[1] == 0x0610 && s[2] == 0x1908 && s[3] == 0xa000 {
                Some((
                    Pos { x: s[4], y: s[5] },
                    Color {
                        red: (s[7] / 256) as u8,
                        green: (s[6] % 256) as u8,
                        blue: (s[6] / 256) as u8,
                        alpha: (s[7] % 256) as u8,
                    },
                    SizeTag::SinglePixel,
                ))
            } else {
                None
            }
        },
    }
}

/// Whether a position fits the bits that a profile reserves for it.
pub open spec fn pos_fits(profile: EncodingProfile, pos: Pos) -> bool {
    match profile {
        EncodingProfile::SizeFlag => pos.x < 4096,
        EncodingProfile::Alpha => true,
    }
}

/// Whether a profile carries the color and size of a command unchanged.
pub open spec fn carries(profile: EncodingProfile, color: Color, size: SizeTag) -> bool {
    match profile {
        EncodingProfile::SizeFlag => color.alpha == 0xFF,
        EncodingProfile::Alpha => size == SizeTag::SinglePixel,
    }
}

fn pack_bytes(hi: u8, lo: u8) -> (r: u16)
    ensures
        r == (hi as int * 256 + lo as int) as u16,
{
    let r = ((hi as u16) << 8u16) | (lo as u16);
    assert(((hi as u16) << 8u16) | (lo as u16) == hi as u16 * 256 + lo as u16) by (bit_vector);
    r
}

/// Encodes a draw command as address words under the given profile.
pub fn encode(profile: EncodingProfile, pos: Pos, color: Color, size: SizeTag) -> (r: Segments)
    ensures
        r@ == encode_spec(profile, pos, color, size),
{
    let r: Segments = match profile {
        EncodingProfile::SizeFlag => {
            let code: u16 = match size {
                SizeTag::SinglePixel => 1,
                SizeTag::Area2x2 => 2,
            };
            [0x2602, 0xfa9b, 0x0202, pos.x | (code << 12u16), pos.y, color.red as u16,
                color.green as u16, color.blue as u16]
        },
        EncodingProfile::Alpha => {
            [0x2001, 0x0610, 0x1908, 0xa000, pos.x, pos.y, pack_bytes(color.blue, color.green),
                pack_bytes(color.red, color.alpha)]
        },
    };
    assert(r@ =~= encode_spec(profile, pos, color, size));
    r
}

/// Encodes a pixel's position and color (alpha included, no size flag).
pub fn to_addr(pos: Pos, color: Color) -> (r: Segments)
    ensures
        r@ == encode_spec(EncodingProfile::Alpha, pos, color, SizeTag::SinglePixel),
{
    encode(EncodingProfile::Alpha, pos, color, SizeTag::SinglePixel)
}

/// Recovers the draw command carried by an address, or `None` where the
/// address does not follow the profile.
pub fn decode(profile: EncodingProfile, addr: Segments) -> (r: Option<(Pos, Color, SizeTag)>)
    ensures
        r == decode_spec(profile, addr@),
{
    match profile {
        EncodingProfile::SizeFlag => {
            let w = addr[3];
            let tag = w >> 12u16;
            assert(w >> 12u16 == w / 4096) by (bit_vector);
            if addr[0] == 0x2602 && addr[1] == 0xfa9b && addr[2] == 0x0202 && (tag == 1 || tag == 2)
                && addr[5] < 256 && addr[6] < 256 && addr[7] < 256 {
                let x = w & 0x0fff;
                assert(w & 0x0fff == w % 4096) by (bit_vector);
                let size = if tag == 1 { SizeTag::SinglePixel } else { SizeTag::Area2x2 };
                Some((
                    Pos { x, y: addr[4] },
                    Color { red: addr[5] as u8, green: addr[6] as u8, blue: addr[7] as u8, alpha: 0xFF },
                    size,
                ))
            } else {
                None
            }
        },
        EncodingProfile::Alpha => {
            if addr[0] == 0x2001 && addr[1] == 0x0610 && addr[2] == 0x1908 && addr[3] == 0xa000 {
                let c = addr[6];
                let d = addr[7];
                assert(c >> 8u16 == c / 256 && c & 0xff == c % 256) by (bit_vector);
                assert(d >> 8u16 == d / 256 && d & 0xff == d % 256) by (bit_vector);
                Some((
                    Pos { x: addr[4], y: addr[5] },
                    Color {
                        red: (d >> 8u16) as u8,
                        green: (c & 0xff) as u8,
                        blue: (c >> 8u16) as u8,
                        alpha: (d & 0xff) as u8,
                    },
                    SizeTag::SinglePixel,
                ))
            } else {
                None
            }
        },
    }
}

proof fn lemma_size_field(x: u16, code: u16)
    requires
        code == 1 || code == 2,
    ensures
        (x | (code << 12u16)) / 4096 == (if x < 4096 { code } else { (x | (code << 12u16)) / 4096 }),
        (x | (code << 12u16)) % 4096 == x % 4096,
{
    assert((x | (code << 12u16)) & 0x0fff == x & 0x0fff) by (bit_vector);
    assert(x < 4096 ==> (x | (code << 12u16)) >> 12u16 == code) by (bit_vector)
        requires
            code == 1 || code == 2,
    ;
    assert((x | (code << 12u16)) >> 12u16 == (x | (code << 12u16)) / 4096) by (bit_vector);
    assert((x | (code << 12u16)) & 0x0fff == (x | (code << 12u16)) % 4096) by (bit_vector);
    assert(x & 0x0fff == x % 4096) by (bit_vector);
}

/// Decoding an encoded command gives the command back, wherever the position
/// fits the profile's reserved bits and the profile carries the color and size.
pub proof fn lemma_decode_encode(profile: EncodingProfile, pos: Pos, color: Color, size: SizeTag)
    requires
        pos_fits(profile, pos),
        carries(profile, color, size),
    ensures
        decode_spec(profile, encode_spec(profile, pos, color, size)) == Some((pos, color, size)),
{
    match profile {
        EncodingProfile::SizeFlag => {
            lemma_size_field(pos.x, size_code(size));
        },
        EncodingProfile::Alpha => {
            let b = color.blue as int;
            let g = color.green as int;
            let r = color.red as int;
            let a = color.alpha as int;
            assert((b * 256 + g) / 256 == b && (b * 256 + g) % 256 == g) by (nonlinear_arith)
                requires 0 <= b < 256, 0 <= g < 256;
            assert((r * 256 + a) / 256 == r && (r * 256 + a) % 256 == a) by (nonlinear_arith)
                requires 0 <= r < 256, 0 <= a < 256;
        },
    }
}

/// Under the size-flag profile an x of 4096 or more runs into the size bits:
/// decoding does not give that x back.
pub proof fn lemma_size_flag_collision(pos: Pos, color: Color, size: SizeTag)
    requires
        pos.x >= 4096,
    ensures
        match decode_spec(EncodingProfile::SizeFlag, encode_spec(EncodingProfile::SizeFlag, pos, color, size)) {
            Some((p, _, _)) => p.x != pos.x,
            None => true,
        },
{
    lemma_size_field(pos.x, size_code(size));
}

} // verus!
