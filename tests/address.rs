use place_ipv6::{decode, encode, to_addr, Color, EncodingProfile, Pos, SizeTag};

#[test]
fn size_flag_profile_example_address() {
    let a = encode(EncodingProfile::SizeFlag, Pos::new(10, 20), Color::new(255, 0, 128), SizeTag::SinglePixel);
    assert_eq!(a, [0x2602, 0xfa9b, 0x0202, 0x100a, 0x0014, 0x00ff, 0x0000, 0x0080]);
}

#[test]
fn size_flag_profile_area_tag() {
    let a = encode(EncodingProfile::SizeFlag, Pos::new(10, 20), Color::new(1, 2, 3), SizeTag::Area2x2);
    assert_eq!(a, [0x2602, 0xfa9b, 0x0202, 0x200a, 0x0014, 0x0001, 0x0002, 0x0003]);
}

#[test]
fn alpha_profile_address() {
    let a = to_addr(Pos::new(0x0123, 0x0456), Color::new_alpha(0x11, 0x22, 0x33, 0x44));
    assert_eq!(a, [0x2001, 0x0610, 0x1908, 0xa000, 0x0123, 0x0456, 0x3322, 0x1144]);
    let b = encode(EncodingProfile::Alpha, Pos::new(0x0123, 0x0456), Color::new_alpha(0x11, 0x22, 0x33, 0x44), SizeTag::Area2x2);
    assert_eq!(a, b);
}

#[test]
fn opaque_color_defaults_alpha() {
    let c = Color::new(1, 2, 3);
    assert_eq!(c.alpha, 0xFF);
    assert_eq!(to_addr(Pos::new(0, 0), c)[7], 0x01ff);
}

#[test]
fn round_trip_size_flag_profile() {
    for &(x, y) in &[(0u16, 0u16), (10, 20), (1919, 1079), (4095, 65535)] {
        for &size in &[SizeTag::SinglePixel, SizeTag::Area2x2] {
            let c = Color::new(7, 200, 255);
            let a = encode(EncodingProfile::SizeFlag, Pos::new(x, y), c, size);
            assert_eq!(decode(EncodingProfile::SizeFlag, a), Some((Pos::new(x, y), c, size)));
        }
    }
}

#[test]
fn round_trip_alpha_profile() {
    for &(x, y) in &[(0u16, 0u16), (10, 20), (65535, 65535)] {
        let c = Color::new_alpha(9, 8, 7, 6);
        let a = encode(EncodingProfile::Alpha, Pos::new(x, y), c, SizeTag::SinglePixel);
        assert_eq!(decode(EncodingProfile::Alpha, a), Some((Pos::new(x, y), c, SizeTag::SinglePixel)));
    }
}

#[test]
fn size_flag_profile_x_4096_collides() {
    let a = encode(EncodingProfile::SizeFlag, Pos::new(4096, 5), Color::new(1, 2, 3), SizeTag::SinglePixel);
    match decode(EncodingProfile::SizeFlag, a) {
        Some((p, _, _)) => assert_ne!(p.x, 4096),
        None => {}
    }
    let b = encode(EncodingProfile::SizeFlag, Pos::new(5000, 5), Color::new(1, 2, 3), SizeTag::SinglePixel);
    assert_ne!(decode(EncodingProfile::SizeFlag, b).map(|d| d.0.x), Some(5000));
}

#[test]
fn decode_rejects_foreign_prefix() {
    let a = to_addr(Pos::new(1, 2), Color::new(3, 4, 5));
    assert_eq!(decode(EncodingProfile::SizeFlag, a), None);
    let b = encode(EncodingProfile::SizeFlag, Pos::new(1, 2), Color::new(3, 4, 5), SizeTag::SinglePixel);
    assert_eq!(decode(EncodingProfile::Alpha, b), None);
}

#[test]
fn decode_rejects_bad_size_flag() {
    let a = [0x2602, 0xfa9b, 0x0202, 0x300a, 0x0014, 0x00ff, 0x0000, 0x0080];
    assert_eq!(decode(EncodingProfile::SizeFlag, a), None);
    let b = [0x2602, 0xfa9b, 0x0202, 0x100a, 0x0014, 0x01ff, 0x0000, 0x0080];
    assert_eq!(decode(EncodingProfile::SizeFlag, b), None);
}
