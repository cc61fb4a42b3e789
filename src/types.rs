//! Plain value types shared by the encoder, the packet builder and the pipeline.
use vstd::prelude::*;

verus! {

/// A canvas position.
#[derive(Debug, Clone, Copy, PartialEq, Eq, Structural)]
pub struct Pos {
    pub x: u16,
    pub y: u16,
}

impl Pos {
    pub fn new(x: u16, y: u16) -> (r: Self)
        ensures
            r.x == x,
            r.y == y,
    {
        Pos { x, y }
    }
}

/// An RGBA color; alpha is fully opaque unless given.
#[derive(Debug, Clone, Copy, PartialEq, Eq, Structural)]
pub struct Color {
    pub red: u8,
    pub green: u8,
    pub blue: u8,
    pub alpha: u8,
}

impl Color {
    pub fn new(red: u8, green: u8, blue: u8) -> (r: Self)
        ensures
            r == (Color { red, green, blue, alpha: 0xFF }),
    {
        Color { red, green, blue, alpha: 0xFF }
    }

    pub fn new_alpha(red: u8, green: u8, blue: u8, alpha: u8) -> (r: Self)
        ensures
            r == (Color { red, green, blue, alpha }),
    {
        Color { red, green, blue, alpha }
    }
}

/// The area that one draw command paints.
#[derive(Debug, Clone, Copy, PartialEq, Eq, Structural)]
pub enum SizeTag {
    SinglePixel,
    Area2x2,
}

/// A 48-bit hardware address.
pub type MacBytes = [u8; 6];

/// Source and destination hardware addresses, present when the outbound
/// interface uses Ethernet framing.
#[derive(Debug, Clone, Copy, PartialEq, Eq)]
pub struct EthernetInfo {
    pub src_mac: MacBytes,
    pub dest_mac: MacBytes,
}

impl EthernetInfo {
    pub fn new(src_mac: MacBytes, dest_mac: MacBytes) -> (r: Self)
        ensures
            r.src_mac == src_mac,
            r.dest_mac == dest_mac,
    {
        EthernetInfo { src_mac, dest_mac }
    }
}

/// The bit layout that maps a draw command onto an IPv6 address.
/// Exactly one is used per run, and it must match the receiving canvas.
#[derive(Debug, Clone, Copy, PartialEq, Eq, Structural)]
pub enum EncodingProfile {
    /// Prefix `2602:fa9b:202::/48`; words `x | size << 12`, `y`, `red`, `green`, `blue`.
    /// Alpha is not carried.
    SizeFlag,
    /// Prefix `2001:610:1908:a000::/64`; words `x`, `y`, `blue << 8 | green`, `red << 8 | alpha`.
    /// No size flag is carried.
    Alpha,
}

} // verus!
