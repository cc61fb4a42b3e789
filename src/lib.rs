//! Draws pixels on a remote canvas by sending ICMPv6 echo requests whose
//! destination address encodes a position and a color.
//!
//! The library computes everything that goes on the wire: the address
//! encoding, the frame layout and its checksum, which pixels of a frame or
//! image are sent, in what order, and when. Opening the network interface,
//! reading frames and decoding images are left to the caller.
pub mod types;
pub mod address;
pub mod checksum;
pub mod packet;
pub mod dedup;
pub mod filter;
pub mod image;
pub mod send;

pub use address::{decode, encode, to_addr, Segments};
pub use checksum::{icmpv6_checksum, make_ipv6_pseudo_header};
pub use dedup::DedupWindow;
pub use filter::{check_stream_geometry, Bounds, DrawCommand, GeometryError, Placement, StreamFilter};
pub use image::ImageFilter;
pub use packet::make_icmpv6_packet;
pub use send::{build_batch, build_packets, may_send, order_batch, PacketConfig};
pub use types::{Color, EncodingProfile, EthernetInfo, MacBytes, Pos, SizeTag};
