//! Turning draw commands into a batch of frames, and pacing their sending.
use rand::seq::SliceRandom;
use vstd::prelude::*;
use crate::address::{encode, encode_spec, Segments};
use crate::filter::DrawCommand;
use crate::packet::{make_icmpv6_packet, packet_spec};
use crate::types::{EncodingProfile, EthernetInfo};

verus! {

/// What every frame of a run shares: the address layout, the link framing
/// and the source address.
#[derive(Debug, Clone, Copy, PartialEq, Eq)]
pub struct PacketConfig {
    pub profile: EncodingProfile,
    pub ethernet_info: Option<EthernetInfo>,
    pub src_ip: Segments,
}

impl PacketConfig {
    /// The frame that paints one command.
    pub open spec fn frame_for(&self, c: DrawCommand) -> Seq<u8> {
        packet_spec(self.ethernet_info, self.src_ip@, encode_spec(self.profile, c.pos, c.color, c.size))
    }

    /// Whether `frames` are the frames for `cmds`, one for one and in order.
    pub open spec fn frames_match(&self, cmds: Seq<DrawCommand>, frames: Seq<Vec<u8>>) -> bool {
        frames.len() == cmds.len() && forall|i: int| 0 <= i < cmds.len() ==> (#[trigger] frames[i])@ == self.frame_for(cmds[i])
    }
}

/// Builds one frame per command, in the same order.
pub fn build_packets(config: &PacketConfig, cmds: &Vec<DrawCommand>) -> (r: Vec<Vec<u8>>)
    ensures
        config.frames_match(cmds@, r@),
{
    let mut out: Vec<Vec<u8>> = Vec::new();
    let mut i: usize = 0;
    while i < cmds.len()
        invariant
            i <= cmds@.len(),
            config.frames_match(cmds@.subrange(0, i as int), out@),
        decreases cmds@.len() - i,
    {
        let c = cmds[i];
        let dest = encode(config.profile, c.pos, c.color, c.size);
        out.push(make_icmpv6_packet(config.ethernet_info, config.src_ip, dest));
        i = i + 1;
    }
    assert(cmds@.subrange(0, i as int) =~= cmds@);
    out
}

/// Relies on rand's `SliceRandom::shuffle`, driven by `rand::thread_rng`: it
/// only swaps elements, so the result holds the same commands.
#[verifier::external_body]
fn shuffle_commands(cmds: &mut Vec<DrawCommand>)
    ensures
        final(cmds)@.to_multiset() == old(cmds)@.to_multiset(),
{
    cmds.shuffle(&mut rand::thread_rng());
}

/// The commands in the order they are sent: as given, or randomly permuted
/// when `noisy` so that updates appear scattered over the canvas.
pub fn order_batch(noisy: bool, cmds: Vec<DrawCommand>) -> (r: Vec<DrawCommand>)
    ensures
        r@.to_multiset() == cmds@.to_multiset(),
        !noisy ==> r@ == cmds@,
{
    let mut cmds = cmds;
    if noisy {
        shuffle_commands(&mut cmds);
    }
    cmds
}

/// Orders a batch of commands and builds their frames.
pub fn build_batch(config: &PacketConfig, noisy: bool, cmds: Vec<DrawCommand>) -> (r: Vec<Vec<u8>>)
    ensures
        exists|order: Seq<DrawCommand>|
            #![trigger order.to_multiset()]
            order.to_multiset() == cmds@.to_multiset() && (!noisy ==> order == cmds@)
                && config.frames_match(order, r@),
{
    let ordered = order_batch(noisy, cmds);
    let r = build_packets(config, &ordered);
    assert(ordered@.to_multiset() == cmds@.to_multiset() && (!noisy ==> ordered@ == cmds@)
        && config.frames_match(ordered@, r@));
    r
}

/// Whether the next frame of a batch may go out: always without a rate,
/// otherwise once no more than `floor(rate * elapsed seconds)` frames of
/// the batch have been sent.
pub open spec fn may_send_spec(packets_per_sec: Option<u32>, elapsed_ms: u64, sent: u64) -> bool {
    match packets_per_sec {
        None => true,
        Some(rate) => sent <= (rate as int * elapsed_ms as int) / 1000,
    }
}

/// Open-loop pacing: the caller yields and asks again until this is true.
pub fn may_send(packets_per_sec: Option<u32>, elapsed_ms: u64, sent: u64) -> (r: bool)
    ensures
        r == may_send_spec(packets_per_sec, elapsed_ms, sent),
{
    match packets_per_sec {
        None => true,
        Some(rate) => {
            assert(rate as int * elapsed_ms as int <= 0xffff_ffff * 0xffff_ffff_ffff_ffff) by (nonlinear_arith)
                requires
                    rate <= 0xffff_ffff,
                    elapsed_ms <= 0xffff_ffff_ffff_ffff,
            ;
            let budget: u128 = rate as u128 * elapsed_ms as u128;
            let r = sent as u128 * 1000 <= budget;
            assert(r == (sent <= (rate as int * elapsed_ms as int) / 1000)) by {
                let b = rate as int * elapsed_ms as int;
                assert(sent * 1000 <= b <==> sent <= b / 1000) by (nonlinear_arith)
                    requires
                        b >= 0,
                        sent >= 0,
                ;
            }
            r
        },
    }
}

/// Under a rate, the frame that follows `sent` others of its batch goes out
/// only once `sent / rate` seconds have passed: a batch of `n` frames takes at
/// least `(n - 1) / rate` seconds, and by any time `t` at most `rate * t + 1`
/// frames have gone out.
pub proof fn lemma_pacing_bound(rate: u32, elapsed_ms: u64, sent: u64)
    requires
        may_send_spec(Some(rate), elapsed_ms, sent),
    ensures
        sent * 1000 <= rate * elapsed_ms,
{
    let b = rate as int * elapsed_ms as int;
    assert(sent <= b / 1000 ==> sent * 1000 <= b) by (nonlinear_arith)
        requires
            b >= 0,
    ;
}

} // verus!
